# tokio_kcp

KCP sessions for Tokio, with optional forward error correction in the packet layout of
kcp-go. The session logic is a library of state machines that is proved with Verus; sockets,
tasks and threads are kept around it.

- `src/` is the verified library. Nothing in it touches a socket: datagrams and the time are
  handed in, and it answers with what to send, what to deliver and whom to wake.
  - `config`, `error`, `utils`, `wire`: configuration, errors, clocks, byte order.
  - `fec`, `codec`: forward error correction, over the erasure code of
    `reed-solomon-erasure`.
  - `link`, `segment`: the protocol machine of `kcp`, and the packet fields that are read
    before it sees them.
  - `skcp`: one connection. `session`: a connection with a lifetime, and the table of a
    listener's sessions. `stream`: reading and writing with buffers of any size.
  - `listener`, `output`, `scheduler`: routing of datagrams, the way out, and driving many
    sessions.
  - The `laws` modules state and prove what holds across functions.
- `tests/` runs the library, with two ends of a connection wired together in memory.
- `app/` puts it on UDP sockets: `KcpListener` and `KcpStream`.

## Arithmetic of KCP

`kcp` counts segment numbers and times modulo 2^32 and fragment numbers modulo 256, and the
contracts in `link` state the wrapped values. That is what a build without overflow checks
computes. With overflow checks on, `kcp` traps where it would wrap: on a fragment with number
255, and on segment numbers or times that lie far apart. The fields in question are not
visible from outside, so no caller could rule these inputs out.
