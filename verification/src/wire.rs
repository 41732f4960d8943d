//! Little-endian integers in byte sequences.

use vstd::prelude::*;

verus! {

/// The two bytes of `x`, least significant first.
pub open spec fn le16_bytes(x: int) -> Seq<u8> {
    seq![(x % 256) as u8, (x / 256 % 256) as u8]
}

/// The four bytes of `x`, least significant first.
pub open spec fn le32_bytes(x: int) -> Seq<u8> {
    seq![
        (x % 256) as u8,
        (x / 256 % 256) as u8,
        (x / 65536 % 256) as u8,
        (x / 16777216 % 256) as u8,
    ]
}

/// The 16-bit number stored at offset `at`, least significant byte first.
pub open spec fn le16_at(s: Seq<u8>, at: int) -> int {
    s[at] + 256 * s[at + 1]
}

/// The 32-bit number stored at offset `at`, least significant byte first.
pub open spec fn le32_at(s: Seq<u8>, at: int) -> int {
    s[at] + 256 * s[at + 1] + 65536 * s[at + 2] + 16777216 * s[at + 3]
}

/// A number that was written is the number that is read back.
pub proof fn lemma_le16_roundtrip(x: int)
    requires
        0 <= x < 65536,
    ensures
        le16_at(le16_bytes(x), 0) == x,
        le16_bytes(x).len() == 2,
{
}

/// A number that was written is the number that is read back.
pub proof fn lemma_le32_roundtrip(x: int)
    requires
        0 <= x < 0x1_0000_0000,
    ensures
        le32_at(le32_bytes(x), 0) == x,
        le32_bytes(x).len() == 4,
{
    assert(x == x % 256 + 256 * (x / 256 % 256) + 65536 * (x / 65536 % 256) + 16777216 * (x
        / 16777216 % 256));
}

/// Reads the 16-bit number at offset `at`.
pub fn read_le16(buf: &[u8], at: usize) -> (x: u16)
    requires
        at + 2 <= buf@.len(),
    ensures
        x == le16_at(buf@, at as int),
{
    buf[at] as u16 + 256 * (buf[at + 1] as u16)
}

/// Reads the 32-bit number at offset `at`.
pub fn read_le32(buf: &[u8], at: usize) -> (x: u32)
    requires
        at + 4 <= buf@.len(),
    ensures
        x == le32_at(buf@, at as int),
{
    buf[at] as u32 + 256 * (buf[at + 1] as u32) + 65536 * (buf[at + 2] as u32) + 16777216 * (
    buf[at + 3] as u32)
}

/// Appends the 16-bit number `x` to `out`.
pub fn put_le16(out: &mut Vec<u8>, x: u16)
    ensures
        final(out)@ == old(out)@ + le16_bytes(x as int),
{
    out.push((x % 256) as u8);
    out.push((x / 256) as u8);
}

/// Appends the 32-bit number `x` to `out`.
pub fn put_le32(out: &mut Vec<u8>, x: u32)
    ensures
        final(out)@ == old(out)@ + le32_bytes(x as int),
{
    out.push((x % 256) as u8);
    out.push((x / 256 % 256) as u8);
    out.push((x / 65536 % 256) as u8);
    out.push((x / 16777216) as u8);
}

/// Appends every byte of `bytes` to `out`.
pub fn put_bytes(out: &mut Vec<u8>, bytes: &[u8])
    ensures
        final(out)@ == old(out)@ + bytes@,
{
    out.extend_from_slice(bytes);
    proof {
        assert(out@ =~= old(out)@ + bytes@);
    }
}

/// A copy of `bytes` from offset `from` on.
pub fn tail_copy(bytes: &[u8], from: usize) -> (out: Vec<u8>)
    requires
        from <= bytes@.len(),
    ensures
        out@ == bytes@.skip(from as int),
{
    let mut out: Vec<u8> = Vec::new();
    put_bytes(&mut out, &bytes[from..bytes.len()]);
    out
}

} // verus!
