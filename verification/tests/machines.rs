use std::time::Duration;
use tokio::sync::mpsc;
use tokio_kcp::error::{ErrorKind, KcpError};
use tokio_kcp::fec::FEC_HEADER_SIZE_PLUS_SIZE;
use tokio_kcp::link::{written, Posted, UdpOutput};
use tokio_kcp::output::{Outbound, OUTPUT_BACKLOG};
use tokio_kcp::session::{deadline, inspect, lifetime, Inbound, Lifetime};
use tokio_kcp::skcp::{accepted, may_send, next_delay_ms, send_len, Poll, Wakes};
use tokio_kcp::{KcpConfig, KcpNoDelayConfig, KcpSession, KcpSocket, KcpStream};

/// One side of a connection.
struct End {
    session: KcpSession,
    stream: KcpStream,
    written: mpsc::Receiver<Vec<u8>>,
    out: Outbound,
}

fn socket(config: &KcpConfig, conv: u32, now: u64) -> (KcpSocket, mpsc::Receiver<Vec<u8>>) {
    let (tx, rx) = mpsc::channel(OUTPUT_BACKLOG);
    let socket = KcpSocket::new(config, conv, UdpOutput::new(tx), config.stream, now).unwrap();
    (socket, rx)
}

fn end(config: &KcpConfig, conv: u32, server: bool, now: u64) -> End {
    let (socket, written) = socket(config, conv, now);
    End {
        session: KcpSession::new(socket, config.session_expire, server),
        stream: KcpStream::new(),
        written,
        out: Outbound::new(config).unwrap(),
    }
}

impl End {
    /// What is on its way to the other side.
    fn datagrams(&mut self) -> Vec<Vec<u8>> {
        let mut all = Vec::new();
        while let Ok(packet) = self.written.try_recv() {
            all.extend(self.out.datagrams(packet).unwrap());
        }
        all
    }

    fn recv(&mut self, buf: &mut [u8], now: u64) -> Option<usize> {
        match self.stream.poll_recv(self.session.lock_socket(), buf, now) {
            Poll::Ready(res) => Some(res.unwrap()),
            Poll::Pending => None,
        }
    }

    fn send_all(&mut self, buf: &[u8], sent: &mut usize, now: u64) -> Option<usize> {
        match self.stream.poll_send_all(self.session.lock_socket(), buf, sent, now) {
            Poll::Ready(res) => Some(res.unwrap()),
            Poll::Pending => None,
        }
    }
}

/// A client, and the server that its first datagram creates.
struct Pair {
    config: KcpConfig,
    client: End,
    server: Option<End>,
    now: u64,
    lose: usize,
    count: usize,
}

impl Pair {
    fn new(config: KcpConfig, conv: u32) -> Pair {
        let now = 1_000_000;
        Pair { config, client: end(&config, conv, false, now), server: None, now, lose: 0, count: 0 }
    }

    /// Ten milliseconds go by; every `lose`-th datagram to the server is lost.
    fn step(&mut self) {
        self.now += 10;
        self.client.session.poll_scheduler_tick(self.now).unwrap();
        for mut packet in self.client.datagrams() {
            self.count += 1;
            if self.lose > 0 && self.count % self.lose == 0 {
                continue;
            }
            let fec = self.config.fec.enabled();
            match tokio_kcp::listener::route(&mut packet, fec) {
                tokio_kcp::listener::Route::Segment { conv, .. } => {
                    if self.server.is_none() {
                        self.server = Some(end(&self.config, conv, true, self.now));
                    }
                    let server = self.server.as_mut().unwrap();
                    if server.session.conv() == conv {
                        server.session.input(&packet, self.now).unwrap();
                    }
                }
                tokio_kcp::listener::Route::Parity => {
                    if let Some(server) = self.server.as_mut() {
                        server.session.input(&packet, self.now).unwrap();
                    }
                }
                tokio_kcp::listener::Route::TooShort => panic!("short datagram"),
            }
        }
        if let Some(server) = self.server.as_mut() {
            server.session.poll_scheduler_tick(self.now).unwrap();
            for packet in server.datagrams() {
                self.client.session.client_input(&packet, self.now).unwrap().unwrap();
            }
        }
    }

    /// Sends `payload` to the server and returns the pieces that it reads.
    fn transfer(&mut self, payload: &[u8], read_size: usize) -> Vec<Vec<u8>> {
        let mut sent = 0;
        let mut all_sent = None;
        let mut pieces: Vec<Vec<u8>> = Vec::new();
        let mut received = 0;
        let mut buf = vec![0; read_size];
        for _ in 0..20_000 {
            if all_sent.is_none() {
                all_sent = self.client.send_all(payload, &mut sent, self.now);
            }
            self.step();
            let now = self.now;
            if let Some(server) = self.server.as_mut() {
                while let Some(n) = server.recv(&mut buf, now) {
                    received += n;
                    pieces.push(buf[..n].to_vec());
                    if received >= payload.len() {
                        break;
                    }
                }
            }
            if received >= payload.len() {
                assert_eq!(all_sent, Some(payload.len()));
                return pieces;
            }
        }
        panic!("received {} of {} bytes", received, payload.len());
    }
}

fn eager() -> KcpConfig {
    KcpConfig {
        nodelay: KcpNoDelayConfig::fastest(),
        flush_write: true,
        flush_acks_input: true,
        ..KcpConfig::default()
    }
}

fn segment(conv: u32, cmd: u8, frg: u8, sn: u32, data: &[u8]) -> Vec<u8> {
    let mut packet = conv.to_le_bytes().to_vec();
    packet.push(cmd);
    packet.push(frg);
    packet.extend(128u16.to_le_bytes());
    packet.extend(0u32.to_le_bytes());
    packet.extend(sn.to_le_bytes());
    packet.extend(0u32.to_le_bytes());
    packet.extend((data.len() as u32).to_le_bytes());
    packet.extend(data);
    packet
}

const PUSH: u8 = 81;

#[test]
fn kcp_echo() {
    const CONV: u32 = 0xdeadbeef;
    const SEND_BUFFER: &[u8] = b"HELLO WORLD";
    let config = KcpConfig::default();
    let mut now = 5_000;
    let (mut kcp1, mut out1) = socket(&KcpConfig { stream: true, ..config }, 0, now);
    let (mut kcp2, mut out2) = socket(&KcpConfig { stream: true, ..config }, CONV, now);

    match kcp1.poll_send(SEND_BUFFER, now) {
        Poll::Ready(n) => assert_eq!(n.unwrap(), SEND_BUFFER.len()),
        Poll::Pending => panic!("first message must not wait"),
    }
    assert!(kcp1.waiting_conv());
    let mut buf = [0u8; 1024];
    for _ in 0..1000 {
        now += 10;
        kcp1.update_at(now).unwrap();
        kcp2.update_at(now).unwrap();
        while let Ok(mut packet) = out1.try_recv() {
            if kcp::get_conv(&packet) == 0 {
                kcp::set_conv(&mut packet, CONV);
            }
            kcp2.input(&packet, now).unwrap();
            match kcp2.try_recv(&mut buf) {
                Ok(n) => match kcp2.poll_send(&buf[..n], now) {
                    Poll::Ready(m) => assert_eq!(m.unwrap(), n),
                    Poll::Pending => panic!("no room"),
                },
                Err(KcpError::RecvQueueEmpty) => continue,
                Err(err) => panic!("kcp.recv error: {:?}", err),
            }
        }
        while let Ok(packet) = out2.try_recv() {
            kcp1.input(&packet, now).unwrap();
            match kcp1.try_recv(&mut buf) {
                Ok(n) => {
                    assert_eq!(&buf[..n], SEND_BUFFER);
                    assert_eq!(kcp1.conv(), CONV);
                    assert!(!kcp1.waiting_conv());
                    return;
                }
                Err(KcpError::RecvQueueEmpty) => continue,
                Err(err) => panic!("kcp.recv error: {:?}", err),
            }
        }
    }
    panic!("no echo");
}

#[test]
fn test_stream_echo() {
    let mut pair = Pair::new(KcpConfig::default(), 77);
    let test_payload = b"HELLO WORLD";
    let pieces = pair.transfer(test_payload, 8192);
    assert_eq!(pieces, vec![test_payload.to_vec()]);

    let mut sent = 0;
    let now = pair.now;
    let server = pair.server.as_mut().unwrap();
    assert_eq!(server.send_all(&pieces[0], &mut sent, now), Some(test_payload.len()));
    let mut recv_buffer = [0u8; 1024];
    for _ in 0..1000 {
        pair.step();
        let now = pair.now;
        if let Some(n) = pair.client.recv(&mut recv_buffer, now) {
            assert_eq!(n, test_payload.len());
            assert_eq!(&recv_buffer[..n], test_payload);
            return;
        }
    }
    panic!("no echo");
}

#[test]
fn fec_echo() {
    let mut pair = Pair::new(KcpConfig::default().with_fec(2, 1), 78);
    assert_eq!(pair.transfer(b"HELLO FEC", 8192), vec![b"HELLO FEC".to_vec()]);
}

#[test]
fn fec_rejects_mtu_too_small_for_header() {
    let mut config = KcpConfig::default().with_fec(2, 1);
    config.mtu = FEC_HEADER_SIZE_PLUS_SIZE;
    let (tx, _rx) = mpsc::channel(1);
    match KcpSocket::new(&config, 1, UdpOutput::new(tx), false, 0) {
        Err(err) => {
            assert!(matches!(err, KcpError::Config(_)));
            assert_eq!(err.kind(), ErrorKind::InvalidInput);
        }
        other => panic!("expected invalid input, got {:?}", other),
    }
}

#[test]
fn write_all_handles_large_stream_buffers() {
    let config = KcpConfig { stream: true, ..KcpConfig::default() };
    let payload = vec![17; 200 * 1024];
    assert_eq!(Pair::new(config, 9).transfer(&payload, 200 * 1024).concat(), payload);
}

#[test]
fn write_all_handles_large_buffers_with_custom_mtu() {
    let config = KcpConfig { mtu: 700, ..eager() };
    let payload = vec![23; 200 * 1024];
    assert_eq!(Pair::new(config, 9).transfer(&payload, 200 * 1024).concat(), payload);
}

#[test]
fn write_all_handles_large_buffers_with_fec() {
    let payload = vec![29; 200 * 1024];
    let mut pair = Pair::new(eager().with_fec(2, 1), 9);
    assert_eq!(pair.transfer(&payload, 200 * 1024).concat(), payload);
}

#[test]
fn send_handles_large_buffers() {
    let payload = vec![31; 200 * 1024];
    assert_eq!(Pair::new(eager(), 9).transfer(&payload, 200 * 1024).concat(), payload);
}

#[test]
fn send_handles_large_buffers_with_default_config() {
    let payload = vec![33; 200 * 1024];
    let mut pair = Pair::new(KcpConfig::default(), 9);
    assert_eq!(pair.transfer(&payload, 200 * 1024).concat(), payload);
}

#[test]
fn send_handles_very_large_buffers_with_default_config() {
    let payload = vec![39; 600 * 1024];
    let mut pair = Pair::new(KcpConfig::default(), 9);
    assert_eq!(pair.transfer(&payload, 600 * 1024).concat(), payload);
}

#[test]
fn send_with_server_allocated_conv_handles_large_buffers() {
    let payload = vec![41; 200 * 1024];
    let mut pair = Pair::new(KcpConfig::default(), 0);
    assert_eq!(pair.transfer(&payload, 200 * 1024).concat(), payload);
    let conv = pair.server.as_ref().unwrap().session.conv();
    assert_ne!(conv, 0);
    assert_eq!(pair.client.session.conv(), conv);
}

#[test]
fn send_handles_large_stream_buffers() {
    let config = KcpConfig { stream: true, ..eager() };
    let payload = vec![43; 200 * 1024];
    assert_eq!(Pair::new(config, 9).transfer(&payload, 200 * 1024).concat(), payload);
}

#[test]
fn send_large_buffer_can_be_read_by_repeated_recv() {
    let payload = vec![37; 200 * 1024];
    let pieces = Pair::new(eager(), 9).transfer(&payload, 200 * 1024);
    assert!(pieces[0].len() > 0 && pieces[0].len() < payload.len());
    assert!(pieces.iter().all(|piece| !piece.is_empty()));
    assert_eq!(pieces.concat(), payload);
}

#[test]
fn lost_datagrams_are_made_good() {
    let payload: Vec<u8> = (0..100_000usize).map(|i| (i * i % 251) as u8).collect();
    let mut pair = Pair::new(eager().with_fec(3, 2), 9);
    pair.lose = 4;
    assert_eq!(pair.transfer(&payload, 5000).concat(), payload);
}

#[test]
fn small_reads_give_the_message_in_pieces() {
    let config = KcpConfig::default();
    let mut end = end(&config, 5, false, 0);
    end.session.input(&segment(5, PUSH, 0, 0, b"abcdefgh"), 1).unwrap();
    end.session.input(&segment(5, PUSH, 0, 1, b"next"), 1).unwrap();
    let mut buf = [0u8; 3];
    assert_eq!(end.recv(&mut buf, 2), Some(3));
    assert_eq!(&buf, b"abc");
    assert_eq!(end.recv(&mut buf, 2), Some(3));
    assert_eq!(&buf, b"def");
    assert_eq!(end.recv(&mut [], 2), Some(0));
    assert_eq!(end.recv(&mut buf, 2), Some(2));
    assert_eq!(&buf, b"ghf");
    let mut buf = [0u8; 10];
    assert_eq!(end.recv(&mut buf, 2), Some(4));
    assert_eq!(&buf[..4], b"next");
    assert_eq!(end.recv(&mut buf, 2), None);
}

#[test]
fn fragments_are_put_together() {
    let (mut socket, _rx) = socket(&KcpConfig::default(), 5, 0);
    socket.input(&segment(5, PUSH, 1, 0, b"ab"), 1).unwrap();
    assert!(matches!(socket.peek_size(), Err(KcpError::ExpectingFragment)));
    let mut buf = [0u8; 3];
    assert!(matches!(socket.poll_recv(&mut buf, 1), Poll::Pending));
    assert!(socket.input(&segment(5, PUSH, 0, 1, b"cd"), 2).unwrap());
    assert_eq!(socket.take_wakes(), Wakes { sender: false, receiver: true });
    assert_eq!(socket.take_wakes(), Wakes { sender: false, receiver: false });
    assert_eq!(socket.peek_size().unwrap(), 4);
    assert!(matches!(socket.try_recv(&mut buf), Err(KcpError::UserBufTooSmall)));
    let mut buf = [9u8; 6];
    match socket.poll_recv(&mut buf, 7) {
        Poll::Ready(n) => assert_eq!(n.unwrap(), 4),
        Poll::Pending => panic!("a message is there"),
    }
    assert_eq!(&buf, b"abcd\x09\x09");
    assert_eq!(socket.last_update_ms(), 7);
    assert!(matches!(socket.try_recv(&mut buf), Err(KcpError::RecvQueueEmpty)));
}

#[test]
fn foreign_packet_is_passed_over() {
    let (mut socket, _rx) = socket(&KcpConfig::default(), 5, 3);
    assert!(!socket.input(&segment(6, PUSH, 0, 0, b"ab"), 9).unwrap());
    assert_eq!(socket.conv(), 5);
    assert_eq!(socket.last_update_ms(), 3);
    assert!(matches!(socket.peek_size(), Err(KcpError::RecvQueueEmpty)));
}

#[test]
fn bad_packets_are_errors() {
    let (mut socket, _rx) = socket(&KcpConfig::default(), 5, 0);
    assert!(matches!(socket.input(&[5; 23], 1), Err(KcpError::InvalidSegmentSize(23))));
    assert!(matches!(
        socket.input(&segment(5, 9, 0, 0, b""), 1),
        Err(KcpError::UnsupportedCmd(9))
    ));
    let mut cut = segment(5, PUSH, 0, 0, b"abcd");
    cut.truncate(26);
    assert!(matches!(socket.input(&cut, 1), Err(KcpError::InvalidSegmentDataSize(4, 2))));
    assert_eq!(socket.last_update_ms(), 0);
}

#[test]
fn undecodable_block_is_an_error() {
    let config = KcpConfig::default().with_fec(2, 1);
    let (mut socket, _rx) = socket(&config, 5, 0);
    assert!(!socket.input(&[1, 0, 0, 0, 0xf2, 0], 1).unwrap());
    let err = socket.input(&[2, 0, 0, 0, 0xf2, 0], 1).unwrap_err();
    assert!(matches!(err, KcpError::Fec(_)));
    assert_eq!(err.kind(), ErrorKind::InvalidData);
}

#[test]
fn sending_waits_for_room() {
    let config = KcpConfig { wnd_size: (2, 128), ..KcpConfig::default() };
    let (mut socket, mut rx) = socket(&config, 5, 0);
    for _ in 0..2 {
        assert!(matches!(socket.poll_send(b"x", 1), Poll::Ready(Ok(1))));
    }
    assert!(matches!(socket.poll_send(b"x", 1), Poll::Pending));
    assert!(!socket.can_close());
    socket.update_at(100).unwrap();
    while rx.try_recv().is_ok() {}
    assert!(socket.input(&segment(5, 82, 0, 0, b""), 101).unwrap());
    assert!(socket.take_wakes().sender);
    assert!(matches!(socket.poll_send(b"x", 102), Poll::Ready(Ok(1))));
}

#[test]
fn first_message_is_one_fragment_while_the_number_is_unknown() {
    let (mut socket, _rx) = socket(&KcpConfig::default(), 0, 0);
    assert!(matches!(socket.poll_send(&[1; 5000], 1), Poll::Ready(Ok(1376))));
    assert!(matches!(socket.poll_send(&[1; 10], 1), Poll::Pending));
}

#[test]
fn message_has_no_more_fragments_than_kcp_takes() {
    let config = KcpConfig { mtu: 50, ..KcpConfig::default() };
    let (mut socket, _rx) = socket(&config, 5, 0);
    assert!(matches!(socket.poll_send(&[1; 26 * 127], 1), Poll::Ready(Ok(3302))));
    let (mut socket, _rx) = self::socket(&config, 5, 0);
    assert!(matches!(socket.poll_send(&[1; 26 * 127 + 1], 1), Poll::Ready(Ok(3302))));
}

#[test]
fn stream_fills_the_last_fragment_up() {
    let config = KcpConfig { mtu: 50, stream: true, ..eager() };
    let quiet = KcpConfig { flush_write: false, ..config };
    let bytes: Vec<u8> = (0..4000usize).map(|i| (i % 251) as u8).collect();
    for (first, second) in [(10, 26 * 127 + 16), (26, 26 * 127), (25, 26 * 127 + 1)] {
        let (mut sender, mut rx) = socket(&quiet, 5, 0);
        assert!(matches!(sender.poll_send(&bytes[..first], 1), Poll::Ready(Ok(n)) if n == first));
        let more = &bytes[first..first + second];
        assert!(matches!(sender.poll_send(more, 1), Poll::Ready(Ok(n)) if n == second));
        sender.flush(2).unwrap();
        let (mut receiver, _acks) = socket(&config, 5, 0);
        while let Ok(packet) = rx.try_recv() {
            receiver.input(&packet, 3).unwrap();
        }
        let mut read = Vec::new();
        let mut buf = [0u8; 26];
        while let Ok(n) = receiver.try_recv(&mut buf) {
            read.extend_from_slice(&buf[..n]);
        }
        assert_eq!(read, bytes[..first + second]);
    }
    let (mut sender, _rx) = socket(&quiet, 5, 0);
    assert!(matches!(sender.poll_send(&bytes, 1), Poll::Ready(Ok(3328))));
}

#[test]
fn closed_output_is_a_broken_pipe() {
    let (mut socket, rx) = socket(&eager(), 5, 0);
    drop(rx);
    match socket.poll_send(b"x", 1) {
        Poll::Ready(Err(err)) => {
            assert!(matches!(err, KcpError::IoError(_)));
            assert_eq!(err.kind(), ErrorKind::BrokenPipe);
        }
        other => panic!("expected a broken pipe, got {:?}", other),
    }
    assert_eq!(socket.flush(2).unwrap_err().kind(), ErrorKind::BrokenPipe);
}

#[test]
fn nothing_to_write_needs_no_output() {
    let (tx, rx) = mpsc::channel(1);
    drop(rx);
    let mut socket = KcpSocket::new(&eager(), 5, UdpOutput::new(tx), false, 0).unwrap();
    assert!(socket.flush(1).is_ok());
    assert!(socket.update_at(50).is_ok());
    let mut session = KcpSession::new(socket, None, true);
    assert_eq!(session.poll_scheduler_tick(100), Some(110));
}

#[test]
fn update_before_its_time_needs_no_output() {
    let config = KcpConfig { nodelay: KcpNoDelayConfig::fastest(), ..KcpConfig::default() };
    let (mut socket, rx) = socket(&config, 5, 0);
    assert!(matches!(socket.poll_send(b"x", 1), Poll::Ready(Ok(1))));
    drop(rx);
    assert!(socket.update_at(9).is_ok());
    assert!(!socket.can_close());
    let err = socket.update_at(10).unwrap_err();
    assert!(matches!(err, KcpError::IoError(_)));
    assert_eq!(err.kind(), ErrorKind::BrokenPipe);
}

#[test]
fn full_output_drops_packets() {
    let (tx, mut rx) = mpsc::channel(1);
    let mut socket = KcpSocket::new(&eager(), 5, UdpOutput::new(tx), false, 0).unwrap();
    assert!(matches!(socket.poll_send(b"x", 1), Poll::Ready(Ok(1))));
    assert!(matches!(socket.poll_send(b"y", 1), Poll::Ready(Ok(1))));
    let packet = rx.try_recv().unwrap();
    assert_eq!(&packet[..4], 5u32.to_le_bytes());
    assert_eq!(&packet[24..], b"x");
    assert!(rx.try_recv().is_err());
    assert_eq!(written(Posted::Full, 9).unwrap(), 9);
    assert_eq!(written(Posted::Sent, 8).unwrap(), 8);
    assert_eq!(written(Posted::Closed, 8).unwrap_err().kind(), std::io::ErrorKind::BrokenPipe);
}

#[test]
fn flush_writes_what_is_queued() {
    let config = KcpConfig { flush_write: false, ..eager() };
    let (mut socket, mut rx) = socket(&config, 5, 0);
    assert!(matches!(socket.poll_send(b"x", 1), Poll::Ready(Ok(1))));
    assert!(rx.try_recv().is_err());
    socket.flush(4).unwrap();
    assert_eq!(socket.last_update_ms(), 4);
    assert_eq!(&rx.try_recv().unwrap()[24..], b"x");
}

#[test]
fn acknowledgements_are_written_on_input_if_asked_for() {
    for config in [eager(), KcpConfig::default()] {
        let (mut socket, mut rx) = socket(&config, 5, 0);
        for sn in 0..60 {
            socket.input(&segment(5, PUSH, 0, sn, b"ab"), 1).unwrap();
        }
        match rx.try_recv() {
            Ok(packet) => {
                assert!(config.flush_acks_input);
                assert_eq!(packet.len(), 58 * 24);
                assert_eq!(packet[4], 82);
            }
            Err(_) => assert!(!config.flush_acks_input),
        }
    }
}

#[test]
fn empty_messages_are_passed_over_unless_wanted() {
    let (mut socket, _rx) = socket(&KcpConfig::default(), 5, 0);
    socket.input(&segment(5, PUSH, 0, 0, b""), 1).unwrap();
    assert!(matches!(socket.poll_recv(&mut [0; 4], 1), Poll::Pending));
    assert!(matches!(socket.peek_size(), Err(KcpError::RecvQueueEmpty)));
    let config = KcpConfig { allow_recv_empty_packet: true, ..KcpConfig::default() };
    let (mut socket, _rx) = self::socket(&config, 5, 0);
    socket.input(&segment(5, PUSH, 0, 0, b""), 1).unwrap();
    assert!(matches!(socket.poll_recv(&mut [0; 4], 1), Poll::Ready(Ok(0))));
}

#[test]
fn closing_wakes_everyone_and_answers_at_once() {
    let config = KcpConfig::default();
    let mut end = end(&config, 0, false, 0);
    let mut buf = [0; 4];
    let mut sent = 0;
    assert_eq!(end.recv(&mut buf, 1), None);
    assert_eq!(end.send_all(b"x", &mut sent, 1), Some(1));
    sent = 0;
    assert_eq!(end.send_all(b"x", &mut sent, 1), None);
    assert_eq!(sent, 0);
    end.session.finalize();
    assert_eq!(end.session.take_wakes(), Wakes { sender: true, receiver: true });
    assert!(end.session.is_closed());
    assert_eq!(end.recv(&mut buf, 2), Some(0));
    match end.session.lock_socket().poll_send(b"x", 2) {
        Poll::Ready(Err(err)) => assert_eq!(err.kind(), ErrorKind::BrokenPipe),
        other => panic!("expected a broken pipe, got {:?}", other),
    }
}

#[test]
fn update_tells_the_next_time() {
    let (mut socket, _rx) = socket(&KcpConfig::default(), 5, 0);
    assert_eq!(socket.update_at(40).unwrap(), Duration::from_millis(40));
    assert!(matches!(socket.poll_send(b"x", 50), Poll::Ready(Ok(1))));
    assert!(socket.update_at(60).unwrap() <= Duration::from_millis(40));
    assert!(socket.update().unwrap().unwrap() <= Duration::from_millis(40));
}

#[test]
fn closed_session_ends_when_all_is_sent() {
    let config = KcpConfig::default();
    let mut end = end(&config, 5, true, 0);
    let mut sent = 0;
    assert_eq!(end.send_all(b"x", &mut sent, 1), Some(1));
    end.session.close();
    let next = end.session.poll_scheduler_tick(40).unwrap();
    assert!(next >= 40 && next <= 80);
    end.session.input(&segment(5, 82, 0, 0, b""), 50).unwrap();
    assert!(end.session.kcp_socket().can_close());
    assert_eq!(end.session.poll_scheduler_tick(next), None);
}

#[test]
fn idle_session_expires() {
    let config = KcpConfig { session_expire: Some(Duration::from_secs(1)), ..KcpConfig::default() };
    let mut server = end(&config, 5, true, 0);
    let mut sent = 0;
    assert_eq!(server.send_all(b"x", &mut sent, 0), Some(1));
    assert!(server.session.poll_scheduler_tick(1000).is_some());
    assert!(!server.session.is_closed());
    assert!(server.session.poll_scheduler_tick(1001).is_some());
    assert!(server.session.is_closed());
    assert!(server.session.poll_scheduler_tick(2000).is_some());
    assert_eq!(server.session.poll_scheduler_tick(2001), None);

    let mut client = end(&config, 5, false, 0);
    assert!(client.session.poll_scheduler_tick(1_000_000).is_some());
    assert!(!client.session.is_closed());
}

#[test]
fn session_without_output_is_over() {
    let config = KcpConfig { nodelay: KcpNoDelayConfig::fastest(), ..KcpConfig::default() };
    let (socket, rx) = socket(&config, 5, 0);
    let mut session = KcpSession::new(socket, None, true);
    assert!(matches!(session.lock_socket().poll_send(b"x", 1), Poll::Ready(Ok(1))));
    drop(rx);
    assert_eq!(session.poll_scheduler_tick(100), None);
    assert!(session.is_closed());
}

#[test]
fn lifetimes() {
    assert_eq!(lifetime(0, 1_000_000, 0), Lifetime::Alive);
    assert_eq!(lifetime(10, 110, 100), Lifetime::Alive);
    assert_eq!(lifetime(10, 111, 100), Lifetime::Idle);
    assert_eq!(lifetime(10, 120, 100), Lifetime::Idle);
    assert_eq!(lifetime(10, 121, 100), Lifetime::Over);
    assert_eq!(lifetime(10, 5, 100), Lifetime::Alive);
    assert_eq!(lifetime(u64::MAX - 1, u64::MAX, 0), Lifetime::Idle);
}

#[test]
fn deadlines() {
    assert_eq!(deadline(100, Ok(Duration::from_millis(40))), Some(140));
    assert_eq!(deadline(u64::MAX, Ok(Duration::from_millis(40))), Some(u64::MAX));
    assert_eq!(deadline(100, Err(KcpError::NeedUpdate)), Some(110));
    let pipe = std::io::Error::from(std::io::ErrorKind::BrokenPipe);
    assert_eq!(deadline(100, Err(KcpError::IoError(pipe))), None);
    let other = std::io::Error::from(std::io::ErrorKind::TimedOut);
    assert_eq!(deadline(100, Err(KcpError::IoError(other))), Some(110));
}

#[test]
fn decisions_on_sending() {
    assert!(may_send(false, 1000, 1, 1, true));
    assert!(may_send(true, 4, 5, 5, false));
    assert!(!may_send(true, 4, 5, 5, true));
    assert!(!may_send(true, 5, 5, 6, false));
    assert!(!may_send(true, 5, 6, 5, false));
    assert_eq!(send_len(false, true, false, 10, 4), 4);
    assert_eq!(send_len(false, true, true, 10, 4), 4);
    assert_eq!(send_len(true, true, false, 10, 4), 10);
    assert_eq!(send_len(true, false, false, 509, 4), 508);
    assert_eq!(send_len(true, false, false, 508, 4), 508);
    assert_eq!(send_len(true, false, true, 513, 4), 512);
    assert_eq!(send_len(true, false, true, 512, 4), 512);
    assert_eq!(send_len(false, false, false, 10, 4), 10);
    assert_eq!(send_len(false, true, false, 3, 4), 3);
    assert_eq!(send_len(true, false, true, usize::MAX, usize::MAX), usize::MAX);
    assert_eq!(next_delay_ms(0, 40, 7), 40);
    assert_eq!(next_delay_ms(1, 40, 7), 7);
    assert!(matches!(accepted(Ok(3)), Ok(true)));
    assert!(matches!(accepted(Err(KcpError::ConvInconsistent(1, 2))), Ok(false)));
    assert!(matches!(accepted(Err(KcpError::UserBufTooBig)), Err(KcpError::UserBufTooBig)));
}

#[test]
fn client_tells_datagrams_apart() {
    assert_eq!(inspect(&segment(7, PUSH, 0, 0, b"")), Inbound::Segment(7));
    assert_eq!(inspect(&[0; 23]), Inbound::TooShort);
    assert_eq!(inspect(&[0, 0, 0, 0, 0xf2, 0]), Inbound::Parity);
    let mut data = vec![0, 0, 0, 0, 0xf1, 0, 26, 0];
    assert_eq!(inspect(&data), Inbound::TooShort);
    data.extend(segment(9, PUSH, 0, 0, b""));
    assert_eq!(inspect(&data), Inbound::Segment(9));
}

#[test]
fn client_follows_the_server() {
    let config = KcpConfig::default();
    let mut client = end(&config, 5, false, 0);
    assert!(client.session.client_input(&[1; 10], 1).is_none());
    assert!(!client.session.client_input(&segment(6, PUSH, 0, 0, b"ab"), 1).unwrap().unwrap());
    assert_eq!(client.session.conv(), 6);
    let mut buf = [0; 4];
    assert_eq!(client.recv(&mut buf, 2), Some(2));
    assert_eq!(&buf[..2], b"ab");
}

#[test]
fn plain_output_sends_packets_as_they_are() {
    let mut out = Outbound::new(&KcpConfig::default()).unwrap();
    assert_eq!(out.datagrams(vec![1, 2, 3]).unwrap(), vec![vec![1, 2, 3]]);
    let mut out = Outbound::new(&KcpConfig::default().with_fec(1, 1)).unwrap();
    assert_eq!(
        out.datagrams(vec![1, 2, 3]).unwrap(),
        vec![vec![0, 0, 0, 0, 0xf1, 0, 5, 0, 1, 2, 3]]
    );
    assert!(out.datagrams(vec![0; 70_000]).is_err());
    assert!(Outbound::new(&KcpConfig::default().with_fec(256, 1)).is_err());
}
