use tokio_kcp::error::{ErrorKind, FecError};
use tokio_kcp::fec::decoder::lost_payloads;
use tokio_kcp::fec::encoder::seal_parity;
use tokio_kcp::fec::{
    data_payload, data_payload_mut, is_data_packet, is_fec_packet, is_parity_packet, FecDecoder,
    FecEncoder, MAX_FEC_PAYLOAD, TYPE_DATA, TYPE_PARITY,
};

const MILLIS: u128 = 1_000_000;

#[test]
fn data_packet_matches_kcp_go_layout() {
    let payload = b"\x01\x02\x03\x04\x51\x00\x00\x00";
    let mut encoder = FecEncoder::new(2, 1).unwrap();

    let encoded = encoder.encode(payload).unwrap();
    let data = &encoded.packets[0];

    assert_eq!(&data[..4], 0u32.to_le_bytes());
    assert_eq!(&data[4..6], TYPE_DATA.to_le_bytes());
    assert_eq!(&data[6..8], ((payload.len() + 2) as u16).to_le_bytes());
    assert_eq!(&data[8..], payload);
}

#[test]
fn parity_packet_recovers_missing_data_packet() {
    let one = b"\x11\x22\x33\x44\x51\x00\x00\x00";
    let two = b"\x55\x66\x77\x88\x51\x00\x00\x00payload";
    let mut encoder = FecEncoder::new(2, 1).unwrap();
    let mut decoder = FecDecoder::new(2, 1).unwrap();

    let first = encoder.encode(one).unwrap();
    let second = encoder.encode(two).unwrap();

    assert!(first.packets.len() == 1);
    assert!(decoder.decode(&second.packets[0]).unwrap().is_empty());
    let recovered = decoder.decode(&second.packets[1]).unwrap();

    assert_eq!(recovered, vec![one.to_vec()]);
}

#[test]
fn low_frequency_data_skips_parity_like_kcp_go() {
    let mut encoder = FecEncoder::new(2, 1).unwrap();

    let first = encoder.encode_at(b"\x11\x22\x33\x44\x51\x00\x00\x00", 0).unwrap();
    let second = encoder
        .encode_at(b"\x55\x66\x77\x88\x51\x00\x00\x00", 510 * MILLIS)
        .unwrap();
    let third = encoder
        .encode_at(b"\x99\xaa\xbb\xcc\x51\x00\x00\x00", 510 * MILLIS)
        .unwrap();

    assert_eq!(first.packets.len(), 1);
    assert_eq!(second.packets.len(), 1);
    assert_eq!(&third.packets[0][..4], 3u32.to_le_bytes());
}

#[test]
fn parity_is_due_below_the_latency_limit_only() {
    let mut encoder = FecEncoder::new(2, 1).unwrap();
    encoder.encode_at(b"a", 0).unwrap();
    assert_eq!(encoder.encode_at(b"b", 499 * MILLIS).unwrap().packets.len(), 2);
    encoder.encode_at(b"c", 1000 * MILLIS).unwrap();
    assert_eq!(encoder.encode_at(b"d", 1500 * MILLIS).unwrap().packets.len(), 1);
}

#[test]
fn shard_counts_are_checked() {
    for (data, parity) in [(0, 1), (1, 0), (256, 1), (1, 256), (usize::MAX, usize::MAX)] {
        assert!(matches!(FecEncoder::new(data, parity), Err(FecError::InvalidShards)));
        assert!(matches!(FecDecoder::new(data, parity), Err(FecError::InvalidShards)));
    }
    assert!(FecEncoder::new(255, 1).is_ok());
    assert!(FecDecoder::new(1, 255).is_ok());
}

#[test]
fn payload_size_is_checked() {
    let mut encoder = FecEncoder::new(2, 1).unwrap();
    let largest = vec![7u8; MAX_FEC_PAYLOAD];
    let packet = encoder.encode(&largest).unwrap().packets.remove(0);
    assert_eq!(&packet[6..8], 65535u16.to_le_bytes());
    let too_large = vec![7u8; MAX_FEC_PAYLOAD + 1];
    let err = encoder.encode(&too_large).unwrap_err();
    assert!(matches!(err, FecError::PayloadTooLarge));
    assert_eq!(err.kind(), ErrorKind::InvalidInput);
}

#[test]
fn short_packet_is_an_error() {
    let mut decoder = FecDecoder::new(2, 1).unwrap();
    let err = decoder.decode(&[0; 5]).unwrap_err();
    assert!(matches!(err, FecError::PacketTooShort));
    assert_eq!(err.kind(), ErrorKind::InvalidInput);
}

#[test]
fn block_of_empty_shards_is_an_error() {
    let mut decoder = FecDecoder::new(2, 1).unwrap();
    let mut one = 1u32.to_le_bytes().to_vec();
    one.extend(TYPE_DATA.to_le_bytes());
    let mut two = 2u32.to_le_bytes().to_vec();
    two.extend(TYPE_PARITY.to_le_bytes());
    assert!(decoder.decode(&one).unwrap().is_empty());
    let err = decoder.decode(&two).unwrap_err();
    assert!(matches!(err, FecError::Codec(_)));
    assert_eq!(err.kind(), ErrorKind::InvalidData);
}

#[test]
fn any_choice_of_packets_rebuilds_the_rest() {
    let payloads: Vec<Vec<u8>> = vec![
        b"first".to_vec(),
        b"the second one".to_vec(),
        Vec::new(),
        vec![0xab; 300],
    ];
    let mut encoder = FecEncoder::new(4, 3).unwrap();
    let mut packets = Vec::new();
    for payload in &payloads {
        packets.extend(encoder.encode_at(payload, 0).unwrap().packets);
    }
    assert_eq!(packets.len(), 7);
    for choice in 0u32..128 {
        if choice.count_ones() != 4 {
            continue;
        }
        let mut decoder = FecDecoder::new(4, 3).unwrap();
        let mut rebuilt = Vec::new();
        for i in (0..7).rev() {
            if choice & (1 << i) != 0 {
                rebuilt.extend(decoder.decode(&packets[i]).unwrap());
            }
        }
        let missing: Vec<Vec<u8>> = (0..4)
            .filter(|i| choice & (1 << i) == 0)
            .map(|i| payloads[i].clone())
            .collect();
        assert_eq!(rebuilt, missing);
    }
}

#[test]
fn repeated_packet_changes_nothing() {
    let mut encoder = FecEncoder::new(3, 1).unwrap();
    let mut decoder = FecDecoder::new(3, 1).unwrap();
    let first = encoder.encode_at(b"one", 0).unwrap().packets.remove(0);
    let second = encoder.encode_at(b"two", 0).unwrap().packets.remove(0);
    let third = encoder.encode_at(b"three", 0).unwrap().packets;
    assert!(decoder.decode(&first).unwrap().is_empty());
    assert!(decoder.decode(&first).unwrap().is_empty());
    assert!(decoder.decode(&first).unwrap().is_empty());
    assert!(decoder.decode(&second).unwrap().is_empty());
    assert_eq!(decoder.decode(&third[1]).unwrap(), vec![b"three".to_vec()]);
}

#[test]
fn repeated_number_with_another_body_changes_nothing() {
    let mut encoder = FecEncoder::new(2, 1).unwrap();
    let mut decoder = FecDecoder::new(2, 1).unwrap();
    let mut first = encoder.encode_at(b"one", 0).unwrap().packets.remove(0);
    let second = encoder.encode_at(b"two", 0).unwrap().packets;
    assert!(decoder.decode(&first).unwrap().is_empty());
    first[8] = b'X';
    assert!(decoder.decode(&first).unwrap().is_empty());
    assert_eq!(decoder.decode(&second[1]).unwrap(), vec![b"two".to_vec()]);
}

#[test]
fn lost_payloads_are_read_from_the_rebuilt_block() {
    let shard = |payload: &[u8]| {
        let mut shard = (payload.len() as u16 + 2).to_le_bytes().to_vec();
        shard.extend(payload);
        shard.extend([0, 0]);
        Some(shard)
    };
    let slots = vec![None, shard(b"there"), None, None, shard(b"parity")];
    let rebuilt = vec![shard(b"a"), shard(b"there"), Some(vec![9, 0, 1]), shard(b""), None];
    assert_eq!(lost_payloads(&slots, &rebuilt, 4), vec![b"a".to_vec(), Vec::new()]);
    assert_eq!(lost_payloads(&slots, &rebuilt, 1), vec![b"a".to_vec()]);
}

#[test]
fn parity_packets_are_numbered_through() {
    let packets = seal_parity(7, &vec![vec![1, 2], vec![3]]);
    assert_eq!(packets, vec![vec![7, 0, 0, 0, 0xf2, 0, 1, 2], vec![8, 0, 0, 0, 0xf2, 0, 3]]);
}

#[test]
fn old_blocks_are_dropped() {
    let packet = |seq: u32, payload: &[u8]| {
        let mut packet = seq.to_le_bytes().to_vec();
        packet.extend(TYPE_DATA.to_le_bytes());
        packet.extend((payload.len() as u16 + 2).to_le_bytes());
        packet.extend(payload);
        packet
    };
    let mut encoder = FecEncoder::new(2, 1).unwrap();
    encoder.encode_at(b"kept", 0).unwrap();
    let block = encoder.encode_at(b"came", 0).unwrap().packets;

    let mut decoder = FecDecoder::new(2, 1).unwrap();
    decoder.decode(&block[0]).unwrap();
    decoder.decode(&packet(9 * 3, b"x")).unwrap();
    assert_eq!(decoder.decode(&block[1]).unwrap(), vec![b"kept".to_vec()]);

    let mut decoder = FecDecoder::new(2, 1).unwrap();
    decoder.decode(&block[0]).unwrap();
    decoder.decode(&packet(10 * 3, b"x")).unwrap();
    assert!(decoder.decode(&block[1]).unwrap().is_empty());
}

#[test]
fn number_out_of_range_is_passed_over() {
    let mut packet = 0xffff_ffffu32.to_le_bytes().to_vec();
    packet.extend(TYPE_DATA.to_le_bytes());
    packet.extend([3, 0, 1]);
    let mut decoder = FecDecoder::new(2, 1).unwrap();
    assert!(decoder.decode(&packet).unwrap().is_empty());
}

#[test]
fn packet_types_are_told_apart() {
    let data = [0, 0, 0, 0, 0xf1, 0, 3, 0, 42];
    let parity = [0, 0, 0, 0, 0xf2, 0, 3, 0, 42];
    let other = [0, 0, 0, 0, 0xf3, 0, 3, 0, 42];
    assert!(is_fec_packet(&data) && is_data_packet(&data) && !is_parity_packet(&data));
    assert!(is_fec_packet(&parity) && !is_data_packet(&parity) && is_parity_packet(&parity));
    assert!(!is_fec_packet(&other) && !is_data_packet(&other) && !is_parity_packet(&other));
    assert!(!is_fec_packet(&data[..5]));
    assert_eq!(data_payload(&data), Some(&[42u8][..]));
    assert_eq!(data_payload(&data[..8]), Some(&[][..]));
    assert_eq!(data_payload(&data[..7]), None);
    assert_eq!(data_payload(&parity), None);
}

#[test]
fn payload_can_be_changed_in_place() {
    let mut data = [0, 0, 0, 0, 0xf1, 0, 3, 0, 42];
    data_payload_mut(&mut data).unwrap()[0] = 43;
    assert_eq!(data, [0, 0, 0, 0, 0xf1, 0, 3, 0, 43]);
    let mut parity = [0, 0, 0, 0, 0xf2, 0, 3, 0, 42];
    assert!(data_payload_mut(&mut parity).is_none());
}
