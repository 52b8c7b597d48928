use rtp_media::rtp::{build_rtp_packet, parse_rtp_packet};

#[test]
fn built_packet_layout() {
    let payload: Vec<u8> = (0u8..=9).collect();
    let pkt = build_rtp_packet(0, 0x1234, 0xDEADBEEF, 0xCAFEBABE, &payload);
    assert_eq!(pkt.len(), 12 + payload.len());
    // Fixed first byte and payload type.
    assert_eq!(pkt[0], 0x80);
    assert_eq!(pkt[1], 0x00);
    // Big-endian sequence number at offsets 2-3.
    assert_eq!(&pkt[2..4], &[0x12, 0x34]);
    // Big-endian timestamp at offsets 4-7.
    assert_eq!(&pkt[4..8], &[0xDE, 0xAD, 0xBE, 0xEF]);
    // Big-endian SSRC at offsets 8-11.
    assert_eq!(&pkt[8..12], &[0xCA, 0xFE, 0xBA, 0xBE]);
    // Payload byte-for-byte from offset 12.
    assert_eq!(&pkt[12..], payload.as_slice());
}

#[test]
fn built_packet_empty_payload() {
    let pkt = build_rtp_packet(0x7F, 0, 0, 0, &Vec::new());
    assert_eq!(pkt.len(), 12);
    assert_eq!(pkt[0], 0x80);
    assert_eq!(pkt[1], 0x7F);
    assert_eq!(&pkt[2..12], &[0u8; 10]);
}

#[test]
fn parse_recovers_built_fields() {
    let payload: Vec<u8> = vec![7, 7, 7];
    let pkt = build_rtp_packet(0, 65535, 4294967295, 1, &payload);
    let parsed = parse_rtp_packet(&pkt).expect("a full header parses");
    assert_eq!(parsed.payload_type, 0);
    assert_eq!(parsed.sequence_number, 65535);
    assert_eq!(parsed.timestamp, 4294967295);
    assert_eq!(parsed.ssrc, 1);
    assert_eq!(parsed.payload, payload);
}

#[test]
fn parse_rejects_short_datagrams() {
    assert!(parse_rtp_packet(&Vec::new()).is_none());
    assert!(parse_rtp_packet(&vec![0x80u8; 11]).is_none());
    // Exactly a header is enough: empty payload.
    let parsed = parse_rtp_packet(&vec![0u8; 12]).expect("12 bytes parse");
    assert!(parsed.payload.is_empty());
}

#[test]
fn parse_masks_marker_bit_out_of_payload_type() {
    let mut datagram = vec![0u8; 13];
    datagram[1] = 0x80; // marker bit set, payload type 0
    let parsed = parse_rtp_packet(&datagram).expect("parses");
    assert_eq!(parsed.payload_type, 0);
    datagram[1] = 0x8A; // marker bit set, payload type 10
    assert_eq!(parse_rtp_packet(&datagram).unwrap().payload_type, 10);
}
