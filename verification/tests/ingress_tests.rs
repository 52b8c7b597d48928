use rtp_media::codec::g711_ulaw_to_pcm16;
use rtp_media::ingress::{AudioAccumulator, IngressAction, IngressSession};
use rtp_media::rtp::build_rtp_packet;

#[test]
fn accumulator_appends_per_stream() {
    let mut acc = AudioAccumulator::new();
    assert_eq!(acc.stream_count(), 0);
    assert!(acc.get(7).is_none());
    acc.append(7, &vec![1, 2, 3]);
    acc.append(9, &vec![-1]);
    acc.append(7, &vec![4]);
    assert_eq!(acc.stream_count(), 2);
    assert_eq!(acc.get(7).unwrap(), &vec![1, 2, 3, 4]);
    assert_eq!(acc.get(9).unwrap(), &vec![-1]);
    assert!(acc.get(8).is_none());
    assert!([7u32, 9].contains(&acc.ssrc_at(0)));
    assert!([7u32, 9].contains(&acc.ssrc_at(1)));
}

#[test]
fn first_datagram_starts_playback_exactly_once() {
    let mut session = IngressSession::new(30000);
    assert_eq!(session.port(), 30000);
    // Even a malformed first datagram reveals the peer.
    let action = session.on_datagram(&vec![0u8; 3]);
    assert_eq!(action, IngressAction::StartPlayback);
    let action = session.on_datagram(&vec![0u8; 3]);
    assert_eq!(action, IngressAction::NoAction);
    let pkt = build_rtp_packet(0, 1, 2, 3, &vec![0xFFu8; 4]);
    assert_eq!(session.on_datagram(&pkt), IngressAction::NoAction);
}

#[test]
fn pcmu_datagrams_accumulate_decoded_samples_in_order() {
    // 162 inbound PCMU datagrams with 160-byte payloads, all the same
    // SSRC: the accumulator holds exactly 162 * 160 decoded samples in
    // arrival order.
    let ssrc = 0xAABBCCDD;
    let mut session = IngressSession::new(31000);
    let mut expected: Vec<i16> = Vec::new();
    for n in 0..162u32 {
        let payload: Vec<u8> = (0..160u32).map(|i| ((n + i) % 256) as u8).collect();
        for &b in &payload {
            expected.push(g711_ulaw_to_pcm16(b));
        }
        let datagram = build_rtp_packet(0, n as u16, n * 160, ssrc, &payload);
        session.on_datagram(&datagram);
    }
    let acc = session.accumulator();
    let samples = acc.get(ssrc).expect("the stream accumulated");
    assert_eq!(samples.len(), 162 * 160);
    assert_eq!(samples, &expected);
    assert_eq!(acc.stream_count(), 1);
}

#[test]
fn malformed_datagrams_are_dropped_silently() {
    let mut session = IngressSession::new(32000);
    session.on_datagram(&vec![0x80u8; 11]);
    session.on_datagram(&Vec::new());
    assert_eq!(session.accumulator().stream_count(), 0);
}

#[test]
fn other_payload_types_are_accepted_but_not_decoded() {
    let mut session = IngressSession::new(33000);
    let datagram = build_rtp_packet(8, 1, 160, 5, &vec![0u8; 160]);
    assert_eq!(session.on_datagram(&datagram), IngressAction::StartPlayback);
    assert!(session.accumulator().get(5).is_none());
    assert_eq!(session.accumulator().stream_count(), 0);
}

#[test]
fn streams_are_kept_apart_by_ssrc() {
    let mut session = IngressSession::new(34000);
    let a = build_rtp_packet(0, 1, 0, 111, &vec![0x00u8; 2]);
    let b = build_rtp_packet(0, 1, 0, 222, &vec![0xFFu8; 3]);
    session.on_datagram(&a);
    session.on_datagram(&b);
    let acc = session.accumulator();
    assert_eq!(acc.get(111).unwrap().len(), 2);
    assert_eq!(acc.get(222).unwrap().len(), 3);
    assert_eq!(acc.get(111).unwrap()[0], g711_ulaw_to_pcm16(0x00));
    assert_eq!(acc.get(222).unwrap()[0], g711_ulaw_to_pcm16(0xFF));
}
