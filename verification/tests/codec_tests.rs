use rtp_media::codec::{decode_samples, encode_samples, g711_ulaw_to_pcm16, pcm16_to_g711_ulaw};

/// The exponent band a sample is encoded in, recomputed independently:
/// the least e with |s| clipped + bias below 0x100 * 2^e, capped at 7.
fn band_of(sample: i16) -> u32 {
    let a = (sample as i32).abs().min(32635);
    let m = a + 0x84;
    let mut e: u32 = 0;
    while e < 7 && m >= 0x100 << e {
        e += 1;
    }
    e
}

#[test]
fn round_trip_error_bounded_over_full_range() {
    let mut s: i32 = i16::MIN as i32;
    while s <= i16::MAX as i32 {
        let sample = s as i16;
        let decoded = g711_ulaw_to_pcm16(pcm16_to_g711_ulaw(sample)) as i32;
        let step = 8i32 << band_of(sample);
        let diff = (decoded - s).abs();
        assert!(
            diff <= step,
            "sample {} decoded to {} (diff {}, step {})",
            s,
            decoded,
            diff,
            step
        );
        s += 1;
    }
}

#[test]
fn round_trip_extremes() {
    for s in [0i16, 32635, -32635, i16::MAX, i16::MIN] {
        let decoded = g711_ulaw_to_pcm16(pcm16_to_g711_ulaw(s)) as i32;
        assert!((decoded - s as i32).abs() <= 1024);
    }
}

#[test]
fn encode_matches_reference_values() {
    // Silence encodes to 0xFF; full-scale magnitudes to 0x80 / 0x00.
    assert_eq!(pcm16_to_g711_ulaw(0), 0xFF);
    assert_eq!(pcm16_to_g711_ulaw(32635), 0x80);
    assert_eq!(pcm16_to_g711_ulaw(-32635), 0x00);
    // Clipping: beyond full scale the byte no longer changes.
    assert_eq!(pcm16_to_g711_ulaw(i16::MAX), 0x80);
    assert_eq!(pcm16_to_g711_ulaw(i16::MIN), 0x00);
    // Decode of the silence byte is exact.
    assert_eq!(g711_ulaw_to_pcm16(0xFF), 0);
}

/// The 3-bit exponent field of an encoded byte.
fn exponent_field(ulaw: u8) -> u8 {
    ((!ulaw) >> 4) & 0x07
}

#[test]
fn exponent_band_boundaries() {
    // Samples whose biased magnitude sits just below and at each band
    // boundary 0x100 * 2^e must select neighbouring exponents.
    let boundaries: [(i32, u8); 7] = [
        (0x00FF, 0),
        (0x01FF, 1),
        (0x03FF, 2),
        (0x07FF, 3),
        (0x0FFF, 4),
        (0x1FFF, 5),
        (0x3FFF, 6),
    ];
    for (m, e) in boundaries {
        let below = (m - 0x84) as i16;
        let at = (m + 1 - 0x84) as i16;
        assert_eq!(exponent_field(pcm16_to_g711_ulaw(below)), e);
        assert_eq!(exponent_field(pcm16_to_g711_ulaw(at)), e + 1);
        // The negative side selects the same bands.
        assert_eq!(exponent_field(pcm16_to_g711_ulaw(-below)), e);
        assert_eq!(exponent_field(pcm16_to_g711_ulaw(-at)), e + 1);
    }
}

#[test]
fn sequence_helpers_match_per_sample_codec() {
    let pcm: Vec<i16> = vec![0, 1, -1, 1000, -1000, 32767, -32768];
    let encoded = encode_samples(&pcm);
    assert_eq!(encoded.len(), pcm.len());
    for (i, &s) in pcm.iter().enumerate() {
        assert_eq!(encoded[i], pcm16_to_g711_ulaw(s));
    }
    let decoded = decode_samples(&encoded);
    assert_eq!(decoded.len(), encoded.len());
    for (i, &u) in encoded.iter().enumerate() {
        assert_eq!(decoded[i], g711_ulaw_to_pcm16(u));
    }
}
