//! G.711 mu-law codec: a stateless, sample-at-a-time transcoder between
//! 16-bit linear PCM and 8-bit mu-law bytes (RTP payload type 0, "PCMU").
//!
//! The companding law splits the biased magnitude of a sample into eight
//! exponent bands; band `e` quantizes magnitudes in steps of `8 * 2^e`.

use vstd::prelude::*;
use vstd::arithmetic::div_mod::{
    lemma_fundamental_div_mod,
    lemma_fundamental_div_mod_converse,
    lemma_mod_division_less_than_divisor,
};

verus! {

/// Bias added to a sample's magnitude before companding.
pub const BIAS: u16 = 0x84;

/// Largest magnitude encoded without clipping.
pub const CLIP: u16 = 32635;

/// `2^e` for the eight exponent bands `0 <= e <= 7`.
pub open spec fn scale_of(e: int) -> int {
    if e == 0 {
        1
    } else if e == 1 {
        2
    } else if e == 2 {
        4
    } else if e == 3 {
        8
    } else if e == 4 {
        16
    } else if e == 5 {
        32
    } else if e == 6 {
        64
    } else {
        128
    }
}

/// The magnitude that mu-law companding works on: the absolute value of
/// the sample, clipped to `CLIP`, plus `BIAS`.
pub open spec fn biased_magnitude(s: i16) -> int {
    let a = if s < 0 { -(s as int) } else { s as int };
    let c = if a > CLIP { CLIP as int } else { a };
    c + BIAS
}

/// The exponent band of a biased magnitude: the least `e` such that
/// `m` fits below `0x100 * 2^e`, capped at 7.
pub open spec fn exponent_of(m: int) -> int {
    if m < 0x100 {
        0
    } else if m < 0x200 {
        1
    } else if m < 0x400 {
        2
    } else if m < 0x800 {
        3
    } else if m < 0x1000 {
        4
    } else if m < 0x2000 {
        5
    } else if m < 0x4000 {
        6
    } else {
        7
    }
}

/// The mu-law byte for a linear sample: sign bit, 3-bit exponent and
/// 4-bit mantissa packed together, all bits inverted.
pub open spec fn ulaw_encode_spec(s: i16) -> u8 {
    let sign = if s < 0 { 128 } else { 0int };
    let m = biased_magnitude(s);
    let e = exponent_of(m);
    let mant = (m / (8 * scale_of(e))) % 16;
    (255 - (sign + 16 * e + mant)) as u8
}

/// The linear value a mu-law byte decodes to: un-invert the bits, unpack
/// sign, exponent and mantissa, rebuild the magnitude at the band's
/// midpoint, and remove the bias.
pub open spec fn ulaw_decode_spec(u: u8) -> int {
    let b = 255 - (u as int);
    let sign = b / 128;
    let e = (b / 16) % 8;
    let mant = b % 16;
    let mag = (mant * 8 + BIAS) * scale_of(e);
    if sign == 1 {
        -(mag - BIAS)
    } else {
        mag - BIAS
    }
}

/// Encode one 16-bit linear PCM sample as a G.711 mu-law byte.
pub fn pcm16_to_g711_ulaw(sample: i16) -> (r: u8)
    ensures
        r == ulaw_encode_spec(sample),
{
    let sign: u16 = if sample < 0 { 128 } else { 0 };
    let mag32: i32 = if sample < 0 {
        -(sample as i32)
    } else {
        sample as i32
    };
    let clipped: u16 = if mag32 > CLIP as i32 { CLIP } else { mag32 as u16 };
    let val: u16 = clipped + BIAS;
    let (exponent, mantissa): (u16, u16) = if val < 0x100 {
        (0, (val / 8) % 16)
    } else if val < 0x200 {
        (1, (val / 16) % 16)
    } else if val < 0x400 {
        (2, (val / 32) % 16)
    } else if val < 0x800 {
        (3, (val / 64) % 16)
    } else if val < 0x1000 {
        (4, (val / 128) % 16)
    } else if val < 0x2000 {
        (5, (val / 256) % 16)
    } else if val < 0x4000 {
        (6, (val / 512) % 16)
    } else {
        (7, (val / 1024) % 16)
    };
    (255 - (sign + 16 * exponent + mantissa)) as u8
}

/// A whole PCM sequence, sample by sample, as mu-law bytes.
pub open spec fn ulaw_encode_seq(s: Seq<i16>) -> Seq<u8> {
    s.map(|_i: int, x: i16| ulaw_encode_spec(x))
}

/// A whole mu-law byte sequence, byte by byte, as linear PCM samples.
pub open spec fn ulaw_decode_seq(s: Seq<u8>) -> Seq<i16> {
    s.map(|_i: int, u: u8| ulaw_decode_spec(u) as i16)
}

/// Encode every sample of a PCM sequence as G.711 mu-law.
pub fn encode_samples(pcm: &Vec<i16>) -> (r: Vec<u8>)
    ensures
        r@ == ulaw_encode_seq(pcm@),
{
    let mut r: Vec<u8> = Vec::with_capacity(pcm.len());
    let mut i: usize = 0;
    while i < pcm.len()
        invariant
            i <= pcm@.len(),
            r@.len() == i,
            forall|j: int| 0 <= j < i ==> r@[j] == ulaw_encode_spec(pcm@[j]),
        decreases pcm@.len() - i,
    {
        r.push(pcm16_to_g711_ulaw(pcm[i]));
        i = i + 1;
    }
    proof {
        assert(r@ =~= ulaw_encode_seq(pcm@));
    }
    r
}

/// Decode every byte of a G.711 mu-law sequence to linear PCM.
pub fn decode_samples(bytes: &Vec<u8>) -> (r: Vec<i16>)
    ensures
        r@ == ulaw_decode_seq(bytes@),
{
    let mut r: Vec<i16> = Vec::with_capacity(bytes.len());
    let mut i: usize = 0;
    while i < bytes.len()
        invariant
            i <= bytes@.len(),
            r@.len() == i,
            forall|j: int| 0 <= j < i ==> r@[j] == ulaw_decode_spec(bytes@[j]) as i16,
        decreases bytes@.len() - i,
    {
        r.push(g711_ulaw_to_pcm16(bytes[i]));
        i = i + 1;
    }
    proof {
        assert(r@ =~= ulaw_decode_seq(bytes@));
    }
    r
}

/// Decode one G.711 mu-law byte back to a 16-bit linear PCM sample.
pub fn g711_ulaw_to_pcm16(ulaw: u8) -> (r: i16)
    ensures
        r as int == ulaw_decode_spec(ulaw),
{
    let b: u16 = 255 - (ulaw as u16);
    let sign: u16 = b / 128;
    let exponent: u16 = (b / 16) % 8;
    let mantissa: u16 = b % 16;
    let base: u16 = mantissa * 8 + BIAS;
    let mag: u16 = match exponent {
        0 => base,
        1 => base * 2,
        2 => base * 4,
        3 => base * 8,
        4 => base * 16,
        5 => base * 32,
        6 => base * 64,
        _ => base * 128,
    };
    let lin: i16 = (mag - BIAS) as i16;
    if sign == 1 {
        -lin
    } else {
        lin
    }
}

/// The quantization step of the exponent band a sample is encoded in:
/// `8 * 2^e` for band `e`.
pub open spec fn quantization_step(s: i16) -> int {
    8 * scale_of(exponent_of(biased_magnitude(s)))
}

/// Within one exponent band, the magnitude the decoder reconstructs from
/// the 4-bit mantissa lands within half a quantization step above, or a
/// full half step below, the biased magnitude that was encoded.
proof fn lemma_band_reconstruction(m: int, sc: int)
    requires
        1 <= sc,
        128 * sc <= m < 256 * sc,
    ensures
        16 <= m / (8 * sc) < 32,
        (m / (8 * sc)) % 16 == m / (8 * sc) - 16,
        (((m / (8 * sc)) % 16) * 8 + 132) * sc - m <= 4 * sc,
        m - ((((m / (8 * sc)) % 16) * 8 + 132) * sc) < 4 * sc,
{
    let s8 = 8 * sc;
    lemma_fundamental_div_mod(m, s8);
    lemma_mod_division_less_than_divisor(m, s8);
    let q = m / s8;
    let r = m % s8;
    assert(16 <= q && q < 32) by (nonlinear_arith)
        requires
            m == s8 * q + r,
            0 <= r < s8,
            s8 == 8 * sc,
            1 <= sc,
            128 * sc <= m < 256 * sc,
    ;
    lemma_fundamental_div_mod_converse(q, 16, 1, q - 16);
    assert(((q - 16) * 8 + 132) * sc == s8 * q + 4 * sc) by (nonlinear_arith)
        requires
            s8 == 8 * sc,
    ;
}

/// Codec round trip: decoding an encoded sample reproduces the sample to
/// within the quantization step of its exponent band, over the whole
/// 16-bit range, extremes and clipped values included.
pub proof fn lemma_codec_round_trip(s: i16)
    ensures
        ulaw_decode_spec(ulaw_encode_spec(s)) - s <= quantization_step(s),
        s - ulaw_decode_spec(ulaw_encode_spec(s)) <= quantization_step(s),
{
    let a = if s < 0 { -(s as int) } else { s as int };
    let c = if a > CLIP { CLIP as int } else { a };
    let m = biased_magnitude(s);
    let e = exponent_of(m);
    let sc = scale_of(e);
    assert(132 <= m <= 32767);
    assert(128 * sc <= m < 256 * sc);
    lemma_band_reconstruction(m, sc);
    let q = m / (8 * sc);
    let mant = q % 16;
    let s1 = if s < 0 { 1int } else { 0int };
    let byte = 128 * s1 + 16 * e + mant;
    assert(0 <= 16 * e + mant < 128);
    assert(ulaw_encode_spec(s) as int == 255 - byte);
    lemma_fundamental_div_mod_converse(byte, 128, s1, 16 * e + mant);
    lemma_fundamental_div_mod_converse(byte, 16, 8 * s1 + e, mant);
    lemma_fundamental_div_mod_converse(8 * s1 + e, 8, s1, e);
    let mag = (mant * 8 + 132) * sc;
    assert(ulaw_decode_spec(ulaw_encode_spec(s)) == if s1 == 1 {
        -(mag - 132)
    } else {
        mag - 132
    });
    if a > CLIP {
        assert(m == 32767);
        assert(sc == 128);
        assert(a - c <= 133);
    }
}

} // verus!
