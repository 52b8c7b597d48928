//! Egress / announcement pipeline: turns a stored PCM sample sequence
//! into a compliant PCMU RTP stream, 160 samples (20 ms at 8000 Hz) per
//! frame, with a final partial frame sized to the remaining samples.
//!
//! The stream's sequence number and timestamp are owned exclusively by
//! the stream value; the sequence number advances by 1 per frame and the
//! timestamp by the sample count of the frame, each wrapping in its
//! width. Pacing the frames to wall-clock time is the caller's job: one
//! frame is handed out per 20 ms tick.

use vstd::prelude::*;
use crate::codec::{ulaw_encode_seq, encode_samples};
use crate::entropy::random_u32;
use crate::rtp::{
    build_rtp_packet,
    datagram_be32,
    datagram_sequence_number,
    lemma_build_parse_round_trip,
    rtp_packet_bytes,
    PAYLOAD_TYPE_PCMU,
    RTP_HEADER_LEN,
};
use vstd::arithmetic::div_mod::{lemma_add_mod_noop, lemma_small_mod};

verus! {

/// Samples per RTP frame: 20 ms at 8000 Hz, the standard G.711
/// packetization.
pub const SAMPLES_PER_FRAME: usize = 160;

/// Sample rate the announcement source must declare.
pub const REQUIRED_SAMPLE_RATE: u32 = 8000;

/// Channel count the announcement source must declare.
pub const REQUIRED_CHANNELS: u16 = 1;

/// Bit depth the announcement source must declare.
pub const REQUIRED_BITS_PER_SAMPLE: u16 = 16;

/// A nonnegative value reduced into 16 bits.
pub open spec fn wrap_u16(x: int) -> u16 {
    (x % 0x10000) as u16
}

/// A nonnegative value reduced into 32 bits.
pub open spec fn wrap_u32(x: int) -> u32 {
    (x % 0x100000000) as u32
}

/// How many frames a source of `n` samples yields: one per 160 samples,
/// and one more for a final partial frame.
pub open spec fn frame_count(n: int) -> int {
    (n + 159) / 160
}

/// The payload of frame `i` of an encoded sample sequence: bytes
/// `160 * i` up to `160 * (i + 1)`, cut short at the end of the source.
pub open spec fn frame_payload(enc: Seq<u8>, i: int) -> Seq<u8> {
    let end = if 160 * (i + 1) <= enc.len() { 160 * (i + 1) } else { enc.len() as int };
    enc.subrange(160 * i, end)
}

/// Whether an announcement source's declared format is the one the
/// engine can stream: mono, 16-bit, 8000 Hz linear PCM. Any other format
/// is a configuration error and playback must be aborted.
pub fn announcement_format_ok(channels: u16, sample_rate: u32, bits_per_sample: u16) -> (ok:
    bool)
    ensures
        ok == (channels == REQUIRED_CHANNELS && sample_rate == REQUIRED_SAMPLE_RATE
            && bits_per_sample == REQUIRED_BITS_PER_SAMPLE),
{
    channels == REQUIRED_CHANNELS && sample_rate == REQUIRED_SAMPLE_RATE && bits_per_sample
        == REQUIRED_BITS_PER_SAMPLE
}

/// One outbound RTP stream: a fixed synchronization source identifier
/// and the stream-local sequence number and timestamp counters.
pub struct EgressStream {
    /// Synchronization source identifier, constant for the stream's life.
    pub ssrc: u32,
    /// Sequence number of the next frame to send; wraps in 16 bits.
    pub sequence_number: u16,
    /// Timestamp of the next frame to send; wraps in 32 bits.
    pub timestamp: u32,
}

impl EgressStream {
    /// A stream with the given identity and initial counters.
    pub fn new(ssrc: u32, sequence_number: u16, timestamp: u32) -> (r: EgressStream)
        ensures
            r.ssrc == ssrc,
            r.sequence_number == sequence_number,
            r.timestamp == timestamp,
    {
        EgressStream { ssrc, sequence_number, timestamp }
    }

    /// A stream with a random identity and random initial counters, as a
    /// fresh announcement stream starts. Nothing is promised of the
    /// drawn values: every contract downstream holds for any of them.
    pub fn new_random() -> (r: EgressStream) {
        let ssrc = random_u32();
        let sequence_number = (random_u32() % 0x10000) as u16;
        let timestamp = random_u32();
        EgressStream { ssrc, sequence_number, timestamp }
    }

    /// Frame one payload as the stream's next PCMU packet and advance
    /// the counters: the sequence number by 1 (mod 2^16), the timestamp
    /// by the payload's sample count (mod 2^32).
    pub fn next_packet(&mut self, payload: &Vec<u8>) -> (r: Vec<u8>)
        requires
            payload@.len() + RTP_HEADER_LEN <= usize::MAX,
            payload@.len() <= u32::MAX,
        ensures
            r@ == rtp_packet_bytes(
                PAYLOAD_TYPE_PCMU,
                old(self).sequence_number,
                old(self).timestamp,
                old(self).ssrc,
                payload@,
            ),
            final(self).ssrc == old(self).ssrc,
            final(self).sequence_number == wrap_u16(old(self).sequence_number + 1),
            final(self).timestamp == wrap_u32(old(self).timestamp + payload@.len()),
    {
        let r = build_rtp_packet(
            PAYLOAD_TYPE_PCMU,
            self.sequence_number,
            self.timestamp,
            self.ssrc,
            payload,
        );
        proof {
            lemma_wrap_u16_small(self.sequence_number + 1);
            lemma_wrap_u32_small(self.timestamp + payload@.len());
        }
        self.sequence_number = self.sequence_number.wrapping_add(1);
        self.timestamp = self.timestamp.wrapping_add(payload.len() as u32);
        r
    }
}

/// For sums that overflow their width at most once, reduction is one
/// subtraction of the modulus.
proof fn lemma_wrap_u16_small(x: int)
    requires
        0 <= x < 0x20000,
    ensures
        wrap_u16(x) == if x < 0x10000 { x } else { x - 0x10000 },
{
    if x < 0x10000 {
        lemma_small_mod(x as nat, 0x10000);
    } else {
        lemma_small_mod((x - 0x10000) as nat, 0x10000);
        lemma_add_mod_noop(x - 0x10000, 0x10000, 0x10000);
    }
}

/// As `lemma_wrap_u16_small`, in 32 bits.
proof fn lemma_wrap_u32_small(x: int)
    requires
        0 <= x < 0x200000000,
    ensures
        wrap_u32(x) == if x < 0x100000000 { x } else { x - 0x100000000 },
{
    if x < 0x100000000 {
        lemma_small_mod(x as nat, 0x100000000);
    } else {
        lemma_small_mod((x - 0x100000000) as nat, 0x100000000);
        lemma_add_mod_noop(x - 0x100000000, 0x100000000, 0x100000000);
    }
}

/// Reducing a running total is the same as reducing after each step:
/// the algebra behind the stream counters' wrapping advance.
proof fn lemma_wrap_step(base: int, d: int)
    requires
        0 <= base,
        0 <= d,
    ensures
        wrap_u16(wrap_u16(base) + d) == wrap_u16(base + d),
        wrap_u32(wrap_u32(base) + d) == wrap_u32(base + d),
{
    lemma_add_mod_noop(base, d, 0x10000);
    lemma_add_mod_noop(wrap_u16(base) as int, d, 0x10000);
    lemma_small_mod(wrap_u16(base) as nat, 0x10000);
    lemma_add_mod_noop(base, d, 0x100000000);
    lemma_add_mod_noop(wrap_u32(base) as int, d, 0x100000000);
    lemma_small_mod(wrap_u32(base) as nat, 0x100000000);
}

/// The bytes of the frame a playback plan sends at one position, as
/// `plan_playback` promises them.
pub open spec fn planned_frame(start: EgressStream, enc: Seq<u8>, i: int) -> Seq<u8> {
    rtp_packet_bytes(
        PAYLOAD_TYPE_PCMU,
        wrap_u16(start.sequence_number + i),
        wrap_u32(start.timestamp + 160 * i),
        start.ssrc,
        frame_payload(enc, i),
    )
}

/// Sequence/timestamp monotonicity across one egress stream: between
/// consecutive planned frames, the sequence number on the wire advances
/// by exactly 1 (mod 2^16) and the wire timestamp by the sample count
/// of the previous, full frame (mod 2^32).
pub proof fn lemma_playback_monotonic(start: EgressStream, enc: Seq<u8>, i: int)
    requires
        0 <= i,
        160 * (i + 1) <= enc.len(),
    ensures
        ({
            let prev = planned_frame(start, enc, i);
            let next = planned_frame(start, enc, i + 1);
            &&& datagram_sequence_number(next) == wrap_u16(
                datagram_sequence_number(prev) + 1,
            )
            &&& datagram_be32(next, 4) == wrap_u32(
                datagram_be32(prev, 4) + frame_payload(enc, i).len(),
            )
        }),
{
    lemma_build_parse_round_trip(
        PAYLOAD_TYPE_PCMU,
        wrap_u16(start.sequence_number + i),
        wrap_u32(start.timestamp + 160 * i),
        start.ssrc,
        frame_payload(enc, i),
    );
    lemma_build_parse_round_trip(
        PAYLOAD_TYPE_PCMU,
        wrap_u16(start.sequence_number + (i + 1)),
        wrap_u32(start.timestamp + 160 * (i + 1)),
        start.ssrc,
        frame_payload(enc, i + 1),
    );
    lemma_wrap_step(start.sequence_number + i, 1);
    lemma_wrap_step(start.timestamp + 160 * i, 160);
    assert(frame_payload(enc, i).len() == 160);
}

/// The bytes of a sub-run of a source vector.
fn copy_range(src: &Vec<u8>, start: usize, end: usize) -> (r: Vec<u8>)
    requires
        start <= end <= src@.len(),
    ensures
        r@ == src@.subrange(start as int, end as int),
{
    let mut r: Vec<u8> = Vec::with_capacity(end - start);
    let mut i: usize = start;
    while i < end
        invariant
            start <= i <= end <= src@.len(),
            r@ == src@.subrange(start as int, i as int),
        decreases end - i,
    {
        r.push(src[i]);
        i = i + 1;
        proof {
            assert(r@ =~= src@.subrange(start as int, i as int));
        }
    }
    r
}

/// Plan a whole announcement playback: encode the PCM source to mu-law,
/// cut it into 160-sample frames (the last one partial), and frame each
/// as the stream's next RTP packet. The caller sends one planned packet
/// per 20 ms tick, in order.
pub fn plan_playback(pcm: &Vec<i16>, stream: &mut EgressStream) -> (frames: Vec<Vec<u8>>)
    ensures
        frames@.len() == frame_count(pcm@.len() as int),
        forall|i: int|
            0 <= i < frames@.len() ==> frames@[i]@ == planned_frame(
                *old(stream),
                ulaw_encode_seq(pcm@),
                i,
            ),
        final(stream).ssrc == old(stream).ssrc,
        final(stream).sequence_number == wrap_u16(
            old(stream).sequence_number + frames@.len(),
        ),
        final(stream).timestamp == wrap_u32(old(stream).timestamp + pcm@.len()),
{
    let encoded: Vec<u8> = encode_samples(pcm);
    let mut frames: Vec<Vec<u8>> = Vec::new();
    let mut pos: usize = 0;
    proof {
        lemma_small_mod(stream.sequence_number as nat, 0x10000);
        lemma_small_mod(stream.timestamp as nat, 0x100000000);
    }
    while pos < encoded.len()
        invariant
            encoded@ == ulaw_encode_seq(pcm@),
            encoded@.len() == pcm@.len(),
            pos <= encoded@.len(),
            pos < encoded@.len() ==> pos == 160 * frames@.len(),
            pos == encoded@.len() ==> frames@.len() == frame_count(encoded@.len() as int),
            stream.ssrc == old(stream).ssrc,
            stream.sequence_number == wrap_u16(old(stream).sequence_number + frames@.len()),
            stream.timestamp == wrap_u32(old(stream).timestamp + pos),
            forall|i: int|
                0 <= i < frames@.len() ==> frames@[i]@ == planned_frame(
                    *old(stream),
                    ulaw_encode_seq(pcm@),
                    i,
                ),
        decreases encoded@.len() - pos,
    {
        let ghost k: int = frames@.len() as int;
        let end: usize = if SAMPLES_PER_FRAME <= encoded.len() && pos <= encoded.len()
            - SAMPLES_PER_FRAME {
            pos + SAMPLES_PER_FRAME
        } else {
            encoded.len()
        };
        let chunk = copy_range(&encoded, pos, end);
        proof {
            assert(chunk@ == frame_payload(ulaw_encode_seq(pcm@), k));
            lemma_wrap_step(old(stream).sequence_number + k, 1);
            lemma_wrap_step(old(stream).timestamp + pos, (end - pos) as int);
        }
        let pkt = stream.next_packet(&chunk);
        frames.push(pkt);
        pos = end;
        proof {
            if pos == encoded@.len() {
                assert(frames@.len() == frame_count(encoded@.len() as int));
            }
        }
    }
    frames
}

} // verus!
