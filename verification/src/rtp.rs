//! RTP framing and parsing: fixed 12-byte headers (version 2, no padding,
//! no extension, no contributing sources) followed by the payload.
//!
//! Sequence numbers and timestamps are big-endian on the wire; both wrap
//! in their fixed width.

use vstd::prelude::*;

verus! {

/// RTP payload type for G.711 mu-law ("PCMU").
pub const PAYLOAD_TYPE_PCMU: u8 = 0;

/// First header byte of every packet this engine builds: version 2,
/// no padding, no extension, no contributing sources.
pub const RTP_VERSION_BYTE: u8 = 0x80;

/// Header length when no extensions are present.
pub const RTP_HEADER_LEN: usize = 12;

/// Big-endian bytes of a 16-bit value.
pub open spec fn be16_bytes(x: u16) -> Seq<u8> {
    seq![(x / 0x100) as u8, (x % 0x100) as u8]
}

/// Big-endian bytes of a 32-bit value.
pub open spec fn be32_bytes(x: u32) -> Seq<u8> {
    seq![
        (x / 0x1000000) as u8,
        ((x / 0x10000) % 0x100) as u8,
        ((x / 0x100) % 0x100) as u8,
        (x % 0x100) as u8,
    ]
}

/// The wire bytes of an RTP packet as built by this engine.
pub open spec fn rtp_packet_bytes(
    payload_type: u8,
    seq: u16,
    ts: u32,
    ssrc: u32,
    payload: Seq<u8>,
) -> Seq<u8> {
    seq![RTP_VERSION_BYTE, payload_type] + be16_bytes(seq) + be32_bytes(ts) + be32_bytes(ssrc)
        + payload
}

/// The header fields and payload recovered from one datagram.
pub struct ParsedPacket {
    pub payload_type: u8,
    pub sequence_number: u16,
    pub timestamp: u32,
    pub ssrc: u32,
    pub payload: Vec<u8>,
}

/// The 7-bit payload-type field of a datagram with at least two bytes.
pub open spec fn datagram_payload_type(d: Seq<u8>) -> u8 {
    (d[1] % 0x80) as u8
}

/// The sequence number at byte offsets 2-3 of a datagram, big-endian.
pub open spec fn datagram_sequence_number(d: Seq<u8>) -> u16 {
    (d[2] * 0x100 + d[3]) as u16
}

/// The 32-bit big-endian value at byte offsets `off .. off + 4`.
pub open spec fn datagram_be32(d: Seq<u8>, off: int) -> u32 {
    (d[off] * 0x1000000 + d[off + 1] * 0x10000 + d[off + 2] * 0x100 + d[off + 3]) as u32
}

/// Build one RTP packet: fixed first byte, payload type, big-endian
/// sequence number, timestamp and SSRC, then the payload bytes.
pub fn build_rtp_packet(
    payload_type: u8,
    seq: u16,
    ts: u32,
    ssrc: u32,
    payload: &Vec<u8>,
) -> (r: Vec<u8>)
    requires
        payload_type < 0x80,
        payload@.len() + RTP_HEADER_LEN <= usize::MAX,
    ensures
        r@ == rtp_packet_bytes(payload_type, seq, ts, ssrc, payload@),
        r@.len() == RTP_HEADER_LEN + payload@.len(),
{
    let mut r: Vec<u8> = Vec::with_capacity(RTP_HEADER_LEN + payload.len());
    r.push(RTP_VERSION_BYTE);
    r.push(payload_type);
    r.push((seq / 0x100) as u8);
    r.push((seq % 0x100) as u8);
    r.push((ts / 0x1000000) as u8);
    r.push(((ts / 0x10000) % 0x100) as u8);
    r.push(((ts / 0x100) % 0x100) as u8);
    r.push((ts % 0x100) as u8);
    r.push((ssrc / 0x1000000) as u8);
    r.push(((ssrc / 0x10000) % 0x100) as u8);
    r.push(((ssrc / 0x100) % 0x100) as u8);
    r.push((ssrc % 0x100) as u8);
    r.extend_from_slice(payload.as_slice());
    proof {
        assert(r@ =~= rtp_packet_bytes(payload_type, seq, ts, ssrc, payload@));
    }
    r
}

/// Parse one received datagram. The only structural requirement is the
/// 12-byte minimum header; anything shorter is rejected (and the caller
/// drops it silently, as best-effort UDP demands).
pub fn parse_rtp_packet(datagram: &Vec<u8>) -> (r: Option<ParsedPacket>)
    ensures
        r is Some <==> datagram@.len() >= RTP_HEADER_LEN,
        r matches Some(p) ==> {
            &&& p.payload_type == datagram_payload_type(datagram@)
            &&& p.sequence_number == datagram_sequence_number(datagram@)
            &&& p.timestamp == datagram_be32(datagram@, 4)
            &&& p.ssrc == datagram_be32(datagram@, 8)
            &&& p.payload@ == datagram@.subrange(RTP_HEADER_LEN as int, datagram@.len() as int)
        },
{
    if datagram.len() < RTP_HEADER_LEN {
        return None;
    }
    let payload_type: u8 = datagram[1] % 0x80;
    let sequence_number: u16 = (datagram[2] as u16) * 0x100 + (datagram[3] as u16);
    let timestamp: u32 = (datagram[4] as u32) * 0x1000000 + (datagram[5] as u32) * 0x10000
        + (datagram[6] as u32) * 0x100 + (datagram[7] as u32);
    let ssrc: u32 = (datagram[8] as u32) * 0x1000000 + (datagram[9] as u32) * 0x10000
        + (datagram[10] as u32) * 0x100 + (datagram[11] as u32);
    let mut payload: Vec<u8> = Vec::new();
    let mut i: usize = RTP_HEADER_LEN;
    while i < datagram.len()
        invariant
            RTP_HEADER_LEN <= i <= datagram@.len(),
            payload@ == datagram@.subrange(RTP_HEADER_LEN as int, i as int),
        decreases datagram@.len() - i,
    {
        payload.push(datagram[i]);
        i = i + 1;
        proof {
            assert(payload@ =~= datagram@.subrange(RTP_HEADER_LEN as int, i as int));
        }
    }
    Some(ParsedPacket { payload_type, sequence_number, timestamp, ssrc, payload })
}

/// Parsing recovers exactly the fields a packet was built from: the
/// framer and the parser agree on the wire format.
pub proof fn lemma_build_parse_round_trip(
    payload_type: u8,
    seq: u16,
    ts: u32,
    ssrc: u32,
    payload: Seq<u8>,
)
    requires
        payload_type < 0x80,
    ensures
        ({
            let d = rtp_packet_bytes(payload_type, seq, ts, ssrc, payload);
            &&& d.len() >= RTP_HEADER_LEN
            &&& datagram_payload_type(d) == payload_type
            &&& datagram_sequence_number(d) == seq
            &&& datagram_be32(d, 4) == ts
            &&& datagram_be32(d, 8) == ssrc
            &&& d.subrange(RTP_HEADER_LEN as int, d.len() as int) == payload
        }),
{
    let d = rtp_packet_bytes(payload_type, seq, ts, ssrc, payload);
    assert(d.subrange(RTP_HEADER_LEN as int, d.len() as int) =~= payload);
    assert(datagram_payload_type(d) == payload_type) by {
        assert(payload_type % 0x80 == payload_type);
    }
    assert(d[2] * 0x100 + d[3] == seq) by {
        assert((seq / 0x100) * 0x100 + (seq % 0x100) == seq) by (nonlinear_arith);
        assert(seq / 0x100 < 0x100);
    }
    assert(d[4] * 0x1000000 + d[5] * 0x10000 + d[6] * 0x100 + d[7] == ts) by {
        lemma_be32_recompose(ts);
    }
    assert(d[8] * 0x1000000 + d[9] * 0x10000 + d[10] * 0x100 + d[11] == ssrc) by {
        lemma_be32_recompose(ssrc);
    }
}

/// A 32-bit value is recovered from its four big-endian bytes.
proof fn lemma_be32_recompose(x: u32)
    by (nonlinear_arith)
    ensures
        (x / 0x1000000) * 0x1000000 + ((x / 0x10000) % 0x100) * 0x10000 + ((x / 0x100) % 0x100)
            * 0x100 + (x % 0x100) == x,
        x / 0x1000000 < 0x100,
{
}

} // verus!
