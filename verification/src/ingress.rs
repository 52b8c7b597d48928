//! Ingress pipeline: per-session accumulation of decoded audio.
//!
//! Every received datagram is parsed as RTP; PCMU payloads are decoded
//! sample by sample and appended to the session's accumulator under the
//! datagram's stream source identifier (SSRC). Malformed datagrams and
//! other payload types are dropped without touching the accumulated
//! audio, and never end the session. The first datagram, whatever its
//! shape, reveals the remote peer and triggers the announcement playback
//! exactly once.

use vstd::prelude::*;
use crate::codec::{ulaw_decode_seq, decode_samples};
use crate::rtp::{
    datagram_be32,
    datagram_payload_type,
    parse_rtp_packet,
    PAYLOAD_TYPE_PCMU,
    RTP_HEADER_LEN,
};

verus! {

/// Per-session store of decoded audio: for each stream source
/// identifier, the append-only sequence of decoded 16-bit PCM samples,
/// in arrival order.
pub struct AudioAccumulator {
    entries: Vec<(u32, Vec<i16>)>,
}

/// The samples recorded for a key in a run of entries, scanning from the
/// most recent entry.
spec fn lookup(s: Seq<(u32, Vec<i16>)>, k: u32) -> Option<Seq<i16>>
    decreases s.len(),
{
    if s.len() == 0 {
        Option::None
    } else if s.last().0 == k {
        Option::Some(s.last().1@)
    } else {
        lookup(s.drop_last(), k)
    }
}

/// Entry keys are mutually distinct.
spec fn distinct_keys(s: Seq<(u32, Vec<i16>)>) -> bool {
    forall|i: int, j: int| 0 <= i < j < s.len() ==> s[i].0 != s[j].0
}

/// A key misses exactly when no entry carries it.
proof fn lemma_lookup_misses(s: Seq<(u32, Vec<i16>)>, k: u32)
    ensures
        lookup(s, k) is None <==> (forall|i: int| 0 <= i < s.len() ==> s[i].0 != k),
    decreases s.len(),
{
    if s.len() > 0 {
        lemma_lookup_misses(s.drop_last(), k);
        assert(forall|i: int|
            0 <= i < s.len() - 1 ==> s.drop_last()[i] == s[i]);
    }
}

/// Replacing the one entry that carries a key changes that key's record
/// and no other.
proof fn lemma_lookup_update(s: Seq<(u32, Vec<i16>)>, i: int, e: (u32, Vec<i16>), k: u32)
    requires
        distinct_keys(s),
        0 <= i < s.len(),
        s[i].0 == e.0,
    ensures
        lookup(s.update(i, e), k) == if k == e.0 {
            Option::Some(e.1@)
        } else {
            lookup(s, k)
        },
    decreases s.len(),
{
    let t = s.update(i, e);
    if i == s.len() - 1 {
        assert(t.last() == e);
        if k != e.0 {
            assert(t.drop_last() =~= s.drop_last());
        }
    } else {
        assert(t.last() == s.last());
        assert(s.last().0 != e.0);
        assert(t.drop_last() =~= s.drop_last().update(i, e));
        assert(distinct_keys(s.drop_last())) by {
            assert(forall|a: int, b: int|
                0 <= a < b < s.len() - 1 ==> s.drop_last()[a].0 != s.drop_last()[b].0);
        }
        assert(s.drop_last()[i] == s[i]);
        lemma_lookup_update(s.drop_last(), i, e, k);
        if k == s.last().0 {
            assert(k != e.0);
        }
    }
}

impl AudioAccumulator {
    /// Internal consistency: one entry per stream source identifier.
    pub closed spec fn well_formed(&self) -> bool {
        distinct_keys(self.entries@)
    }

    /// Whether any samples have been recorded for a stream.
    pub closed spec fn spec_contains(&self, ssrc: u32) -> bool {
        lookup(self.entries@, ssrc) is Some
    }

    /// The samples recorded for a stream, in arrival order; empty for a
    /// stream never heard from.
    pub closed spec fn spec_samples(&self, ssrc: u32) -> Seq<i16> {
        match lookup(self.entries@, ssrc) {
            Option::Some(v) => v,
            Option::None => Seq::empty(),
        }
    }

    /// How many distinct streams have samples recorded.
    pub closed spec fn spec_stream_count(&self) -> int {
        self.entries@.len() as int
    }

    /// The stream source identifier recorded at one position.
    pub closed spec fn spec_ssrc_at(&self, i: int) -> u32 {
        self.entries@[i].0
    }

    /// An empty accumulator.
    pub fn new() -> (r: AudioAccumulator)
        ensures
            r.well_formed(),
            r.spec_stream_count() == 0,
            forall|k: u32| !r.spec_contains(k),
            forall|k: u32| r.spec_samples(k) == Seq::<i16>::empty(),
    {
        AudioAccumulator { entries: Vec::new() }
    }

    /// The position of a stream's entry, if one exists.
    fn find_entry(&self, ssrc: u32) -> (r: Option<usize>)
        ensures
            match r {
                Some(i) => i < self.entries@.len() && self.entries@[i as int].0 == ssrc,
                None => forall|i: int|
                    0 <= i < self.entries@.len() ==> self.entries@[i].0 != ssrc,
            },
    {
        let mut i: usize = 0;
        while i < self.entries.len()
            invariant
                i <= self.entries@.len(),
                forall|j: int| 0 <= j < i ==> self.entries@[j].0 != ssrc,
            decreases self.entries@.len() - i,
        {
            if self.entries[i].0 == ssrc {
                return Some(i);
            }
            i = i + 1;
        }
        None
    }

    /// Append decoded samples to one stream's record, creating the
    /// record on first use; every other stream's record is untouched.
    pub fn append(&mut self, ssrc: u32, samples: &Vec<i16>)
        requires
            old(self).well_formed(),
        ensures
            final(self).well_formed(),
            final(self).spec_contains(ssrc),
            final(self).spec_samples(ssrc) == old(self).spec_samples(ssrc) + samples@,
            forall|k: u32|
                k != ssrc ==> final(self).spec_contains(k) == old(self).spec_contains(k),
            forall|k: u32|
                k != ssrc ==> final(self).spec_samples(k) == old(self).spec_samples(k),
            final(self).spec_stream_count() == old(self).spec_stream_count() + (
            if old(self).spec_contains(ssrc) {
                0int
            } else {
                1int
            }),
    {
        let ghost s0 = self.entries@;
        match self.find_entry(ssrc) {
            Some(i) => {
                proof {
                    lemma_lookup_misses(s0, ssrc);
                }
                let mut entry = self.entries.remove(i);
                entry.1.extend_from_slice(samples.as_slice());
                let ghost e = entry;
                self.entries.insert(i, entry);
                proof {
                    assert(self.entries@ =~= s0.update(i as int, e));
                    assert(forall|k: u32|
                        lookup(s0.update(i as int, e), k) == if k == ssrc {
                            Option::Some(e.1@)
                        } else {
                            #[trigger] lookup(s0, k)
                        }) by {
                        assert forall|k: u32|
                            lookup(s0.update(i as int, e), k) == if k == ssrc {
                                Option::Some(e.1@)
                            } else {
                                lookup(s0, k)
                            } by {
                            lemma_lookup_update(s0, i as int, e, k);
                        }
                    }
                    assert(distinct_keys(self.entries@));
                    assert(e.1@ == s0[i as int].1@ + samples@);
                    assert(lookup(s0, ssrc) == Option::Some(s0[i as int].1@)) by {
                        lemma_lookup_update(s0, i as int, s0[i as int], ssrc);
                        assert(s0.update(i as int, s0[i as int]) =~= s0);
                    }
                }
            },
            None => {
                proof {
                    lemma_lookup_misses(s0, ssrc);
                }
                self.entries.push((ssrc, samples.clone()));
                proof {
                    assert(self.entries@.drop_last() =~= s0);
                    assert(self.entries@.last().1@ == samples@);
                    assert(forall|k: u32|
                        k != ssrc ==> #[trigger] lookup(self.entries@, k) == lookup(s0, k));
                    assert(distinct_keys(self.entries@));
                }
            },
        }
    }

    /// How many streams have samples recorded.
    pub fn stream_count(&self) -> (n: usize)
        ensures
            n == self.spec_stream_count(),
    {
        self.entries.len()
    }

    /// The stream source identifier of the entry at one position, for
    /// enumerating the accumulated audio at shutdown.
    pub fn ssrc_at(&self, i: usize) -> (ssrc: u32)
        requires
            i < self.spec_stream_count(),
        ensures
            ssrc == self.spec_ssrc_at(i as int),
            self.spec_contains(ssrc),
    {
        proof {
            lemma_lookup_misses(self.entries@, self.entries@[i as int].0);
        }
        self.entries[i].0
    }

    /// The samples recorded for a stream, if any.
    pub fn get(&self, ssrc: u32) -> (r: Option<&Vec<i16>>)
        requires
            self.well_formed(),
        ensures
            match r {
                Some(v) => self.spec_contains(ssrc) && v@ == self.spec_samples(ssrc),
                None => !self.spec_contains(ssrc),
            },
    {
        let ghost s0 = self.entries@;
        match self.find_entry(ssrc) {
            Some(i) => {
                proof {
                    lemma_lookup_update(s0, i as int, s0[i as int], ssrc);
                    assert(s0.update(i as int, s0[i as int]) =~= s0);
                }
                Some(&self.entries[i].1)
            },
            None => {
                proof {
                    lemma_lookup_misses(s0, ssrc);
                }
                None
            },
        }
    }
}

/// What one ingress step asks of the caller: start the announcement
/// playback towards the newly learned peer, or nothing.
#[derive(Clone, Copy, Debug, PartialEq, Eq, Structural)]
pub enum IngressAction {
    StartPlayback,
    NoAction,
}

/// Whether a datagram is a structurally valid PCMU packet: at least a
/// full header, payload type 0.
pub open spec fn is_pcmu_datagram(d: Seq<u8>) -> bool {
    d.len() >= RTP_HEADER_LEN && datagram_payload_type(d) == PAYLOAD_TYPE_PCMU
}

/// The decoded samples a datagram contributes, keyed by its SSRC field.
pub open spec fn datagram_samples(d: Seq<u8>) -> Seq<i16> {
    ulaw_decode_seq(d.subrange(RTP_HEADER_LEN as int, d.len() as int))
}

/// One RTP session's ingress state: the bound port, whether the remote
/// peer has been learned yet, and the accumulated decoded audio.
pub struct IngressSession {
    port: u16,
    peer_learned: bool,
    accumulator: AudioAccumulator,
}

impl IngressSession {
    /// Internal consistency of the accumulated audio.
    pub closed spec fn well_formed(&self) -> bool {
        self.accumulator.well_formed()
    }

    /// Whether a datagram has been received, and with it the remote
    /// peer's address learned.
    pub closed spec fn spec_peer_learned(&self) -> bool {
        self.peer_learned
    }

    /// The UDP port this session is bound to.
    pub closed spec fn spec_port(&self) -> u16 {
        self.port
    }

    /// The UDP port this session is bound to.
    pub fn port(&self) -> (p: u16)
        ensures
            p == self.spec_port(),
    {
        self.port
    }

    /// Whether a stream has samples accumulated in this session.
    pub closed spec fn spec_contains(&self, ssrc: u32) -> bool {
        self.accumulator.spec_contains(ssrc)
    }

    /// The samples accumulated for a stream in this session.
    pub closed spec fn spec_samples(&self, ssrc: u32) -> Seq<i16> {
        self.accumulator.spec_samples(ssrc)
    }

    /// A fresh session on a bound port: no peer, no audio.
    pub fn new(port: u16) -> (r: IngressSession)
        ensures
            r.well_formed(),
            r.spec_port() == port,
            !r.spec_peer_learned(),
            forall|k: u32| !r.spec_contains(k),
            forall|k: u32| r.spec_samples(k) == Seq::<i16>::empty(),
    {
        IngressSession { port, peer_learned: false, accumulator: AudioAccumulator::new() }
    }

    /// The accumulated audio, for the shutdown flush.
    pub fn accumulator(&self) -> (r: &AudioAccumulator)
        ensures
            forall|k: u32| r.spec_contains(k) == self.spec_contains(k),
            forall|k: u32| r.spec_samples(k) == self.spec_samples(k),
    {
        &self.accumulator
    }

    /// Take one received datagram. The first datagram of the session,
    /// whatever its shape, asks the caller to start the announcement
    /// playback towards its source, exactly once. A structurally valid
    /// PCMU datagram has its payload decoded and appended under its
    /// SSRC; anything else leaves the audio untouched and the session
    /// running.
    pub fn on_datagram(&mut self, datagram: &Vec<u8>) -> (action: IngressAction)
        requires
            old(self).well_formed(),
        ensures
            final(self).well_formed(),
            final(self).spec_port() == old(self).spec_port(),
            action is StartPlayback <==> !old(self).spec_peer_learned(),
            final(self).spec_peer_learned(),
            is_pcmu_datagram(datagram@) ==> {
                let ssrc = datagram_be32(datagram@, 8);
                &&& final(self).spec_contains(ssrc)
                &&& final(self).spec_samples(ssrc) == old(self).spec_samples(ssrc)
                    + datagram_samples(datagram@)
                &&& forall|k: u32|
                    k != ssrc ==> final(self).spec_samples(k) == old(self).spec_samples(k)
                &&& forall|k: u32|
                    k != ssrc ==> final(self).spec_contains(k) == old(self).spec_contains(k)
            },
            !is_pcmu_datagram(datagram@) ==> {
                &&& forall|k: u32| final(self).spec_samples(k) == old(self).spec_samples(k)
                &&& forall|k: u32| final(self).spec_contains(k) == old(self).spec_contains(k)
            },
    {
        let action = if self.peer_learned {
            IngressAction::NoAction
        } else {
            IngressAction::StartPlayback
        };
        self.peer_learned = true;
        match parse_rtp_packet(datagram) {
            Some(packet) => {
                if packet.payload_type == PAYLOAD_TYPE_PCMU {
                    let decoded = decode_samples(&packet.payload);
                    self.accumulator.append(packet.ssrc, &decoded);
                }
            },
            None => {},
        }
        action
    }
}

} // verus!
