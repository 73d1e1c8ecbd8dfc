//! The two datagrams between client agent and aggregator.
//!
//! Both are fixed-width, fields little-endian:
//!
//! `Heartbeat` (5 bytes): seed i32 @0, wants_country u8 @4.
//! `Stats` (`STATS_LEN` bytes): connected u32 @0, seed i32 @4, then one
//! 32-bit word per heatmap entry, `COUNTRY_COUNT` of them. A heatmap word
//! is the IEEE 754 bit pattern of the entry's single-precision value.
use vstd::prelude::*;

use crate::bytes::{lemma_u32_round_trip, push_u32, read_u32, u32_at, u32_le};
use crate::country::COUNTRY_COUNT;

verus! {

/// Length of an encoded `Heartbeat`.
pub const HEARTBEAT_LEN: usize = 5;

/// Length of an encoded `Stats`.
pub const STATS_LEN: usize = 1008;

/// Client to aggregator: the client's seed, and the country whose
/// statistics it asks for (0: no reply wanted).
#[derive(Clone, Copy, Debug, PartialEq, Eq, Structural)]
pub struct Heartbeat {
    pub seed: i32,
    pub wants_country: u8,
}

/// Aggregator to client: the requested country's active count and seed,
/// and one heatmap word per country code.
#[derive(Clone, Debug)]
pub struct Stats {
    pub connected: u32,
    pub seed: i32,
    pub country_heatmap: Vec<u32>,
}

/// Why a datagram could not be decoded.
#[derive(Clone, Copy, Debug, PartialEq, Eq, Structural)]
pub enum DecodeError {
    /// Fewer bytes than the message holds.
    Truncated,
    /// More bytes than the message holds.
    TrailingBytes,
}

/// What a `Stats` holds, as mathematical values.
pub struct StatsView {
    pub connected: u32,
    pub seed: i32,
    pub country_heatmap: Seq<u32>,
}

impl View for Stats {
    type V = StatsView;

    open spec fn view(&self) -> StatsView {
        StatsView {
            connected: self.connected,
            seed: self.seed,
            country_heatmap: self.country_heatmap@,
        }
    }
}

impl Heartbeat {
    /// Whether the sender waits for a `Stats` reply.
    pub fn wants_reply(&self) -> (r: bool)
        ensures
            r == (self.wants_country != 0),
    {
        self.wants_country != 0
    }
}

/// The encoding of a heartbeat.
pub open spec fn heartbeat_bytes(h: Heartbeat) -> Seq<u8> {
    u32_le(h.seed as u32) + seq![h.wants_country]
}

/// The heartbeat read from exactly five bytes.
pub open spec fn heartbeat_of(b: Seq<u8>) -> Heartbeat {
    Heartbeat { seed: u32_at(b, 0) as i32, wants_country: b[4] }
}

/// Consecutive little-endian words.
pub open spec fn words_le(w: Seq<u32>) -> Seq<u8>
    decreases w.len(),
{
    if w.len() == 0 {
        Seq::empty()
    } else {
        words_le(w.drop_last()) + u32_le(w.last())
    }
}

/// The encoding of a stats reply.
pub open spec fn stats_bytes(s: StatsView) -> Seq<u8> {
    u32_le(s.connected) + u32_le(s.seed as u32) + words_le(s.country_heatmap)
}

/// The stats reply read from exactly `STATS_LEN` bytes.
pub open spec fn stats_of(b: Seq<u8>) -> StatsView {
    StatsView {
        connected: u32_at(b, 0),
        seed: u32_at(b, 4) as i32,
        country_heatmap: Seq::new(COUNTRY_COUNT as nat, |i: int| u32_at(b, 8 + 4 * i)),
    }
}

proof fn lemma_words_le(w: Seq<u32>, i: int)
    requires
        0 <= i < w.len(),
    ensures
        words_le(w).len() == 4 * w.len(),
        words_le(w).subrange(4 * i, 4 * i + 4) == u32_le(w[i]),
    decreases w.len(),
{
    lemma_words_len(w);
    let p = words_le(w.drop_last());
    lemma_words_len(w.drop_last());
    if i == w.len() - 1 {
        assert(words_le(w).subrange(4 * i, 4 * i + 4) =~= u32_le(w[i]));
    } else {
        lemma_words_le(w.drop_last(), i);
        assert(words_le(w).subrange(4 * i, 4 * i + 4) =~= p.subrange(4 * i, 4 * i + 4));
    }
}

proof fn lemma_words_len(w: Seq<u32>)
    ensures
        words_le(w).len() == 4 * w.len(),
    decreases w.len(),
{
    if w.len() > 0 {
        lemma_words_len(w.drop_last());
    }
}

proof fn lemma_i32_u32(v: i32)
    ensures
        (v as u32) as i32 == v,
{
    assert((v as u32) as i32 == v) by (bit_vector);
}

/// The fields of a heartbeat as they go on the wire.
pub fn encode_heartbeat(h: &Heartbeat) -> (out: Vec<u8>)
    ensures
        out@ == heartbeat_bytes(*h),
{
    let mut out: Vec<u8> = Vec::new();
    push_u32(&mut out, h.seed as u32);
    out.push(h.wants_country);
    assert(out@ =~= heartbeat_bytes(*h));
    out
}

/// The heartbeat in a datagram: exactly `HEARTBEAT_LEN` bytes.
pub fn decode_heartbeat(b: &[u8]) -> (r: Result<Heartbeat, DecodeError>)
    ensures
        b@.len() < HEARTBEAT_LEN <==> r == Err::<Heartbeat, DecodeError>(DecodeError::Truncated),
        b@.len() > HEARTBEAT_LEN <==> r == Err::<Heartbeat, DecodeError>(
            DecodeError::TrailingBytes,
        ),
        b@.len() == HEARTBEAT_LEN <==> r == Ok::<Heartbeat, DecodeError>(heartbeat_of(b@)),
{
    if b.len() < HEARTBEAT_LEN {
        Err(DecodeError::Truncated)
    } else if b.len() > HEARTBEAT_LEN {
        Err(DecodeError::TrailingBytes)
    } else {
        Ok(Heartbeat { seed: #[verifier::truncate] (read_u32(b, 0) as i32), wants_country: b[4] })
    }
}

/// The fields of a stats reply as they go on the wire.
pub fn encode_stats(s: &Stats) -> (out: Vec<u8>)
    ensures
        out@ == stats_bytes(s@),
{
    let mut out: Vec<u8> = Vec::new();
    push_u32(&mut out, s.connected);
    push_u32(&mut out, s.seed as u32);
    let mut i: usize = 0;
    while i < s.country_heatmap.len()
        invariant
            i <= s.country_heatmap@.len(),
            out@ == u32_le(s.connected) + u32_le(s.seed as u32) + words_le(
                s.country_heatmap@.subrange(0, i as int),
            ),
        decreases s.country_heatmap@.len() - i,
    {
        push_u32(&mut out, s.country_heatmap[i]);
        i += 1;
        assert(s.country_heatmap@.subrange(0, i as int).drop_last() =~= s.country_heatmap@.subrange(
            0,
            i - 1,
        ));
        assert(out@ =~= u32_le(s.connected) + u32_le(s.seed as u32) + words_le(
            s.country_heatmap@.subrange(0, i as int),
        ));
    }
    assert(s.country_heatmap@.subrange(0, i as int) =~= s.country_heatmap@);
    out
}

/// The stats reply in a datagram: exactly `STATS_LEN` bytes.
pub fn decode_stats(b: &[u8]) -> (r: Result<Stats, DecodeError>)
    ensures
        b@.len() < STATS_LEN <==> r matches Err(DecodeError::Truncated),
        b@.len() > STATS_LEN <==> r matches Err(DecodeError::TrailingBytes),
        b@.len() == STATS_LEN <==> r is Ok,
        r matches Ok(s) ==> s@ == stats_of(b@),
{
    if b.len() < STATS_LEN {
        return Err(DecodeError::Truncated);
    } else if b.len() > STATS_LEN {
        return Err(DecodeError::TrailingBytes);
    }
    let mut heatmap: Vec<u32> = Vec::new();
    let mut i: usize = 0;
    while i < COUNTRY_COUNT
        invariant
            b@.len() == STATS_LEN,
            i <= COUNTRY_COUNT,
            heatmap@ == Seq::new(i as nat, |k: int| u32_at(b@, 8 + 4 * k)),
        decreases COUNTRY_COUNT - i,
    {
        heatmap.push(read_u32(b, 8 + 4 * i));
        i += 1;
        assert(heatmap@ =~= Seq::new(i as nat, |k: int| u32_at(b@, 8 + 4 * k)));
    }
    let s = Stats {
        connected: read_u32(b, 0),
        seed: #[verifier::truncate] (read_u32(b, 4) as i32),
        country_heatmap: heatmap,
    };
    assert(s@.country_heatmap =~= stats_of(b@).country_heatmap);
    Ok(s)
}

/// Every heartbeat survives encoding and decoding unchanged.
pub proof fn lemma_heartbeat_round_trip(h: Heartbeat)
    ensures
        heartbeat_bytes(h).len() == HEARTBEAT_LEN,
        heartbeat_of(heartbeat_bytes(h)) == h,
{
    let b = heartbeat_bytes(h);
    assert(b.subrange(0, 4) =~= u32_le(h.seed as u32));
    lemma_u32_round_trip(b, 0, h.seed as u32);
    lemma_i32_u32(h.seed);
}

/// Every valid stats reply survives encoding and decoding unchanged.
pub proof fn lemma_stats_round_trip(s: StatsView)
    requires
        s.country_heatmap.len() == COUNTRY_COUNT,
    ensures
        stats_bytes(s).len() == STATS_LEN,
        stats_of(stats_bytes(s)) == s,
{
    let b = stats_bytes(s);
    let w = words_le(s.country_heatmap);
    lemma_words_len(s.country_heatmap);
    assert(b.subrange(0, 4) =~= u32_le(s.connected));
    assert(b.subrange(4, 8) =~= u32_le(s.seed as u32));
    lemma_u32_round_trip(b, 0, s.connected);
    lemma_u32_round_trip(b, 4, s.seed as u32);
    lemma_i32_u32(s.seed);
    assert forall|i: int| 0 <= i < COUNTRY_COUNT implies u32_at(b, 8 + 4 * i)
        == s.country_heatmap[i] by {
        lemma_words_le(s.country_heatmap, i);
        assert(b.subrange(8 + 4 * i, 8 + 4 * i + 4) =~= w.subrange(4 * i, 4 * i + 4));
        lemma_u32_round_trip(b, 8 + 4 * i, s.country_heatmap[i]);
    }
    assert(stats_of(b).country_heatmap =~= s.country_heatmap);
}

} // verus!
