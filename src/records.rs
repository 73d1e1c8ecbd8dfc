//! The two fixed-width records of the presence store.
//!
//! Both are 32 bytes wide, fields little-endian, unused bytes zero.
//!
//! `StoredIpStats`:      first_seen u64 @0, last_seen u64 @8,
//!                       cum_duration u32 @16, hits u32 @20, country u8 @24.
//! `StoredCountryStats`: active u32 @0, unique u32 @4, seed i64 @8,
//!                       cum_duration u32 @16.
use vstd::prelude::*;

use crate::bytes::{
    lemma_u32_round_trip, lemma_u64_round_trip, overwrite, push_u32, push_u64, push_zeros,
    read_u32, read_u64, u32_at, u32_le, u64_at, u64_le, zeros,
};

verus! {

/// Width in bytes of every record of the store.
pub const RECORD_SIZE: usize = 32;

/// Presence state of one bucket of 256 consecutive IPv4 addresses.
#[derive(Clone, Copy, Debug, PartialEq, Eq, Structural)]
pub struct StoredIpStats {
    /// Time of creation or of the last reactivation; 0 while never seen.
    pub first_seen: u64,
    /// Time of the last counted refresh; 0 while inactive.
    pub last_seen: u64,
    /// Accumulated active seconds.
    pub cum_duration: u32,
    /// Number of counted refreshes.
    pub hits: u32,
    /// Country code assigned at first sighting.
    pub country: u8,
}

/// Aggregate state of one country code (or of the worldwide sentinel).
#[derive(Clone, Copy, Debug, PartialEq, Eq, Structural)]
pub struct StoredCountryStats {
    /// Records of this country that are currently active.
    pub active: u32,
    /// Buckets ever first seen for this country.
    pub unique: u32,
    /// Smoothed consensus seed.
    pub seed: i64,
    /// Accumulated active seconds of this country's records.
    pub cum_duration: u32,
}

/// The 32 bytes that hold `r` in the store.
pub open spec fn ip_bytes(r: StoredIpStats) -> Seq<u8> {
    u64_le(r.first_seen) + u64_le(r.last_seen) + u32_le(r.cum_duration) + u32_le(r.hits) + seq![
        r.country,
    ] + zeros(7)
}

/// The 32 bytes that hold `c` in the store.
pub open spec fn country_bytes(c: StoredCountryStats) -> Seq<u8> {
    u32_le(c.active) + u32_le(c.unique) + u64_le(c.seed as u64) + u32_le(c.cum_duration) + zeros(
        12,
    )
}

/// The bucket record stored at `s[off..off + 32]`.
pub open spec fn ip_at(s: Seq<u8>, off: int) -> StoredIpStats {
    StoredIpStats {
        first_seen: u64_at(s, off),
        last_seen: u64_at(s, off + 8),
        cum_duration: u32_at(s, off + 16),
        hits: u32_at(s, off + 20),
        country: s[off + 24],
    }
}

/// The country record stored at `s[off..off + 32]`.
pub open spec fn country_at(s: Seq<u8>, off: int) -> StoredCountryStats {
    StoredCountryStats {
        active: u32_at(s, off),
        unique: u32_at(s, off + 4),
        seed: u64_at(s, off + 8) as i64,
        cum_duration: u32_at(s, off + 16),
    }
}

/// Two byte sequences that agree on `[off, off + 32)`.
pub open spec fn same_slot(s: Seq<u8>, t: Seq<u8>, off: int) -> bool {
    forall|k: int| off <= k < off + 32 ==> s[k] == t[k]
}

/// A record is read from its own 32 bytes alone.
pub proof fn lemma_slot_frame(s: Seq<u8>, t: Seq<u8>, off: int)
    requires
        0 <= off,
        off + 32 <= s.len(),
        off + 32 <= t.len(),
        same_slot(s, t, off),
    ensures
        ip_at(s, off) == ip_at(t, off),
        country_at(s, off) == country_at(t, off),
{
    assert(s[off + 24] == t[off + 24]);
}

/// Writing a bucket record and reading it back gives the record.
pub proof fn lemma_ip_round_trip(s: Seq<u8>, off: int, r: StoredIpStats)
    requires
        0 <= off,
        off + 32 <= s.len(),
    ensures
        ip_at(overwrite(s, off, ip_bytes(r)), off) == r,
{
    let t = overwrite(s, off, ip_bytes(r));
    let e = ip_bytes(r);
    reveal(overwrite);
    assert(e.len() == 32);
    assert(t.subrange(off, off + 8) =~= u64_le(r.first_seen));
    assert(t.subrange(off + 8, off + 16) =~= u64_le(r.last_seen));
    assert(t.subrange(off + 16, off + 20) =~= u32_le(r.cum_duration));
    assert(t.subrange(off + 20, off + 24) =~= u32_le(r.hits));
    assert(t[off + 24] == e[24]);
    lemma_u64_round_trip(t, off, r.first_seen);
    lemma_u64_round_trip(t, off + 8, r.last_seen);
    lemma_u32_round_trip(t, off + 16, r.cum_duration);
    lemma_u32_round_trip(t, off + 20, r.hits);
}

proof fn lemma_i64_u64(v: i64)
    ensures
        (v as u64) as i64 == v,
{
    assert((v as u64) as i64 == v) by (bit_vector);
}

/// Writing a country record and reading it back gives the record.
pub proof fn lemma_country_round_trip(s: Seq<u8>, off: int, c: StoredCountryStats)
    requires
        0 <= off,
        off + 32 <= s.len(),
    ensures
        country_at(overwrite(s, off, country_bytes(c)), off) == c,
{
    let t = overwrite(s, off, country_bytes(c));
    reveal(overwrite);
    assert(country_bytes(c).len() == 32);
    assert(t.subrange(off, off + 4) =~= u32_le(c.active));
    assert(t.subrange(off + 4, off + 8) =~= u32_le(c.unique));
    assert(t.subrange(off + 8, off + 16) =~= u64_le(c.seed as u64));
    assert(t.subrange(off + 16, off + 20) =~= u32_le(c.cum_duration));
    lemma_u32_round_trip(t, off, c.active);
    lemma_u32_round_trip(t, off + 4, c.unique);
    lemma_u64_round_trip(t, off + 8, c.seed as u64);
    lemma_u32_round_trip(t, off + 16, c.cum_duration);
    lemma_i64_u64(c.seed);
}

impl StoredIpStats {
    /// The record's 32 bytes.
    pub fn encode(&self) -> (out: Vec<u8>)
        ensures
            out@ == ip_bytes(*self),
    {
        let mut out: Vec<u8> = Vec::new();
        push_u64(&mut out, self.first_seen);
        push_u64(&mut out, self.last_seen);
        push_u32(&mut out, self.cum_duration);
        push_u32(&mut out, self.hits);
        out.push(self.country);
        push_zeros(&mut out, 7);
        assert(out@ =~= ip_bytes(*self));
        out
    }

    /// The record held by `s[off..off + 32]`.
    pub fn decode_at(s: &[u8], off: usize) -> (r: StoredIpStats)
        requires
            off + 32 <= s@.len(),
        ensures
            r == ip_at(s@, off as int),
    {
        // the slice's length is a usize, which keeps the offsets below from overflowing
        let _len = s.len();
        StoredIpStats {
            first_seen: read_u64(s, off),
            last_seen: read_u64(s, off + 8),
            cum_duration: read_u32(s, off + 16),
            hits: read_u32(s, off + 20),
            country: s[off + 24],
        }
    }
}

impl StoredCountryStats {
    /// The record's 32 bytes.
    pub fn encode(&self) -> (out: Vec<u8>)
        ensures
            out@ == country_bytes(*self),
    {
        let mut out: Vec<u8> = Vec::new();
        push_u32(&mut out, self.active);
        push_u32(&mut out, self.unique);
        push_u64(&mut out, self.seed as u64);
        push_u32(&mut out, self.cum_duration);
        push_zeros(&mut out, 12);
        assert(out@ =~= country_bytes(*self));
        out
    }

    /// The record held by `s[off..off + 32]`.
    pub fn decode_at(s: &[u8], off: usize) -> (r: StoredCountryStats)
        requires
            off + 32 <= s@.len(),
        ensures
            r == country_at(s@, off as int),
    {
        // the slice's length is a usize, which keeps the offsets below from overflowing
        let _len = s.len();
        StoredCountryStats {
            active: read_u32(s, off),
            unique: read_u32(s, off + 4),
            seed: #[verifier::truncate] (read_u64(s, off + 8) as i64),
            cum_duration: read_u32(s, off + 16),
        }
    }
}

} // verus!
