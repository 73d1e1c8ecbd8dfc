//! The presence store: one 32-byte record per bucket of 256 IPv4 addresses,
//! in one mapped region of `DB_LEN` bytes.
//!
//! Record `i` sits at byte `32 * i`. The buckets of `0.0.0.0/8`, which no
//! source address reaches, hold the country aggregates, indexed by country
//! code; the buckets of the unicast range hold one `StoredIpStats` each.
use vstd::prelude::*;

use crate::bytes::{lemma_overwrite, overwrite, write_at};
use crate::country::{COUNTRY_COUNT, ISO_COUNT, UNKNOWN, WORLDWIDE};
use crate::geo::GeoIpDb;
use crate::records::{
    country_at, country_bytes, ip_at, ip_bytes, StoredCountryStats, StoredIpStats, RECORD_SIZE,
};
use crate::region::{map_bytes, map_bytes_mut, mapped_bytes};
use crate::smoothing::{smooth, smoothed};
use crate::wire::{Heartbeat, Stats};

verus! {

/// Number of records in the region: one per value of an address's top 24 bits.
pub const BUCKET_COUNT: usize = 16777216;

/// Length in bytes of the region.
pub const DB_LEN: usize = 536870912;

/// Bucket of `1.0.0.0`, the first unicast address.
pub const FIRST_UNICAST_BUCKET: usize = 65536;

/// Bucket of `223.255.255.255`, the last unicast address.
pub const LAST_UNICAST_BUCKET: usize = 14680063;

/// A record not refreshed for longer than this many seconds is evicted.
pub const TTL_SECONDS: u64 = 10;

/// Heartbeats of one bucket closer than this many seconds count once.
pub const DEDUP_SECONDS: u64 = 10;

/// The aggregator sweeps when more than this many seconds have passed since
/// the last sweep.
pub const SWEEP_INTERVAL_SECONDS: u64 = 20;

/// The bucket of an IPv4 address: its top 24 bits.
pub open spec fn bucket_of(addr: u32) -> int {
    addr as int / 256
}

/// Whether an address lies in the unicast range that the store tracks.
pub open spec fn is_tracked(addr: u32) -> bool {
    FIRST_UNICAST_BUCKET <= bucket_of(addr) <= LAST_UNICAST_BUCKET
}

/// The bucket record `b` of region bytes `s`.
pub open spec fn ip_of(s: Seq<u8>, b: int) -> StoredIpStats {
    ip_at(s, 32 * b)
}

/// The aggregate of country code `c` in region bytes `s`.
pub open spec fn country_of(s: Seq<u8>, c: u8) -> StoredCountryStats {
    country_at(s, 32 * c)
}

/// `s` with bucket record `b` set to `r`.
pub open spec fn put_ip(s: Seq<u8>, b: int, r: StoredIpStats) -> Seq<u8> {
    overwrite(s, 32 * b, ip_bytes(r))
}

/// `s` with the aggregate of code `c` set to `x`.
pub open spec fn put_country(s: Seq<u8>, c: u8, x: StoredCountryStats) -> Seq<u8> {
    overwrite(s, 32 * c, country_bytes(x))
}

/// Never seen: both timestamps zero.
pub open spec fn is_unborn(r: StoredIpStats) -> bool {
    r.first_seen == 0 && r.last_seen == 0
}

/// Seen before and evicted since.
pub open spec fn is_inactive(r: StoredIpStats) -> bool {
    r.first_seen != 0 && r.last_seen == 0
}

/// An aggregate with one more active record and, for a bucket seen for the
/// first time, one more unique one (both saturating).
pub open spec fn counted(x: StoredCountryStats, first_time: bool) -> StoredCountryStats {
    StoredCountryStats {
        active: x.active.saturating_add(1),
        unique: if first_time {
            x.unique.saturating_add(1)
        } else {
            x.unique
        },
        ..x
    }
}

/// An aggregate with one active record fewer (saturating at zero).
pub open spec fn uncounted(x: StoredCountryStats) -> StoredCountryStats {
    StoredCountryStats { active: x.active.saturating_sub(1), ..x }
}

/// An aggregate after a counted refresh of `diff` seconds with seed `seed`.
pub open spec fn sampled(x: StoredCountryStats, seed: i32, diff: u32) -> StoredCountryStats {
    StoredCountryStats {
        seed: smoothed(x.seed, seed) as i64,
        cum_duration: x.cum_duration.saturating_add(diff),
        ..x
    }
}

/// `s` with aggregate `c` counted in.
pub open spec fn count_in(s: Seq<u8>, c: u8, first_time: bool) -> Seq<u8> {
    put_country(s, c, counted(country_of(s, c), first_time))
}

/// `s` with aggregate `c` counted out.
pub open spec fn count_out(s: Seq<u8>, c: u8) -> Seq<u8> {
    put_country(s, c, uncounted(country_of(s, c)))
}

/// `s` with a sample applied to aggregate `c`.
pub open spec fn sample_into(s: Seq<u8>, c: u8, seed: i32, diff: u32) -> Seq<u8> {
    put_country(s, c, sampled(country_of(s, c), seed, diff))
}

/// Creation or reactivation of bucket `b` at `now`; `country` is the code
/// that a bucket seen for the first time gets.
#[verifier::opaque]
pub open spec fn activate_step(s: Seq<u8>, b: int, now: u64, country: u8) -> Seq<u8> {
    let r = ip_of(s, b);
    if is_unborn(r) {
        let s1 = put_ip(s, b, StoredIpStats { first_seen: now, last_seen: now, country, ..r });
        count_in(count_in(s1, country, true), WORLDWIDE, true)
    } else if is_inactive(r) {
        let s1 = put_ip(s, b, StoredIpStats { first_seen: now, last_seen: now, ..r });
        count_in(count_in(s1, r.country, false), WORLDWIDE, false)
    } else {
        s
    }
}

/// Seconds from `last` to `now`, zero if `now` is earlier.
pub open spec fn elapsed(now: u64, last: u64) -> u64 {
    now.saturating_sub(last)
}

/// A counted refresh of bucket `b` at `now` with seed `seed`, if the last
/// one is more than `DEDUP_SECONDS` old.
#[verifier::opaque]
pub open spec fn refresh_step(s: Seq<u8>, b: int, now: u64, seed: i32) -> Seq<u8> {
    let r = ip_of(s, b);
    let d = elapsed(now, r.last_seen);
    if d > DEDUP_SECONDS {
        let diff = d as u32;
        let s1 = put_ip(
            s,
            b,
            StoredIpStats {
                cum_duration: r.cum_duration.saturating_add(diff),
                last_seen: now,
                hits: r.hits.saturating_add(1),
                ..r
            },
        );
        sample_into(sample_into(s1, r.country, seed, diff), WORLDWIDE, seed, diff)
    } else {
        s
    }
}

/// The region after a heartbeat with seed `seed` from bucket `b` at `now`.
pub open spec fn heartbeat_step(s: Seq<u8>, b: int, now: u64, seed: i32, country: u8) -> Seq<
    u8,
> {
    refresh_step(activate_step(s, b, now, country), b, now, seed)
}

/// Eviction of bucket `b` at `now`, if it is active and stale.
#[verifier::opaque]
pub open spec fn evict_step(s: Seq<u8>, b: int, now: u64) -> Seq<u8> {
    let r = ip_of(s, b);
    let d = elapsed(now, r.last_seen);
    if r.first_seen != 0 && r.last_seen != 0 && d > TTL_SECONDS {
        let s1 = put_ip(
            s,
            b,
            StoredIpStats {
                cum_duration: r.cum_duration.saturating_add(d as u32),
                last_seen: 0,
                ..r
            },
        );
        count_out(count_out(s1, r.country), WORLDWIDE)
    } else {
        s
    }
}

/// The region after a sweep at `now` of the unicast buckets below `end`.
pub open spec fn sweep_upto(s: Seq<u8>, now: u64, end: int) -> Seq<u8>
    decreases end - FIRST_UNICAST_BUCKET,
{
    if end <= FIRST_UNICAST_BUCKET {
        s
    } else {
        evict_step(sweep_upto(s, now, end - 1), end - 1, now)
    }
}

/// The region after a full sweep at `now`.
pub open spec fn sweep(s: Seq<u8>, now: u64) -> Seq<u8> {
    sweep_upto(s, now, LAST_UNICAST_BUCKET + 1)
}

/// Whether a sweep is due at `now` after one at `last_sweep`.
pub fn sweep_due(now: u64, last_sweep: u64) -> (r: bool)
    ensures
        r == (elapsed(now, last_sweep) > SWEEP_INTERVAL_SECONDS),
{
    now.saturating_sub(last_sweep) > SWEEP_INTERVAL_SECONDS
}

/// Whether `addr` lies in the unicast range that the store tracks.
pub fn is_tracked_addr(addr: u32) -> (r: bool)
    ensures
        r == is_tracked(addr),
{
    let b = (addr / 256) as usize;
    FIRST_UNICAST_BUCKET <= b && b <= LAST_UNICAST_BUCKET
}

/// The presence store over a mapped region.
pub struct GeneralIpDb {
    map: memmap2::MmapMut,
}

impl GeneralIpDb {
    /// The region's bytes.
    pub closed spec fn bytes(&self) -> Seq<u8> {
        mapped_bytes(self.map)
    }

    /// The region has the store's length.
    pub open spec fn wf(&self) -> bool {
        self.bytes().len() == DB_LEN
    }

    /// The record of bucket `b`.
    pub open spec fn ip_record(&self, b: int) -> StoredIpStats {
        ip_of(self.bytes(), b)
    }

    /// The aggregate of country code `c`.
    pub open spec fn country(&self, c: u8) -> StoredCountryStats {
        country_of(self.bytes(), c)
    }

    /// A store over `map`, which must be exactly `DB_LEN` bytes long.
    pub fn from_map(map: memmap2::MmapMut) -> (r: Option<GeneralIpDb>)
        ensures
            r is Some <==> mapped_bytes(map).len() == DB_LEN,
            r matches Some(db) ==> db.wf() && db.bytes() == mapped_bytes(map),
    {
        let len = map_bytes(&map).len();
        if len == DB_LEN {
            Some(GeneralIpDb { map })
        } else {
            None
        }
    }

    fn read_ip(&self, b: usize) -> (r: StoredIpStats)
        requires
            self.wf(),
            b < BUCKET_COUNT,
        ensures
            r == self.ip_record(b as int),
    {
        StoredIpStats::decode_at(map_bytes(&self.map), b * RECORD_SIZE)
    }

    fn write_ip(&mut self, b: usize, r: &StoredIpStats)
        requires
            old(self).wf(),
            b < BUCKET_COUNT,
        ensures
            final(self).bytes() == put_ip(old(self).bytes(), b as int, *r),
            final(self).wf(),
    {
        let enc = r.encode();
        let region = map_bytes_mut(&mut self.map);
        write_at(region, b * RECORD_SIZE, enc.as_slice());
        proof {
            lemma_overwrite(old(self).bytes(), 32 * b, ip_bytes(*r));
        }
    }

    fn read_country(&self, c: u8) -> (r: StoredCountryStats)
        requires
            self.wf(),
        ensures
            r == self.country(c),
    {
        StoredCountryStats::decode_at(map_bytes(&self.map), c as usize * RECORD_SIZE)
    }

    fn write_country(&mut self, c: u8, x: &StoredCountryStats)
        requires
            old(self).wf(),
        ensures
            final(self).bytes() == put_country(old(self).bytes(), c, *x),
            final(self).wf(),
    {
        let enc = x.encode();
        let region = map_bytes_mut(&mut self.map);
        write_at(region, c as usize * RECORD_SIZE, enc.as_slice());
        proof {
            lemma_overwrite(old(self).bytes(), 32 * c, country_bytes(*x));
        }
    }

    /// The record of the bucket of `addr`.
    pub fn lookup_ip_record(&self, addr: u32) -> (r: StoredIpStats)
        requires
            self.wf(),
        ensures
            r == self.ip_record(bucket_of(addr)),
    {
        self.read_ip((addr / 256) as usize)
    }

    /// Sets the record of the bucket of `addr`.
    pub fn store_ip_record(&mut self, addr: u32, r: StoredIpStats)
        requires
            old(self).wf(),
        ensures
            final(self).wf(),
            final(self).bytes() == put_ip(old(self).bytes(), bucket_of(addr), r),
    {
        self.write_ip((addr / 256) as usize, &r)
    }

    /// The aggregate of country code `c`.
    pub fn lookup_country(&self, c: u8) -> (r: StoredCountryStats)
        requires
            self.wf(),
        ensures
            r == self.country(c),
    {
        self.read_country(c)
    }

    /// Sets the aggregate of country code `c`.
    pub fn store_country(&mut self, c: u8, x: StoredCountryStats)
        requires
            old(self).wf(),
        ensures
            final(self).wf(),
            final(self).bytes() == put_country(old(self).bytes(), c, x),
    {
        self.write_country(c, &x)
    }

    fn count_in(&mut self, c: u8, first_time: bool)
        requires
            old(self).wf(),
        ensures
            final(self).wf(),
            final(self).bytes() == count_in(old(self).bytes(), c, first_time),
    {
        let x = self.read_country(c);
        let y = StoredCountryStats {
            active: x.active.saturating_add(1),
            unique: if first_time {
                x.unique.saturating_add(1)
            } else {
                x.unique
            },
            ..x
        };
        self.write_country(c, &y);
    }

    fn count_out(&mut self, c: u8)
        requires
            old(self).wf(),
        ensures
            final(self).wf(),
            final(self).bytes() == count_out(old(self).bytes(), c),
    {
        let x = self.read_country(c);
        let y = StoredCountryStats { active: x.active.saturating_sub(1), ..x };
        self.write_country(c, &y);
    }

    fn sample_into(&mut self, c: u8, seed: i32, diff: u32)
        requires
            old(self).wf(),
        ensures
            final(self).wf(),
            final(self).bytes() == sample_into(old(self).bytes(), c, seed, diff),
    {
        let x = self.read_country(c);
        let y = StoredCountryStats {
            seed: smooth(x.seed, seed),
            cum_duration: x.cum_duration.saturating_add(diff),
            ..x
        };
        self.write_country(c, &y);
    }

    /// Whether the bucket of `addr` has never been seen, so that a heartbeat
    /// from it needs the source's country.
    pub fn needs_country(&self, addr: u32) -> (r: bool)
        requires
            self.wf(),
        ensures
            r == is_unborn(self.ip_record(bucket_of(addr))),
    {
        let r = self.lookup_ip_record(addr);
        r.first_seen == 0 && r.last_seen == 0
    }

    /// Applies a heartbeat with seed `seed` from `addr` at `now`.
    ///
    /// A bucket never seen is created with country `country` and counted
    /// as active and unique; an evicted one is reactivated and counted as
    /// active. Then, if its last counted refresh is more than
    /// `DEDUP_SECONDS` old, the refresh is counted and the seed smoothed
    /// into its country's aggregate and the worldwide one.
    pub fn apply_heartbeat(&mut self, addr: u32, now: u64, seed: i32, country: u8)
        requires
            old(self).wf(),
            is_tracked(addr),
            now > 0,
        ensures
            final(self).wf(),
            final(self).bytes() == heartbeat_step(
                old(self).bytes(),
                bucket_of(addr),
                now,
                seed,
                country,
            ),
    {
        let b = (addr / 256) as usize;
        self.activate(b, now, country);
        self.refresh(b, now, seed);
    }

    /// Handles a decoded heartbeat from the IPv4 address `addr` at `now`,
    /// and says whether a reply is owed.
    ///
    /// An address outside the tracked unicast range is dropped: nothing
    /// changes and no reply is owed. Otherwise the heartbeat is applied, the
    /// country of a bucket seen for the first time being what `geo` gives
    /// for `addr` (`UNKNOWN` where it gives nothing), and a reply is owed
    /// exactly when the heartbeat asks for a country.
    pub fn process_heartbeat(&mut self, geo: &GeoIpDb, addr: u32, now: u64, hb: &Heartbeat) -> (reply: bool)
        requires
            old(self).wf(),
            now > 0,
        ensures
            final(self).wf(),
            !is_tracked(addr) ==> final(self).bytes() == old(self).bytes() && !reply,
            is_tracked(addr) ==> reply == (hb.wants_country != 0),
            is_tracked(addr) ==> exists|c: u8|
                c <= ISO_COUNT && final(self).bytes() == heartbeat_step(
                    old(self).bytes(),
                    bucket_of(addr),
                    now,
                    hb.seed,
                    c,
                ),
            is_tracked(addr) && !is_unborn(old(self).ip_record(bucket_of(addr)))
                ==> final(self).bytes() == heartbeat_step(
                old(self).bytes(),
                bucket_of(addr),
                now,
                hb.seed,
                UNKNOWN,
            ),
    {
        if !is_tracked_addr(addr) {
            return false;
        }
        let country = if self.needs_country(addr) {
            match geo.lookup_ip(addr) {
                Some(c) => c,
                None => UNKNOWN,
            }
        } else {
            UNKNOWN
        };
        self.apply_heartbeat(addr, now, hb.seed, country);
        hb.wants_reply()
    }

    fn activate(&mut self, b: usize, now: u64, country: u8)
        requires
            old(self).wf(),
            b < BUCKET_COUNT,
        ensures
            final(self).wf(),
            final(self).bytes() == activate_step(old(self).bytes(), b as int, now, country),
    {
        reveal(activate_step);
        let r = self.read_ip(b);
        if r.first_seen == 0 && r.last_seen == 0 {
            self.write_ip(b, &StoredIpStats { first_seen: now, last_seen: now, country, ..r });
            self.count_in(country, true);
            self.count_in(WORLDWIDE, true);
        } else if r.first_seen != 0 && r.last_seen == 0 {
            self.write_ip(b, &StoredIpStats { first_seen: now, last_seen: now, ..r });
            self.count_in(r.country, false);
            self.count_in(WORLDWIDE, false);
        }
    }

    fn refresh(&mut self, b: usize, now: u64, seed: i32)
        requires
            old(self).wf(),
            b < BUCKET_COUNT,
        ensures
            final(self).wf(),
            final(self).bytes() == refresh_step(old(self).bytes(), b as int, now, seed),
    {
        reveal(refresh_step);
        let r = self.read_ip(b);
        let d = now.saturating_sub(r.last_seen);
        if d > DEDUP_SECONDS {
            let diff = #[verifier::truncate] (d as u32);
            self.write_ip(
                b,
                &StoredIpStats {
                    cum_duration: r.cum_duration.saturating_add(diff),
                    last_seen: now,
                    hits: r.hits.saturating_add(1),
                    ..r
                },
            );
            self.sample_into(r.country, seed, diff);
            self.sample_into(WORLDWIDE, seed, diff);
        }
    }

    fn evict(&mut self, b: usize, now: u64)
        requires
            old(self).wf(),
            b < BUCKET_COUNT,
        ensures
            final(self).wf(),
            final(self).bytes() == evict_step(old(self).bytes(), b as int, now),
    {
        reveal(evict_step);
        let r = self.read_ip(b);
        let d = now.saturating_sub(r.last_seen);
        if r.first_seen != 0 && r.last_seen != 0 && d > TTL_SECONDS {
            let diff = #[verifier::truncate] (d as u32);
            self.write_ip(
                b,
                &StoredIpStats { cum_duration: r.cum_duration.saturating_add(diff), last_seen: 0, ..r },
            );
            self.count_out(r.country);
            self.count_out(WORLDWIDE);
        }
    }

    /// The sweep: every active record of the unicast range whose last
    /// refresh is more than `TTL_SECONDS` before `now` becomes inactive,
    /// and its country and the worldwide aggregate count one active record
    /// fewer. Inactive and never-seen records are left alone.
    pub fn cleanup(&mut self, now: u64)
        requires
            old(self).wf(),
        ensures
            final(self).wf(),
            final(self).bytes() == sweep(old(self).bytes(), now),
    {
        let mut b: usize = FIRST_UNICAST_BUCKET;
        while b <= LAST_UNICAST_BUCKET
            invariant
                FIRST_UNICAST_BUCKET <= b <= LAST_UNICAST_BUCKET + 1,
                self.wf(),
                self.bytes() == sweep_upto(old(self).bytes(), now, b as int),
            decreases LAST_UNICAST_BUCKET + 1 - b,
        {
            self.evict(b, now);
            b += 1;
        }
    }

    /// The active count of every code below `COUNTRY_COUNT`, by code.
    pub fn country_actives(&self) -> (r: Vec<u32>)
        requires
            self.wf(),
        ensures
            r@.len() == COUNTRY_COUNT,
            forall|c: int| 0 <= c < COUNTRY_COUNT ==> r@[c] == #[trigger] self.country(c as u8).active,
    {
        let mut r: Vec<u32> = Vec::new();
        let mut c: usize = 0;
        while c < COUNTRY_COUNT
            invariant
                self.wf(),
                c <= COUNTRY_COUNT,
                r@.len() == c,
                forall|k: int| 0 <= k < c ==> r@[k] == #[trigger] self.country(k as u8).active,
            decreases COUNTRY_COUNT - c,
        {
            let x = self.read_country(c as u8);
            r.push(x.active);
            c += 1;
        }
        r
    }

    /// The reply to a request for code `c`: its active count, its seed
    /// narrowed to 32 bits, and `heatmap`.
    pub fn build_stats(&self, c: u8, heatmap: Vec<u32>) -> (r: Stats)
        requires
            self.wf(),
        ensures
            r.connected == self.country(c).active,
            r.seed == self.country(c).seed as i32,
            r.country_heatmap@ == heatmap@,
    {
        let x = self.read_country(c);
        Stats {
            connected: x.active,
            seed: #[verifier::truncate] (x.seed as i32),
            country_heatmap: heatmap,
        }
    }
}

} // verus!
