//! What the store's transitions do to the counts: unique buckets are
//! counted once, active ones in and out, and the worldwide aggregate keeps
//! pace with the countries.
use vstd::prelude::*;

use crate::bytes::{lemma_overwrite, u32_at, u64_at};
use crate::country::WORLDWIDE;
use crate::smoothing::smoothed;
use crate::records::{
    country_bytes, ip_bytes, lemma_country_round_trip, lemma_ip_round_trip, lemma_slot_frame,
    same_slot, StoredCountryStats, StoredIpStats,
};
use crate::store::{
    activate_step, count_in, count_out, counted, country_of, evict_step, heartbeat_step,
    ip_of, is_inactive, is_unborn, put_country, put_ip, refresh_step, sample_into, sampled,
    sweep, sweep_upto, uncounted, elapsed, DB_LEN, DEDUP_SECONDS, FIRST_UNICAST_BUCKET, LAST_UNICAST_BUCKET,
};

verus! {

/// A unicast bucket: its record is an address record.
pub open spec fn is_unicast(b: int) -> bool {
    FIRST_UNICAST_BUCKET <= b <= LAST_UNICAST_BUCKET
}

/// Region bytes `t` hold the same records as `s`, but perhaps for the
/// aggregate of code `c`.
pub open spec fn same_but_country(s: Seq<u8>, t: Seq<u8>, c: u8) -> bool {
    &&& t.len() == s.len()
    &&& forall|c2: u8| c2 != c ==> #[trigger] country_of(t, c2) == country_of(s, c2)
    &&& forall|b: int| is_unicast(b) ==> #[trigger] ip_of(t, b) == ip_of(s, b)
}

proof fn lemma_put_ip(s: Seq<u8>, b: int, r: StoredIpStats)
    requires
        s.len() == DB_LEN,
        is_unicast(b),
    ensures
        put_ip(s, b, r).len() == DB_LEN,
        ip_of(put_ip(s, b, r), b) == r,
        forall|c: u8| #[trigger] country_of(put_ip(s, b, r), c) == country_of(s, c),
        forall|b2: int| is_unicast(b2) && b2 != b ==> #[trigger] ip_of(put_ip(s, b, r), b2) == ip_of(s, b2),
{
    let t = put_ip(s, b, r);
    lemma_overwrite(s, 32 * b, ip_bytes(r));
    lemma_ip_round_trip(s, 32 * b, r);
    assert forall|c: u8| #[trigger] country_of(t, c) == country_of(s, c) by {
        assert(same_slot(s, t, 32 * c));
        lemma_slot_frame(s, t, 32 * c);
    }
    assert forall|b2: int| is_unicast(b2) && b2 != b implies #[trigger] ip_of(t, b2) == ip_of(s, b2) by {
        assert(same_slot(s, t, 32 * b2));
        lemma_slot_frame(s, t, 32 * b2);
    }
}

proof fn lemma_put_country(s: Seq<u8>, c: u8, x: StoredCountryStats)
    requires
        s.len() == DB_LEN,
    ensures
        country_of(put_country(s, c, x), c) == x,
        same_but_country(s, put_country(s, c, x), c),
{
    let t = put_country(s, c, x);
    lemma_overwrite(s, 32 * c, country_bytes(x));
    lemma_country_round_trip(s, 32 * c, x);
    assert forall|c2: u8| c2 != c implies #[trigger] country_of(t, c2) == country_of(s, c2) by {
        assert(same_slot(s, t, 32 * c2));
        lemma_slot_frame(s, t, 32 * c2);
    }
    assert forall|b: int| is_unicast(b) implies #[trigger] ip_of(t, b) == ip_of(s, b) by {
        assert(same_slot(s, t, 32 * b));
        lemma_slot_frame(s, t, 32 * b);
    }
}

/// The sum of the active counts of the codes below `n`, `WORLDWIDE` left out.
pub open spec fn countries_active(s: Seq<u8>, n: int) -> int
    decreases n,
{
    if n <= 0 {
        0
    } else {
        countries_active(s, n - 1) + if n - 1 == WORLDWIDE {
            0int
        } else {
            country_of(s, (n - 1) as u8).active as int
        }
    }
}

/// How far the worldwide active count is from the sum of the countries'.
pub open spec fn world_gap(s: Seq<u8>) -> int {
    country_of(s, WORLDWIDE).active - countries_active(s, 256)
}

proof fn lemma_world_gap_one(s: Seq<u8>, t: Seq<u8>, c: u8, delta: int)
    requires
        c != WORLDWIDE,
        forall|c2: u8|
            c2 != c && c2 != WORLDWIDE ==> #[trigger] country_of(t, c2).active == country_of(
                s,
                c2,
            ).active,
        country_of(t, c).active == country_of(s, c).active + delta,
        country_of(t, WORLDWIDE).active == country_of(s, WORLDWIDE).active + delta,
    ensures
        world_gap(t) == world_gap(s),
{
    lemma_sum_change_but_world(s, t, c, 256);
}

proof fn lemma_sum_change_but_world(s: Seq<u8>, t: Seq<u8>, c: u8, n: int)
    requires
        c != WORLDWIDE,
        0 <= n <= 256,
        forall|c2: u8|
            c2 != c && c2 != WORLDWIDE ==> #[trigger] country_of(t, c2).active == country_of(
                s,
                c2,
            ).active,
    ensures
        countries_active(t, n) == countries_active(s, n) + if c < n {
            country_of(t, c).active - country_of(s, c).active
        } else {
            0int
        },
    decreases n,
{
    if n > 0 {
        lemma_sum_change_but_world(s, t, c, n - 1);
        if n - 1 != WORLDWIDE && n - 1 != c {
            assert(country_of(t, (n - 1) as u8).active == country_of(s, (n - 1) as u8).active);
        }
    }
}

proof fn lemma_count_in(s: Seq<u8>, c: u8, first_time: bool)
    requires
        s.len() == DB_LEN,
    ensures
        country_of(count_in(s, c, first_time), c) == counted(country_of(s, c), first_time),
        same_but_country(s, count_in(s, c, first_time), c),
{
    lemma_put_country(s, c, counted(country_of(s, c), first_time));
}

proof fn lemma_count_out(s: Seq<u8>, c: u8)
    requires
        s.len() == DB_LEN,
    ensures
        country_of(count_out(s, c), c) == uncounted(country_of(s, c)),
        same_but_country(s, count_out(s, c), c),
{
    lemma_put_country(s, c, uncounted(country_of(s, c)));
}

proof fn lemma_sample_into(s: Seq<u8>, c: u8, seed: i32, diff: u32)
    requires
        s.len() == DB_LEN,
    ensures
        country_of(sample_into(s, c, seed, diff), c) == sampled(country_of(s, c), seed, diff),
        same_but_country(s, sample_into(s, c, seed, diff), c),
{
    lemma_put_country(s, c, sampled(country_of(s, c), seed, diff));
}

/// A counted refresh changes no count and no record but its own, whose
/// timestamps of creation and country it keeps.
proof fn lemma_refresh_counts(s: Seq<u8>, b: int, now: u64, seed: i32)
    requires
        s.len() == DB_LEN,
        is_unicast(b),
    ensures
        refresh_step(s, b, now, seed).len() == DB_LEN,
        forall|c: u8|
            #![trigger country_of(refresh_step(s, b, now, seed), c)]
            country_of(refresh_step(s, b, now, seed), c).active == country_of(s, c).active
                && country_of(refresh_step(s, b, now, seed), c).unique == country_of(s, c).unique,
        ip_of(refresh_step(s, b, now, seed), b).first_seen == ip_of(s, b).first_seen,
        ip_of(refresh_step(s, b, now, seed), b).country == ip_of(s, b).country,
        ip_of(s, b).last_seen != 0 ==> ip_of(refresh_step(s, b, now, seed), b).last_seen != 0,
        forall|b2: int|
            is_unicast(b2) && b2 != b ==> #[trigger] ip_of(refresh_step(s, b, now, seed), b2)
                == ip_of(s, b2),
{
    reveal(refresh_step);
    let r = ip_of(s, b);
    let d = now.saturating_sub(r.last_seen);
    if d > 10 {
        let diff = d as u32;
        let r1 = StoredIpStats {
            cum_duration: r.cum_duration.saturating_add(diff),
            last_seen: now,
            hits: r.hits.saturating_add(1),
            ..r
        };
        let s1 = put_ip(s, b, r1);
        lemma_put_ip(s, b, r1);
        let s2 = sample_into(s1, r.country, seed, diff);
        lemma_sample_into(s1, r.country, seed, diff);
        lemma_sample_into(s2, WORLDWIDE, seed, diff);
    }
}

/// Unique counts. The first heartbeat ever from a unicast bucket (at a
/// nonzero time) gives it its country and counts it as unique once for
/// that country and once worldwide; a heartbeat from a bucket seen before
/// changes no unique count. Afterwards the bucket is no longer unseen.
pub proof fn law_unique_counted_once(s: Seq<u8>, b: int, now: u64, seed: i32, country: u8)
    requires
        s.len() == DB_LEN,
        is_unicast(b),
        country != WORLDWIDE,
        now != 0,
    ensures
        ({
            let t = heartbeat_step(s, b, now, seed, country);
            &&& !is_unborn(ip_of(t, b))
            &&& is_unborn(ip_of(s, b)) ==> {
                &&& ip_of(t, b).country == country
                &&& country_of(t, country).unique == country_of(s, country).unique.saturating_add(1)
                &&& country_of(t, WORLDWIDE).unique == country_of(s, WORLDWIDE).unique.saturating_add(1)
                &&& forall|c: u8|
                    c != country && c != WORLDWIDE ==> #[trigger] country_of(t, c).unique
                        == country_of(s, c).unique
            }
            &&& !is_unborn(ip_of(s, b)) ==> {
                &&& ip_of(t, b).country == ip_of(s, b).country
                &&& forall|c: u8| #[trigger] country_of(t, c).unique == country_of(s, c).unique
            }
        }),
{
    let a = activate_step(s, b, now, country);
    let t = heartbeat_step(s, b, now, seed, country);
    lemma_activate_counts(s, b, now, country);
    lemma_refresh_counts(a, b, now, seed);
    assert(t == refresh_step(a, b, now, seed));
    assert(!is_unborn(ip_of(a, b)));
    assert(!is_unborn(ip_of(t, b)));
    if is_unborn(ip_of(s, b)) {
        assert(country_of(t, country).unique == country_of(a, country).unique);
        assert(country_of(t, WORLDWIDE).unique == country_of(a, WORLDWIDE).unique);
        assert forall|c: u8| c != country && c != WORLDWIDE implies #[trigger] country_of(t, c).unique
            == country_of(s, c).unique by {
            assert(country_of(t, c).unique == country_of(a, c).unique);
        }
    } else {
        assert forall|c: u8| #[trigger] country_of(t, c).unique == country_of(s, c).unique by {
            assert(country_of(t, c).unique == country_of(a, c).unique);
        }
    }
}

proof fn lemma_activate_counts(s: Seq<u8>, b: int, now: u64, country: u8)
    requires
        s.len() == DB_LEN,
        is_unicast(b),
        country != WORLDWIDE,
    ensures
        ({
            let t = activate_step(s, b, now, country);
            let r = ip_of(s, b);
            &&& t.len() == DB_LEN
            &&& forall|b2: int| is_unicast(b2) && b2 != b ==> #[trigger] ip_of(t, b2) == ip_of(s, b2)
            &&& is_unborn(r) ==> {
                &&& ip_of(t, b) == (StoredIpStats { first_seen: now, last_seen: now, country, ..r })
                &&& country_of(t, country) == counted(country_of(s, country), true)
                &&& country_of(t, WORLDWIDE) == counted(country_of(s, WORLDWIDE), true)
                &&& forall|c: u8|
                    c != country && c != WORLDWIDE ==> #[trigger] country_of(t, c) == country_of(s, c)
            }
            &&& is_inactive(r) ==> ip_of(t, b) == (StoredIpStats {
                first_seen: now,
                last_seen: now,
                ..r
            })
            &&& is_inactive(r) && r.country != WORLDWIDE ==> {
                &&& country_of(t, r.country) == counted(country_of(s, r.country), false)
                &&& country_of(t, WORLDWIDE) == counted(country_of(s, WORLDWIDE), false)
                &&& forall|c: u8|
                    c != r.country && c != WORLDWIDE ==> #[trigger] country_of(t, c) == country_of(
                        s,
                        c,
                    )
            }
            &&& is_inactive(r) ==> forall|c: u8| #[trigger] country_of(t, c).unique == country_of(
                s,
                c,
            ).unique
            &&& !is_unborn(r) && !is_inactive(r) ==> t == s
        }),
{
    reveal(activate_step);
    let r = ip_of(s, b);
    if is_unborn(r) {
        let r1 = StoredIpStats { first_seen: now, last_seen: now, country, ..r };
        let s1 = put_ip(s, b, r1);
        lemma_put_ip(s, b, r1);
        let s2 = count_in(s1, country, true);
        lemma_count_in(s1, country, true);
        lemma_count_in(s2, WORLDWIDE, true);
    } else if is_inactive(r) {
        let r1 = StoredIpStats { first_seen: now, last_seen: now, ..r };
        let s1 = put_ip(s, b, r1);
        lemma_put_ip(s, b, r1);
        let s2 = count_in(s1, r.country, false);
        lemma_count_in(s1, r.country, false);
        lemma_count_in(s2, WORLDWIDE, false);
    }
}

/// Active counts under a heartbeat. Creating or reactivating a bucket whose
/// country is not `WORLDWIDE` adds one active record to its country and one
/// worldwide (saturating) and no other; a heartbeat from an active bucket
/// changes no active count. Where nothing saturates, the worldwide count
/// stays as far from the sum of the countries' as it was.
pub proof fn law_heartbeat_active(s: Seq<u8>, b: int, now: u64, seed: i32, country: u8)
    requires
        s.len() == DB_LEN,
        is_unicast(b),
        country != WORLDWIDE,
    ensures
        ({
            let t = heartbeat_step(s, b, now, seed, country);
            let r = ip_of(s, b);
            let rc = if is_unborn(r) {
                country
            } else {
                r.country
            };
            &&& (is_unborn(r) || is_inactive(r)) && rc != WORLDWIDE ==> {
                &&& country_of(t, rc).active == country_of(s, rc).active.saturating_add(1)
                &&& country_of(t, WORLDWIDE).active == country_of(s, WORLDWIDE).active.saturating_add(1)
                &&& forall|c: u8|
                    c != rc && c != WORLDWIDE ==> #[trigger] country_of(t, c).active
                        == country_of(s, c).active
                &&& country_of(s, rc).active < u32::MAX && country_of(s, WORLDWIDE).active
                    < u32::MAX ==> world_gap(t) == world_gap(s)
            }
            &&& !is_unborn(r) && !is_inactive(r) ==> {
                &&& forall|c: u8| #[trigger] country_of(t, c).active == country_of(s, c).active
                &&& world_gap(t) == world_gap(s)
            }
        }),
{
    let a = activate_step(s, b, now, country);
    let t = heartbeat_step(s, b, now, seed, country);
    let r = ip_of(s, b);
    lemma_activate_counts(s, b, now, country);
    lemma_refresh_counts(a, b, now, seed);
    let rc = if is_unborn(r) {
        country
    } else {
        r.country
    };
    if (is_unborn(r) || is_inactive(r)) && rc != WORLDWIDE {
        if country_of(s, rc).active < u32::MAX && country_of(s, WORLDWIDE).active < u32::MAX {
            lemma_world_gap_one(s, t, rc, 1);
        }
    }
    if !is_unborn(r) && !is_inactive(r) {
        assert forall|c: u8| c != WORLDWIDE implies #[trigger] country_of(t, c).active
            == country_of(s, c).active by {}
        lemma_sum_change_but_world(s, t, 0, 256);
    }
}

/// Eviction. An active, stale unicast record whose country is not
/// `WORLDWIDE` becomes inactive, keeping its country and creation time; its
/// country and the worldwide aggregate count one active record fewer
/// (saturating at zero), every other count stays. Where neither count was
/// zero, the worldwide count stays as far from the sum of the countries' as
/// it was. Any other record is left alone, and nothing changes.
pub proof fn law_evict(s: Seq<u8>, b: int, now: u64)
    requires
        s.len() == DB_LEN,
        is_unicast(b),
    ensures
        ({
            let t = evict_step(s, b, now);
            let r = ip_of(s, b);
            &&& t.len() == DB_LEN
            &&& ip_of(t, b).first_seen == r.first_seen
            &&& ip_of(t, b).country == r.country
            &&& forall|c: u8| #[trigger] country_of(t, c).unique == country_of(s, c).unique
            &&& forall|b2: int| is_unicast(b2) && b2 != b ==> #[trigger] ip_of(t, b2) == ip_of(s, b2)
            &&& (r.first_seen != 0 && r.last_seen != 0 && now.saturating_sub(r.last_seen) > 10
                && r.country != WORLDWIDE) ==> {
                &&& ip_of(t, b).last_seen == 0
                &&& country_of(t, r.country).active == country_of(s, r.country).active.saturating_sub(1)
                &&& country_of(t, WORLDWIDE).active == country_of(s, WORLDWIDE).active.saturating_sub(1)
                &&& forall|c: u8|
                    c != r.country && c != WORLDWIDE ==> #[trigger] country_of(t, c).active
                        == country_of(s, c).active
                &&& country_of(s, r.country).active > 0 && country_of(s, WORLDWIDE).active > 0
                    ==> world_gap(t) == world_gap(s)
            }
            &&& !(r.first_seen != 0 && r.last_seen != 0 && now.saturating_sub(r.last_seen) > 10)
                ==> t == s
        }),
{
    reveal(evict_step);
    let r = ip_of(s, b);
    let d = now.saturating_sub(r.last_seen);
    if r.first_seen != 0 && r.last_seen != 0 && d > 10 {
        let r1 = StoredIpStats { cum_duration: r.cum_duration.saturating_add(d as u32), last_seen: 0, ..r };
        let s1 = put_ip(s, b, r1);
        lemma_put_ip(s, b, r1);
        let s2 = count_out(s1, r.country);
        lemma_count_out(s1, r.country);
        lemma_count_out(s2, WORLDWIDE);
        let t = evict_step(s, b, now);
        if r.country != WORLDWIDE && country_of(s, r.country).active > 0 && country_of(s, WORLDWIDE).active > 0 {
            lemma_world_gap_one(s, t, r.country, -1);
        }
    }
}

/// A sweep changes no unique count, and leaves every unicast record's
/// country, creation time and unseen state as it was.
pub proof fn law_sweep_keeps_identity(s: Seq<u8>, now: u64, end: int)
    requires
        s.len() == DB_LEN,
        FIRST_UNICAST_BUCKET <= end <= LAST_UNICAST_BUCKET + 1,
    ensures
        sweep_upto(s, now, end).len() == DB_LEN,
        forall|c: u8| #[trigger] country_of(sweep_upto(s, now, end), c).unique == country_of(s, c).unique,
        forall|b: int|
            is_unicast(b) ==> (#[trigger] ip_of(sweep_upto(s, now, end), b)).country == ip_of(s, b).country
                && ip_of(sweep_upto(s, now, end), b).first_seen == ip_of(s, b).first_seen
                && (is_unborn(ip_of(sweep_upto(s, now, end), b)) <==> is_unborn(ip_of(s, b))),
    decreases end - FIRST_UNICAST_BUCKET,
{
    if end > FIRST_UNICAST_BUCKET {
        let p = sweep_upto(s, now, end - 1);
        law_sweep_keeps_identity(s, now, end - 1);
        law_evict(p, end - 1, now);
        let r = ip_of(p, end - 1);
        assert forall|b: int| is_unicast(b) implies (#[trigger] ip_of(sweep_upto(s, now, end), b)).country == ip_of(s, b).country
                && ip_of(sweep_upto(s, now, end), b).first_seen == ip_of(s, b).first_seen
                && (is_unborn(ip_of(sweep_upto(s, now, end), b)) <==> is_unborn(ip_of(s, b))) by {
            if b != end - 1 {
                assert(ip_of(sweep_upto(s, now, end), b) == ip_of(p, b));
            }
        }
    }
}

/// What reaches the store in the life of one bucket: a heartbeat from it,
/// or a sweep.
pub enum Event {
    Beat { now: u64, seed: i32, country: u8 },
    Sweep { now: u64 },
}

/// The region after `events`, in order, with every heartbeat from bucket `b`.
pub open spec fn run(s: Seq<u8>, b: int, events: Seq<Event>) -> Seq<u8>
    decreases events.len(),
{
    if events.len() == 0 {
        s
    } else {
        let s1 = match events[0] {
            Event::Beat { now, seed, country } => heartbeat_step(s, b, now, seed, country),
            Event::Sweep { now } => sweep(s, now),
        };
        run(s1, b, events.drop_first())
    }
}

/// The country that the first heartbeat of `events` carries, if any.
pub open spec fn first_beat_country(events: Seq<Event>) -> Option<u8>
    decreases events.len(),
{
    if events.len() == 0 {
        None
    } else {
        match events[0] {
            Event::Beat { country, .. } => Some(country),
            Event::Sweep { .. } => first_beat_country(events.drop_first()),
        }
    }
}

/// Every heartbeat of `events` has a nonzero time and a country other than
/// `WORLDWIDE`.
pub open spec fn beats_well_formed(events: Seq<Event>) -> bool {
    forall|i: int|
        0 <= i < events.len() ==> match #[trigger] events[i] {
            Event::Beat { now, country, .. } => now != 0 && country != WORLDWIDE,
            Event::Sweep { .. } => true,
        }
}

/// Over any sequence of heartbeats from one unicast bucket and sweeps, the
/// unique counts of the bucket's country and of `WORLDWIDE` grow by exactly
/// one if the bucket was never seen and a heartbeat comes, and by nothing
/// otherwise; no other unique count changes. (Unique counts below
/// `u32::MAX` where the bucket was never seen, so that none saturates.)
pub proof fn law_unique_over_events(s: Seq<u8>, b: int, events: Seq<Event>)
    requires
        s.len() == DB_LEN,
        is_unicast(b),
        beats_well_formed(events),
        is_unborn(ip_of(s, b)) ==> forall|c: u8| #[trigger] country_of(s, c).unique < u32::MAX,
    ensures
        forall|c: u8|
            #[trigger] country_of(run(s, b, events), c).unique == country_of(s, c).unique + if is_unborn(
                ip_of(s, b),
            ) && first_beat_country(events) is Some && (c == WORLDWIDE || Some(c)
                == first_beat_country(events)) {
                1int
            } else {
                0int
            },
    decreases events.len(),
{
    if events.len() > 0 {
        let rest = events.drop_first();
        assert forall|i: int| 0 <= i < rest.len() implies match #[trigger] rest[i] {
            Event::Beat { now, country, .. } => now != 0 && country != WORLDWIDE,
            Event::Sweep { .. } => true,
        } by {
            assert(rest[i] == events[i + 1]);
        }
        match events[0] {
            Event::Beat { now, seed, country } => {
                assert(match events[0] {
                    Event::Beat { now, country, .. } => now != 0 && country != WORLDWIDE,
                    Event::Sweep { .. } => true,
                });
                let s1 = heartbeat_step(s, b, now, seed, country);
                law_unique_counted_once(s, b, now, seed, country);
                lemma_activate_counts(s, b, now, country);
                lemma_refresh_counts(activate_step(s, b, now, country), b, now, seed);
                law_unique_over_events(s1, b, rest);
                assert(run(s, b, events) == run(s1, b, rest));
                assert(first_beat_country(events) == Some(country));
                assert(!is_unborn(ip_of(s1, b)));
                assert forall|c: u8|
                    #[trigger] country_of(run(s, b, events), c).unique == country_of(s, c).unique
                        + if is_unborn(ip_of(s, b)) && (c == WORLDWIDE || c == country) {
                        1int
                    } else {
                        0int
                    } by {
                    assert(country_of(run(s1, b, rest), c).unique == country_of(s1, c).unique);
                }
            },
            Event::Sweep { now } => {
                let s1 = sweep(s, now);
                law_sweep_keeps_identity(s, now, LAST_UNICAST_BUCKET + 1);
                assert(is_unborn(ip_of(s1, b)) == is_unborn(ip_of(s, b)));
                assert(is_unborn(ip_of(s1, b)) ==> forall|c: u8| #[trigger] country_of(s1, c).unique < u32::MAX) by {
                    if is_unborn(ip_of(s1, b)) {
                        assert forall|c: u8| #[trigger] country_of(s1, c).unique < u32::MAX by {
                            assert(country_of(s1, c).unique == country_of(s, c).unique);
                        }
                    }
                }
                law_unique_over_events(s1, b, rest);
                assert(run(s, b, events) == run(s1, b, rest));
                assert(first_beat_country(events) == first_beat_country(rest));
                assert forall|c: u8|
                    #[trigger] country_of(run(s, b, events), c).unique == country_of(s, c).unique
                        + if is_unborn(ip_of(s, b)) && first_beat_country(events) is Some && (c
                        == WORLDWIDE || Some(c) == first_beat_country(events)) {
                        1int
                    } else {
                        0int
                    } by {
                    assert(country_of(s1, c).unique == country_of(s, c).unique);
                    assert(country_of(run(s1, b, rest), c).unique == country_of(s1, c).unique + if is_unborn(ip_of(s1, b)) && first_beat_country(rest) is Some && (c
                        == WORLDWIDE || Some(c) == first_beat_country(rest)) {
                        1int
                    } else {
                        0int
                    });
                }
            },
        }
    }
}

/// Dedup window. A heartbeat from an active bucket whose last counted
/// refresh is at most `DEDUP_SECONDS` old changes nothing at all: no hit,
/// no smoothing, no count.
pub proof fn law_dedup_window(s: Seq<u8>, b: int, now: u64, seed: i32, country: u8)
    requires
        s.len() == DB_LEN,
        is_unicast(b),
        ip_of(s, b).last_seen != 0,
        elapsed(now, ip_of(s, b).last_seen) <= DEDUP_SECONDS,
    ensures
        heartbeat_step(s, b, now, seed, country) == s,
{
    reveal(activate_step);
    reveal(refresh_step);
}

/// A counted refresh. A heartbeat from an active bucket whose country is
/// not `WORLDWIDE`, more than `DEDUP_SECONDS` after its last counted
/// refresh, smooths its seed into the seed of that country and of
/// `WORLDWIDE`, counts one hit and moves `last_seen` to `now`; no active or
/// unique count changes, and no other aggregate.
pub proof fn law_refresh_smooths(s: Seq<u8>, b: int, now: u64, seed: i32, country: u8)
    requires
        s.len() == DB_LEN,
        is_unicast(b),
        ip_of(s, b).last_seen != 0,
        elapsed(now, ip_of(s, b).last_seen) > DEDUP_SECONDS,
        ip_of(s, b).country != WORLDWIDE,
    ensures
        ({
            let t = heartbeat_step(s, b, now, seed, country);
            let c = ip_of(s, b).country;
            &&& country_of(t, c).seed == smoothed(country_of(s, c).seed, seed) as i64
            &&& country_of(t, WORLDWIDE).seed == smoothed(country_of(s, WORLDWIDE).seed, seed) as i64
            &&& ip_of(t, b).last_seen == now
            &&& ip_of(t, b).hits == ip_of(s, b).hits.saturating_add(1)
            &&& ip_of(t, b).country == c
            &&& forall|c2: u8|
                #![trigger country_of(t, c2)]
                country_of(t, c2).active == country_of(s, c2).active && country_of(t, c2).unique
                    == country_of(s, c2).unique
            &&& forall|c2: u8|
                c2 != c && c2 != WORLDWIDE ==> #[trigger] country_of(t, c2) == country_of(s, c2)
        }),
{
    reveal(activate_step);
    reveal(refresh_step);
    let r = ip_of(s, b);
    let diff = elapsed(now, r.last_seen) as u32;
    let r1 = StoredIpStats {
        cum_duration: r.cum_duration.saturating_add(diff),
        last_seen: now,
        hits: r.hits.saturating_add(1),
        ..r
    };
    let s1 = put_ip(s, b, r1);
    lemma_put_ip(s, b, r1);
    let s2 = sample_into(s1, r.country, seed, diff);
    lemma_sample_into(s1, r.country, seed, diff);
    lemma_sample_into(s2, WORLDWIDE, seed, diff);
}

/// Eviction then reactivation. An active unicast record of a country other
/// than `WORLDWIDE`, evicted by a sweep step and then heard from again at a
/// nonzero time, leaves the active and unique counts of every code where
/// they were (where the evicted counts were not zero), and keeps its
/// country.
pub proof fn law_evict_then_reactivate(
    s: Seq<u8>,
    b: int,
    swept_at: u64,
    now: u64,
    seed: i32,
    country: u8,
)
    requires
        s.len() == DB_LEN,
        is_unicast(b),
        ip_of(s, b).first_seen != 0,
        ip_of(s, b).last_seen != 0,
        elapsed(swept_at, ip_of(s, b).last_seen) > 10,
        ip_of(s, b).country != WORLDWIDE,
        country_of(s, ip_of(s, b).country).active > 0,
        country_of(s, WORLDWIDE).active > 0,
        now != 0,
        country != WORLDWIDE,
    ensures
        ({
            let t = heartbeat_step(evict_step(s, b, swept_at), b, now, seed, country);
            &&& ip_of(t, b).country == ip_of(s, b).country
            &&& ip_of(t, b).last_seen != 0
            &&& forall|c: u8|
                #![trigger country_of(t, c)]
                country_of(t, c).active == country_of(s, c).active && country_of(t, c).unique
                    == country_of(s, c).unique
        }),
{
    let e = evict_step(s, b, swept_at);
    let t = heartbeat_step(e, b, now, seed, country);
    let rc = ip_of(s, b).country;
    law_evict(s, b, swept_at);
    assert(is_inactive(ip_of(e, b)));
    law_heartbeat_active(e, b, now, seed, country);
    law_unique_counted_once(e, b, now, seed, country);
    lemma_activate_counts(e, b, now, country);
    lemma_refresh_counts(activate_step(e, b, now, country), b, now, seed);
    assert forall|c: u8|
        #![trigger country_of(t, c)]
        country_of(t, c).active == country_of(s, c).active && country_of(t, c).unique
            == country_of(s, c).unique by {
        if c != rc && c != WORLDWIDE {
            assert(country_of(e, c).active == country_of(s, c).active);
        }
    }
}

/// A record that is active: created or reactivated, and not evicted since.
pub open spec fn is_live(r: StoredIpStats) -> bool {
    r.first_seen != 0 && r.last_seen != 0
}

/// 1 where bucket `b` is live with country `c`, else 0.
pub open spec fn live_in(s: Seq<u8>, b: int, c: u8) -> int {
    if is_live(ip_of(s, b)) && ip_of(s, b).country == c {
        1
    } else {
        0
    }
}

/// The number of live unicast buckets below `end` with country `c`.
pub open spec fn live_count(s: Seq<u8>, c: u8, end: int) -> int
    decreases end - FIRST_UNICAST_BUCKET,
{
    if end <= FIRST_UNICAST_BUCKET {
        0
    } else {
        live_count(s, c, end - 1) + live_in(s, end - 1, c)
    }
}

/// The store's counting invariant: no unicast record is stamped without
/// being created, no created one belongs to `WORLDWIDE`, each country's
/// active count is its number of live records, and the worldwide active
/// count is the sum of the countries'.
pub open spec fn counts_consistent(s: Seq<u8>) -> bool {
    &&& s.len() == DB_LEN
    &&& forall|b: int|
        #![trigger ip_of(s, b)]
        is_unicast(b) ==> (ip_of(s, b).first_seen == 0 ==> ip_of(s, b).last_seen == 0) && (ip_of(
            s,
            b,
        ).first_seen != 0 ==> ip_of(s, b).country != WORLDWIDE)
    &&& forall|c: u8|
        c != WORLDWIDE ==> #[trigger] country_of(s, c).active == live_count(
            s,
            c,
            LAST_UNICAST_BUCKET + 1,
        )
    &&& world_gap(s) == 0
}

proof fn lemma_live_count_change(s: Seq<u8>, t: Seq<u8>, b: int, c: u8, end: int)
    requires
        is_unicast(b),
        FIRST_UNICAST_BUCKET <= end <= LAST_UNICAST_BUCKET + 1,
        forall|b2: int| is_unicast(b2) && b2 != b ==> #[trigger] ip_of(t, b2) == ip_of(s, b2),
    ensures
        live_count(t, c, end) == live_count(s, c, end) + if b < end {
            live_in(t, b, c) - live_in(s, b, c)
        } else {
            0int
        },
    decreases end - FIRST_UNICAST_BUCKET,
{
    if end > FIRST_UNICAST_BUCKET {
        lemma_live_count_change(s, t, b, c, end - 1);
        if end - 1 != b {
            assert(ip_of(t, end - 1) == ip_of(s, end - 1));
        }
    }
}

proof fn lemma_live_count_bound(s: Seq<u8>, b: int, c: u8, end: int)
    requires
        is_unicast(b),
        FIRST_UNICAST_BUCKET <= end <= LAST_UNICAST_BUCKET + 1,
        b < end,
    ensures
        live_count(s, c, end) >= live_in(s, b, c),
    decreases end - FIRST_UNICAST_BUCKET,
{
    lemma_live_count_nonneg(s, c, end - 1);
    if end - 1 != b {
        lemma_live_count_bound(s, b, c, end - 1);
    }
}

proof fn lemma_live_count_nonneg(s: Seq<u8>, c: u8, end: int)
    ensures
        live_count(s, c, end) >= 0,
    decreases end - FIRST_UNICAST_BUCKET,
{
    if end > FIRST_UNICAST_BUCKET {
        lemma_live_count_nonneg(s, c, end - 1);
    }
}

proof fn lemma_countries_active_bound(s: Seq<u8>, c: u8, n: int)
    requires
        c != WORLDWIDE,
        c < n <= 256,
    ensures
        countries_active(s, n) >= country_of(s, c).active,
    decreases n,
{
    lemma_countries_active_nonneg(s, n - 1);
    if n - 1 != c {
        lemma_countries_active_bound(s, c, n - 1);
    }
}

proof fn lemma_countries_active_nonneg(s: Seq<u8>, n: int)
    ensures
        countries_active(s, n) >= 0,
    decreases n,
{
    if n > 0 {
        lemma_countries_active_nonneg(s, n - 1);
    }
}

/// A heartbeat keeps the counting invariant: from a bucket never seen or
/// evicted, it adds one live record to exactly one country and one active
/// record to that country and worldwide; from a live bucket it changes no
/// count. (Active counts below `u32::MAX`, so that none saturates.)
pub proof fn law_heartbeat_keeps_counts(s: Seq<u8>, b: int, now: u64, seed: i32, country: u8)
    requires
        counts_consistent(s),
        is_unicast(b),
        now != 0,
        country != WORLDWIDE,
        forall|c: u8| #[trigger] country_of(s, c).active < u32::MAX,
    ensures
        counts_consistent(heartbeat_step(s, b, now, seed, country)),
{
    let a = activate_step(s, b, now, country);
    let t = heartbeat_step(s, b, now, seed, country);
    let r = ip_of(s, b);
    lemma_activate_counts(s, b, now, country);
    lemma_refresh_counts(a, b, now, seed);
    law_heartbeat_active(s, b, now, seed, country);
    assert(ip_of(s, b) == r);
    let rc = if is_unborn(r) {
        country
    } else {
        r.country
    };
    assert(is_live(ip_of(t, b)) && ip_of(t, b).country == rc);
    assert forall|b2: int|
        #![trigger ip_of(t, b2)]
        is_unicast(b2) implies (ip_of(t, b2).first_seen == 0 ==> ip_of(t, b2).last_seen == 0) && (
        ip_of(t, b2).first_seen != 0 ==> ip_of(t, b2).country != WORLDWIDE) by {
        if b2 != b {
            assert(ip_of(t, b2) == ip_of(s, b2));
        }
    }
    assert forall|c: u8| c != WORLDWIDE implies #[trigger] country_of(t, c).active == live_count(
        t,
        c,
        LAST_UNICAST_BUCKET + 1,
    ) by {
        lemma_live_count_change(s, t, b, c, LAST_UNICAST_BUCKET + 1);
        assert(country_of(s, c).active == live_count(s, c, LAST_UNICAST_BUCKET + 1));
    }
}

/// One sweep step keeps the counting invariant: an evicted record leaves
/// its country's live records and active count, and the worldwide active
/// count, by exactly one.
pub proof fn law_evict_keeps_counts(s: Seq<u8>, b: int, now: u64)
    requires
        counts_consistent(s),
        is_unicast(b),
    ensures
        counts_consistent(evict_step(s, b, now)),
{
    let t = evict_step(s, b, now);
    let r = ip_of(s, b);
    law_evict(s, b, now);
    assert(ip_of(s, b) == r);
    if r.first_seen != 0 && r.last_seen != 0 && now.saturating_sub(r.last_seen) > 10 {
        let rc = r.country;
        assert(rc != WORLDWIDE);
        lemma_live_count_bound(s, b, rc, LAST_UNICAST_BUCKET + 1);
        assert(country_of(s, rc).active == live_count(s, rc, LAST_UNICAST_BUCKET + 1));
        lemma_countries_active_bound(s, rc, 256);
        assert(!is_live(ip_of(t, b)));
        assert forall|b2: int|
            #![trigger ip_of(t, b2)]
            is_unicast(b2) implies (ip_of(t, b2).first_seen == 0 ==> ip_of(t, b2).last_seen == 0)
            && (ip_of(t, b2).first_seen != 0 ==> ip_of(t, b2).country != WORLDWIDE) by {
            if b2 != b {
                assert(ip_of(t, b2) == ip_of(s, b2));
            }
        }
        assert forall|c: u8| c != WORLDWIDE implies #[trigger] country_of(t, c).active
            == live_count(t, c, LAST_UNICAST_BUCKET + 1) by {
            lemma_live_count_change(s, t, b, c, LAST_UNICAST_BUCKET + 1);
            assert(country_of(s, c).active == live_count(s, c, LAST_UNICAST_BUCKET + 1));
        }
    }
}

/// A whole sweep keeps the counting invariant.
pub proof fn law_sweep_keeps_counts(s: Seq<u8>, now: u64, end: int)
    requires
        counts_consistent(s),
        FIRST_UNICAST_BUCKET <= end <= LAST_UNICAST_BUCKET + 1,
    ensures
        counts_consistent(sweep_upto(s, now, end)),
    decreases end - FIRST_UNICAST_BUCKET,
{
    if end > FIRST_UNICAST_BUCKET {
        law_sweep_keeps_counts(s, now, end - 1);
        law_evict_keeps_counts(sweep_upto(s, now, end - 1), end - 1, now);
    }
}

/// A freshly created store: every byte zero.
pub open spec fn zero_store() -> Seq<u8> {
    Seq::new(DB_LEN as nat, |i: int| 0u8)
}

proof fn lemma_zero_word(s: Seq<u8>, off: int)
    requires
        0 <= off,
        off + 8 <= s.len(),
        forall|k: int| off <= k < off + 8 ==> s[k] == 0,
    ensures
        u32_at(s, off) == 0,
        u32_at(s, off + 4) == 0,
        u64_at(s, off) == 0,
{
    let z: u8 = 0;
    assert((z as u32) | ((z as u32) << 8u32) | ((z as u32) << 16u32) | ((z as u32) << 24u32) == 0)
        by (bit_vector)
        requires
            z == 0,
    ;
    assert(u32_at(s, off) == 0);
    assert(u32_at(s, off + 4) == 0);
    let w: u32 = 0;
    assert((w as u64) | ((w as u64) << 32u64) == 0) by (bit_vector)
        requires
            w == 0,
    ;
}

proof fn lemma_zero_live_count(c: u8, end: int)
    requires
        end <= LAST_UNICAST_BUCKET + 1,
    ensures
        live_count(zero_store(), c, end) == 0,
    decreases end - FIRST_UNICAST_BUCKET,
{
    if end > FIRST_UNICAST_BUCKET {
        lemma_zero_live_count(c, end - 1);
        lemma_zero_word(zero_store(), 32 * (end - 1));
    }
}

/// The counting invariant holds of a freshly created, all-zero store.
pub proof fn law_zero_store_consistent()
    ensures
        counts_consistent(zero_store()),
{
    let s = zero_store();
    assert forall|b: int|
        #![trigger ip_of(s, b)]
        is_unicast(b) implies (ip_of(s, b).first_seen == 0 ==> ip_of(s, b).last_seen == 0) && (ip_of(
        s,
        b,
    ).first_seen != 0 ==> ip_of(s, b).country != WORLDWIDE) by {
        lemma_zero_word(s, 32 * b);
    }
    assert forall|c: u8| #[trigger] country_of(s, c).active == 0 by {
        lemma_zero_word(s, 32 * c);
    }
    assert forall|c: u8| c != WORLDWIDE implies #[trigger] country_of(s, c).active == live_count(
        s,
        c,
        LAST_UNICAST_BUCKET + 1,
    ) by {
        lemma_zero_live_count(c, LAST_UNICAST_BUCKET + 1);
    }
    lemma_zero_countries(256);
}

proof fn lemma_zero_countries(n: int)
    requires
        n <= 256,
        forall|c: u8| #[trigger] country_of(zero_store(), c).active == 0,
    ensures
        countries_active(zero_store(), n) == 0,
    decreases n,
{
    if n > 0 {
        lemma_zero_countries(n - 1);
        assert(country_of(zero_store(), (n - 1) as u8).active == 0);
    }
}

} // verus!
