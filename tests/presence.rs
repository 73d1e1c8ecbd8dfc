use melodybrain::client::NoiseRng;
use melodybrain::country::{search_country, WORLDWIDE};
use melodybrain::records::{StoredCountryStats, StoredIpStats};
use melodybrain::smoothing::smooth;
use melodybrain::store::{is_tracked_addr, sweep_due, GeneralIpDb, DB_LEN};
use melodybrain::wire::Heartbeat;

fn fresh_db() -> GeneralIpDb {
    let map = memmap2::MmapMut::map_anon(DB_LEN).expect("anonymous mapping");
    GeneralIpDb::from_map(map).expect("store of the right size")
}

fn us() -> u8 {
    search_country(b"US").unwrap()
}

const ADDR: u32 = 0x0102_0304; // 1.2.3.4
const OTHER_ADDR_SAME_BUCKET: u32 = 0x0102_03fe; // 1.2.3.254

#[test]
fn from_map_rejects_wrong_length() {
    let map = memmap2::MmapMut::map_anon(4096).unwrap();
    assert!(GeneralIpDb::from_map(map).is_none());
}

#[test]
fn fresh_bucket_counts_unique_and_active() {
    let mut db = fresh_db();
    let hb = Heartbeat { seed: 77, wants_country: 0 };
    db.apply_heartbeat(ADDR, 1000, hb.seed, us());
    assert!(!hb.wants_reply());

    let rec = db.lookup_ip_record(ADDR);
    assert_eq!(rec.first_seen, 1000);
    assert_eq!(rec.last_seen, 1000);
    assert_eq!(rec.country, us());
    assert_eq!(rec.hits, 0);

    for code in [us(), WORLDWIDE] {
        let c = db.lookup_country(code);
        assert_eq!(c.unique, 1);
        assert_eq!(c.active, 1);
        // creation is no counted refresh: the seed has not moved
        assert_eq!(c.seed, 0);
    }
    assert_eq!(db.lookup_country(search_country(b"FR").unwrap()).active, 0);
}

#[test]
fn query_reports_connected_and_heatmap_share() {
    let mut db = fresh_db();
    db.apply_heartbeat(ADDR, 1000, 5, us());
    let hb = Heartbeat { seed: 5, wants_country: us() };
    db.apply_heartbeat(ADDR, 1001, hb.seed, us());
    assert!(hb.wants_reply());

    let actives = db.country_actives();
    assert_eq!(actives.len(), 250);
    let world = db.lookup_country(WORLDWIDE).active;
    assert_eq!(world, 1);
    let share = actives[us() as usize] as f32 / world as f32;
    assert_eq!(share, 1.0);

    let stats = db.build_stats(us(), vec![0u32; 250]);
    assert_eq!(stats.connected, 1);
    assert_eq!(stats.seed, 0);
}

#[test]
fn eviction_and_reactivation() {
    let mut db = fresh_db();
    db.apply_heartbeat(ADDR, 1000, 5, us());
    db.cleanup(1011);

    let rec = db.lookup_ip_record(ADDR);
    assert_eq!(rec.last_seen, 0);
    assert_eq!(rec.first_seen, 1000);
    assert_eq!(rec.country, us());
    assert_eq!(rec.cum_duration, 11);
    for code in [us(), WORLDWIDE] {
        assert_eq!(db.lookup_country(code).active, 0);
        assert_eq!(db.lookup_country(code).unique, 1);
    }

    // a second sweep skips the inactive record
    db.cleanup(2000);
    assert_eq!(db.lookup_ip_record(ADDR).cum_duration, 11);

    // a later heartbeat reactivates it, with its old country
    let fr = search_country(b"FR").unwrap();
    db.apply_heartbeat(OTHER_ADDR_SAME_BUCKET, 3000, 5, fr);
    let rec = db.lookup_ip_record(ADDR);
    assert_eq!(rec.first_seen, 3000);
    assert_eq!(rec.last_seen, 3000);
    assert_eq!(rec.country, us());
    for code in [us(), WORLDWIDE] {
        assert_eq!(db.lookup_country(code).active, 1);
        assert_eq!(db.lookup_country(code).unique, 1);
    }
    assert_eq!(db.lookup_country(fr).active, 0);
}

#[test]
fn sweep_keeps_fresh_records() {
    let mut db = fresh_db();
    db.apply_heartbeat(ADDR, 1000, 5, us());
    db.cleanup(1010);
    assert_eq!(db.lookup_ip_record(ADDR).last_seen, 1000);
    assert_eq!(db.lookup_country(us()).active, 1);
}

#[test]
fn dedup_window_counts_one_refresh() {
    let mut db = fresh_db();
    db.apply_heartbeat(ADDR, 1000, 4_000_000, us());
    db.apply_heartbeat(ADDR, 1011, 4_000_000, us());
    db.apply_heartbeat(ADDR, 1015, 4_000_000, us());

    let rec = db.lookup_ip_record(ADDR);
    assert_eq!(rec.hits, 1);
    assert_eq!(rec.last_seen, 1011);
    assert_eq!(rec.cum_duration, 11);
    let c = db.lookup_country(us());
    assert_eq!(c.seed, 2000);
    assert_eq!(c.cum_duration, 11);
    assert_eq!(db.lookup_country(WORLDWIDE).seed, 2000);
}

#[test]
fn clock_going_back_counts_nothing() {
    let mut db = fresh_db();
    db.apply_heartbeat(ADDR, 1000, 9, us());
    db.apply_heartbeat(ADDR, 10, 9, us());
    assert_eq!(db.lookup_ip_record(ADDR).hits, 0);
    db.cleanup(10);
    assert_eq!(db.lookup_country(us()).active, 1);
}

#[test]
fn active_saturates_at_zero() {
    let mut db = fresh_db();
    db.apply_heartbeat(ADDR, 1000, 5, us());
    db.store_country(us(), StoredCountryStats { active: 0, unique: 1, seed: 0, cum_duration: 0 });
    db.cleanup(2000);
    assert_eq!(db.lookup_country(us()).active, 0);
    assert_eq!(db.lookup_country(WORLDWIDE).active, 0);
}

#[test]
fn records_round_trip_through_store() {
    let mut db = fresh_db();
    let rec = StoredIpStats {
        first_seen: 0x0102_0304_0506_0708,
        last_seen: u64::MAX,
        cum_duration: 0xdead_beef,
        hits: 7,
        country: 200,
    };
    db.store_ip_record(ADDR, rec);
    assert_eq!(db.lookup_ip_record(OTHER_ADDR_SAME_BUCKET), rec);
    assert_eq!(db.lookup_ip_record(ADDR + 256).first_seen, 0);

    let c = StoredCountryStats { active: 3, unique: 9, seed: -123_456_789_012, cum_duration: 5 };
    db.store_country(7, c);
    assert_eq!(db.lookup_country(7), c);
    assert_eq!(db.lookup_country(8).active, 0);
}

#[test]
fn record_bytes_are_little_endian() {
    let rec = StoredIpStats { first_seen: 1, last_seen: 2, cum_duration: 3, hits: 4, country: 5 };
    let b = rec.encode();
    assert_eq!(b.len(), 32);
    assert_eq!(&b[0..9], &[1, 0, 0, 0, 0, 0, 0, 0, 2]);
    assert_eq!(b[16], 3);
    assert_eq!(b[20], 4);
    assert_eq!(b[24], 5);
    assert_eq!(StoredIpStats::decode_at(&b, 0), rec);

    let c = StoredCountryStats { active: 1, unique: 2, seed: -1, cum_duration: 4 };
    let b = c.encode();
    assert_eq!(&b[8..16], &[0xff; 8]);
    assert_eq!(StoredCountryStats::decode_at(&b, 0), c);
}

#[test]
fn smoothing_moves_by_truncated_share() {
    assert_eq!(smooth(0, 4_000_000), 2000);
    assert_eq!(smooth(0, -4_000_000), -2000);
    assert_eq!(smooth(0, 1999), 0);
    assert_eq!(smooth(0, -1999), 0);
    assert_eq!(smooth(0, 2000), 1);
    assert_eq!(smooth(i64::MIN, i32::MAX), -9218760350835274679);
}

#[test]
fn smoothing_converges_toward_sample() {
    let mut cur: i64 = 0;
    let mut last = cur;
    for _ in 0..20_000 {
        cur = smooth(cur, 4_000_000);
        assert!(cur >= last && cur <= 4_000_000);
        last = cur;
    }
    assert!(4_000_000 - cur < 2000);
    assert_eq!(smooth(cur, 4_000_000), cur);
}

#[test]
fn tracked_range_and_sweep_cadence() {
    assert!(!is_tracked_addr(0x0000_0001));
    assert!(is_tracked_addr(0x0100_0000));
    assert!(is_tracked_addr(0xdfff_ffff));
    assert!(!is_tracked_addr(0xe000_0000));
    assert!(!sweep_due(120, 100));
    assert!(sweep_due(121, 100));
    assert!(!sweep_due(5, 100));
}

#[test]
fn noise_rng_walks_and_wraps() {
    let mut r = NoiseRng::new(u32::MAX - 1, -3);
    assert_eq!((r.x, r.y), (u32::MAX - 1, -3));
    r.advance();
    assert_eq!(r.x, u32::MAX);
    r.advance();
    assert_eq!(r.x, 0);
    assert_eq!(r.y, -3);
}

#[test]
fn active_counts_are_conserved() {
    let mut db = fresh_db();
    let de = search_country(b"DE").unwrap();
    db.apply_heartbeat(0x0a00_0001, 1000, 1, us());
    db.apply_heartbeat(0x0b00_0001, 1000, 1, de);
    db.apply_heartbeat(0x0c00_0001, 1005, 1, de);
    db.apply_heartbeat(0x0c00_0002, 1006, 1, de);

    let sum = |db: &GeneralIpDb| db.country_actives().iter().map(|a| *a as u64).sum::<u64>();
    assert_eq!(sum(&db), 3);
    assert_eq!(db.lookup_country(WORLDWIDE).active, 3);
    assert_eq!(db.lookup_country(WORLDWIDE).unique, 3);

    // the first two are stale at 1014, the third is not
    db.cleanup(1014);
    assert_eq!(db.lookup_country(us()).active, 0);
    assert_eq!(db.lookup_country(de).active, 1);
    assert_eq!(sum(&db), 1);
    assert_eq!(db.lookup_country(WORLDWIDE).active, 1);
    assert_eq!(db.lookup_country(WORLDWIDE).unique, 3);
}
