use melodybrain::client::{
    generate_seed, make_heartbeat, requested_country, resolve_seed, seed_from_bytes, DataForm,
    SeedChoice, SeedType,
};
use melodybrain::country::{country_name, search_country, COUNTRY_COUNT, UNKNOWN, WORLDWIDE};
use melodybrain::wire::{
    decode_heartbeat, decode_stats, encode_heartbeat, encode_stats, DecodeError, Heartbeat, Stats,
    HEARTBEAT_LEN, STATS_LEN,
};

#[test]
fn heartbeat_round_trip() {
    for hb in [
        Heartbeat { seed: 0, wants_country: 0 },
        Heartbeat { seed: -1, wants_country: 250 },
        Heartbeat { seed: i32::MIN, wants_country: 17 },
        Heartbeat { seed: i32::MAX, wants_country: 255 },
    ] {
        let b = encode_heartbeat(&hb);
        assert_eq!(b.len(), HEARTBEAT_LEN);
        assert_eq!(decode_heartbeat(&b), Ok(hb));
    }
}

#[test]
fn heartbeat_layout() {
    let b = encode_heartbeat(&Heartbeat { seed: 0x0102_0304, wants_country: 9 });
    assert_eq!(b, vec![4, 3, 2, 1, 9]);
}

#[test]
fn heartbeat_decode_errors() {
    assert_eq!(decode_heartbeat(&[]), Err(DecodeError::Truncated));
    assert_eq!(decode_heartbeat(&[1, 2, 3, 4]), Err(DecodeError::Truncated));
    assert_eq!(decode_heartbeat(&[1, 2, 3, 4, 5, 6]), Err(DecodeError::TrailingBytes));
}

#[test]
fn stats_round_trip() {
    let heatmap: Vec<u32> = (0..COUNTRY_COUNT as u32).map(|i| (i as f32 / 7.0).to_bits()).collect();
    let s = Stats { connected: 42, seed: -99, country_heatmap: heatmap.clone() };
    let b = encode_stats(&s);
    assert_eq!(b.len(), STATS_LEN);
    assert!(b.len() <= 1200);
    let d = decode_stats(&b).unwrap();
    assert_eq!(d.connected, 42);
    assert_eq!(d.seed, -99);
    assert_eq!(d.country_heatmap, heatmap);
    assert_eq!(f32::from_bits(d.country_heatmap[14]), 2.0);
}

#[test]
fn stats_decode_errors() {
    assert!(matches!(decode_stats(&[0u8; STATS_LEN - 1]), Err(DecodeError::Truncated)));
    assert!(matches!(decode_stats(&[0u8; STATS_LEN + 1]), Err(DecodeError::TrailingBytes)));
    assert!(matches!(decode_stats(&[0u8; 5]), Err(DecodeError::Truncated)));
}

#[test]
fn country_codes() {
    assert_eq!(search_country(b"AD"), Some(1));
    assert_eq!(search_country(b"ZW"), Some(249));
    assert_eq!(search_country(b"us"), search_country(b"US"));
    assert_eq!(country_name(search_country(b"Fr").unwrap()), Some((b'F', b'R')));
    assert_eq!(search_country(b"ZZ"), None);
    assert_eq!(search_country(b"USA"), None);
    assert_eq!(search_country(b""), None);
    assert_eq!(country_name(UNKNOWN), None);
    assert_eq!(country_name(WORLDWIDE), None);
    assert_eq!(WORLDWIDE as usize, COUNTRY_COUNT);
}

#[test]
fn requested_country_falls_back_to_worldwide() {
    assert_eq!(requested_country(b"de"), search_country(b"DE").unwrap());
    assert_eq!(requested_country(b"nowhere"), WORLDWIDE);
    assert_eq!(requested_country(b""), WORLDWIDE);
}

#[test]
fn seed_policy() {
    assert_eq!(resolve_seed(SeedType::Local, 1, 2, 3), SeedChoice { seed: 1, local_seed: 1 });
    assert_eq!(resolve_seed(SeedType::Global, 1, 2, 3), SeedChoice { seed: 2, local_seed: 1 });
    assert_eq!(resolve_seed(SeedType::NewLocal, 1, 2, 3), SeedChoice { seed: 3, local_seed: 3 });
    assert_eq!(SeedType::default(), SeedType::Global);
    let form = DataForm::default();
    assert_eq!(form.idx, 0);
    assert_eq!(form.seed, SeedType::Global);
    assert!(form.country.is_empty());
}

#[test]
fn seeds_from_bytes() {
    assert_eq!(seed_from_bytes([1, 0, 0, 0]), 1);
    assert_eq!(seed_from_bytes([0, 1, 0, 0]), 256);
    assert_eq!(seed_from_bytes([0xff; 4]), -1);
    assert_eq!(seed_from_bytes([0, 0, 0, 0x80]), i32::MIN);
}

#[test]
fn random_seeds_come() {
    let seeds: Vec<i32> = (0..8).map(|_| generate_seed().expect("random source")).collect();
    assert!(seeds.iter().any(|s| *s != seeds[0]));
}

#[test]
fn heartbeat_builder() {
    let hb = make_heartbeat(-5, 0);
    assert_eq!(hb, Heartbeat { seed: -5, wants_country: 0 });
    assert!(!hb.wants_reply());
    assert!(make_heartbeat(-5, 3).wants_reply());
}

#[test]
fn ipv4_octets_most_significant_first() {
    assert_eq!(melodybrain::geo::ipv4_octets(0x0102_0304), [1, 2, 3, 4]);
    assert_eq!(melodybrain::geo::ipv4_octets(0xdfff_ff00), [223, 255, 255, 0]);
}
