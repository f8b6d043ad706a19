use sip::arp::{ARPRecTbl, ARPRecord, ARPLIVE, ARP_TBL_SZ};
use sip::wire::{ipv4, Mac};

fn mac(last: u8) -> Mac {
    Mac::new([0x02, 0x00, 0x00, 0x00, 0x00, last])
}

fn valid_count(tbl: &ARPRecTbl) -> usize {
    (0..ARP_TBL_SZ).filter(|i| tbl.get(*i).is_valid).count()
}

#[test]
fn new_cache_holds_only_invalid_records() {
    let tbl = ARPRecTbl::new();
    assert_eq!(valid_count(&tbl), 0);
    for i in 0..ARP_TBL_SZ {
        let rec = tbl.get(i);
        assert!(!rec.is_valid);
        assert_eq!(rec.age, 0);
        assert_eq!(rec.ip, 0);
        assert_eq!(rec.mac.octets, [0u8; 6]);
        assert_eq!(rec.ctime, 0);
    }
}

#[test]
fn default_record_is_invalid() {
    let rec = ARPRecord::default();
    assert!(!rec.is_valid);
    assert_eq!(rec.age, 0);
    assert_eq!(rec.ctime, 0);
}

#[test]
fn lookup_in_empty_cache_finds_nothing() {
    let mut tbl = ARPRecTbl::new();
    assert!(tbl.get_mut_and_update_at(ipv4(10, 0, 0, 1), 5).is_none());
    assert_eq!(valid_count(&tbl), 0);
}

#[test]
fn insert_then_lookup_returns_the_mapping() {
    let mut tbl = ARPRecTbl::new();
    let ip = ipv4(192, 168, 1, 7);
    tbl.insert_at(ip, mac(7), 1_000);
    let rec = tbl.get_mut_and_update_at(ip, 2_000).expect("learned address");
    assert_eq!(rec.mac.octets, mac(7).octets);
    assert_eq!(rec.ip, ip);
    assert_eq!(rec.age, 0);
    assert_eq!(rec.ctime, 1_000);
}

#[test]
fn second_insert_of_same_ip_overwrites_the_mac() {
    let mut tbl = ARPRecTbl::new();
    let ip1 = ipv4(192, 168, 1, 7);
    tbl.insert_at(ip1, mac(1), 1_000);
    tbl.insert_at(ip1, mac(2), 2_000);
    assert_eq!(valid_count(&tbl), 1);
    let rec = tbl.get_mut_and_update_at(ip1, 3_000).expect("learned address");
    assert_eq!(rec.mac.octets, mac(2).octets);
    assert_eq!(rec.ctime, 2_000);
}

#[test]
fn renewal_happens_in_place() {
    let mut tbl = ARPRecTbl::new();
    tbl.insert_at(ipv4(10, 0, 0, 1), mac(1), 10);
    tbl.insert_at(ipv4(10, 0, 0, 2), mac(2), 20);
    tbl.insert_at(ipv4(10, 0, 0, 1), mac(9), 30);
    assert_eq!(tbl.get(0).ip, ipv4(10, 0, 0, 1));
    assert_eq!(tbl.get(0).mac.octets, mac(9).octets);
    assert_eq!(tbl.get(0).ctime, 30);
    assert_eq!(tbl.get(1).ip, ipv4(10, 0, 0, 2));
    assert!(!tbl.get(2).is_valid);
}

#[test]
fn scan_ages_the_records_it_passes() {
    let mut tbl = ARPRecTbl::new();
    tbl.insert_at(ipv4(10, 0, 0, 1), mac(1), 10);
    tbl.insert_at(ipv4(10, 0, 0, 2), mac(2), 20);
    tbl.insert_at(ipv4(10, 0, 0, 3), mac(3), 30);
    assert_eq!(tbl.get(0).age, 2);
    assert_eq!(tbl.get(1).age, 1);
    assert_eq!(tbl.get(2).age, 0);
    // A hit on the second record ages the first and stops before the third.
    assert!(tbl.get_mut_and_update_at(ipv4(10, 0, 0, 2), 40).is_some());
    assert_eq!(tbl.get(0).age, 3);
    assert_eq!(tbl.get(1).age, 0);
    assert_eq!(tbl.get(2).age, 0);
}

#[test]
fn age_saturates_at_the_greatest_value() {
    let mut records = [ARPRecord::default(); 10];
    records[0] = ARPRecord { is_valid: true, age: u16::MAX, ip: 1, mac: mac(1), ctime: 0 };
    records[1] = ARPRecord { is_valid: true, age: u16::MAX - 1, ip: 2, mac: mac(2), ctime: 0 };
    let mut tbl = ARPRecTbl::from_records(records);
    assert!(tbl.get_mut_and_update_at(99, 1).is_none());
    assert_eq!(tbl.get(0).age, u16::MAX);
    assert_eq!(tbl.get(1).age, u16::MAX);
}

#[test]
fn eleven_inserts_leave_ten_valid_and_evict_the_oldest() {
    let mut tbl = ARPRecTbl::new();
    for i in 0..10u8 {
        tbl.insert_at(ipv4(10, 0, 0, i + 1), mac(i + 1), 100 + i as i128);
    }
    assert_eq!(valid_count(&tbl), 10);
    // The first record learned has been passed by nine scans.
    assert_eq!(tbl.get(0).age, 9);
    assert_eq!(tbl.get(9).age, 0);
    tbl.insert_at(ipv4(10, 0, 0, 11), mac(11), 200);
    assert_eq!(valid_count(&tbl), 10);
    assert_eq!(tbl.get(0).ip, ipv4(10, 0, 0, 11));
    assert_eq!(tbl.get(0).mac.octets, mac(11).octets);
    assert_eq!(tbl.get(0).age, 0);
    assert_eq!(tbl.get(0).ctime, 200);
    for i in 1..10usize {
        assert_eq!(tbl.get(i).ip, ipv4(10, 0, 0, i as u8 + 1));
        assert_eq!(tbl.get(i).age, 10 - i as u16);
    }
    assert!(tbl.get_mut_and_update_at(ipv4(10, 0, 0, 1), 201).is_none());
}

#[test]
fn eviction_takes_the_first_of_equal_ages() {
    let mut records = [ARPRecord::default(); 10];
    for i in 0..10usize {
        let age = if i == 3 || i == 6 { 40 } else { 5 };
        records[i] =
            ARPRecord { is_valid: true, age, ip: 100 + i as u32, mac: mac(i as u8), ctime: 0 };
    }
    let mut tbl = ARPRecTbl::from_records(records);
    tbl.insert_at(7, mac(0xaa), 1);
    assert_eq!(tbl.get(3).ip, 7);
    assert_eq!(tbl.get(6).ip, 106);
    assert_eq!(tbl.get(6).age, 41);
}

#[test]
fn first_invalid_slot_is_preferred_over_eviction() {
    let mut records = [ARPRecord::default(); 10];
    for i in 0..10usize {
        records[i] = ARPRecord {
            is_valid: i != 4 && i != 8,
            age: 1000,
            ip: 100 + i as u32,
            mac: mac(i as u8),
            ctime: 0,
        };
    }
    let mut tbl = ARPRecTbl::from_records(records);
    tbl.insert_at(7, mac(0xaa), 1);
    assert_eq!(tbl.get(4).ip, 7);
    assert!(tbl.get(4).is_valid);
    assert!(!tbl.get(8).is_valid);
    assert_eq!(tbl.get(0).ip, 100);
}

#[test]
fn record_expires_after_the_liveness_window() {
    let mut tbl = ARPRecTbl::new();
    let ip = ipv4(10, 0, 0, 1);
    tbl.insert_at(ip, mac(1), 1_000);
    // Exactly at the end of the window the record is still live.
    assert!(tbl.get_mut_and_update_at(ip, 1_000 + ARPLIVE).is_some());
    assert!(tbl.get(0).is_valid);
    // One nanosecond later it is dropped by the scan.
    assert!(tbl.get_mut_and_update_at(ip, 1_001 + ARPLIVE).is_none());
    assert!(!tbl.get(0).is_valid);
    assert_eq!(valid_count(&tbl), 0);
}

#[test]
fn liveness_window_is_ten_minutes() {
    assert_eq!(ARPLIVE, 10 * 60 * 1_000_000_000);
    let rec = ARPRecord { is_valid: true, age: 0, ip: 1, mac: mac(1), ctime: 0 };
    assert!(!rec.is_expired(600_000_000_000));
    assert!(rec.is_expired(600_000_000_001));
    let late = ARPRecord { ctime: i128::MAX, ..rec };
    assert!(!late.is_expired(i128::MAX));
}

#[test]
fn insert_after_expiry_writes_a_fresh_record() {
    let mut records = [ARPRecord::default(); 10];
    records[0] = ARPRecord { is_valid: true, age: 3, ip: 50, mac: mac(5), ctime: 0 };
    records[1] = ARPRecord { is_valid: true, age: 7, ip: 60, mac: mac(6), ctime: 0 };
    let mut tbl = ARPRecTbl::from_records(records);
    let now = ARPLIVE + 1;
    tbl.insert_at(60, mac(0x66), now);
    // Both records were stale: both are dropped, and the mapping is written
    // anew to the first free slot.
    let first = tbl.get(0);
    assert!(first.is_valid);
    assert_eq!(first.ip, 60);
    assert_eq!(first.mac.octets, mac(0x66).octets);
    assert_eq!(first.age, 0);
    assert_eq!(first.ctime, now);
    assert!(!tbl.get(1).is_valid);
    assert_eq!(valid_count(&tbl), 1);
}

#[test]
fn insert_reads_the_clock() {
    let mut tbl = ARPRecTbl::new();
    tbl.insert(ipv4(10, 0, 0, 1), mac(1));
    let rec = tbl.get(0);
    assert!(rec.is_valid);
    // Later than the first of January 2020, in nanoseconds.
    assert!(rec.ctime > 1_577_836_800_000_000_000);
    let found = tbl.get_mut_and_update(ipv4(10, 0, 0, 1)).expect("just learned");
    assert_eq!(found.mac.octets, mac(1).octets);
}

#[test]
fn handle_to_found_record_writes_through() {
    let mut tbl = ARPRecTbl::new();
    tbl.insert_at(5, mac(1), 10);
    {
        let rec = tbl.get_mut_and_update_at(5, 11).expect("learned address");
        rec.mac = mac(0x77);
    }
    assert_eq!(tbl.get(0).mac.octets, mac(0x77).octets);
}
