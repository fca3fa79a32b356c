use metis::server::limits::{source_bypass, MEMORY_MS, WINDOW_MS};
use metis::server::{RateWindow, Source, SourceTable};

const HERE: Source = Source::V4(0x0a00_0001);
const THERE: Source = Source::V6(1);

#[test]
fn connections_are_counted_for_each_source() {
    let mut table: SourceTable<u64> = SourceTable::new();
    assert!(table.acquire(HERE, 2));
    assert!(table.acquire(HERE, 2));
    assert!(!table.acquire(HERE, 2));
    assert!(table.acquire(THERE, 2));
    table.release(HERE);
    assert!(table.acquire(HERE, 2));
    table.release(THERE);
    assert_eq!(table.get(THERE), None);
}

#[test]
fn closing_undoes_opening() {
    let mut table: SourceTable<u64> = SourceTable::new();
    assert!(table.acquire(HERE, 5));
    let before = table.get(HERE);
    assert!(table.acquire(HERE, 5));
    table.release(HERE);
    assert_eq!(table.get(HERE), before);
}

#[test]
fn attempts_are_numbered_from_one() {
    let mut table: SourceTable<u64> = SourceTable::new();
    assert_eq!(table.record_login_attempt(HERE), 1);
    assert_eq!(table.record_login_attempt(HERE), 2);
    assert_eq!(table.record_login_attempt(THERE), 1);
    table.set(HERE, u64::MAX);
    assert_eq!(table.record_login_attempt(HERE), u64::MAX);
}

#[test]
fn a_source_is_let_in_past_its_threshold() {
    assert!(!source_bypass(Some(3), Some(3)));
    assert!(source_bypass(Some(3), Some(4)));
    assert!(!source_bypass(Some(3), None));
    assert!(!source_bypass(None, Some(100)));
}

#[test]
fn requests_are_limited_within_a_minute() {
    let mut table: SourceTable<RateWindow> = SourceTable::new();
    assert!(table.allow_request(HERE, 1_000, 2));
    assert!(table.allow_request(HERE, 2_000, 2));
    assert!(!table.allow_request(HERE, 3_000, 2));
    assert!(table.allow_request(THERE, 3_000, 2));
    assert!(!table.allow_request(HERE, 1_000 + WINDOW_MS - 1, 2));
    assert!(table.allow_request(HERE, 1_000 + WINDOW_MS, 2));
}

#[test]
fn quiet_sources_are_forgotten() {
    let mut table: SourceTable<RateWindow> = SourceTable::new();
    assert!(table.allow_request(HERE, 0, 2));
    assert!(table.allow_request(THERE, MEMORY_MS, 2));
    assert_eq!(table.get(HERE), None);
    assert_eq!(
        table.get(THERE),
        Some(RateWindow {
            since: MEMORY_MS,
            count: 1
        })
    );
}

#[test]
fn families_of_addresses_are_apart() {
    let mut table: SourceTable<u64> = SourceTable::new();
    table.set(Source::V4(7), 1);
    table.set(Source::V6(7), 2);
    assert_eq!(table.get(Source::V4(7)), Some(1));
    assert_eq!(table.get(Source::V6(7)), Some(2));
    table.remove(Source::V4(7));
    assert_eq!(table.get(Source::V4(7)), None);
    assert_eq!(table.get(Source::V6(7)), Some(2));
}

#[test]
fn only_quiet_sources_are_forgotten() {
    let mut table: SourceTable<RateWindow> = SourceTable::new();
    for address in 0..50u32 {
        assert!(table.allow_request(Source::V4(address), u64::from(address), 3));
        assert!(table.allow_request(Source::V6(u128::from(address)), u64::from(address), 3));
    }
    assert!(table.allow_request(HERE, MEMORY_MS + 24, 3));
    for address in 0..50u32 {
        let kept = if address > 24 {
            Some(RateWindow {
                since: u64::from(address),
                count: 1,
            })
        } else {
            None
        };
        assert_eq!(table.get(Source::V4(address)), kept);
        assert_eq!(table.get(Source::V6(u128::from(address))), kept);
    }
}
