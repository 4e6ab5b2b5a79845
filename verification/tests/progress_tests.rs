use reddit_search::progress::{
    lookup_line_count, file_name_bytes, estimate_total_lines, ProgressState,
};
use reddit_search::constants::create_line_count_map;

#[test]
fn table_has_every_known_month() {
    let table = create_line_count_map();
    assert_eq!(table.len(), 205);
}

#[test]
fn known_archives_are_found() {
    let table = create_line_count_map();
    assert_eq!(lookup_line_count(&table, b"RC_2005-12.zst"), Some(1075));
    assert_eq!(lookup_line_count(&table, b"RC_2015-06.zst"), Some(54258492));
    assert_eq!(lookup_line_count(&table, b"RC_2022-12.zst"), Some(238862690));
}

#[test]
fn unknown_archive_is_not_found() {
    let table = create_line_count_map();
    assert_eq!(lookup_line_count(&table, b"RC_2023-01.zst"), None);
    assert_eq!(lookup_line_count(&table, b"other.txt"), None);
}

#[test]
fn file_name_is_the_part_after_the_last_separator() {
    assert_eq!(file_name_bytes(b"data/dumps/RC_2010-01.zst"), b"RC_2010-01.zst".to_vec());
    assert_eq!(file_name_bytes(b"RC_2010-01.zst"), b"RC_2010-01.zst".to_vec());
    assert_eq!(file_name_bytes(b"dir/"), Vec::<u8>::new());
    assert_eq!(file_name_bytes(b""), Vec::<u8>::new());
}

#[test]
fn estimate_prefers_the_recorded_count() {
    let table = create_line_count_map();
    assert_eq!(estimate_total_lines(&table, b"RC_2005-12.zst", 123_456_789), 1075);
}

#[test]
fn estimate_falls_back_to_the_size_heuristic() {
    let table = create_line_count_map();
    // about ten million lines per gigabyte: one line per hundred bytes
    assert_eq!(estimate_total_lines(&table, b"unknown.zst", 1_000_000_000), 10_000_000);
    assert_eq!(estimate_total_lines(&table, b"unknown.zst", 250), 2);
}

#[test]
fn empty_archive_estimates_zero() {
    let table = create_line_count_map();
    assert_eq!(estimate_total_lines(&table, b"unknown.zst", 0), 0);
}

#[test]
fn progress_advances_by_nominal_batch_size() {
    let mut p = ProgressState::new(1000);
    assert_eq!(p.snapshot(), (0, 1000));
    p.advance(400);
    p.advance(400);
    p.advance(400);
    assert_eq!(p.snapshot(), (1200, 1000));
}

#[test]
fn progress_counter_saturates() {
    let mut p = ProgressState::new(10);
    p.advance(u64::MAX - 1);
    p.advance(5);
    assert_eq!(p.snapshot(), (u64::MAX, 10));
}
