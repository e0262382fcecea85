use sj_probe::measure::{
    check_download, generation_tokens, single_thread_picks, storage_block, sustained_windows, thread_counts,
    u64_to_decimal, working_sets,
};

#[test]
fn thread_count_sweep() {
    assert_eq!(thread_counts(0), vec![1]);
    assert_eq!(thread_counts(1), vec![1]);
    assert_eq!(thread_counts(2), vec![1, 2]);
    assert_eq!(thread_counts(3), vec![1, 3]);
    assert_eq!(thread_counts(8), vec![1, 4, 8]);
    assert_eq!(thread_counts(9), vec![1, 4, 9]);
}

#[test]
fn working_sets_under_cap() {
    let small = working_sets(0);
    assert_eq!(small, vec![196608, 1572864, 6291456, 25165824]);
    assert_eq!(working_sets(2_000_000_000).len(), 7);
    assert_eq!(working_sets(500_000_000), vec![196608, 1572864, 6291456, 25165824, 100663296, 402653184]);
}

#[test]
fn single_thread_subset() {
    assert_eq!(single_thread_picks(&vec![1, 2, 3, 4, 5, 6, 7]), vec![1, 4, 7]);
    assert_eq!(single_thread_picks(&vec![1, 2, 3, 4]), vec![1, 3, 4]);
    assert_eq!(single_thread_picks(&vec![5, 6]), vec![5, 6]);
}

#[test]
fn storage_block_is_xorshift() {
    let b = storage_block(8);
    assert_eq!(b, vec![173, 118, 54, 116, 236, 121, 207, 234]);
    assert_eq!(storage_block(4096).len(), 4096);
}

#[test]
fn sustained_window_count() {
    assert_eq!(sustained_windows(60, 5), 12);
    assert_eq!(sustained_windows(3, 5), 1);
    assert_eq!(sustained_windows(0, 5), 1);
    assert_eq!(sustained_windows(12, 5), 2);
}

#[test]
fn decimal_text() {
    assert_eq!(u64_to_decimal(0), "0");
    assert_eq!(u64_to_decimal(484220320), "484220320");
    assert_eq!(u64_to_decimal(u64::MAX), "18446744073709551615");
}

#[test]
fn download_checks() {
    assert!(check_download(10, 10, "ab", "ab").is_ok());
    assert_eq!(
        check_download(9, 10, "ab", "ab").err().as_deref(),
        Some("size mismatch: got 9 bytes, manifest says 10")
    );
    assert_eq!(
        check_download(10, 10, "ab", "cd").err().as_deref(),
        Some("sha256 mismatch: got ab, manifest says cd")
    );
}

#[test]
fn decimal_round_trip_through_parse() {
    use_parse_round_trip(&[0, 7, 10, 99, 484220320, u64::MAX]);
}

fn use_parse_round_trip(values: &[u64]) {
    for &v in values {
        let text = u64_to_decimal(v);
        assert_eq!(sj_probe::opts::parse_u64(&text), Some(v));
    }
}

#[test]
fn calibration_token_count_is_clamped() {
    assert_eq!(generation_tokens(0), 128);
    assert_eq!(generation_tokens(127), 128);
    assert_eq!(generation_tokens(128), 128);
    assert_eq!(generation_tokens(900), 900);
    assert_eq!(generation_tokens(8192), 8192);
    assert_eq!(generation_tokens(8193), 8192);
    assert_eq!(generation_tokens(u64::MAX), 8192);
}
