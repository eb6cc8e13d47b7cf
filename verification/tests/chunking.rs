use systick_delay::ticks::{chunk_sizes, next_chunk, ticks_for, MAX_RELOAD};

#[test]
fn zero_request_yields_no_chunks() {
    assert_eq!(ticks_for(0, 48_000_000), 0);
    assert_eq!(chunk_sizes(0), Vec::<u32>::new());
}

#[test]
fn exact_reload_fit_is_one_chunk() {
    assert_eq!(chunk_sizes(MAX_RELOAD), vec![MAX_RELOAD]);
}

#[test]
fn one_past_reload_is_two_chunks() {
    assert_eq!(chunk_sizes(MAX_RELOAD + 1), vec![MAX_RELOAD, 1]);
}

#[test]
fn chunks_sum_to_total_and_count_rounds_up() {
    let totals = [
        1u32,
        2,
        1000,
        MAX_RELOAD - 1,
        MAX_RELOAD,
        MAX_RELOAD + 1,
        3 * MAX_RELOAD + 7,
        u32::MAX,
    ];
    for total in totals {
        let chunks = chunk_sizes(total);
        let sum: u64 = chunks.iter().map(|&c| c as u64).sum();
        assert_eq!(sum, total as u64);
        let ceil = ((total as u64) + (MAX_RELOAD as u64) - 1) / (MAX_RELOAD as u64);
        assert_eq!(chunks.len() as u64, ceil);
        assert!(chunks.iter().all(|&c| 1 <= c && c <= MAX_RELOAD));
    }
}

#[test]
fn tick_conversion_truncates_the_ratio() {
    // 48 MHz is 48 ticks per microsecond
    assert_eq!(ticks_for(1, 48_000_000), 48);
    assert_eq!(ticks_for(250, 8_000_000), 2_000);
    // the ratio truncates: below 1 MHz it is zero ticks per microsecond
    assert_eq!(ticks_for(1000, 32_768), 0);
    assert_eq!(ticks_for(7, 2_500_000), 14);
}

#[test]
fn long_delay_at_48_mhz_splits_in_two() {
    let total = ticks_for(500_000, 48_000_000);
    assert_eq!(total, 24_000_000);
    assert!(total > MAX_RELOAD);
    assert_eq!(chunk_sizes(total), vec![MAX_RELOAD, 7_222_785]);
}

#[test]
fn next_chunk_caps_at_the_reload_ceiling() {
    assert_eq!(next_chunk(1), 1);
    assert_eq!(next_chunk(MAX_RELOAD - 1), MAX_RELOAD - 1);
    assert_eq!(next_chunk(MAX_RELOAD), MAX_RELOAD);
    assert_eq!(next_chunk(MAX_RELOAD + 1), MAX_RELOAD);
    assert_eq!(next_chunk(u32::MAX), MAX_RELOAD);
}
