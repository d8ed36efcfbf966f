use sq_app::dates::Date;
use sq_app::market::{business_days, index_on, Rng};

#[test]
fn the_generator_is_the_same_every_time() {
    let mut a = Rng::new(42);
    let mut b = Rng::new(42);
    for _ in 0..100 {
        assert_eq!(a.next_u64(), b.next_u64());
    }
}

#[test]
fn a_zero_seed_still_moves() {
    let mut r = Rng::new(0);
    // state 1: 1 ^ (1 << 25) = 0x2000001; then ^ (x >> 27) leaves it
    assert_eq!(r.next_u64(), 0x2000001u64.wrapping_mul(0x2545_f491_4f6c_dd1d));
    assert_ne!(r.next_u64(), 0);
}

fn day(y: i32, m: u32, d: u32) -> Date {
    Date::from_ymd(y, m, d).unwrap()
}

#[test]
fn only_weekdays_are_trading_days() {
    // Friday 2024-03-01 to Tuesday 2024-03-05
    let days = business_days(day(2024, 3, 1), day(2024, 3, 5));
    let got: Vec<String> = days.iter().map(|d| d.to_text()).collect();
    assert_eq!(got, vec!["2024-03-01", "2024-03-04", "2024-03-05"]);
    assert!(business_days(day(2024, 3, 5), day(2024, 3, 1)).is_empty());
}

#[test]
fn a_date_finds_the_first_trading_day_on_or_after_it() {
    let days = business_days(day(2024, 3, 1), day(2024, 3, 8));
    assert_eq!(index_on(&days, day(2024, 3, 1)), 0);
    assert_eq!(index_on(&days, day(2024, 3, 2)), 1);
    assert_eq!(index_on(&days, day(2024, 3, 4)), 1);
    assert_eq!(index_on(&days, day(2024, 2, 1)), 0);
    assert_eq!(index_on(&days, day(2024, 4, 1)), days.len() - 1);
}

/// No draw is zero, and a seed with its lowest bit set starts where the seed itself does.
#[test]
fn no_draw_is_zero_and_the_low_bit_is_the_same_seed() {
    for seed in [0u64, 1, 2, 3, 42, u64::MAX, 1 << 63] {
        let mut a = Rng::new(seed);
        let mut b = Rng::new(seed | 1);
        for _ in 0..1000 {
            let x = a.next_u64();
            assert_ne!(x, 0);
            assert_eq!(x, b.next_u64());
        }
    }
}

/// Day 739881 is Tuesday 2026-09-22 (day 1 being Monday 1 January of year 1).
#[test]
fn weekdays_count_from_a_monday() {
    let d = day(2026, 9, 22);
    assert_eq!(d.number(), 739881);
    assert_eq!(d.weekday(), 1);
    assert_eq!(day(1, 1, 1).weekday(), 0);
}

/// An empty range needs no day after its end, even at the end of the calendar.
#[test]
fn an_empty_range_at_the_end_of_the_calendar_is_empty() {
    let last = day(262142, 12, 31);
    let before = day(262142, 12, 1);
    assert!(business_days(last, before).is_empty());
}
