use ccusage_tray::calendar::CalendarDate;
use ccusage_tray::clock::{epoch_millis_to_u64, local_day_for, local_today, signed_timestamp};
use ccusage_tray::now_ms;
use chrono::Datelike;

#[test]
fn clock_reading_is_after_2020() {
    let stamp = now_ms();
    assert!(stamp > 1_577_836_800_000);
    let later = now_ms();
    assert!(later >= stamp);
}

#[test]
fn elapsed_millis_are_truncated_to_64_bits() {
    assert_eq!(epoch_millis_to_u64(Some(1_700_000_000_123)), 1_700_000_000_123);
    assert_eq!(epoch_millis_to_u64(None), 0);
    assert_eq!(epoch_millis_to_u64(Some((1u128 << 64) + 7)), 7);
}

#[test]
fn timestamps_round_down_before_the_epoch() {
    assert_eq!(signed_timestamp(Some((5, 7)), None), Some((5, 7)));
    assert_eq!(signed_timestamp(None, Some((1, 500_000_000))), Some((-2, 500_000_000)));
    assert_eq!(signed_timestamp(None, Some((3, 0))), Some((-3, 0)));
    assert_eq!(signed_timestamp(None, None), None);
    assert_eq!(signed_timestamp(Some((u64::MAX, 0)), None), None);
    assert_eq!(signed_timestamp(None, Some((1u64 << 63, 0))), Some((i64::MIN, 0)));
}

#[test]
fn local_day_is_the_date_library_one() {
    let expected = chrono::Local::now().date_naive();
    let day = local_today().unwrap();
    let again = chrono::Local::now().date_naive();
    let seen = (day.year, day.month, day.day);
    assert!(
        seen == (expected.year(), expected.month(), expected.day())
            || seen == (again.year(), again.month(), again.day())
    );
}

#[test]
fn local_day_is_found_inside_the_bounds_only() {
    let expected = chrono::DateTime::from_timestamp(86_400 * 365, 0)
        .unwrap()
        .with_timezone(&chrono::Local)
        .date_naive();
    assert_eq!(
        local_day_for(Some((86_400 * 365, 0))),
        Some(CalendarDate { year: expected.year(), month: expected.month(), day: expected.day() })
    );
    let before = local_day_for(Some((-1, 999_999_999))).unwrap();
    assert!(before.year == 1969 || before.year == 1970);
    assert_eq!(local_day_for(None), None);
    assert!(local_day_for(Some((-8_334_601_142_400, 0))).is_some());
    assert_eq!(local_day_for(Some((-8_334_601_142_401, 0))), None);
    assert!(local_day_for(Some((8_210_266_790_399, 0))).is_some());
    assert_eq!(local_day_for(Some((8_210_266_790_400, 0))), None);
}
