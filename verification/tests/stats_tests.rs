use ccusage_tray::calendar::CalendarDate;
use ccusage_tray::stats::{
    compute_stats, entries_with_prefix, stats_for_day, StatsError, first_entry_for, last_entry_for, plan_stats,
    title_entry_for, todays_title_entry, weekday_name_text, StatsPlan,
};
use chrono::Datelike;

fn date(year: i32, month: u32, day: u32) -> CalendarDate {
    CalendarDate { year, month, day }
}

fn periods(items: &[&str]) -> Vec<String> {
    items.iter().map(|s| s.to_string()).collect()
}

fn week_dates(plan: &StatsPlan) -> Vec<(i32, u32, u32)> {
    plan.days.iter().map(|d| (d.date.year, d.date.month, d.date.day)).collect()
}

#[test]
fn plan_for_a_thursday_in_march() {
    let report = periods(&[
        "2024-03-01",
        "2024-02-29",
        "2024-03-04",
        "2024-03-07",
        "2024-03-07",
        "2024-03-10",
        "2024-04-01",
    ]);
    let plan = plan_stats(true, true, &report, &date(2024, 3, 7)).unwrap();
    assert!(plan.available);
    assert!(plan.has_data);
    assert_eq!(plan.month_entries, vec![0, 2, 3, 4, 5]);
    assert_eq!(plan.today_entry, Some(4));
    assert_eq!(
        week_dates(&plan),
        vec![
            (2024, 3, 4),
            (2024, 3, 5),
            (2024, 3, 6),
            (2024, 3, 7),
            (2024, 3, 8),
            (2024, 3, 9),
            (2024, 3, 10)
        ]
    );
    let names: Vec<&str> = plan.days.iter().map(|d| d.name.as_str()).collect();
    assert_eq!(
        names,
        vec!["Monday", "Tuesday", "Wednesday", "Thursday", "Friday", "Saturday", "Sunday"]
    );
    let entries: Vec<Option<usize>> = plan.days.iter().map(|d| d.entry).collect();
    assert_eq!(entries, vec![Some(2), None, None, Some(4), None, None, Some(5)]);
    let marks: Vec<bool> = plan.days.iter().map(|d| d.is_today).collect();
    assert_eq!(marks, vec![false, false, false, true, false, false, false]);
}

#[test]
fn plan_flags_are_passed_through() {
    let plan = plan_stats(false, false, &Vec::new(), &date(2024, 3, 7)).unwrap();
    assert!(!plan.available);
    assert!(!plan.has_data);
    assert!(plan.month_entries.is_empty());
    assert_eq!(plan.today_entry, None);
    assert!(plan.days.iter().all(|d| d.entry.is_none()));
}

#[test]
fn week_crosses_the_new_year() {
    let report = periods(&["2024-12-30", "2025-01-01", "2024-12-31"]);
    let plan = plan_stats(true, true, &report, &date(2025, 1, 1)).unwrap();
    assert_eq!(plan.days[0].date, date(2024, 12, 30));
    assert_eq!(plan.days[6].date, date(2025, 1, 5));
    assert_eq!(plan.month_entries, vec![1]);
    assert_eq!(plan.days[0].entry, Some(0));
    assert_eq!(plan.days[1].entry, Some(2));
    assert!(plan.days[2].is_today);
    assert_eq!(plan.days[2].entry, plan.today_entry);
}

#[test]
fn week_around_a_leap_day() {
    let plan = plan_stats(true, true, &Vec::new(), &date(2024, 2, 29)).unwrap();
    assert_eq!(plan.days[0].date, date(2024, 2, 26));
    assert_eq!(plan.days[3].date, date(2024, 2, 29));
    assert_eq!(plan.days[4].date, date(2024, 3, 1));
    assert!(plan.days[3].is_today);
}

#[test]
fn today_on_a_sunday_ends_the_week() {
    let plan = plan_stats(true, true, &Vec::new(), &date(2024, 3, 10)).unwrap();
    assert_eq!(plan.days[0].date, date(2024, 3, 4));
    assert!(plan.days[6].is_today);
    assert!(plan.days[..6].iter().all(|d| !d.is_today));
}

#[test]
fn signed_years_are_rendered_as_the_formatter_does() {
    let report = periods(&["-0005-06-14", "+12345-06-14", "-0005-06"]);
    let early = plan_stats(true, true, &report, &date(-5, 6, 14)).unwrap();
    assert_eq!(early.today_entry, Some(0));
    assert_eq!(early.month_entries, vec![0, 2]);
    let late = plan_stats(true, true, &report, &date(12345, 6, 14)).unwrap();
    assert_eq!(late.today_entry, Some(1));
    assert_eq!(late.month_entries, vec![1]);
}

#[test]
fn weeks_beyond_the_supported_dates_give_none() {
    let first = chrono::NaiveDate::MIN;
    let last = chrono::NaiveDate::MAX;
    let first_date = date(first.year(), first.month(), first.day());
    let last_date = date(last.year(), last.month(), last.day());
    let first_plan = plan_stats(true, true, &Vec::new(), &first_date);
    assert_eq!(first_plan.is_some(), first.weekday() == chrono::Weekday::Mon);
    let last_plan = plan_stats(true, true, &Vec::new(), &last_date);
    assert_eq!(last_plan.is_some(), last.weekday() == chrono::Weekday::Sun);
}

#[test]
fn map_lookup_keeps_the_last_entry_and_find_the_first() {
    let report = periods(&["2024-03-07", "2024-03-06", "2024-03-07"]);
    let key = "2024-03-07".to_string();
    assert_eq!(last_entry_for(&report, &key), Some(2));
    assert_eq!(first_entry_for(&report, &key), Some(0));
    let missing = "2024-03-08".to_string();
    assert_eq!(last_entry_for(&report, &missing), None);
    assert_eq!(first_entry_for(&report, &missing), None);
    assert_eq!(last_entry_for(&Vec::new(), &key), None);
}

#[test]
fn month_entries_keep_report_order() {
    let report = periods(&["2024-03-02", "2024-02-01", "2024-03-01", "2024-3-05", "2024-031"]);
    assert_eq!(entries_with_prefix(&report, &"2024-03".to_string()), vec![0, 2, 4]);
    assert_eq!(entries_with_prefix(&report, &"".to_string()), vec![0, 1, 2, 3, 4]);
}

#[test]
fn weekday_names_start_on_monday() {
    assert_eq!(weekday_name_text(0), "Monday");
    assert_eq!(weekday_name_text(3), "Thursday");
    assert_eq!(weekday_name_text(6), "Sunday");
}

#[test]
fn current_stats_use_the_local_day() {
    let now = chrono::Local::now().date_naive();
    let today_text = now.format("%Y-%m-%d").to_string();
    let report = vec![today_text.clone(), "1999-01-01".to_string(), today_text.clone()];
    let plan = compute_stats(true, true, &report).unwrap();
    let today = date(now.year(), now.month(), now.day());
    let index = now.weekday().num_days_from_monday() as usize;
    // The local day may turn between the two clock readings; accept either day then.
    if plan.days[index].date == today {
        assert!(plan.days[index].is_today);
        assert_eq!(plan.today_entry, Some(2));
        assert_eq!(plan.month_entries, vec![0, 2]);
    }
}

#[test]
fn title_entry_is_the_first_for_today() {
    let today_text = chrono::Local::now().date_naive().format("%Y-%m-%d").to_string();
    let report = vec!["1999-01-01".to_string(), today_text.clone(), today_text];
    let found = todays_title_entry(&report).unwrap();
    assert!(found == Some(1) || found == None);
    assert_eq!(todays_title_entry(&vec!["1999-01-01".to_string()]), Ok(None));
}

#[test]
fn title_entry_for_a_given_day_is_the_first() {
    let report = periods(&["2024-03-06", "2024-03-07", "2024-03-07"]);
    assert_eq!(title_entry_for(&report, &date(2024, 3, 7)), Some(1));
    assert_eq!(title_entry_for(&report, &date(2024, 3, 8)), None);
}

#[test]
fn stats_for_a_missing_or_edge_day() {
    assert!(matches!(stats_for_day(true, true, &Vec::new(), None), Err(StatsError::NoLocalDate)));
    let plan = stats_for_day(true, false, &periods(&["2024-03-07"]), Some(date(2024, 3, 7))).unwrap();
    assert_eq!(plan.today_entry, Some(0));
    assert!(!plan.has_data);
    let last = chrono::NaiveDate::MAX;
    if last.weekday() != chrono::Weekday::Sun {
        assert!(matches!(
            stats_for_day(true, true, &Vec::new(), Some(date(last.year(), last.month(), last.day()))),
            Err(StatsError::WeekOutOfRange)
        ));
    }
}
