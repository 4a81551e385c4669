use portside_tui::calendar::Date;
use portside_tui::components::history::heatmap_month_labels;
use portside_tui::history::{
    cumulative_totals, current_and_best_streak, format_ymd, heatmap_level, heatmap_weeks,
    weekly_totals, zero_filled_daily, HistoryView,
};

fn date(year: i32, month: u8, day: u8) -> Date {
    Date::from_calendar_date(year, month, day).unwrap()
}

#[test]
fn parses_history_view_arguments() {
    assert_eq!(HistoryView::parse(""), Some(HistoryView::Daily));
    assert_eq!(HistoryView::parse("day"), Some(HistoryView::Daily));
    assert_eq!(HistoryView::parse("daily"), Some(HistoryView::Daily));
    assert_eq!(HistoryView::parse("week"), Some(HistoryView::Weekly));
    assert_eq!(HistoryView::parse("weekly"), Some(HistoryView::Weekly));
    assert_eq!(HistoryView::parse("cumulative"), Some(HistoryView::Cumulative));
    assert_eq!(HistoryView::parse("nonsense"), None);
}

#[test]
fn zero_fills_gaps_between_since_and_today() {
    let rows = vec![("2026-08-06".to_string(), 120)];
    let series = zero_filled_daily(rows, date(2026, 8, 5), date(2026, 8, 8));
    assert_eq!(
        series,
        vec![
            (date(2026, 8, 5), 0),
            (date(2026, 8, 6), 120),
            (date(2026, 8, 7), 0),
            (date(2026, 8, 8), 0),
        ]
    );
}

#[test]
fn zero_filled_daily_skips_unparseable_rows() {
    let rows = vec![("not-a-date".to_string(), 999), ("2026-08-05".to_string(), 60)];
    let series = zero_filled_daily(rows, date(2026, 8, 5), date(2026, 8, 5));
    assert_eq!(series, vec![(date(2026, 8, 5), 60)]);
}

#[test]
fn weekly_totals_buckets_by_monday_start_week() {
    // 2026-08-03 is a Monday; 2026-08-09 is the following Sunday.
    let daily = vec![
        (date(2026, 8, 3), 60),
        (date(2026, 8, 9), 30),
        (date(2026, 8, 10), 90), // next week's Monday
    ];
    let weekly = weekly_totals(&daily);
    assert_eq!(weekly, vec![(date(2026, 8, 3), 90), (date(2026, 8, 10), 90)]);
}

#[test]
fn cumulative_totals_runs_a_sum_in_order() {
    let weekly = vec![(date(2026, 8, 3), 60), (date(2026, 8, 10), 40), (date(2026, 8, 17), 0)];
    assert_eq!(
        cumulative_totals(&weekly),
        vec![(date(2026, 8, 3), 60), (date(2026, 8, 10), 100), (date(2026, 8, 17), 100)]
    );
}

#[test]
fn streaks_count_trailing_and_longest_nonzero_runs() {
    let daily = vec![
        (date(2026, 8, 1), 60),
        (date(2026, 8, 2), 60),
        (date(2026, 8, 3), 0),
        (date(2026, 8, 4), 60),
        (date(2026, 8, 5), 60),
        (date(2026, 8, 6), 60),
        (date(2026, 8, 7), 0),
    ];
    assert_eq!(current_and_best_streak(&daily), (0, 3));
}

#[test]
fn current_streak_is_zero_when_today_has_no_time() {
    let daily = vec![(date(2026, 8, 7), 60), (date(2026, 8, 8), 0)];
    assert_eq!(current_and_best_streak(&daily), (0, 1));
}

#[test]
fn current_streak_runs_to_the_end_of_the_series() {
    let daily = vec![(date(2026, 8, 6), 0), (date(2026, 8, 7), 60), (date(2026, 8, 8), 90)];
    assert_eq!(current_and_best_streak(&daily), (2, 2));
}

#[test]
fn heatmap_level_zero_for_non_positive_value_or_peak() {
    assert_eq!(heatmap_level(0, 100), 0);
    assert_eq!(heatmap_level(50, 0), 0);
}

#[test]
fn heatmap_level_scales_between_one_and_four() {
    assert_eq!(heatmap_level(1, 100), 1);
    assert_eq!(heatmap_level(25, 100), 1);
    assert_eq!(heatmap_level(26, 100), 2);
    assert_eq!(heatmap_level(75, 100), 3);
    assert_eq!(heatmap_level(100, 100), 4);
}

#[test]
fn heatmap_weeks_aligns_sunday_start_columns() {
    // 2026-08-08 is a Saturday.
    let daily = vec![(date(2026, 8, 8), 60)];
    let weeks = heatmap_weeks(&daily, 1);
    assert_eq!(weeks.len(), 1);
    assert_eq!(weeks[0][0], None); // Sunday 08-02: outside the fetched window
    assert_eq!(weeks[0][6], Some((date(2026, 8, 8), 60))); // Saturday
}

#[test]
fn heatmap_weeks_blanks_cells_outside_the_fetched_window() {
    let daily = vec![(date(2026, 8, 3), 60), (date(2026, 8, 4), 0)];
    let weeks = heatmap_weeks(&daily, 2);
    assert_eq!(weeks.len(), 2);
    let flat: Vec<Option<(Date, i64)>> = weeks.into_iter().flatten().collect();
    assert!(flat.contains(&Some((date(2026, 8, 3), 60))));
    assert!(flat.contains(&Some((date(2026, 8, 4), 0))));
    assert!(flat.iter().filter(|c| c.is_none()).count() >= 12);
}

#[test]
fn heatmap_weeks_empty_series_yields_no_columns() {
    assert!(heatmap_weeks(&[], 5).is_empty());
}

#[test]
fn history_view_labels() {
    assert_eq!(HistoryView::Daily.label(), "Daily");
    assert_eq!(HistoryView::Weekly.label(), "Weekly");
    assert_eq!(HistoryView::Cumulative.label(), "Cumulative");
}

#[test]
fn format_ymd_pads_month_and_day() {
    assert_eq!(format_ymd(date(2026, 8, 5)), "2026-08-05");
    assert_eq!(format_ymd(date(987, 12, 31)), "0987-12-31");
}

#[test]
fn heatmap_level_rounds_up_to_quarters_of_the_peak() {
    assert_eq!(heatmap_level(50, 100), 2);
    assert_eq!(heatmap_level(51, 100), 3);
    assert_eq!(heatmap_level(76, 100), 4);
    assert_eq!(heatmap_level(200, 100), 4);
    assert_eq!(heatmap_level(-5, 100), 0);
}

#[test]
fn weekly_then_cumulative_ends_at_the_grand_total() {
    let daily = vec![
        (date(2026, 8, 1), 10),
        (date(2026, 8, 4), 20),
        (date(2026, 8, 12), 30),
        (date(2026, 8, 20), 40),
    ];
    let cumulative = cumulative_totals(&weekly_totals(&daily));
    assert_eq!(cumulative.last().unwrap().1, 100);
}

#[test]
fn heatmap_levels_never_drop_as_time_grows() {
    let mut last = 0;
    for v in 0..=120 {
        let level = heatmap_level(v, 100);
        assert!(level >= last);
        last = level;
    }
    assert_eq!(heatmap_level(100, 100), 4);
}

#[test]
fn month_labels_mark_where_a_month_starts() {
    let daily: Vec<(Date, i64)> = (0..40)
        .map(|k| (date(2026, 7, 20).add_days(k), 1))
        .collect();
    let weeks = heatmap_weeks(&daily, 6);
    let labels = heatmap_month_labels(&weeks);
    assert_eq!(labels.len(), weeks.len());
    let shown: Vec<u8> = labels.iter().flatten().copied().collect();
    assert_eq!(shown, vec![8]);
}

#[test]
fn day_total_takes_the_last_row_of_a_day_and_clamps_negatives() {
    let rows = vec![
        ("2026-08-05".to_string(), 100),
        ("2026-08-06".to_string(), 40),
        ("2026-08-05".to_string(), 250),
        ("2026-08-06".to_string(), -30),
        ("2026-08-20".to_string(), 999),
    ];
    let series = zero_filled_daily(rows, date(2026, 8, 5), date(2026, 8, 7));
    assert_eq!(
        series,
        vec![(date(2026, 8, 5), 250), (date(2026, 8, 6), 0), (date(2026, 8, 7), 0)]
    );
}

#[test]
fn best_streak_is_the_longest_run_anywhere() {
    let daily = vec![
        (date(2026, 8, 1), 10),
        (date(2026, 8, 2), 0),
        (date(2026, 8, 3), 5),
        (date(2026, 8, 4), 5),
        (date(2026, 8, 5), 5),
        (date(2026, 8, 6), 5),
        (date(2026, 8, 7), 0),
        (date(2026, 8, 8), 7),
    ];
    assert_eq!(current_and_best_streak(&daily), (1, 4));
}

#[test]
fn julian_day_numbers_count_days_from_the_epoch() {
    assert_eq!(date(2000, 1, 1).julian_day(), 2_451_545);
    assert_eq!(date(2019, 1, 1).julian_day(), 2_458_485);
    assert_eq!(date(2019, 12, 31).julian_day(), 2_458_849);
    assert_eq!(Date::from_calendar_date(-4713, 11, 24).unwrap().julian_day(), 0);
    assert_eq!(Date::from_julian_day(2_451_545).unwrap().to_calendar_date(), (2000, 1, 1));
    assert_eq!(Date::from_julian_day(0).unwrap().to_calendar_date(), (-4713, 11, 24));
    assert!(Date::from_calendar_date(2026, 2, 29).is_none());
}
