use bunnynet_prometheus::application::extract_volume_chart_for_date;
use bunnynet_prometheus::chart::{
    counts_fit, find_chart_value_for_date, find_chart_value_for_date_lenient, labeled_totals,
    sum_chart_values, sum_chart_values_in_range, total_fits, window_total_fits, Chart, ChartError,
};
use bunnynet_prometheus::date::Date;
use bunnynet_prometheus::pull_zone_optimizer::chart_value_or_default;

fn date(y: i32, m: u32, d: u32) -> Date {
    Date::from_ymd(y, m, d).unwrap()
}

fn chart<V: Copy>(entries: &[(&str, V)]) -> Chart<V> {
    let mut c = Chart::new();
    for (k, v) in entries {
        c.insert((*k).to_string(), *v);
    }
    c
}

#[test]
fn find_chart_value_for_date_accepts_bare_and_timestamped_keys() {
    let chart1 = chart(&[("2026-05-24", 7u64)]);
    assert_eq!(
        find_chart_value_for_date(&chart1, &date(2026, 5, 24), false).unwrap(),
        7
    );

    let ts = chart(&[("2026-05-24T00:00:00", 9u64)]);
    assert_eq!(
        find_chart_value_for_date(&ts, &date(2026, 5, 24), false).unwrap(),
        9
    );
}

#[test]
fn find_chart_value_for_date_errors_unless_exactly_one_matching_entry() {
    let empty: Chart<u64> = Chart::new();
    assert!(find_chart_value_for_date(&empty, &date(2026, 5, 24), false).is_err());

    let wrong = chart(&[("2026-05-25", 1u64)]);
    assert!(find_chart_value_for_date(&wrong, &date(2026, 5, 24), false).is_err());

    let multi = chart(&[("2026-05-24", 1u64), ("2026-05-25", 2u64)]);
    assert!(find_chart_value_for_date(&multi, &date(2026, 5, 24), false).is_err());
}

#[test]
fn find_chart_value_for_date_allow_missing_returns_zero_only_when_empty() {
    let empty: Chart<u64> = Chart::new();
    assert_eq!(
        find_chart_value_for_date(&empty, &date(2026, 5, 24), true).unwrap(),
        0
    );

    let present = chart(&[("2026-05-24", 7u64)]);
    assert_eq!(
        find_chart_value_for_date(&present, &date(2026, 5, 24), true).unwrap(),
        7
    );

    let wrong = chart(&[("2026-05-25", 1u64)]);
    assert!(find_chart_value_for_date(&wrong, &date(2026, 5, 24), true).is_err());

    let multi = chart(&[("2026-05-24", 1u64), ("2026-05-25", 2u64)]);
    assert!(find_chart_value_for_date(&multi, &date(2026, 5, 24), true).is_err());
}

#[test]
fn find_chart_value_for_date_error_names_date_and_entry_count() {
    let multi = chart(&[("2026-05-24", 1u64), ("2026-05-25", 2u64)]);
    match find_chart_value_for_date(&multi, &date(2026, 5, 24), false) {
        Err(ChartError::NotExactlyOne { expected, found }) => {
            assert_eq!(expected, "2026-05-24");
            assert_eq!(found, 2);
        }
        other => panic!("unexpected result {other:?}"),
    }
}

#[test]
fn find_chart_value_for_date_works_on_float_charts() {
    let c = chart(&[("2026-05-24T00:00:00", 2.5f64)]);
    assert_eq!(
        find_chart_value_for_date(&c, &date(2026, 5, 24), false).unwrap(),
        2.5
    );
    let empty: Chart<f64> = Chart::new();
    assert_eq!(
        find_chart_value_for_date(&empty, &date(2026, 5, 24), true).unwrap(),
        0.0
    );
}

#[test]
fn find_chart_value_for_date_lenient_matches_prefix_only_at_start() {
    let c = chart(&[("2026-05-24T00:00:00", 11u64), ("2026-05-25T00:00:00", 22u64)]);
    assert_eq!(
        find_chart_value_for_date_lenient(&c, &date(2026, 5, 24), false).unwrap(),
        11
    );

    let wrong_position = chart(&[("xyz-2026-05-24", 1u64)]);
    assert!(find_chart_value_for_date_lenient(&wrong_position, &date(2026, 5, 24), false).is_err());
}

#[test]
fn find_chart_value_for_date_lenient_allow_missing_returns_zero_when_not_found() {
    let c = chart(&[("2026-05-25T00:00:00", 22u64)]);
    assert_eq!(
        find_chart_value_for_date_lenient(&c, &date(2026, 5, 24), true).unwrap(),
        0
    );
    assert!(find_chart_value_for_date_lenient(&c, &date(2026, 5, 24), false).is_err());

    assert_eq!(
        find_chart_value_for_date_lenient(&c, &date(2026, 5, 25), true).unwrap(),
        22
    );
}

#[test]
fn find_chart_value_for_date_lenient_takes_first_match_in_order() {
    let c = chart(&[("2026-05-24T06:00:00", 5u64), ("2026-05-24T00:00:00", 9u64)]);
    assert_eq!(
        find_chart_value_for_date_lenient(&c, &date(2026, 5, 24), false).unwrap(),
        5
    );
}

#[test]
fn sum_chart_values_adds_every_entry() {
    let c = chart(&[("a", 1u64), ("b", 20u64), ("c", 300u64)]);
    assert!(total_fits(&c));
    assert_eq!(sum_chart_values(&c), 321);
    let empty: Chart<u64> = Chart::new();
    assert_eq!(sum_chart_values(&empty), 0);
}

#[test]
fn total_fits_detects_overflow() {
    let c = chart(&[("a", u64::MAX), ("b", 1u64)]);
    assert!(!total_fits(&c));
    let d = chart(&[("a", u64::MAX - 1), ("b", 1u64)]);
    assert!(total_fits(&d));
}

#[test]
fn sum_chart_values_in_range_is_inclusive_and_accepts_timestamped_keys() {
    let c = chart(&[
        ("2026-05-23", 1u64),
        ("2026-05-24T00:00:00", 10u64),
        ("2026-05-25T12:00:00", 100u64),
        ("2026-05-26", 1000u64),
    ]);
    let total = sum_chart_values_in_range(&c, &date(2026, 5, 24), &date(2026, 5, 25));
    assert_eq!(total, 110);
}

#[test]
fn sum_chart_values_in_range_skips_keys_shorter_than_date_prefix() {
    let c = chart(&[("foo", 5u64), ("2026-05-24", 10u64)]);
    assert!(window_total_fits(&c, &date(2026, 5, 24), &date(2026, 5, 24)));
    let total = sum_chart_values_in_range(&c, &date(2026, 5, 24), &date(2026, 5, 24));
    assert_eq!(total, 10);
}

#[test]
fn chart_insert_replaces_value_of_existing_key() {
    let mut c = chart(&[("US", 1u64), ("DE", 2u64)]);
    c.insert("US".to_string(), 5);
    assert_eq!(c.len(), 2);
    assert_eq!(c.get("US"), Some(&5));
    assert_eq!(c.get("DE"), Some(&2));
    assert_eq!(c.get("FR"), None);
    assert_eq!(c.key_at(0), "US");
}

#[test]
fn add_counts_sums_per_key_and_adds_new_keys() {
    let mut a = chart(&[("US", 5u64), ("DE", 2u64)]);
    let b = chart(&[("US", 1u64), ("FR", 7u64)]);
    assert!(counts_fit(&a, &b));
    a.add_counts(&b);
    assert_eq!(a.get("US"), Some(&6));
    assert_eq!(a.get("DE"), Some(&2));
    assert_eq!(a.get("FR"), Some(&7));
}

#[test]
fn counts_fit_detects_overflow_of_a_shared_key() {
    let a = chart(&[("US", u64::MAX)]);
    let b = chart(&[("US", 1u64)]);
    assert!(!counts_fit(&a, &b));
    let c = chart(&[("DE", 1u64)]);
    assert!(counts_fit(&a, &c));
}

#[test]
fn max_counts_with_keeps_larger_and_both_sides() {
    let mut a = chart(&[("US", 10u64), ("DE", 3u64)]);
    let b = chart(&[("US", 5u64), ("FR", 7u64)]);
    a.max_counts_with(&b);
    assert_eq!(a.get("US"), Some(&10));
    assert_eq!(a.get("DE"), Some(&3));
    assert_eq!(a.get("FR"), Some(&7));
}

#[test]
fn labeled_totals_add_last_and_current_over_all_keys() {
    let last = chart(&[("EU", 100u64), ("NA", 5u64)]);
    let current = chart(&[("EU", 1u64), ("AS", 9u64)]);
    let totals = labeled_totals(&last, &current);
    assert_eq!(totals.len(), 3);
    assert_eq!(totals.get("EU"), Some(&101));
    assert_eq!(totals.get("NA"), Some(&5));
    assert_eq!(totals.get("AS"), Some(&9));
}

#[test]
fn chart_value_or_default_returns_default_for_none_else_delegates() {
    let absent: u64 = chart_value_or_default(None, &date(2026, 5, 24), false).unwrap();
    assert_eq!(absent, 0);

    let c = chart(&[("2026-05-24", 42u64)]);
    assert_eq!(
        chart_value_or_default(Some(&c), &date(2026, 5, 24), false).unwrap(),
        42
    );

    let wrong_date = chart(&[("2026-05-25", 42u64)]);
    assert!(chart_value_or_default(Some(&wrong_date), &date(2026, 5, 24), false).is_err());
}

#[test]
fn chart_value_or_default_allow_missing_returns_zero_for_empty_chart() {
    let empty: Chart<u64> = Chart::new();
    assert_eq!(
        chart_value_or_default(Some(&empty), &date(2026, 5, 24), true).unwrap(),
        0
    );
    assert!(chart_value_or_default(Some(&empty), &date(2026, 5, 24), false).is_err());
}

fn volume_chart(volumes: &[(&str, &[(&str, f64)])]) -> Chart<Chart<f64>> {
    let mut c = Chart::new();
    for (volume, points) in volumes {
        c.insert((*volume).to_string(), chart(points));
    }
    c
}

#[test]
fn extract_volume_chart_for_date_maps_each_volume_and_errors_on_missing_date() {
    let c = volume_chart(&[
        ("data", &[("2026-05-24", 12.5)]),
        ("logs", &[("2026-05-24", 4.0)]),
    ]);
    let result = extract_volume_chart_for_date(&c, &date(2026, 5, 24), false).unwrap();
    assert_eq!(result.get("data"), Some(&12.5));
    assert_eq!(result.get("logs"), Some(&4.0));

    let missing = volume_chart(&[
        ("data", &[("2026-05-24", 12.5)]),
        ("logs", &[("2026-05-25", 4.0)]),
    ]);
    assert!(extract_volume_chart_for_date(&missing, &date(2026, 5, 24), false).is_err());
    match extract_volume_chart_for_date(&missing, &date(2026, 5, 24), false) {
        Err(e) => assert_eq!(e.key, "logs"),
        Ok(_) => panic!("expected an error"),
    }
}
