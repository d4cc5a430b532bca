use bunnynet_prometheus::bunny::{ShieldCategoryMetrics, ShieldMetrics, ShieldZone};
use bunnynet_prometheus::chart::Chart;
use bunnynet_prometheus::date::Date;
use bunnynet_prometheus::entity_stats::{DayData, EntityType};
use bunnynet_prometheus::shield_zone::{
    extract_category_for_date, sum_category_in_range, ShieldZoneDayData, ShieldZoneKind,
};

fn date(y: i32, m: u32, d: u32) -> Date {
    Date::from_ymd(y, m, d).unwrap()
}

fn category(actions: &[(&str, u64)]) -> Chart<u64> {
    let mut c = Chart::new();
    for (k, v) in actions {
        c.insert((*k).to_string(), *v);
    }
    c
}

fn data(categories: &[(&str, &[(&str, u64)])], clean_limit: u64, billable: u64) -> ShieldZoneDayData {
    let mut map = Chart::new();
    for (cat, actions) in categories {
        map.insert((*cat).to_string(), category(actions));
    }
    ShieldZoneDayData {
        categories: map,
        total_clean_requests_limit: clean_limit,
        total_billable_requests_this_month: billable,
    }
}

fn shield_category(actions: &[(&str, &[(&str, u64)])]) -> ShieldCategoryMetrics {
    let mut metrics = Chart::new();
    for (action, points) in actions {
        metrics.insert((*action).to_string(), category(points));
    }
    ShieldCategoryMetrics { metrics }
}

#[test]
fn entity_label_is_empty_when_pull_zone_id_is_none() {
    let with_pz = ShieldZone {
        shield_zone_id: 1,
        pull_zone_id: Some(42),
    };
    assert_eq!(ShieldZoneKind::entity_label(&with_pz), "42");

    let without_pz = ShieldZone {
        shield_zone_id: 2,
        pull_zone_id: None,
    };
    assert_eq!(ShieldZoneKind::entity_label(&without_pz), "");
    assert_eq!(ShieldZoneKind::entity_id(&without_pz), "2");
}

#[test]
fn accumulate_sums_overlapping_actions_and_inserts_new_categories() {
    let mut state = data(&[("waf", &[("block", 5), ("allow", 10)])], 0, 0);
    state.accumulate(data(
        &[("waf", &[("block", 3)]), ("ddos", &[("drop", 7)])],
        0,
        0,
    ));
    let waf = state.categories.get("waf").unwrap();
    assert_eq!(waf.get("block"), Some(&8));
    assert_eq!(waf.get("allow"), Some(&10));
    assert_eq!(state.categories.get("ddos").unwrap().get("drop"), Some(&7));
}

#[test]
fn merge_latest_max_per_action_keeps_both_sides_overwrites_total_gauges() {
    let mut state = data(&[("waf", &[("block", 10), ("allow", 3)])], 1000, 500);
    state.merge_latest(data(
        &[
            ("waf", &[("block", 5), ("allow", 8)]),
            ("ddos", &[("drop", 7)]),
        ],
        1,
        1,
    ));
    let waf = state.categories.get("waf").unwrap();
    assert_eq!(waf.get("block"), Some(&10));
    assert_eq!(waf.get("allow"), Some(&8));
    assert_eq!(state.categories.get("ddos").unwrap().get("drop"), Some(&7));
    assert_eq!(state.total_clean_requests_limit, 1);
    assert_eq!(state.total_billable_requests_this_month, 1);
}

#[test]
fn extract_category_for_date_maps_each_action_and_errors_when_any_action_missing_date() {
    let cat = shield_category(&[
        ("block", &[("2026-05-24T00:00:00", 7)]),
        ("allow", &[("2026-05-24T00:00:00", 12)]),
    ]);
    let result = extract_category_for_date(&cat, &date(2026, 5, 24), false).unwrap();
    assert_eq!(result.get("block"), Some(&7));
    assert_eq!(result.get("allow"), Some(&12));

    let missing = shield_category(&[
        ("block", &[("2026-05-24T00:00:00", 7)]),
        ("allow", &[("2026-05-25T00:00:00", 12)]),
    ]);
    assert!(extract_category_for_date(&missing, &date(2026, 5, 24), false).is_err());
}

#[test]
fn extract_category_for_date_allow_missing_treats_missing_action_as_zero() {
    let missing = shield_category(&[
        ("block", &[("2026-05-24T00:00:00", 7)]),
        ("allow", &[("2026-05-25T00:00:00", 12)]),
    ]);
    let result = extract_category_for_date(&missing, &date(2026, 5, 24), true).unwrap();
    assert_eq!(result.get("block"), Some(&7));
    assert_eq!(result.get("allow"), Some(&0));
}

#[test]
fn sum_category_in_range_sums_each_action_chart() {
    let cat = shield_category(&[
        (
            "block",
            &[
                ("2026-05-24T00:00:00", 5),
                ("2026-05-25T00:00:00", 10),
                ("2026-05-26T00:00:00", 100),
            ],
        ),
        ("allow", &[("2026-05-25T00:00:00", 3)]),
        ("scan", &[("2026-05-30T00:00:00", 99)]),
    ]);
    let result = sum_category_in_range(&cat, &date(2026, 5, 24), &date(2026, 5, 25));
    assert_eq!(result.get("block"), Some(&15));
    assert_eq!(result.get("allow"), Some(&3));
    assert_eq!(result.get("scan"), Some(&0));
}

fn metrics(waf: ShieldCategoryMetrics) -> ShieldMetrics {
    ShieldMetrics {
        waf,
        ddos: shield_category(&[]),
        rate_limit: shield_category(&[]),
        access_lists: shield_category(&[]),
        bot_detection: shield_category(&[]),
        upload_scanning: shield_category(&[]),
        api_guardian: shield_category(&[("challenge", &[("2026-05-24T00:00:00", 4)])]),
        total_clean_requests_limit: 1000,
        total_billable_requests_this_month: 77,
    }
}

#[test]
fn day_from_metrics_takes_every_category_and_the_gauges() {
    let m = metrics(shield_category(&[("block", &[("2026-05-24T00:00:00", 7)])]));
    let day = ShieldZoneKind::day_from_metrics(&m, &date(2026, 5, 24), false).unwrap();
    assert_eq!(day.categories.len(), 7);
    assert_eq!(day.categories.get("waf").unwrap().get("block"), Some(&7));
    assert_eq!(day.categories.get("api_guardian").unwrap().get("challenge"), Some(&4));
    assert_eq!(day.categories.get("ddos").unwrap().len(), 0);
    assert_eq!(day.total_clean_requests_limit, 1000);
    assert_eq!(day.total_billable_requests_this_month, 77);

    let missing = metrics(shield_category(&[("block", &[("2026-05-23T00:00:00", 7)])]));
    match ShieldZoneKind::day_from_metrics(&missing, &date(2026, 5, 24), false) {
        Err(e) => {
            assert_eq!(e.category, "waf");
            assert_eq!(e.failure.key, "block");
        }
        Ok(_) => panic!("expected an error"),
    }
}

#[test]
fn range_from_metrics_sums_every_category_and_zeroes_gauges() {
    let m = metrics(shield_category(&[(
        "block",
        &[("2026-05-24T00:00:00", 7), ("2026-05-25T00:00:00", 3), ("2026-05-27T00:00:00", 50)],
    )]));
    let from = date(2026, 5, 24);
    let to = date(2026, 5, 25);
    assert!(ShieldZoneKind::range_fits(&m, &from, &to));
    let range = ShieldZoneKind::range_from_metrics(&m, &from, &to);
    assert_eq!(range.categories.get("waf").unwrap().get("block"), Some(&10));
    assert_eq!(range.total_clean_requests_limit, 0);
    assert_eq!(range.total_billable_requests_this_month, 0);
}

#[test]
fn request_totals_add_complete_and_current_counts_per_category_and_action() {
    let last = data(&[("waf", &[("block", 5), ("allow", 10)]), ("ddos", &[("block", 1)])], 7, 8);
    let current = data(&[("waf", &[("block", 2), ("log", 4)]), ("rate_limit", &[("block", 3)])], 9, 9);
    let totals = ShieldZoneDayData::request_totals(&last, &current);
    assert_eq!(totals.len(), 3);
    let waf = totals.get("waf").unwrap();
    assert_eq!(waf.get("block"), Some(&7));
    assert_eq!(waf.get("allow"), Some(&10));
    assert_eq!(waf.get("log"), Some(&4));
    assert_eq!(waf.len(), 3);
    assert_eq!(totals.get("ddos").unwrap().get("block"), Some(&1));
    assert_eq!(totals.get("rate_limit").unwrap().get("block"), Some(&3));
}
