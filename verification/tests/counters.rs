use bunnynet_prometheus::application::ApplicationCounters;
use bunnynet_prometheus::bunny::PullZoneTrafficStats;
use bunnynet_prometheus::chart::{counter_total, Chart, ChartError};
use bunnynet_prometheus::date::Date;
use bunnynet_prometheus::dns_zone::dns_type_name;
use bunnynet_prometheus::edge_script::EdgeScriptCounters;
use bunnynet_prometheus::entity_stats::{DayData, EntityEntry, EntityStatsState};
use bunnynet_prometheus::poller::{normalize_access_key, CollectorOutcome, CycleTally, TickAction};
use bunnynet_prometheus::pull_zone::{PullZoneCounters, PullZoneKind, PullZoneTraffic};
use bunnynet_prometheus::pull_zone_optimizer::{PullZoneOptimizerCounters, PullZoneOptimizerKind};
use bunnynet_prometheus::video_library_drm::VideoLibraryDrmDayData;

fn date(y: i32, m: u32, d: u32) -> Date {
    Date::from_ymd(y, m, d).unwrap()
}

fn chart(entries: &[(&str, u64)]) -> Chart<u64> {
    let mut c = Chart::new();
    for (k, v) in entries {
        c.insert((*k).to_string(), *v);
    }
    c
}

fn traffic_stats(day: &str, base: u64, geo: &[(&str, u64)]) -> PullZoneTrafficStats {
    PullZoneTrafficStats {
        bandwidth_used_chart: chart(&[(day, base)]),
        bandwidth_cached_chart: chart(&[(day, base + 1)]),
        requests_served_chart: chart(&[(day, base + 2)]),
        pull_requests_pulled_chart: chart(&[(day, base + 3)]),
        origin_shield_bandwidth_used_chart: chart(&[(day, base + 4)]),
        origin_shield_internal_bandwidth_used_chart: chart(&[(day, base + 5)]),
        origin_traffic_chart: chart(&[(day, base + 6)]),
        errors_3xx_chart: chart(&[(day, base + 7)]),
        errors_4xx_chart: chart(&[(day, base + 8)]),
        errors_5xx_chart: chart(&[(day, base + 9)]),
        geo_traffic_distribution: chart(geo),
    }
}

fn traffic(values: [u64; 10]) -> PullZoneTraffic {
    PullZoneTraffic {
        bandwidth_used: values[0],
        bandwidth_cached: values[1],
        requests_served: values[2],
        pull_requests_pulled: values[3],
        origin_shield_bandwidth_used: values[4],
        origin_shield_internal_bandwidth_used: values[5],
        origin_traffic: values[6],
        errors_3xx: values[7],
        errors_4xx: values[8],
        errors_5xx: values[9],
    }
}

#[test]
fn entry_at_enumerates_every_kept_entity_once() {
    let mut state: EntityStatsState<VideoLibraryDrmDayData> = EntityStatsState::new();
    for (id, n) in [("1", 5u64), ("2", 6), ("3", 7), ("2", 8)] {
        state.insert_entry(
            id.to_string(),
            EntityEntry {
                label: format!("library {id}"),
                last_complete_day: None,
                last_complete_day_state: VideoLibraryDrmDayData { licenses_issued: n },
                current_day_state: VideoLibraryDrmDayData { licenses_issued: 0 },
            },
        );
    }
    assert_eq!(state.len(), 3);
    let mut seen: Vec<(String, u64)> = Vec::new();
    for i in 0..state.len() {
        let (id, entry) = state.entry_at(i);
        seen.push((id.clone(), entry.last_complete_day_state.licenses_issued));
    }
    seen.sort();
    assert_eq!(seen, vec![("1".to_string(), 5), ("2".to_string(), 8), ("3".to_string(), 7)]);
}

#[test]
fn cycle_succeeds_only_when_every_collector_was_polled_and_saved() {
    let mut all = CycleTally::new(2);
    assert_eq!(all.record(true, true), CollectorOutcome::Updated);
    assert_eq!(all.record(true, true), CollectorOutcome::Updated);
    assert!(all.all_succeeded());

    let mut one_unsaved = CycleTally::new(2);
    one_unsaved.record(true, true);
    assert_eq!(one_unsaved.record(true, false), CollectorOutcome::SaveFailed);
    assert!(!one_unsaved.all_succeeded());
    assert_eq!(one_unsaved.succeeded(), 1);
}

#[test]
fn distinct_known_type_numbers_have_distinct_names() {
    let numbers = ["1", "2", "5", "15", "16", "28", "33", "43", "46", "48", "52", "65", "99", "255", "257", "32769"];
    let names: Vec<&str> = numbers.iter().map(|n| dns_type_name(n)).collect();
    for i in 0..names.len() {
        assert_ne!(names[i], "UNKNOWN");
        for j in 0..i {
            assert_ne!(names[i], names[j]);
        }
    }
    assert_eq!(dns_type_name("01"), "UNKNOWN");
}

#[test]
fn access_key_trims_unicode_white_space() {
    assert_eq!(normalize_access_key("\u{a0}\u{2003}key\u{3000}\u{85}").unwrap(), "key");
    assert_eq!(normalize_access_key("a b").unwrap(), "a b");
}

#[test]
fn dates_follow_the_proleptic_gregorian_calendar() {
    assert!(Date::from_ymd(2024, 2, 29).is_some());
    assert!(Date::from_ymd(2023, 2, 29).is_none());
    assert!(Date::from_ymd(1900, 2, 29).is_none());
    assert!(Date::from_ymd(2000, 2, 29).is_some());
    assert!(Date::from_ymd(2026, 4, 31).is_none());
    assert!(Date::from_ymd(2026, 13, 1).is_none());
    assert_eq!(date(2026, 5, 24).days(), 739_760);
    assert_eq!(date(0, 1, 1).days(), -365);
    assert!(Date::from_ymd(262_143, 1, 1).is_none());
}

#[test]
fn pull_zone_counters_take_each_chart_for_the_date() {
    let stats = traffic_stats("2026-05-24T00:00:00Z", 100, &[("EU", 3), ("NA", 4)]);
    let counters = PullZoneKind::counters_from_stats(stats, &date(2026, 5, 24), false).unwrap();
    assert_eq!(counters.traffic, traffic([100, 101, 102, 103, 104, 105, 106, 107, 108, 109]));
    assert_eq!(counters.geo_traffic_distribution.get("EU"), Some(&3));
    assert_eq!(counters.geo_traffic_distribution.get("NA"), Some(&4));
}

#[test]
fn pull_zone_counters_name_the_first_chart_without_the_date() {
    let mut stats = traffic_stats("2026-05-24", 1, &[]);
    stats.origin_traffic_chart = chart(&[("2026-05-23", 1)]);
    stats.errors_4xx_chart = chart(&[]);
    let error = PullZoneKind::counters_from_stats(stats, &date(2026, 5, 24), false).unwrap_err();
    assert_eq!(error.field, "origin_traffic");
    assert!(matches!(error.error, ChartError::NotExactlyOne { found: 1, .. }));

    let mut missing = traffic_stats("2026-05-24", 1, &[]);
    missing.errors_5xx_chart = chart(&[]);
    let zero = PullZoneKind::counters_from_stats(missing, &date(2026, 5, 24), true).unwrap();
    assert_eq!(zero.traffic.errors_5xx, 0);
    assert_eq!(zero.traffic.errors_4xx, 9);
}

#[test]
fn pull_zone_counter_ranges_sum_each_chart() {
    let mut stats = traffic_stats("2026-05-20", 10, &[("EU", 2)]);
    stats.bandwidth_used_chart = chart(&[("2026-05-20", 10), ("2026-05-21", 15), ("2026-05-22", 20)]);
    assert!(PullZoneKind::counters_range_fits(&stats));
    let counters = PullZoneKind::counters_range_from_stats(stats);
    assert_eq!(counters.traffic.bandwidth_used, 45);
    assert_eq!(counters.traffic.errors_5xx, 19);
    assert_eq!(counters.geo_traffic_distribution.get("EU"), Some(&2));

    let mut huge = traffic_stats("2026-05-20", 0, &[]);
    huge.requests_served_chart = chart(&[("2026-05-20", u64::MAX), ("2026-05-21", 1)]);
    assert!(!PullZoneKind::counters_range_fits(&huge));
}

#[test]
fn pull_zone_counters_accumulate_and_merge() {
    let mut total = PullZoneCounters { traffic: traffic([1; 10]), geo_traffic_distribution: chart(&[("EU", 5)]) };
    let day = PullZoneCounters {
        traffic: traffic([2, 3, 4, 5, 6, 7, 8, 9, 10, 11]),
        geo_traffic_distribution: chart(&[("EU", 1), ("AS", 2)]),
    };
    assert!(total.can_add(&day));
    total.accumulate(day);
    assert_eq!(total.traffic, traffic([3, 4, 5, 6, 7, 8, 9, 10, 11, 12]));
    assert_eq!(total.geo_traffic_distribution.get("EU"), Some(&6));
    assert_eq!(total.geo_traffic_distribution.get("AS"), Some(&2));

    let snapshot = PullZoneCounters {
        traffic: traffic([9, 0, 9, 0, 9, 0, 9, 0, 9, 0]),
        geo_traffic_distribution: chart(&[("EU", 1), ("SA", 7)]),
    };
    total.merge_latest(snapshot);
    assert_eq!(total.traffic, traffic([9, 4, 9, 6, 9, 8, 9, 10, 11, 12]));
    assert_eq!(total.geo_traffic_distribution.get("EU"), Some(&6));
    assert_eq!(total.geo_traffic_distribution.get("SA"), Some(&7));

    let full = PullZoneCounters { traffic: traffic([u64::MAX; 10]), geo_traffic_distribution: Chart::new() };
    let one = PullZoneCounters { traffic: traffic([0, 0, 0, 0, 0, 0, 0, 0, 0, 1]), geo_traffic_distribution: Chart::new() };
    assert!(!full.can_add(&one));
}

#[test]
fn optimizer_counters_count_absent_charts_as_zero() {
    let requests = chart(&[("2026-05-24", 12)]);
    let counters =
        PullZoneOptimizerKind::counters_from_stats(Some(&requests), None, &date(2026, 5, 24), false).unwrap();
    assert_eq!(counters, PullZoneOptimizerCounters { requests_optimized: 12, traffic_saved: 0 });

    let empty = chart(&[]);
    let error = PullZoneOptimizerKind::counters_from_stats(Some(&requests), Some(&empty), &date(2026, 5, 24), false)
        .unwrap_err();
    assert_eq!(error.field, "traffic_saved");

    let saved = chart(&[("2026-05-20", 3), ("2026-05-21", 4)]);
    let range = PullZoneOptimizerKind::counters_range(None, Some(&saved));
    assert_eq!(range, PullZoneOptimizerCounters { requests_optimized: 0, traffic_saved: 7 });
}

#[test]
fn float_category_counters_add_up_and_keep_the_larger_fetch() {
    let mut edge = EdgeScriptCounters { requests_served: 10, total_cpu_time: 20 };
    edge.accumulate(EdgeScriptCounters { requests_served: 1, total_cpu_time: 2 });
    assert_eq!(edge, EdgeScriptCounters { requests_served: 11, total_cpu_time: 22 });
    edge.merge_latest(EdgeScriptCounters { requests_served: 5, total_cpu_time: 30 });
    assert_eq!(edge, EdgeScriptCounters { requests_served: 11, total_cpu_time: 30 });

    let mut app = ApplicationCounters { traffic: 7 };
    assert!(!app.can_add(&ApplicationCounters { traffic: u64::MAX }));
    app.accumulate(ApplicationCounters { traffic: 3 });
    app.merge_latest(ApplicationCounters { traffic: 4 });
    assert_eq!(app, ApplicationCounters { traffic: 10 });
}

#[test]
fn key_texts_parse_back_to_their_dates() {
    assert_eq!(Date::from_key("2026-05-24"), Some(date(2026, 5, 24)));
    assert_eq!(Date::from_key(&date(2024, 2, 29).key()), Some(date(2024, 2, 29)));
    assert_eq!(Date::from_key("0001-01-01").map(|d| d.days()), Some(1));
    assert_eq!(Date::from_key("2026-02-30"), None);
    assert_eq!(Date::from_key("2026-5-24"), Some(date(2026, 5, 24)));
    assert_eq!(Date::from_key("+12345-6-7"), Some(date(12345, 6, 7)));
    assert_eq!(Date::from_key("2026/05/24"), None);
    assert_eq!(Date::from_key("2026-05-2x"), None);
    assert_eq!(Date::from_key(""), None);
}

#[test]
fn accumulate_sums_traffic_only() {
    let mut state = ApplicationCounters { traffic: 10_000 };
    state.accumulate(ApplicationCounters { traffic: 3_000 });
    assert_eq!(state.traffic, 13_000);
}

#[test]
fn merge_latest_overwrites_gauges_and_takes_max_of_traffic() {
    let mut state = ApplicationCounters { traffic: 10_000 };
    state.merge_latest(ApplicationCounters { traffic: 3_000 });
    assert_eq!(state.traffic, 10_000);
}

#[test]
fn accumulate_sums_counters_and_leaves_gauges() {
    let mut state = PullZoneOptimizerCounters { requests_optimized: 10, traffic_saved: 100 };
    state.accumulate(PullZoneOptimizerCounters { requests_optimized: 3, traffic_saved: 30 });
    assert_eq!(state.requests_optimized, 13);
    assert_eq!(state.traffic_saved, 130);
}

#[test]
fn merge_latest_max_counters_and_overwrite_gauges_even_when_smaller() {
    let mut state = PullZoneOptimizerCounters { requests_optimized: 50, traffic_saved: 500 };
    state.merge_latest(PullZoneOptimizerCounters { requests_optimized: 30, traffic_saved: 1000 });
    assert_eq!(state.requests_optimized, 50);
    assert_eq!(state.traffic_saved, 1000);
}

#[test]
fn a_tick_polls_each_collector_in_order_and_saves_only_after_a_successful_poll() {
    let mut tally = CycleTally::new(3);
    assert_eq!(tally.next_action(), TickAction::Poll(0));
    tally.poll_finished(false);
    assert_eq!(tally.next_action(), TickAction::Poll(1));
    tally.poll_finished(true);
    assert_eq!(tally.next_action(), TickAction::Save(1));
    tally.save_finished(true);
    assert_eq!(tally.next_action(), TickAction::Poll(2));
    tally.poll_finished(true);
    assert_eq!(tally.next_action(), TickAction::Save(2));
    tally.save_finished(true);
    assert_eq!(tally.next_action(), TickAction::Finish { successful: false });

    let mut good = CycleTally::new(2);
    for _ in 0..2 {
        assert!(matches!(good.next_action(), TickAction::Poll(_)));
        good.poll_finished(true);
        assert!(matches!(good.next_action(), TickAction::Save(_)));
        good.save_finished(true);
    }
    assert_eq!(good.next_action(), TickAction::Finish { successful: true });

    let mut unsaved = CycleTally::new(1);
    unsaved.poll_finished(true);
    unsaved.save_finished(false);
    assert_eq!(unsaved.next_action(), TickAction::Finish { successful: false });
}

#[test]
fn counter_totals_add_complete_and_current_counts() {
    assert_eq!(counter_total(40, 2), Some(42));
    assert_eq!(counter_total(u64::MAX, 0), Some(u64::MAX));
    assert_eq!(counter_total(u64::MAX, 1), None);
}

#[test]
fn a_saved_date_reads_back_as_the_same_date() {
    for (y, m, d) in [(2026, 5, 24), (2024, 2, 29), (1, 1, 1), (0, 12, 31), (9999, 12, 31)] {
        let day = date(y, m, d);
        assert_eq!(Date::from_key(&day.key()), Some(day));
    }
    assert_eq!(date(0, 12, 31).key(), "0000-12-31");
    assert_eq!(date(7, 3, 4).key(), "0007-03-04");
}
