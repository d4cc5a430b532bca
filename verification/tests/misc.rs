use bunnynet_prometheus::bunny::{DnsZone, PullZone, StorageZone, StorageZoneStats};
use bunnynet_prometheus::chart::Chart;
use bunnynet_prometheus::collector::Collector;
use bunnynet_prometheus::date::Date;
use bunnynet_prometheus::dns_zone::{dns_type_name, DnsZoneKind};
use bunnynet_prometheus::entity_stats::EntityType;
use bunnynet_prometheus::poller::{
    access_key_source, normalize_access_key, AccessKeyError, AccessKeySource, CollectorOutcome,
    CycleTally, Pages,
};
use bunnynet_prometheus::pull_zone::PullZoneKind;
use bunnynet_prometheus::storage_zone::StorageZoneKind;

#[test]
fn dns_type_name_maps_listed_numbers_and_rejects_others() {
    assert_eq!(dns_type_name("1"), "A");
    assert_eq!(dns_type_name("28"), "AAAA");
    assert_eq!(dns_type_name("255"), "*");
    assert_eq!(dns_type_name("32769"), "DLV");
    assert_eq!(dns_type_name("54"), "Unassigned");
    assert_eq!(dns_type_name("69"), "UNKNOWN");
    assert_eq!(dns_type_name("01"), "UNKNOWN");
    assert_eq!(dns_type_name(""), "UNKNOWN");
    assert_eq!(dns_type_name("A"), "UNKNOWN");
    assert_eq!(dns_type_name("1000000"), "UNKNOWN");
}

#[test]
fn collector_names_and_state_files() {
    assert_eq!(Collector::DnsZone.name(), "dns_zone");
    assert_eq!(Collector::PullZoneSafehop.name(), "pull_zone_safehop");
    assert_eq!(
        Collector::PullZoneOriginShieldQueue.state_file_name(),
        "pull_zone_origin_shield_queue.json"
    );
    assert_eq!(Collector::Application.state_file_name(), "application.json");
}

#[test]
fn date_keys_and_neighbours() {
    let d = Date::from_ymd(2026, 5, 24).unwrap();
    assert_eq!(d.key(), "2026-05-24");
    assert_eq!(d.succ().unwrap().key(), "2026-05-25");
    assert_eq!(d.pred().unwrap().key(), "2026-05-23");
    assert_eq!(Date::from_ymd(2026, 12, 31).unwrap().succ().unwrap().key(), "2027-01-01");
    assert!(Date::from_ymd(2026, 2, 29).is_none());
    assert_eq!(Date::from_ymd(1, 1, 1).unwrap().days(), 1);
    assert_eq!(Date::from_days(d.days()), Some(d));
    assert!(d.is_before(&d.succ().unwrap()));
    assert!(d.is_not_after(&d));
}

#[test]
fn entity_ids_and_labels() {
    let zone = DnsZone { id: 1234, domain: "example.com".to_string() };
    assert_eq!(DnsZoneKind::entity_id(&zone), "1234");
    assert_eq!(DnsZoneKind::entity_label(&zone), "example.com");
    let pz = PullZone { id: 0, name: "cdn".to_string() };
    assert_eq!(PullZoneKind::entity_id(&pz), "0");
    assert_eq!(PullZoneKind::entity_label(&pz), "cdn");
}

#[test]
fn storage_day_from_stats_reads_both_charts() {
    let d = Date::from_ymd(2026, 5, 24).unwrap();
    let mut used = Chart::new();
    used.insert("2026-05-24T00:00:00".to_string(), 4096u64);
    let mut files = Chart::new();
    files.insert("2026-05-24T00:00:00".to_string(), 12u64);
    let stats = StorageZoneStats { storage_used_chart: used, file_count_chart: files };
    let day = StorageZoneKind::day_from_stats(&stats, &d, false).unwrap();
    assert_eq!(day.storage_used, 4096);
    assert_eq!(day.file_count, 12);
    let empty = StorageZoneStats { storage_used_chart: Chart::new(), file_count_chart: Chart::new() };
    let err = StorageZoneKind::day_from_stats(&empty, &d, false).unwrap_err();
    assert_eq!(err.field, "storage_used");
    let zero = StorageZoneKind::day_from_stats(&empty, &d, true).unwrap();
    assert_eq!(zero.storage_used, 0);
    let zone = StorageZone { id: 9, name: "files".to_string() };
    assert_eq!(StorageZoneKind::entity_id(&zone), "9");
}

#[test]
fn cycle_tally_counts_only_polled_and_saved_collectors() {
    let mut tally = CycleTally::new(3);
    assert_eq!(tally.record(true, true), CollectorOutcome::Updated);
    assert_eq!(tally.record(true, false), CollectorOutcome::SaveFailed);
    assert_eq!(tally.record(false, false), CollectorOutcome::PollFailed);
    assert_eq!(tally.succeeded(), 1);
    assert!(!tally.all_succeeded());
    let mut ok = CycleTally::new(1);
    ok.record(true, true);
    assert!(ok.all_succeeded());
    assert!(CycleTally::new(0).all_succeeded());
}

#[test]
fn pages_follow_both_listing_shapes() {
    let mut pages = Pages::new();
    assert_eq!(pages.current(), 1);
    pages.after_page(false, true);
    assert_eq!(pages.current(), 2);
    assert!(!pages.finished());
    pages.after_page(false, false);
    assert!(pages.finished());

    let mut data_pages = Pages::new();
    data_pages.after_data_page(Some(5));
    assert_eq!(data_pages.current(), 5);
    data_pages.after_data_page(None);
    assert!(data_pages.finished());

    let mut empty = Pages::new();
    empty.after_page(true, true);
    assert!(empty.finished());
}

#[test]
fn access_key_is_trimmed_and_must_not_be_empty() {
    assert_eq!(normalize_access_key("  abc-123\n").unwrap(), "abc-123");
    assert_eq!(normalize_access_key(" \t\n"), Err(AccessKeyError::Empty));
    assert_eq!(access_key_source(true, true), AccessKeySource::CommandLine);
    assert_eq!(access_key_source(false, true), AccessKeySource::File);
    assert_eq!(access_key_source(false, false), AccessKeySource::Environment);
}
