use bunnynet_prometheus::chart::Chart;
use bunnynet_prometheus::entity_stats::DayData;
use bunnynet_prometheus::pull_zone_origin_shield_queue::PullZoneOriginShieldQueueDayData;
use bunnynet_prometheus::pull_zone_safehop::PullZoneSafeHopDayData;
use bunnynet_prometheus::storage_zone::StorageDayData;
use bunnynet_prometheus::video_library::VideoLibraryDayData;
use bunnynet_prometheus::video_library_drm::VideoLibraryDrmDayData;
use bunnynet_prometheus::video_library_transcribing::VideoLibraryTranscribingDayData;
use bunnynet_prometheus::dns_zone::{DnsDayData, DnsZoneKind};

fn counts(entries: &[(&str, u64)]) -> Chart<u64> {
    let mut c = Chart::new();
    for (k, v) in entries {
        c.insert((*k).to_string(), *v);
    }
    c
}

#[test]
fn pull_zone_origin_shield_queue_accumulate_is_noop() {
    let mut state = PullZoneOriginShieldQueueDayData {
        concurrent_requests: 50,
        queued_requests: 10,
    };
    state.accumulate(PullZoneOriginShieldQueueDayData {
        concurrent_requests: 999,
        queued_requests: 999,
    });
    assert_eq!(state.concurrent_requests, 50);
    assert_eq!(state.queued_requests, 10);
}

#[test]
fn pull_zone_origin_shield_queue_merge_latest_overwrites_with_snapshot_even_when_smaller() {
    let mut state = PullZoneOriginShieldQueueDayData {
        concurrent_requests: 500,
        queued_requests: 200,
    };
    state.merge_latest(PullZoneOriginShieldQueueDayData {
        concurrent_requests: 5,
        queued_requests: 2,
    });
    assert_eq!(state.concurrent_requests, 5);
    assert_eq!(state.queued_requests, 2);
}

#[test]
fn storage_zone_accumulate_is_noop() {
    let mut state = StorageDayData {
        storage_used: 100,
        file_count: 5,
    };
    state.accumulate(StorageDayData {
        storage_used: 999,
        file_count: 999,
    });
    assert_eq!(state.storage_used, 100);
    assert_eq!(state.file_count, 5);
}

#[test]
fn storage_zone_merge_latest_overwrites_with_snapshot_even_when_smaller() {
    let mut state = StorageDayData {
        storage_used: 1000,
        file_count: 100,
    };
    state.merge_latest(StorageDayData {
        storage_used: 1,
        file_count: 1,
    });
    assert_eq!(state.storage_used, 1);
    assert_eq!(state.file_count, 1);
}

#[test]
fn video_library_drm_accumulate_sums() {
    let mut state = VideoLibraryDrmDayData {
        licenses_issued: 10,
    };
    state.accumulate(VideoLibraryDrmDayData { licenses_issued: 3 });
    assert_eq!(state.licenses_issued, 13);
}

#[test]
fn video_library_drm_merge_latest_takes_max() {
    let mut state = VideoLibraryDrmDayData {
        licenses_issued: 50,
    };
    state.merge_latest(VideoLibraryDrmDayData {
        licenses_issued: 30,
    });
    assert_eq!(state.licenses_issued, 50);
}

#[test]
fn video_library_transcribing_accumulate_sums() {
    let mut state = VideoLibraryTranscribingDayData {
        transcription_seconds: 10,
    };
    state.accumulate(VideoLibraryTranscribingDayData {
        transcription_seconds: 3,
    });
    assert_eq!(state.transcription_seconds, 13);
}

#[test]
fn video_library_transcribing_merge_latest_takes_max() {
    let mut state = VideoLibraryTranscribingDayData {
        transcription_seconds: 50,
    };
    state.merge_latest(VideoLibraryTranscribingDayData {
        transcription_seconds: 30,
    });
    assert_eq!(state.transcription_seconds, 50);
}

#[test]
fn safehop_accumulate_sums_and_merge_takes_max() {
    let mut state = PullZoneSafeHopDayData {
        requests_retried: 10,
        requests_saved: 100,
    };
    assert!(state.can_add(&PullZoneSafeHopDayData { requests_retried: 3, requests_saved: 30 }));
    state.accumulate(PullZoneSafeHopDayData {
        requests_retried: 3,
        requests_saved: 30,
    });
    assert_eq!(state.requests_retried, 13);
    assert_eq!(state.requests_saved, 130);
    state.merge_latest(PullZoneSafeHopDayData {
        requests_retried: 5,
        requests_saved: 500,
    });
    assert_eq!(state.requests_retried, 13);
    assert_eq!(state.requests_saved, 500);
    assert!(!state.can_add(&PullZoneSafeHopDayData { requests_retried: u64::MAX, requests_saved: 0 }));
}

fn video(
    views: u64,
    watch_time: u64,
    views_per_country: &[(&str, u64)],
    watch_time_per_country: &[(&str, u64)],
) -> VideoLibraryDayData {
    VideoLibraryDayData {
        views,
        watch_time,
        country_views: counts(views_per_country),
        country_watch_time: counts(watch_time_per_country),
    }
}

#[test]
fn accumulate_sums_counters_and_maps() {
    let mut state = video(10, 100, &[("US", 5), ("DE", 2)], &[("US", 50)]);
    state.accumulate(video(3, 30, &[("US", 1), ("FR", 7)], &[("DE", 8)]));
    assert_eq!(state.views, 13);
    assert_eq!(state.watch_time, 130);
    assert_eq!(state.country_views.get("US"), Some(&6));
    assert_eq!(state.country_views.get("DE"), Some(&2));
    assert_eq!(state.country_views.get("FR"), Some(&7));
    assert_eq!(state.country_watch_time.get("US"), Some(&50));
    assert_eq!(state.country_watch_time.get("DE"), Some(&8));
}

#[test]
fn merge_latest_takes_max_of_counters() {
    let mut state = video(50, 500, &[], &[]);
    state.merge_latest(video(30, 1000, &[], &[]));
    assert_eq!(state.views, 50);
    assert_eq!(state.watch_time, 1000);
}

#[test]
fn merge_latest_maps_take_max_per_key_and_keep_existing() {
    let mut state = video(0, 0, &[("US", 10), ("DE", 3)], &[("US", 100)]);
    state.merge_latest(video(
        0,
        0,
        &[("US", 5), ("FR", 7)],
        &[("US", 80), ("DE", 9)],
    ));
    assert_eq!(state.country_views.get("US"), Some(&10));
    assert_eq!(state.country_views.get("DE"), Some(&3));
    assert_eq!(state.country_views.get("FR"), Some(&7));
    assert_eq!(state.country_watch_time.get("US"), Some(&100));
    assert_eq!(state.country_watch_time.get("DE"), Some(&9));
}

#[test]
fn dns_day_data_names_query_types_and_sums() {
    let by_type = counts(&[("1", 10), ("28", 4), ("99999", 1), ("01", 2)]);
    let mut day = DnsZoneKind::day_data(7, 3, &by_type);
    assert_eq!(day.normal_queries_served, 7);
    assert_eq!(day.smart_queries_served, 3);
    assert_eq!(day.queries_served_per_type.get("A"), Some(&10));
    assert_eq!(day.queries_served_per_type.get("AAAA"), Some(&4));
    // both unknown type numbers land on UNKNOWN; the later entry's count is kept
    assert_eq!(day.queries_served_per_type.get("UNKNOWN"), Some(&2));
    let other = DnsZoneKind::day_data(1, 1, &counts(&[("1", 5)]));
    day.accumulate(other);
    assert_eq!(day.normal_queries_served, 8);
    assert_eq!(day.queries_served_per_type.get("A"), Some(&15));
    let snapshot = DnsZoneKind::day_data(2, 9, &counts(&[("28", 40)]));
    day.merge_latest(snapshot);
    assert_eq!(day.normal_queries_served, 8);
    assert_eq!(day.smart_queries_served, 9);
    assert_eq!(day.queries_served_per_type.get("AAAA"), Some(&40));
    assert_eq!(day.queries_served_per_type.get("A"), Some(&15));
}

#[test]
fn default_day_data_is_zero() {
    let d = DnsDayData::default();
    assert_eq!(d.normal_queries_served, 0);
    assert_eq!(d.queries_served_per_type.len(), 0);
    assert_eq!(StorageDayData::default(), StorageDayData { storage_used: 0, file_count: 0 });
    let v = VideoLibraryDayData::empty();
    assert_eq!(v.views, 0);
    let c = video(1, 2, &[("US", 3)], &[]).clone();
    assert_eq!(c.country_views.get("US"), Some(&3));
}
