use bunnynet_prometheus::date::Date;
use bunnynet_prometheus::entity_stats::{
    backfill_range, days_in_range, update_entry, CountChange, DayData, EntityEntry,
    EntityStatsState,
};
use bunnynet_prometheus::storage_zone::StorageDayData;
use bunnynet_prometheus::video_library_drm::VideoLibraryDrmDayData;

fn date(y: i32, m: u32, d: u32) -> Date {
    Date::from_ymd(y, m, d).unwrap()
}

fn drm(value: u64) -> VideoLibraryDrmDayData {
    VideoLibraryDrmDayData {
        licenses_issued: value,
    }
}

fn drm_entry(label: &str, last: Option<Date>, last_value: u64, current: u64) -> EntityEntry<VideoLibraryDrmDayData> {
    EntityEntry {
        label: label.to_string(),
        last_complete_day: last,
        last_complete_day_state: drm(last_value),
        current_day_state: drm(current),
    }
}

#[test]
fn update_entry_no_prior_state_fetches_only_today() {
    let today = date(2026, 5, 26);
    let yesterday = date(2026, 5, 25);
    let mut entry = drm_entry("Entity 1", None, 0, 0);
    assert_eq!(backfill_range(&entry, &yesterday), None);
    update_entry(&mut entry, &yesterday, None, drm(10));
    assert_eq!(entry.last_complete_day, Some(yesterday));
    assert_eq!(entry.last_complete_day_state.licenses_issued, 0);
    assert_eq!(entry.current_day_state.licenses_issued, 10);
    assert_eq!(today.pred(), Some(yesterday));
}

#[test]
fn update_entry_caught_up_no_backfill() {
    let yesterday = date(2026, 5, 25);
    let mut entry = EntityEntry {
        label: "Entity 1".to_string(),
        last_complete_day: Some(yesterday),
        last_complete_day_state: StorageDayData { storage_used: 100, file_count: 0 },
        current_day_state: StorageDayData { storage_used: 50, file_count: 0 },
    };
    assert_eq!(backfill_range(&entry, &yesterday), None);
    update_entry(&mut entry, &yesterday, None, StorageDayData { storage_used: 7, file_count: 0 });
    assert_eq!(entry.last_complete_day, Some(yesterday));
    assert_eq!(entry.last_complete_day_state.storage_used, 100);
    assert_eq!(entry.current_day_state.storage_used, 7);
}

#[test]
fn update_entry_backfills_missing_days_then_today() {
    let yesterday = date(2026, 5, 25);
    let last = date(2026, 5, 20);
    let mut entry = drm_entry("Entity 1", Some(last), 100, 99);
    assert_eq!(backfill_range(&entry, &yesterday), Some((date(2026, 5, 21), yesterday)));
    update_entry(&mut entry, &yesterday, Some(drm(42)), drm(3));
    assert_eq!(entry.last_complete_day, Some(yesterday));
    assert_eq!(entry.last_complete_day_state.licenses_issued, 142);
    assert_eq!(entry.current_day_state.licenses_issued, 3);
}

#[test]
fn fetch_range_default_iterates_day_by_day_and_accumulates() {
    let yesterday = date(2026, 5, 25);
    let last = date(2026, 5, 22);
    let mut entry = drm_entry("Entity 1", Some(last), 100, 0);
    let (from, to) = backfill_range(&entry, &yesterday).unwrap();
    let days = days_in_range(&from, &to);
    assert_eq!(days, vec![date(2026, 5, 23), date(2026, 5, 24), date(2026, 5, 25)]);
    let values = [1u64, 2, 4];
    let mut range = VideoLibraryDrmDayData::empty();
    for v in values {
        assert!(range.can_add(&drm(v)));
        range.accumulate(drm(v));
    }
    update_entry(&mut entry, &yesterday, Some(range), drm(8));
    assert_eq!(entry.last_complete_day, Some(yesterday));
    assert_eq!(entry.last_complete_day_state.licenses_issued, 107);
    assert_eq!(entry.current_day_state.licenses_issued, 8);
}

#[test]
fn days_in_range_is_empty_when_from_is_after_to() {
    assert!(days_in_range(&date(2026, 5, 26), &date(2026, 5, 25)).is_empty());
    assert_eq!(days_in_range(&date(2026, 5, 25), &date(2026, 5, 25)).len(), 1);
}

#[test]
fn try_poll_adds_unknown_entities() {
    let yesterday = date(2026, 5, 25);
    let state = EntityStatsState::<VideoLibraryDrmDayData>::new();
    assert_eq!(state.count_change(2), CountChange::First(2));
    let mut updated = Vec::new();
    for (id, label) in [("a", "Entity A"), ("b", "Entity B")] {
        let mut entry = state.prepare_entry(id, label.to_string());
        // a new entity has no complete days, so only today is fetched
        assert_eq!(backfill_range(&entry, &yesterday), None);
        update_entry(&mut entry, &yesterday, None, drm(0));
        updated.push((id.to_string(), entry));
    }
    let mut state = state;
    state.commit_poll(2, updated);
    assert!(state.entry("a").is_some());
    assert!(state.entry("b").is_some());
    assert_eq!(state.entry("a").unwrap().label, "Entity A");
    assert_eq!(state.entry("b").unwrap().label, "Entity B");
    assert_eq!(state.len(), 2);
    assert_eq!(state.last_entity_count(), Some(2));
}

#[test]
fn try_poll_prunes_missing_entities() {
    let yesterday = date(2026, 5, 25);
    let mut state = EntityStatsState::<VideoLibraryDrmDayData>::new();
    state.insert_entry("a".to_string(), drm_entry("", None, 0, 0));
    state.insert_entry("stale".to_string(), drm_entry("", None, 0, 0));

    let mut entry = state.prepare_entry("a", "Entity A".to_string());
    update_entry(&mut entry, &yesterday, None, drm(1));
    state.commit_poll(1, vec![("a".to_string(), entry)]);

    assert!(state.entry("a").is_some());
    assert!(state.entry("stale").is_none());
}

#[test]
fn poll_rolls_back_state_on_error() {
    let mut state = EntityStatsState::<VideoLibraryDrmDayData>::new();
    state.commit_poll(
        99,
        vec![("preexisting".to_string(), drm_entry("Before", None, 7, 0))],
    );
    let result: Result<(), &str> = state.poll(Err("fake error"));
    assert!(result.is_err());
    assert_eq!(state.len(), 1);
    assert_eq!(state.entry("preexisting").unwrap().label, "Before");
    assert_eq!(
        state
            .entry("preexisting")
            .unwrap()
            .last_complete_day_state
            .licenses_issued,
        7
    );
    assert_eq!(state.last_entity_count(), Some(99));
}

#[test]
fn prepare_entry_copies_kept_entry_with_new_label() {
    let mut state = EntityStatsState::<VideoLibraryDrmDayData>::new();
    state.insert_entry("x".to_string(), drm_entry("old", Some(date(2026, 5, 24)), 5, 6));
    let e = state.prepare_entry("x", "new".to_string());
    assert_eq!(e.label, "new");
    assert_eq!(e.last_complete_day, Some(date(2026, 5, 24)));
    assert_eq!(e.last_complete_day_state.licenses_issued, 5);
    assert_eq!(e.current_day_state.licenses_issued, 6);
    assert_eq!(state.count_change(1), CountChange::First(1));
}

#[test]
fn count_change_reports_changes_after_first_poll() {
    let mut state = EntityStatsState::<VideoLibraryDrmDayData>::new();
    state.commit_poll(3, Vec::new());
    assert_eq!(state.count_change(3), CountChange::Unchanged);
    assert_eq!(
        state.count_change(4),
        CountChange::Changed {
            previous: 3,
            current: 4
        }
    );
}

#[test]
fn poll_commits_successful_outcome() {
    let mut state = EntityStatsState::<VideoLibraryDrmDayData>::new();
    let result: Result<(), &str> = state.poll(Ok((1, vec![("z".to_string(), drm_entry("Z", None, 0, 1))])));
    assert!(result.is_ok());
    assert_eq!(state.len(), 1);
    let (id, entry) = state.entry_at(0);
    assert_eq!(id, "z");
    assert_eq!(entry.current_day_state.licenses_issued, 1);
}
