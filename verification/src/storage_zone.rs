use vstd::prelude::*;

use crate::bunny::{StorageZone, StorageZoneStats};
use crate::chart::{exact_found, exact_lookup, find_chart_value_for_date, FieldError};
use crate::date::Date;
use crate::entity_stats::{DayData, EntityType};
use crate::text::{decimal, decimal_text};

verus! {

/// The storage zone category: per zone, the storage used and the number of files.
pub struct StorageZoneKind;

impl EntityType for StorageZoneKind {
    type Entity = StorageZone;

    /// A zone is known by its numeric id, written in decimal.
    open spec fn id_of(entity: &StorageZone) -> Seq<char> {
        decimal_text(entity.id as nat)
    }

    /// A zone is labelled by its name.
    open spec fn label_of(entity: &StorageZone) -> Seq<char> {
        entity.name@
    }

    fn entity_id(entity: &StorageZone) -> (r: String) {
        decimal(entity.id)
    }

    fn entity_label(entity: &StorageZone) -> (r: String) {
        entity.name.clone()
    }
}

impl StorageZoneKind {
    /// The data of a day, taken from the zone's statistics for that day.
    pub fn day_from_stats(stats: &StorageZoneStats, date: &Date, allow_missing: bool) -> (r: Result<
        StorageDayData,
        FieldError,
    >)
        ensures
            r matches Ok(d) ==> exact_lookup(stats.storage_used_chart.pairs(), date.text(), allow_missing, Ok(d.storage_used))
                && exact_lookup(stats.file_count_chart.pairs(), date.text(), allow_missing, Ok(d.file_count)),
            r is Ok <==> exact_found(stats.storage_used_chart.pairs(), date.text(), allow_missing) && exact_found(
                stats.file_count_chart.pairs(),
                date.text(),
                allow_missing,
            ),
            r matches Err(e) ==> (e.field == "storage_used" && exact_lookup(stats.storage_used_chart.pairs(), date.text(), allow_missing, Err(e.error)))
                || (e.field == "file_count" && exact_found(stats.storage_used_chart.pairs(), date.text(), allow_missing) && exact_lookup(stats.file_count_chart.pairs(), date.text(), allow_missing, Err(e.error))),
    {
        let storage_used = match find_chart_value_for_date(&stats.storage_used_chart, date, allow_missing) {
            Ok(v) => v,
            Err(error) => return Err(FieldError { field: "storage_used", error }),
        };
        let file_count = match find_chart_value_for_date(&stats.file_count_chart, date, allow_missing) {
            Ok(v) => v,
            Err(error) => return Err(FieldError { field: "file_count", error }),
        };
        Ok(StorageDayData { storage_used, file_count })
    }
}

/// A storage zone's gauges: bytes stored and files held.
#[derive(Clone, Copy, Debug, PartialEq, Eq, Structural)]
pub struct StorageDayData {
    pub storage_used: u64,
    pub file_count: u64,
}

impl View for StorageDayData {
    type V = StorageDayData;

    open spec fn view(&self) -> StorageDayData {
        *self
    }
}

impl Default for StorageDayData {
    fn default() -> (r: Self)
        ensures
            r == (StorageDayData { storage_used: 0, file_count: 0 }),
    {
        StorageDayData { storage_used: 0, file_count: 0 }
    }
}

impl DayData for StorageDayData {
    /// Gauges are not summed over days: the total stays as it was.
    open spec fn accumulated(total: StorageDayData, day: StorageDayData) -> StorageDayData {
        total
    }

    open spec fn can_accumulate(total: StorageDayData, day: StorageDayData) -> bool {
        true
    }

    /// The newer fetch replaces both gauges, also where they went down.
    open spec fn merged(current: StorageDayData, snapshot: StorageDayData) -> StorageDayData {
        snapshot
    }

    open spec fn zero() -> StorageDayData {
        StorageDayData { storage_used: 0, file_count: 0 }
    }

    proof fn lemma_merge_idempotent(current: StorageDayData, snapshot: StorageDayData) {
    }

    proof fn lemma_merge_into_zero(snapshot: StorageDayData) {
    }

    proof fn lemma_accumulate_zero(total: StorageDayData) {
    }

    proof fn lemma_accumulate_associative(a: StorageDayData, b: StorageDayData, c: StorageDayData) {
    }

    fn accumulate(&mut self, day: Self) {
    }

    fn merge_latest(&mut self, snapshot: Self) {
        self.storage_used = snapshot.storage_used;
        self.file_count = snapshot.file_count;
    }

    fn empty() -> (r: Self) {
        StorageDayData { storage_used: 0, file_count: 0 }
    }

    fn can_add(&self, day: &Self) -> (r: bool) {
        true
    }
}


/// Gauges are not summed over days: adding a day, always possible, leaves each gauge of
/// the total as it was; data on which nothing was counted has every gauge at zero.
pub proof fn lemma_storage_accumulate_keeps_gauges(t: StorageDayData, d: StorageDayData)
    ensures
        <StorageDayData as DayData>::can_accumulate(t, d),
        <StorageDayData as DayData>::accumulated(t, d).storage_used == t.storage_used,
        <StorageDayData as DayData>::accumulated(t, d).file_count == t.file_count,
        <StorageDayData as DayData>::zero().storage_used == 0,
        <StorageDayData as DayData>::zero().file_count == 0,
{
}

/// Folding in a newer fetch of the day replaces each gauge with the fetched value, also
/// where it went down.
pub proof fn lemma_storage_merge_takes_snapshot(c: StorageDayData, s: StorageDayData)
    ensures
        <StorageDayData as DayData>::merged(c, s).storage_used == s.storage_used,
        <StorageDayData as DayData>::merged(c, s).file_count == s.file_count,
{
}

} // verus!
