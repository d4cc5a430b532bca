use vstd::prelude::*;

use crate::bunny::{PullZone, PullZoneOriginShieldQueueStats};
use crate::chart::{exact_found, exact_lookup, find_chart_value_for_date, FieldError};
use crate::date::Date;
use crate::entity_stats::{DayData, EntityType};
use crate::text::{decimal, decimal_text};

verus! {

/// The origin shield queue category: per pull zone, concurrent and queued requests.
pub struct PullZoneOriginShieldQueueKind;

impl EntityType for PullZoneOriginShieldQueueKind {
    type Entity = PullZone;

    /// A pull zone is known by its numeric id, written in decimal.
    open spec fn id_of(entity: &PullZone) -> Seq<char> {
        decimal_text(entity.id as nat)
    }

    /// A pull zone is labelled by its name.
    open spec fn label_of(entity: &PullZone) -> Seq<char> {
        entity.name@
    }

    fn entity_id(entity: &PullZone) -> (r: String) {
        decimal(entity.id)
    }

    fn entity_label(entity: &PullZone) -> (r: String) {
        entity.name.clone()
    }
}

impl PullZoneOriginShieldQueueKind {
    /// The data of a day, taken from the zone's queue statistics for that day.
    pub fn day_from_stats(stats: &PullZoneOriginShieldQueueStats, date: &Date, allow_missing: bool) -> (r:
        Result<PullZoneOriginShieldQueueDayData, FieldError>)
        ensures
            r is Ok <==> exact_found(stats.concurrent_requests_chart.pairs(), date.text(), allow_missing)
                && exact_found(stats.queued_requests_chart.pairs(), date.text(), allow_missing),
            r matches Ok(d) ==> exact_lookup(
                stats.concurrent_requests_chart.pairs(),
                date.text(),
                allow_missing,
                Ok(d.concurrent_requests),
            ) && exact_lookup(stats.queued_requests_chart.pairs(), date.text(), allow_missing, Ok(d.queued_requests)),
            r matches Err(e) ==> (e.field == "concurrent_requests" && exact_lookup(
                stats.concurrent_requests_chart.pairs(),
                date.text(),
                allow_missing,
                Err(e.error),
            )) || (e.field == "queued_requests" && exact_found(
                stats.concurrent_requests_chart.pairs(),
                date.text(),
                allow_missing,
            ) && exact_lookup(stats.queued_requests_chart.pairs(), date.text(), allow_missing, Err(e.error))),
    {
        let concurrent_requests = match find_chart_value_for_date(&stats.concurrent_requests_chart, date, allow_missing) {
            Ok(v) => v,
            Err(error) => return Err(FieldError { field: "concurrent_requests", error }),
        };
        let queued_requests = match find_chart_value_for_date(&stats.queued_requests_chart, date, allow_missing) {
            Ok(v) => v,
            Err(error) => return Err(FieldError { field: "queued_requests", error }),
        };
        Ok(PullZoneOriginShieldQueueDayData { concurrent_requests, queued_requests })
    }
}

/// A pull zone's origin shield queue gauges.
#[derive(Clone, Copy, Debug, PartialEq, Eq, Structural)]
pub struct PullZoneOriginShieldQueueDayData {
    pub concurrent_requests: u64,
    pub queued_requests: u64,
}

impl View for PullZoneOriginShieldQueueDayData {
    type V = PullZoneOriginShieldQueueDayData;

    open spec fn view(&self) -> PullZoneOriginShieldQueueDayData {
        *self
    }
}

impl Default for PullZoneOriginShieldQueueDayData {
    fn default() -> (r: Self)
        ensures
            r == (PullZoneOriginShieldQueueDayData { concurrent_requests: 0, queued_requests: 0 }),
    {
        PullZoneOriginShieldQueueDayData { concurrent_requests: 0, queued_requests: 0 }
    }
}

impl DayData for PullZoneOriginShieldQueueDayData {
    /// Gauges are not summed over days: the total stays as it was.
    open spec fn accumulated(
        total: PullZoneOriginShieldQueueDayData,
        day: PullZoneOriginShieldQueueDayData,
    ) -> PullZoneOriginShieldQueueDayData {
        total
    }

    open spec fn can_accumulate(
        total: PullZoneOriginShieldQueueDayData,
        day: PullZoneOriginShieldQueueDayData,
    ) -> bool {
        true
    }

    /// The newer fetch replaces both gauges, also where they went down.
    open spec fn merged(
        current: PullZoneOriginShieldQueueDayData,
        snapshot: PullZoneOriginShieldQueueDayData,
    ) -> PullZoneOriginShieldQueueDayData {
        snapshot
    }

    open spec fn zero() -> PullZoneOriginShieldQueueDayData {
        PullZoneOriginShieldQueueDayData { concurrent_requests: 0, queued_requests: 0 }
    }

    proof fn lemma_merge_idempotent(current: PullZoneOriginShieldQueueDayData, snapshot: PullZoneOriginShieldQueueDayData) {
    }

    proof fn lemma_merge_into_zero(snapshot: PullZoneOriginShieldQueueDayData) {
    }

    proof fn lemma_accumulate_zero(total: PullZoneOriginShieldQueueDayData) {
    }

    proof fn lemma_accumulate_associative(a: PullZoneOriginShieldQueueDayData, b: PullZoneOriginShieldQueueDayData, c: PullZoneOriginShieldQueueDayData) {
    }

    fn accumulate(&mut self, day: Self) {
    }

    fn merge_latest(&mut self, snapshot: Self) {
        self.concurrent_requests = snapshot.concurrent_requests;
        self.queued_requests = snapshot.queued_requests;
    }

    fn empty() -> (r: Self) {
        PullZoneOriginShieldQueueDayData { concurrent_requests: 0, queued_requests: 0 }
    }

    fn can_add(&self, day: &Self) -> (r: bool) {
        true
    }
}


/// Gauges are not summed over days: adding a day, always possible, leaves each gauge of
/// the total as it was; data on which nothing was counted has every gauge at zero.
pub proof fn lemma_origin_shield_queue_accumulate_keeps_gauges(t: PullZoneOriginShieldQueueDayData, d: PullZoneOriginShieldQueueDayData)
    ensures
        <PullZoneOriginShieldQueueDayData as DayData>::can_accumulate(t, d),
        <PullZoneOriginShieldQueueDayData as DayData>::accumulated(t, d).concurrent_requests == t.concurrent_requests,
        <PullZoneOriginShieldQueueDayData as DayData>::accumulated(t, d).queued_requests == t.queued_requests,
        <PullZoneOriginShieldQueueDayData as DayData>::zero().concurrent_requests == 0,
        <PullZoneOriginShieldQueueDayData as DayData>::zero().queued_requests == 0,
{
}

/// Folding in a newer fetch of the day replaces each gauge with the fetched value, also
/// where it went down.
pub proof fn lemma_origin_shield_queue_merge_takes_snapshot(c: PullZoneOriginShieldQueueDayData, s: PullZoneOriginShieldQueueDayData)
    ensures
        <PullZoneOriginShieldQueueDayData as DayData>::merged(c, s).concurrent_requests == s.concurrent_requests,
        <PullZoneOriginShieldQueueDayData as DayData>::merged(c, s).queued_requests == s.queued_requests,
{
}

} // verus!
