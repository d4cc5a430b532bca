use vstd::prelude::*;

use crate::bunny::{PullZone, PullZoneSafeHopStats};
use crate::chart::{
    exact_found, exact_lookup, find_chart_value_for_date, sum_chart_values, values_total, FieldError,
};
use crate::date::Date;
use crate::entity_stats::{DayData, EntityType};
use crate::text::{decimal, decimal_text};

verus! {

/// The SafeHop category: per pull zone, requests retried and requests saved.
pub struct PullZoneSafeHopKind;

impl EntityType for PullZoneSafeHopKind {
    type Entity = PullZone;

    /// A pull zone is known by its numeric id, written in decimal.
    open spec fn id_of(entity: &PullZone) -> Seq<char> {
        decimal_text(entity.id as nat)
    }

    /// A pull zone is labelled by its name.
    open spec fn label_of(entity: &PullZone) -> Seq<char> {
        entity.name@
    }

    fn entity_id(entity: &PullZone) -> (r: String) {
        decimal(entity.id)
    }

    fn entity_label(entity: &PullZone) -> (r: String) {
        entity.name.clone()
    }
}

impl PullZoneSafeHopKind {
    /// The data of a day, taken from the zone's SafeHop statistics for that day.
    pub fn day_from_stats(stats: &PullZoneSafeHopStats, date: &Date, allow_missing: bool) -> (r: Result<
        PullZoneSafeHopDayData,
        FieldError,
    >)
        ensures
            r is Ok <==> exact_found(stats.requests_retried_chart.pairs(), date.text(), allow_missing)
                && exact_found(stats.requests_saved_chart.pairs(), date.text(), allow_missing),
            r matches Ok(d) ==> exact_lookup(
                stats.requests_retried_chart.pairs(),
                date.text(),
                allow_missing,
                Ok(d.requests_retried),
            ) && exact_lookup(stats.requests_saved_chart.pairs(), date.text(), allow_missing, Ok(d.requests_saved)),
            r matches Err(e) ==> (e.field == "requests_retried" && exact_lookup(
                stats.requests_retried_chart.pairs(),
                date.text(),
                allow_missing,
                Err(e.error),
            )) || (e.field == "requests_saved" && exact_found(
                stats.requests_retried_chart.pairs(),
                date.text(),
                allow_missing,
            ) && exact_lookup(stats.requests_saved_chart.pairs(), date.text(), allow_missing, Err(e.error))),
    {
        let requests_retried = match find_chart_value_for_date(&stats.requests_retried_chart, date, allow_missing) {
            Ok(v) => v,
            Err(error) => return Err(FieldError { field: "requests_retried", error }),
        };
        let requests_saved = match find_chart_value_for_date(&stats.requests_saved_chart, date, allow_missing) {
            Ok(v) => v,
            Err(error) => return Err(FieldError { field: "requests_saved", error }),
        };
        Ok(PullZoneSafeHopDayData { requests_retried, requests_saved })
    }

    /// The data of a range of days: each counter is the sum of its chart.
    pub fn range_from_stats(stats: &PullZoneSafeHopStats) -> (r: PullZoneSafeHopDayData)
        requires
            values_total(stats.requests_retried_chart.pairs()) <= u64::MAX,
            values_total(stats.requests_saved_chart.pairs()) <= u64::MAX,
        ensures
            r.requests_retried == values_total(stats.requests_retried_chart.pairs()),
            r.requests_saved == values_total(stats.requests_saved_chart.pairs()),
    {
        PullZoneSafeHopDayData {
            requests_retried: sum_chart_values(&stats.requests_retried_chart),
            requests_saved: sum_chart_values(&stats.requests_saved_chart),
        }
    }
}

/// A pull zone's SafeHop counters.
#[derive(Clone, Copy, Debug, PartialEq, Eq, Structural)]
pub struct PullZoneSafeHopDayData {
    pub requests_retried: u64,
    pub requests_saved: u64,
}

impl View for PullZoneSafeHopDayData {
    type V = PullZoneSafeHopDayData;

    open spec fn view(&self) -> PullZoneSafeHopDayData {
        *self
    }
}

impl Default for PullZoneSafeHopDayData {
    fn default() -> (r: Self)
        ensures
            r == (PullZoneSafeHopDayData { requests_retried: 0, requests_saved: 0 }),
    {
        PullZoneSafeHopDayData { requests_retried: 0, requests_saved: 0 }
    }
}

impl DayData for PullZoneSafeHopDayData {
    /// Both counters add up.
    open spec fn accumulated(total: PullZoneSafeHopDayData, day: PullZoneSafeHopDayData) -> PullZoneSafeHopDayData {
        PullZoneSafeHopDayData {
            requests_retried: (total.requests_retried + day.requests_retried) as u64,
            requests_saved: (total.requests_saved + day.requests_saved) as u64,
        }
    }

    open spec fn can_accumulate(total: PullZoneSafeHopDayData, day: PullZoneSafeHopDayData) -> bool {
        &&& total.requests_retried + day.requests_retried <= u64::MAX
        &&& total.requests_saved + day.requests_saved <= u64::MAX
    }

    /// Each counter keeps the larger of the two fetches.
    open spec fn merged(current: PullZoneSafeHopDayData, snapshot: PullZoneSafeHopDayData) -> PullZoneSafeHopDayData {
        PullZoneSafeHopDayData {
            requests_retried: if current.requests_retried >= snapshot.requests_retried {
                current.requests_retried
            } else {
                snapshot.requests_retried
            },
            requests_saved: if current.requests_saved >= snapshot.requests_saved {
                current.requests_saved
            } else {
                snapshot.requests_saved
            },
        }
    }

    open spec fn zero() -> PullZoneSafeHopDayData {
        PullZoneSafeHopDayData { requests_retried: 0, requests_saved: 0 }
    }

    proof fn lemma_merge_idempotent(current: PullZoneSafeHopDayData, snapshot: PullZoneSafeHopDayData) {
    }

    proof fn lemma_merge_into_zero(snapshot: PullZoneSafeHopDayData) {
    }

    proof fn lemma_accumulate_zero(total: PullZoneSafeHopDayData) {
    }

    proof fn lemma_accumulate_associative(a: PullZoneSafeHopDayData, b: PullZoneSafeHopDayData, c: PullZoneSafeHopDayData) {
    }

    fn accumulate(&mut self, day: Self) {
        self.requests_retried = self.requests_retried + day.requests_retried;
        self.requests_saved = self.requests_saved + day.requests_saved;
    }

    fn merge_latest(&mut self, snapshot: Self) {
        if snapshot.requests_retried > self.requests_retried {
            self.requests_retried = snapshot.requests_retried;
        }
        if snapshot.requests_saved > self.requests_saved {
            self.requests_saved = snapshot.requests_saved;
        }
    }

    fn empty() -> (r: Self) {
        PullZoneSafeHopDayData { requests_retried: 0, requests_saved: 0 }
    }

    fn can_add(&self, day: &Self) -> (r: bool) {
        self.requests_retried <= u64::MAX - day.requests_retried && self.requests_saved <= u64::MAX
            - day.requests_saved
    }
}


/// Adding a day adds each counter on its own, and can be done exactly when no counter
/// leaves `u64`; data on which nothing was counted has every counter at zero.
pub proof fn lemma_safehop_accumulate_adds_each_counter(t: PullZoneSafeHopDayData, d: PullZoneSafeHopDayData)
    ensures
        <PullZoneSafeHopDayData as DayData>::can_accumulate(t, d) <==> (t.requests_retried + d.requests_retried <= u64::MAX && t.requests_saved + d.requests_saved <= u64::MAX),
        <PullZoneSafeHopDayData as DayData>::can_accumulate(t, d) ==> <PullZoneSafeHopDayData as DayData>::accumulated(t, d).requests_retried == t.requests_retried + d.requests_retried,
        <PullZoneSafeHopDayData as DayData>::can_accumulate(t, d) ==> <PullZoneSafeHopDayData as DayData>::accumulated(t, d).requests_saved == t.requests_saved + d.requests_saved,
        <PullZoneSafeHopDayData as DayData>::zero().requests_retried == 0,
        <PullZoneSafeHopDayData as DayData>::zero().requests_saved == 0,
{
}

/// Folding in a newer fetch of the day keeps, for each counter, the larger of the two
/// values, so no counter goes down.
pub proof fn lemma_safehop_merge_keeps_larger(c: PullZoneSafeHopDayData, s: PullZoneSafeHopDayData)
    ensures
        <PullZoneSafeHopDayData as DayData>::merged(c, s).requests_retried >= c.requests_retried,
        <PullZoneSafeHopDayData as DayData>::merged(c, s).requests_retried >= s.requests_retried,
        <PullZoneSafeHopDayData as DayData>::merged(c, s).requests_retried == c.requests_retried || <PullZoneSafeHopDayData as DayData>::merged(c, s).requests_retried == s.requests_retried,
        <PullZoneSafeHopDayData as DayData>::merged(c, s).requests_saved >= c.requests_saved,
        <PullZoneSafeHopDayData as DayData>::merged(c, s).requests_saved >= s.requests_saved,
        <PullZoneSafeHopDayData as DayData>::merged(c, s).requests_saved == c.requests_saved || <PullZoneSafeHopDayData as DayData>::merged(c, s).requests_saved == s.requests_saved,
{
}

} // verus!
