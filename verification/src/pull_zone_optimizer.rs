use vstd::prelude::*;

use crate::bunny::PullZone;
use crate::chart::{Chart, ChartError, FieldError, exact_found, exact_lookup, find_chart_value_for_date, sum_chart_values, values_total};
use crate::date::Date;
use crate::text::{decimal, decimal_text};

use crate::entity_stats::{DayData, EntityType};

verus! {

/// The optimizer category: per pull zone, requests optimized, traffic saved, compression and processing time.
pub struct PullZoneOptimizerKind;

impl EntityType for PullZoneOptimizerKind {
    type Entity = PullZone;

    /// A pull zone is known by its numeric id, written in decimal.
    open spec fn id_of(entity: &PullZone) -> Seq<char> {
        decimal_text(entity.id as nat)
    }

    /// A pull zone is labelled by its name.
    open spec fn label_of(entity: &PullZone) -> Seq<char> {
        entity.name@
    }

    fn entity_id(entity: &PullZone) -> (r: String) {
        decimal(entity.id)
    }

    fn entity_label(entity: &PullZone) -> (r: String) {
        entity.name.clone()
    }
}

/// The value of an optional chart for a date: the default value where the chart is
/// absent, and otherwise its one value for the date as `find_chart_value_for_date` takes it.
pub fn chart_value_or_default<V: Copy + Default>(chart: Option<&Chart<V>>, date: &Date, allow_missing: bool) -> (r: Result<V, ChartError>)
    ensures
        chart is None ==> (r matches Ok(v) && call_ensures(V::default, (), v)),
        chart matches Some(c) ==> exact_lookup(c.pairs(), date.text(), allow_missing, r),
{
    match chart {
        None => Ok(V::default()),
        Some(c) => find_chart_value_for_date(c, date, allow_missing),
    }
}

/// The value that an optional chart gives for a date, as `chart_value_or_default` takes it.
pub open spec fn optional_lookup(chart: Option<&Chart<u64>>, text: Seq<char>, allow_missing: bool, r: Result<u64, ChartError>) -> bool {
    match chart {
        None => r == Ok::<u64, ChartError>(0),
        Some(c) => exact_lookup(c.pairs(), text, allow_missing, r),
    }
}

/// Taking the value of an optional chart for a date succeeds: it is absent, or it holds
/// exactly the entry of the date.
pub open spec fn optional_found(chart: Option<&Chart<u64>>, text: Seq<char>, allow_missing: bool) -> bool {
    match chart {
        None => true,
        Some(c) => exact_found(c.pairs(), text, allow_missing),
    }
}

/// The sum of an optional chart: zero where it is absent.
pub open spec fn optional_total(chart: Option<&Chart<u64>>) -> int {
    match chart {
        None => 0,
        Some(c) => values_total(c.pairs()),
    }
}

/// A pull zone's optimizer counters: requests optimized and traffic saved.
#[derive(Clone, Copy, Debug, PartialEq, Eq, Structural)]
pub struct PullZoneOptimizerCounters {
    pub requests_optimized: u64,
    pub traffic_saved: u64,
}

impl View for PullZoneOptimizerCounters {
    type V = PullZoneOptimizerCounters;

    open spec fn view(&self) -> PullZoneOptimizerCounters {
        *self
    }
}

impl Default for PullZoneOptimizerCounters {
    fn default() -> (r: Self)
        ensures
            r == (PullZoneOptimizerCounters { requests_optimized: 0, traffic_saved: 0 }),
    {
        PullZoneOptimizerCounters { requests_optimized: 0, traffic_saved: 0 }
    }
}

impl DayData for PullZoneOptimizerCounters {
    /// Both counters add up.
    open spec fn accumulated(total: PullZoneOptimizerCounters, day: PullZoneOptimizerCounters) -> PullZoneOptimizerCounters {
        PullZoneOptimizerCounters {
            requests_optimized: (total.requests_optimized + day.requests_optimized) as u64,
            traffic_saved: (total.traffic_saved + day.traffic_saved) as u64,
        }
    }

    open spec fn can_accumulate(total: PullZoneOptimizerCounters, day: PullZoneOptimizerCounters) -> bool {
        &&& total.requests_optimized + day.requests_optimized <= u64::MAX
        &&& total.traffic_saved + day.traffic_saved <= u64::MAX
    }

    /// Each counter keeps the larger of the two fetches.
    open spec fn merged(current: PullZoneOptimizerCounters, snapshot: PullZoneOptimizerCounters) -> PullZoneOptimizerCounters {
        PullZoneOptimizerCounters {
            requests_optimized: if current.requests_optimized >= snapshot.requests_optimized {
                current.requests_optimized
            } else {
                snapshot.requests_optimized
            },
            traffic_saved: if current.traffic_saved >= snapshot.traffic_saved {
                current.traffic_saved
            } else {
                snapshot.traffic_saved
            },
        }
    }

    open spec fn zero() -> PullZoneOptimizerCounters {
        PullZoneOptimizerCounters { requests_optimized: 0, traffic_saved: 0 }
    }

    proof fn lemma_merge_idempotent(current: PullZoneOptimizerCounters, snapshot: PullZoneOptimizerCounters) {
    }

    proof fn lemma_merge_into_zero(snapshot: PullZoneOptimizerCounters) {
    }

    proof fn lemma_accumulate_zero(total: PullZoneOptimizerCounters) {
    }

    proof fn lemma_accumulate_associative(a: PullZoneOptimizerCounters, b: PullZoneOptimizerCounters, c: PullZoneOptimizerCounters) {
    }

    fn accumulate(&mut self, day: Self) {
        self.requests_optimized = self.requests_optimized + day.requests_optimized;
        self.traffic_saved = self.traffic_saved + day.traffic_saved;
    }

    fn merge_latest(&mut self, snapshot: Self) {
        if snapshot.requests_optimized > self.requests_optimized {
            self.requests_optimized = snapshot.requests_optimized;
        }
        if snapshot.traffic_saved > self.traffic_saved {
            self.traffic_saved = snapshot.traffic_saved;
        }
    }

    fn empty() -> (r: Self) {
        PullZoneOptimizerCounters { requests_optimized: 0, traffic_saved: 0 }
    }

    fn can_add(&self, day: &Self) -> (r: bool) {
        self.requests_optimized <= u64::MAX - day.requests_optimized && self.traffic_saved <= u64::MAX
            - day.traffic_saved
    }
}

impl PullZoneOptimizerKind {
    /// The counters of a day, taken from the zone's optimizer statistics for that day;
    /// an absent chart counts zero.
    pub fn counters_from_stats(
        requests_optimized_chart: Option<&Chart<u64>>,
        traffic_saved_chart: Option<&Chart<u64>>,
        date: &Date,
        allow_missing: bool,
    ) -> (r: Result<PullZoneOptimizerCounters, FieldError>)
        ensures
            r matches Ok(d) ==> optional_lookup(requests_optimized_chart, date.text(), allow_missing, Ok(d.requests_optimized))
                && optional_lookup(traffic_saved_chart, date.text(), allow_missing, Ok(d.traffic_saved)),
            r matches Err(e) ==> (e.field == "requests_optimized" && optional_lookup(requests_optimized_chart, date.text(), allow_missing, Err(e.error)))
                || (e.field == "traffic_saved" && optional_found(requests_optimized_chart, date.text(), allow_missing)
                && optional_lookup(traffic_saved_chart, date.text(), allow_missing, Err(e.error))),
            r is Ok <==> optional_found(requests_optimized_chart, date.text(), allow_missing) && optional_found(
                traffic_saved_chart,
                date.text(),
                allow_missing,
            ),
    {
        let requests_optimized = match chart_value_or_default(requests_optimized_chart, date, allow_missing) {
            Ok(v) => v,
            Err(error) => return Err(FieldError { field: "requests_optimized", error }),
        };
        let traffic_saved = match chart_value_or_default(traffic_saved_chart, date, allow_missing) {
            Ok(v) => v,
            Err(error) => return Err(FieldError { field: "traffic_saved", error }),
        };
        Ok(PullZoneOptimizerCounters { requests_optimized, traffic_saved })
    }

    /// The counters of a range of days: each is the sum of its chart, zero where the
    /// chart is absent.
    pub fn counters_range(requests_optimized_chart: Option<&Chart<u64>>, traffic_saved_chart: Option<&Chart<u64>>) -> (r:
        PullZoneOptimizerCounters)
        requires
            optional_total(requests_optimized_chart) <= u64::MAX,
            optional_total(traffic_saved_chart) <= u64::MAX,
        ensures
            r.requests_optimized == optional_total(requests_optimized_chart),
            r.traffic_saved == optional_total(traffic_saved_chart),
    {
        let requests_optimized = match requests_optimized_chart {
            Some(c) => sum_chart_values(c),
            None => 0,
        };
        let traffic_saved = match traffic_saved_chart {
            Some(c) => sum_chart_values(c),
            None => 0,
        };
        PullZoneOptimizerCounters { requests_optimized, traffic_saved }
    }
}


/// Adding a day adds each counter on its own, and can be done exactly when no counter
/// leaves `u64`; data on which nothing was counted has every counter at zero.
pub proof fn lemma_optimizer_accumulate_adds_each_counter(t: PullZoneOptimizerCounters, d: PullZoneOptimizerCounters)
    ensures
        <PullZoneOptimizerCounters as DayData>::can_accumulate(t, d) <==> (t.requests_optimized + d.requests_optimized <= u64::MAX && t.traffic_saved + d.traffic_saved <= u64::MAX),
        <PullZoneOptimizerCounters as DayData>::can_accumulate(t, d) ==> <PullZoneOptimizerCounters as DayData>::accumulated(t, d).requests_optimized == t.requests_optimized + d.requests_optimized,
        <PullZoneOptimizerCounters as DayData>::can_accumulate(t, d) ==> <PullZoneOptimizerCounters as DayData>::accumulated(t, d).traffic_saved == t.traffic_saved + d.traffic_saved,
        <PullZoneOptimizerCounters as DayData>::zero().requests_optimized == 0,
        <PullZoneOptimizerCounters as DayData>::zero().traffic_saved == 0,
{
}

/// Folding in a newer fetch of the day keeps, for each counter, the larger of the two
/// values, so no counter goes down.
pub proof fn lemma_optimizer_merge_keeps_larger(c: PullZoneOptimizerCounters, s: PullZoneOptimizerCounters)
    ensures
        <PullZoneOptimizerCounters as DayData>::merged(c, s).requests_optimized >= c.requests_optimized,
        <PullZoneOptimizerCounters as DayData>::merged(c, s).requests_optimized >= s.requests_optimized,
        <PullZoneOptimizerCounters as DayData>::merged(c, s).requests_optimized == c.requests_optimized || <PullZoneOptimizerCounters as DayData>::merged(c, s).requests_optimized == s.requests_optimized,
        <PullZoneOptimizerCounters as DayData>::merged(c, s).traffic_saved >= c.traffic_saved,
        <PullZoneOptimizerCounters as DayData>::merged(c, s).traffic_saved >= s.traffic_saved,
        <PullZoneOptimizerCounters as DayData>::merged(c, s).traffic_saved == c.traffic_saved || <PullZoneOptimizerCounters as DayData>::merged(c, s).traffic_saved == s.traffic_saved,
{
}

} // verus!
