use vstd::prelude::*;

use crate::bunny::{PullZone, PullZoneTrafficStats};
use crate::chart::{
    is_keywise_max, is_keywise_sum, lemma_max_counts_is_keywise_max, lemma_summed_counts_is_keywise_sum,
    Chart, counts_addable, counts_fit, exact_found, exact_lookup, find_chart_value_for_date,
    lemma_max_counts_idempotent, lemma_summed_counts_associative, lemma_summed_counts_empty, max_counts,
    sum_chart_values, summed_counts, values_total, FieldError,
};
use crate::date::Date;
use crate::text::{decimal, decimal_text};

use crate::entity_stats::{DayData, EntityType};

verus! {

/// The pull zone category: per pull zone, bandwidth, requests, origin traffic, errors, response time, cache hit rate and traffic per region.
pub struct PullZoneKind;

impl EntityType for PullZoneKind {
    type Entity = PullZone;

    /// A pull zone is known by its numeric id, written in decimal.
    open spec fn id_of(entity: &PullZone) -> Seq<char> {
        decimal_text(entity.id as nat)
    }

    /// A pull zone is labelled by its name.
    open spec fn label_of(entity: &PullZone) -> Seq<char> {
        entity.name@
    }

    fn entity_id(entity: &PullZone) -> (r: String) {
        decimal(entity.id)
    }

    fn entity_label(entity: &PullZone) -> (r: String) {
        entity.name.clone()
    }
}

/// A pull zone's ten traffic counters.
#[derive(Clone, Copy, Debug, PartialEq, Eq, Structural)]
pub struct PullZoneTraffic {
    pub bandwidth_used: u64,
    pub bandwidth_cached: u64,
    pub requests_served: u64,
    pub pull_requests_pulled: u64,
    pub origin_shield_bandwidth_used: u64,
    pub origin_shield_internal_bandwidth_used: u64,
    pub origin_traffic: u64,
    pub errors_3xx: u64,
    pub errors_4xx: u64,
    pub errors_5xx: u64,
}

/// The counters in the order of `traffic_charts`.
pub open spec fn traffic_values(t: PullZoneTraffic) -> Seq<u64> {
    seq![
        t.bandwidth_used,
        t.bandwidth_cached,
        t.requests_served,
        t.pull_requests_pulled,
        t.origin_shield_bandwidth_used,
        t.origin_shield_internal_bandwidth_used,
        t.origin_traffic,
        t.errors_3xx,
        t.errors_4xx,
        t.errors_5xx,
    ]
}

/// The counter charts of a pull zone's statistics, each with the name of its counter.
pub open spec fn traffic_charts(s: PullZoneTrafficStats) -> Seq<(&'static str, Chart<u64>)> {
    seq![
        ("bandwidth_used", s.bandwidth_used_chart),
        ("bandwidth_cached", s.bandwidth_cached_chart),
        ("requests_served", s.requests_served_chart),
        ("pull_requests_pulled", s.pull_requests_pulled_chart),
        ("origin_shield_bandwidth_used", s.origin_shield_bandwidth_used_chart),
        ("origin_shield_internal_bandwidth_used", s.origin_shield_internal_bandwidth_used_chart),
        ("origin_traffic", s.origin_traffic_chart),
        ("errors_3xx", s.errors_3xx_chart),
        ("errors_4xx", s.errors_4xx_chart),
        ("errors_5xx", s.errors_5xx_chart),
    ]
}

/// The counters with the given values, in the order of `traffic_values`.
pub open spec fn traffic_of(v: Seq<u64>) -> PullZoneTraffic {
    PullZoneTraffic {
        bandwidth_used: v[0],
        bandwidth_cached: v[1],
        requests_served: v[2],
        pull_requests_pulled: v[3],
        origin_shield_bandwidth_used: v[4],
        origin_shield_internal_bandwidth_used: v[5],
        origin_traffic: v[6],
        errors_3xx: v[7],
        errors_4xx: v[8],
        errors_5xx: v[9],
    }
}

/// Every counter of `a` and `b` can be added without leaving `u64`.
pub open spec fn traffic_addable(a: PullZoneTraffic, b: PullZoneTraffic) -> bool {
    forall|i: int| 0 <= i < 10 ==> #[trigger] traffic_values(a)[i] + traffic_values(b)[i] <= u64::MAX
}

/// The counters of `a` and `b` added one by one.
pub open spec fn traffic_sum(a: PullZoneTraffic, b: PullZoneTraffic) -> PullZoneTraffic {
    traffic_of(Seq::new(10, |i: int| (traffic_values(a)[i] + traffic_values(b)[i]) as u64))
}

/// The larger of each pair of counters of `a` and `b`.
pub open spec fn traffic_max(a: PullZoneTraffic, b: PullZoneTraffic) -> PullZoneTraffic {
    traffic_of(
        Seq::new(
            10,
            |i: int| if traffic_values(a)[i] >= traffic_values(b)[i] { traffic_values(a)[i] } else { traffic_values(b)[i] },
        ),
    )
}

proof fn lemma_traffic_roundtrip(t: PullZoneTraffic)
    ensures
        traffic_of(traffic_values(t)) == t,
        traffic_values(t).len() == 10,
{
}

proof fn lemma_traffic_values_of(v: Seq<u64>)
    requires
        v.len() == 10,
    ensures
        traffic_values(traffic_of(v)) == v,
{
    assert(traffic_values(traffic_of(v)) =~= v);
}

fn values_of(t: &PullZoneTraffic) -> (r: [u64; 10])
    ensures
        r@ == traffic_values(*t),
{
    let r = [
        t.bandwidth_used,
        t.bandwidth_cached,
        t.requests_served,
        t.pull_requests_pulled,
        t.origin_shield_bandwidth_used,
        t.origin_shield_internal_bandwidth_used,
        t.origin_traffic,
        t.errors_3xx,
        t.errors_4xx,
        t.errors_5xx,
    ];
    assert(r@ =~= traffic_values(*t));
    r
}

fn traffic_from(v: &Vec<u64>) -> (r: PullZoneTraffic)
    requires
        v@.len() == 10,
    ensures
        r == traffic_of(v@),
{
    PullZoneTraffic {
        bandwidth_used: v[0],
        bandwidth_cached: v[1],
        requests_served: v[2],
        pull_requests_pulled: v[3],
        origin_shield_bandwidth_used: v[4],
        origin_shield_internal_bandwidth_used: v[5],
        origin_traffic: v[6],
        errors_3xx: v[7],
        errors_4xx: v[8],
        errors_5xx: v[9],
    }
}

/// A pull zone's counters: the ten traffic counters and the traffic per region.
#[derive(Debug)]
pub struct PullZoneCounters {
    pub traffic: PullZoneTraffic,
    pub geo_traffic_distribution: Chart<u64>,
}

impl View for PullZoneCounters {
    type V = (PullZoneTraffic, Map<Seq<char>, u64>);

    open spec fn view(&self) -> (PullZoneTraffic, Map<Seq<char>, u64>) {
        (self.traffic, self.geo_traffic_distribution@)
    }
}

impl Clone for PullZoneCounters {
    fn clone(&self) -> (r: Self)
        ensures
            r@ == self@,
    {
        PullZoneCounters { traffic: self.traffic, geo_traffic_distribution: self.geo_traffic_distribution.duplicate() }
    }
}

/// No traffic counted.
pub open spec fn no_traffic() -> PullZoneTraffic {
    PullZoneTraffic {
        bandwidth_used: 0,
        bandwidth_cached: 0,
        requests_served: 0,
        pull_requests_pulled: 0,
        origin_shield_bandwidth_used: 0,
        origin_shield_internal_bandwidth_used: 0,
        origin_traffic: 0,
        errors_3xx: 0,
        errors_4xx: 0,
        errors_5xx: 0,
    }
}

fn zero_traffic() -> (r: PullZoneTraffic)
    ensures
        r == no_traffic(),
{
    PullZoneTraffic {
        bandwidth_used: 0,
        bandwidth_cached: 0,
        requests_served: 0,
        pull_requests_pulled: 0,
        origin_shield_bandwidth_used: 0,
        origin_shield_internal_bandwidth_used: 0,
        origin_traffic: 0,
        errors_3xx: 0,
        errors_4xx: 0,
        errors_5xx: 0,
    }
}

impl Default for PullZoneCounters {
    fn default() -> (r: Self)
        ensures
            r@ == (no_traffic(), Map::<Seq<char>, u64>::empty()),
    {
        PullZoneCounters { traffic: zero_traffic(), geo_traffic_distribution: Chart::new() }
    }
}

impl DayData for PullZoneCounters {
    /// Every counter adds up, per region too.
    open spec fn accumulated(
        total: (PullZoneTraffic, Map<Seq<char>, u64>),
        day: (PullZoneTraffic, Map<Seq<char>, u64>),
    ) -> (PullZoneTraffic, Map<Seq<char>, u64>) {
        (traffic_sum(total.0, day.0), summed_counts(total.1, day.1))
    }

    open spec fn can_accumulate(
        total: (PullZoneTraffic, Map<Seq<char>, u64>),
        day: (PullZoneTraffic, Map<Seq<char>, u64>),
    ) -> bool {
        traffic_addable(total.0, day.0) && counts_addable(total.1, day.1)
    }

    /// Every counter keeps the larger of the two fetches, per region too; regions that
    /// only one of them has are kept.
    open spec fn merged(
        current: (PullZoneTraffic, Map<Seq<char>, u64>),
        snapshot: (PullZoneTraffic, Map<Seq<char>, u64>),
    ) -> (PullZoneTraffic, Map<Seq<char>, u64>) {
        (traffic_max(current.0, snapshot.0), max_counts(current.1, snapshot.1))
    }

    open spec fn zero() -> (PullZoneTraffic, Map<Seq<char>, u64>) {
        (no_traffic(), Map::empty())
    }

    proof fn lemma_merge_idempotent(current: (PullZoneTraffic, Map<Seq<char>, u64>), snapshot: (PullZoneTraffic, Map<Seq<char>, u64>)) {
        let m = Seq::new(
            10,
            |i: int| if traffic_values(current.0)[i] >= traffic_values(snapshot.0)[i] { traffic_values(current.0)[i] } else { traffic_values(snapshot.0)[i] },
        );
        lemma_traffic_values_of(m);
        let m2 = Seq::new(
            10,
            |i: int| if traffic_values(traffic_of(m))[i] >= traffic_values(snapshot.0)[i] { traffic_values(traffic_of(m))[i] } else { traffic_values(snapshot.0)[i] },
        );
        assert(m2 =~= m);
        lemma_max_counts_idempotent(current.1, snapshot.1);
    }

    proof fn lemma_merge_into_zero(snapshot: (PullZoneTraffic, Map<Seq<char>, u64>)) {
        let m = Seq::new(
            10,
            |i: int| if traffic_values(no_traffic())[i] >= traffic_values(snapshot.0)[i] { traffic_values(no_traffic())[i] } else { traffic_values(snapshot.0)[i] },
        );
        assert(m =~= traffic_values(snapshot.0));
        lemma_traffic_roundtrip(snapshot.0);
        assert(max_counts(Map::empty(), snapshot.1) =~= snapshot.1);
    }

    proof fn lemma_accumulate_zero(total: (PullZoneTraffic, Map<Seq<char>, u64>)) {
        let m = Seq::new(10, |i: int| (traffic_values(total.0)[i] + traffic_values(no_traffic())[i]) as u64);
        assert(m =~= traffic_values(total.0));
        lemma_traffic_roundtrip(total.0);
        lemma_summed_counts_empty(total.1);
    }

    proof fn lemma_accumulate_associative(a: (PullZoneTraffic, Map<Seq<char>, u64>), b: (PullZoneTraffic, Map<Seq<char>, u64>), c: (PullZoneTraffic, Map<Seq<char>, u64>)) {
        let (x, y, z) = (traffic_values(a.0), traffic_values(b.0), traffic_values(c.0));
        let ab = Seq::new(10, |i: int| (x[i] + y[i]) as u64);
        let bc = Seq::new(10, |i: int| (y[i] + z[i]) as u64);
        lemma_traffic_values_of(ab);
        lemma_traffic_values_of(bc);
        assert forall|i: int| 0 <= i < 10 implies #[trigger] y[i] + z[i] <= u64::MAX && x[i] + traffic_values(traffic_of(bc))[i] <= u64::MAX by {
            assert(x[i] + y[i] <= u64::MAX);
            assert(traffic_values(traffic_of(ab))[i] + z[i] <= u64::MAX);
        }
        assert forall|i: int| 0 <= i < 10 implies #[trigger] traffic_values(b.0)[i] + traffic_values(c.0)[i] <= u64::MAX by {
            assert(y[i] + z[i] <= u64::MAX);
        }
        assert forall|i: int| 0 <= i < 10 implies #[trigger] traffic_values(a.0)[i] + traffic_values(traffic_sum(b.0, c.0))[i] <= u64::MAX by {
            assert(x[i] + traffic_values(traffic_of(bc))[i] <= u64::MAX);
        }
        let left = Seq::new(10, |i: int| (traffic_values(traffic_of(ab))[i] + z[i]) as u64);
        let right = Seq::new(10, |i: int| (x[i] + traffic_values(traffic_of(bc))[i]) as u64);
        assert forall|i: int| 0 <= i < 10 implies #[trigger] left[i] == right[i] by {
            assert(traffic_values(traffic_of(ab))[i] + z[i] <= u64::MAX);
        }
        assert(left =~= right);
        lemma_summed_counts_associative(a.1, b.1, c.1);
    }

    fn accumulate(&mut self, day: Self) {
        let a = values_of(&self.traffic);
        let b = values_of(&day.traffic);
        let mut sums: Vec<u64> = Vec::new();
        let mut i: usize = 0;
        while i < 10
            invariant
                a@ == traffic_values(old(self).traffic),
                b@ == traffic_values(day.traffic),
                traffic_addable(old(self).traffic, day.traffic),
                i <= 10,
                sums@.len() == i,
                forall|j: int| 0 <= j < i ==> #[trigger] sums@[j] == a@[j] + b@[j],
            decreases 10 - i,
        {
            assert(a@[i as int] + b@[i as int] <= u64::MAX);
            sums.push(a[i] + b[i]);
            i = i + 1;
        }
        let ghost expected = Seq::new(10, |i: int| (traffic_values(old(self).traffic)[i] + traffic_values(day.traffic)[i]) as u64);
        assert(sums@ =~= expected);
        self.traffic = traffic_from(&sums);
        self.geo_traffic_distribution.add_counts(&day.geo_traffic_distribution);
    }

    fn merge_latest(&mut self, snapshot: Self) {
        let a = values_of(&self.traffic);
        let b = values_of(&snapshot.traffic);
        let mut larger: Vec<u64> = Vec::new();
        let mut i: usize = 0;
        while i < 10
            invariant
                a@ == traffic_values(old(self).traffic),
                b@ == traffic_values(snapshot.traffic),
                i <= 10,
                larger@.len() == i,
                forall|j: int| 0 <= j < i ==> #[trigger] larger@[j] == if a@[j] >= b@[j] { a@[j] } else { b@[j] },
            decreases 10 - i,
        {
            larger.push(if a[i] >= b[i] { a[i] } else { b[i] });
            i = i + 1;
        }
        let ghost expected = Seq::new(
            10,
            |i: int| if traffic_values(old(self).traffic)[i] >= traffic_values(snapshot.traffic)[i] { traffic_values(old(self).traffic)[i] } else { traffic_values(snapshot.traffic)[i] },
        );
        assert(larger@ =~= expected);
        self.traffic = traffic_from(&larger);
        self.geo_traffic_distribution.max_counts_with(&snapshot.geo_traffic_distribution);
    }

    fn empty() -> (r: Self) {
        PullZoneCounters { traffic: zero_traffic(), geo_traffic_distribution: Chart::new() }
    }

    fn can_add(&self, day: &Self) -> (r: bool) {
        let a = values_of(&self.traffic);
        let b = values_of(&day.traffic);
        let mut i: usize = 0;
        while i < 10
            invariant
                a@ == traffic_values(self.traffic),
                b@ == traffic_values(day.traffic),
                i <= 10,
                forall|j: int| 0 <= j < i ==> #[trigger] a@[j] + b@[j] <= u64::MAX,
            decreases 10 - i,
        {
            if a[i] > u64::MAX - b[i] {
                assert(!(traffic_values(self.traffic)[i as int] + traffic_values(day.traffic)[i as int] <= u64::MAX));
                return false;
            }
            i = i + 1;
        }
        counts_fit(&self.geo_traffic_distribution, &day.geo_traffic_distribution)
    }
}

impl PullZoneKind {
    /// The counters of a day, taken from the zone's statistics for that day: each
    /// counter chart must hold exactly the entry of the date; the traffic per region is
    /// taken as it comes. Where a chart does not, the error of the first such chart.
    pub fn counters_from_stats(stats: PullZoneTrafficStats, date: &Date, allow_missing: bool) -> (r: Result<
        PullZoneCounters,
        FieldError,
    >)
        ensures
            r is Ok <==> forall|i: int| 0 <= i < 10 ==> exact_found(#[trigger] traffic_charts(stats)[i].1.pairs(), date.text(), allow_missing),
            r matches Ok(d) ==> d.geo_traffic_distribution@ == stats.geo_traffic_distribution@ && forall|i: int|
                0 <= i < 10 ==> exact_lookup(#[trigger] traffic_charts(stats)[i].1.pairs(), date.text(), allow_missing, Ok(traffic_values(d.traffic)[i])),
            r matches Err(e) ==> exists|i: int| {
                &&& 0 <= i < 10
                &&& (forall|j: int| 0 <= j < i ==> exact_found(#[trigger] traffic_charts(stats)[j].1.pairs(), date.text(), allow_missing))
                &&& e.field == traffic_charts(stats)[i].0
                &&& exact_lookup(traffic_charts(stats)[i].1.pairs(), date.text(), allow_missing, Err(e.error))
            },
    {
        let charts: [(&'static str, &Chart<u64>); 10] = [
            ("bandwidth_used", &stats.bandwidth_used_chart),
            ("bandwidth_cached", &stats.bandwidth_cached_chart),
            ("requests_served", &stats.requests_served_chart),
            ("pull_requests_pulled", &stats.pull_requests_pulled_chart),
            ("origin_shield_bandwidth_used", &stats.origin_shield_bandwidth_used_chart),
            ("origin_shield_internal_bandwidth_used", &stats.origin_shield_internal_bandwidth_used_chart),
            ("origin_traffic", &stats.origin_traffic_chart),
            ("errors_3xx", &stats.errors_3xx_chart),
            ("errors_4xx", &stats.errors_4xx_chart),
            ("errors_5xx", &stats.errors_5xx_chart),
        ];
        let ghost cs = traffic_charts(stats);
        assert forall|j: int| 0 <= j < 10 implies (#[trigger] charts@[j]).0 == cs[j].0 && *charts@[j].1 == cs[j].1 by {}
        let mut values: Vec<u64> = Vec::new();
        let mut i: usize = 0;
        while i < 10
            invariant
                cs == traffic_charts(stats),
                forall|j: int| 0 <= j < 10 ==> (#[trigger] charts@[j]).0 == cs[j].0 && *charts@[j].1 == cs[j].1,
                i <= 10,
                values@.len() == i,
                forall|j: int| 0 <= j < i ==> exact_lookup(#[trigger] cs[j].1.pairs(), date.text(), allow_missing, Ok(values@[j])),
                forall|j: int| 0 <= j < i ==> exact_found(#[trigger] cs[j].1.pairs(), date.text(), allow_missing),
            decreases 10 - i,
        {
            let (field, chart) = charts[i];
            match find_chart_value_for_date(chart, date, allow_missing) {
                Ok(v) => {
                    values.push(v);
                },
                Err(error) => {
                    proof {
                        assert(!exact_found(cs[i as int].1.pairs(), date.text(), allow_missing));
                    }
                    return Err(FieldError { field, error });
                },
            }
            i = i + 1;
        }
        let traffic = traffic_from(&values);
        proof {
            lemma_traffic_values_of(values@);
        }
        Ok(PullZoneCounters { traffic, geo_traffic_distribution: stats.geo_traffic_distribution })
    }

    /// The counters of a range of days: every counter is the sum of its chart; the
    /// traffic per region is taken as it comes.
    pub fn counters_range_from_stats(stats: PullZoneTrafficStats) -> (r: PullZoneCounters)
        requires
            forall|i: int| 0 <= i < 10 ==> values_total(#[trigger] traffic_charts(stats)[i].1.pairs()) <= u64::MAX,
        ensures
            r.geo_traffic_distribution@ == stats.geo_traffic_distribution@,
            forall|i: int| 0 <= i < 10 ==> #[trigger] traffic_values(r.traffic)[i] == values_total(traffic_charts(stats)[i].1.pairs()),
    {
        let charts: [&Chart<u64>; 10] = [
            &stats.bandwidth_used_chart,
            &stats.bandwidth_cached_chart,
            &stats.requests_served_chart,
            &stats.pull_requests_pulled_chart,
            &stats.origin_shield_bandwidth_used_chart,
            &stats.origin_shield_internal_bandwidth_used_chart,
            &stats.origin_traffic_chart,
            &stats.errors_3xx_chart,
            &stats.errors_4xx_chart,
            &stats.errors_5xx_chart,
        ];
        let ghost cs = traffic_charts(stats);
        assert forall|j: int| 0 <= j < 10 implies *(#[trigger] charts@[j]) == cs[j].1 by {}
        let mut values: Vec<u64> = Vec::new();
        let mut i: usize = 0;
        while i < 10
            invariant
                cs == traffic_charts(stats),
                forall|j: int| 0 <= j < 10 ==> *(#[trigger] charts@[j]) == cs[j].1,
                forall|j: int| 0 <= j < 10 ==> values_total(#[trigger] cs[j].1.pairs()) <= u64::MAX,
                i <= 10,
                values@.len() == i,
                forall|j: int| 0 <= j < i ==> #[trigger] values@[j] == values_total(cs[j].1.pairs()),
            decreases 10 - i,
        {
            assert(values_total(cs[i as int].1.pairs()) <= u64::MAX);
            values.push(sum_chart_values(charts[i]));
            i = i + 1;
        }
        let traffic = traffic_from(&values);
        proof {
            lemma_traffic_values_of(values@);
        }
        PullZoneCounters { traffic, geo_traffic_distribution: stats.geo_traffic_distribution }
    }

    /// Whether every counter chart sums to a value that fits in `u64`.
    pub fn counters_range_fits(stats: &PullZoneTrafficStats) -> (r: bool)
        ensures
            r == forall|i: int| 0 <= i < 10 ==> values_total(#[trigger] traffic_charts(*stats)[i].1.pairs()) <= u64::MAX,
    {
        let charts: [&Chart<u64>; 10] = [
            &stats.bandwidth_used_chart,
            &stats.bandwidth_cached_chart,
            &stats.requests_served_chart,
            &stats.pull_requests_pulled_chart,
            &stats.origin_shield_bandwidth_used_chart,
            &stats.origin_shield_internal_bandwidth_used_chart,
            &stats.origin_traffic_chart,
            &stats.errors_3xx_chart,
            &stats.errors_4xx_chart,
            &stats.errors_5xx_chart,
        ];
        let ghost cs = traffic_charts(*stats);
        assert forall|j: int| 0 <= j < 10 implies *(#[trigger] charts@[j]) == cs[j].1 by {}
        let mut i: usize = 0;
        while i < 10
            invariant
                cs == traffic_charts(*stats),
                forall|j: int| 0 <= j < 10 ==> *(#[trigger] charts@[j]) == cs[j].1,
                i <= 10,
                forall|j: int| 0 <= j < i ==> values_total(#[trigger] cs[j].1.pairs()) <= u64::MAX,
            decreases 10 - i,
        {
            if !crate::chart::total_fits(charts[i]) {
                return false;
            }
            i = i + 1;
        }
        true
    }
}

/// Adding a day adds each of the ten traffic counters on its own, and the traffic of each
/// region, and can be done exactly when none leaves `u64`; data on which nothing was
/// counted has every counter at zero and no region.
pub proof fn lemma_pull_zone_accumulate_adds_each_counter(t: (PullZoneTraffic, Map<Seq<char>, u64>), d: (PullZoneTraffic, Map<Seq<char>, u64>))
    ensures
        <PullZoneCounters as DayData>::can_accumulate(t, d) <==> (t.0.bandwidth_used + d.0.bandwidth_used <= u64::MAX && t.0.bandwidth_cached + d.0.bandwidth_cached <= u64::MAX && t.0.requests_served + d.0.requests_served <= u64::MAX && t.0.pull_requests_pulled + d.0.pull_requests_pulled <= u64::MAX && t.0.origin_shield_bandwidth_used + d.0.origin_shield_bandwidth_used <= u64::MAX && t.0.origin_shield_internal_bandwidth_used + d.0.origin_shield_internal_bandwidth_used <= u64::MAX && t.0.origin_traffic + d.0.origin_traffic <= u64::MAX && t.0.errors_3xx + d.0.errors_3xx <= u64::MAX && t.0.errors_4xx + d.0.errors_4xx <= u64::MAX && t.0.errors_5xx + d.0.errors_5xx <= u64::MAX && counts_addable(t.1, d.1)),
        <PullZoneCounters as DayData>::can_accumulate(t, d) ==> <PullZoneCounters as DayData>::accumulated(t, d).0.bandwidth_used == t.0.bandwidth_used + d.0.bandwidth_used,
        <PullZoneCounters as DayData>::can_accumulate(t, d) ==> <PullZoneCounters as DayData>::accumulated(t, d).0.bandwidth_cached == t.0.bandwidth_cached + d.0.bandwidth_cached,
        <PullZoneCounters as DayData>::can_accumulate(t, d) ==> <PullZoneCounters as DayData>::accumulated(t, d).0.requests_served == t.0.requests_served + d.0.requests_served,
        <PullZoneCounters as DayData>::can_accumulate(t, d) ==> <PullZoneCounters as DayData>::accumulated(t, d).0.pull_requests_pulled == t.0.pull_requests_pulled + d.0.pull_requests_pulled,
        <PullZoneCounters as DayData>::can_accumulate(t, d) ==> <PullZoneCounters as DayData>::accumulated(t, d).0.origin_shield_bandwidth_used == t.0.origin_shield_bandwidth_used + d.0.origin_shield_bandwidth_used,
        <PullZoneCounters as DayData>::can_accumulate(t, d) ==> <PullZoneCounters as DayData>::accumulated(t, d).0.origin_shield_internal_bandwidth_used == t.0.origin_shield_internal_bandwidth_used + d.0.origin_shield_internal_bandwidth_used,
        <PullZoneCounters as DayData>::can_accumulate(t, d) ==> <PullZoneCounters as DayData>::accumulated(t, d).0.origin_traffic == t.0.origin_traffic + d.0.origin_traffic,
        <PullZoneCounters as DayData>::can_accumulate(t, d) ==> <PullZoneCounters as DayData>::accumulated(t, d).0.errors_3xx == t.0.errors_3xx + d.0.errors_3xx,
        <PullZoneCounters as DayData>::can_accumulate(t, d) ==> <PullZoneCounters as DayData>::accumulated(t, d).0.errors_4xx == t.0.errors_4xx + d.0.errors_4xx,
        <PullZoneCounters as DayData>::can_accumulate(t, d) ==> <PullZoneCounters as DayData>::accumulated(t, d).0.errors_5xx == t.0.errors_5xx + d.0.errors_5xx,
        <PullZoneCounters as DayData>::can_accumulate(t, d) ==> is_keywise_sum(t.1, d.1, <PullZoneCounters as DayData>::accumulated(t, d).1),
        <PullZoneCounters as DayData>::zero().0.bandwidth_used == 0,
        <PullZoneCounters as DayData>::zero().0.bandwidth_cached == 0,
        <PullZoneCounters as DayData>::zero().0.requests_served == 0,
        <PullZoneCounters as DayData>::zero().0.pull_requests_pulled == 0,
        <PullZoneCounters as DayData>::zero().0.origin_shield_bandwidth_used == 0,
        <PullZoneCounters as DayData>::zero().0.origin_shield_internal_bandwidth_used == 0,
        <PullZoneCounters as DayData>::zero().0.origin_traffic == 0,
        <PullZoneCounters as DayData>::zero().0.errors_3xx == 0,
        <PullZoneCounters as DayData>::zero().0.errors_4xx == 0,
        <PullZoneCounters as DayData>::zero().0.errors_5xx == 0,
        <PullZoneCounters as DayData>::zero().1 == Map::<Seq<char>, u64>::empty(),
{
    let (x, y) = (traffic_values(t.0), traffic_values(d.0));
    if <PullZoneCounters as DayData>::can_accumulate(t, d) {
        lemma_summed_counts_is_keywise_sum(t.1, d.1);
        let v = Seq::new(10, |i: int| (x[i] + y[i]) as u64);
        lemma_traffic_values_of(v);
        assert forall|i: int| 0 <= i < 10 implies #[trigger] v[i] == x[i] + y[i] by {
            assert(x[i] + y[i] <= u64::MAX);
        }
        assert(traffic_values(<PullZoneCounters as DayData>::accumulated(t, d).0) == v);
    } else {
        if t.0.bandwidth_used + d.0.bandwidth_used <= u64::MAX && t.0.bandwidth_cached + d.0.bandwidth_cached <= u64::MAX && t.0.requests_served + d.0.requests_served <= u64::MAX && t.0.pull_requests_pulled + d.0.pull_requests_pulled <= u64::MAX && t.0.origin_shield_bandwidth_used + d.0.origin_shield_bandwidth_used <= u64::MAX && t.0.origin_shield_internal_bandwidth_used + d.0.origin_shield_internal_bandwidth_used <= u64::MAX && t.0.origin_traffic + d.0.origin_traffic <= u64::MAX && t.0.errors_3xx + d.0.errors_3xx <= u64::MAX && t.0.errors_4xx + d.0.errors_4xx <= u64::MAX && t.0.errors_5xx + d.0.errors_5xx <= u64::MAX && counts_addable(t.1, d.1) {
            assert forall|i: int| 0 <= i < 10 implies #[trigger] x[i] + y[i] <= u64::MAX by {}
        }
    }
}

/// Folding in a newer fetch keeps, for each of the ten traffic counters and each region,
/// the larger of the two values, so no counter goes down.
pub proof fn lemma_pull_zone_merge_keeps_larger(c: (PullZoneTraffic, Map<Seq<char>, u64>), s: (PullZoneTraffic, Map<Seq<char>, u64>))
    ensures
        <PullZoneCounters as DayData>::merged(c, s).0.bandwidth_used >= c.0.bandwidth_used && <PullZoneCounters as DayData>::merged(c, s).0.bandwidth_used >= s.0.bandwidth_used,
        <PullZoneCounters as DayData>::merged(c, s).0.bandwidth_used == c.0.bandwidth_used || <PullZoneCounters as DayData>::merged(c, s).0.bandwidth_used == s.0.bandwidth_used,
        <PullZoneCounters as DayData>::merged(c, s).0.bandwidth_cached >= c.0.bandwidth_cached && <PullZoneCounters as DayData>::merged(c, s).0.bandwidth_cached >= s.0.bandwidth_cached,
        <PullZoneCounters as DayData>::merged(c, s).0.bandwidth_cached == c.0.bandwidth_cached || <PullZoneCounters as DayData>::merged(c, s).0.bandwidth_cached == s.0.bandwidth_cached,
        <PullZoneCounters as DayData>::merged(c, s).0.requests_served >= c.0.requests_served && <PullZoneCounters as DayData>::merged(c, s).0.requests_served >= s.0.requests_served,
        <PullZoneCounters as DayData>::merged(c, s).0.requests_served == c.0.requests_served || <PullZoneCounters as DayData>::merged(c, s).0.requests_served == s.0.requests_served,
        <PullZoneCounters as DayData>::merged(c, s).0.pull_requests_pulled >= c.0.pull_requests_pulled && <PullZoneCounters as DayData>::merged(c, s).0.pull_requests_pulled >= s.0.pull_requests_pulled,
        <PullZoneCounters as DayData>::merged(c, s).0.pull_requests_pulled == c.0.pull_requests_pulled || <PullZoneCounters as DayData>::merged(c, s).0.pull_requests_pulled == s.0.pull_requests_pulled,
        <PullZoneCounters as DayData>::merged(c, s).0.origin_shield_bandwidth_used >= c.0.origin_shield_bandwidth_used && <PullZoneCounters as DayData>::merged(c, s).0.origin_shield_bandwidth_used >= s.0.origin_shield_bandwidth_used,
        <PullZoneCounters as DayData>::merged(c, s).0.origin_shield_bandwidth_used == c.0.origin_shield_bandwidth_used || <PullZoneCounters as DayData>::merged(c, s).0.origin_shield_bandwidth_used == s.0.origin_shield_bandwidth_used,
        <PullZoneCounters as DayData>::merged(c, s).0.origin_shield_internal_bandwidth_used >= c.0.origin_shield_internal_bandwidth_used && <PullZoneCounters as DayData>::merged(c, s).0.origin_shield_internal_bandwidth_used >= s.0.origin_shield_internal_bandwidth_used,
        <PullZoneCounters as DayData>::merged(c, s).0.origin_shield_internal_bandwidth_used == c.0.origin_shield_internal_bandwidth_used || <PullZoneCounters as DayData>::merged(c, s).0.origin_shield_internal_bandwidth_used == s.0.origin_shield_internal_bandwidth_used,
        <PullZoneCounters as DayData>::merged(c, s).0.origin_traffic >= c.0.origin_traffic && <PullZoneCounters as DayData>::merged(c, s).0.origin_traffic >= s.0.origin_traffic,
        <PullZoneCounters as DayData>::merged(c, s).0.origin_traffic == c.0.origin_traffic || <PullZoneCounters as DayData>::merged(c, s).0.origin_traffic == s.0.origin_traffic,
        <PullZoneCounters as DayData>::merged(c, s).0.errors_3xx >= c.0.errors_3xx && <PullZoneCounters as DayData>::merged(c, s).0.errors_3xx >= s.0.errors_3xx,
        <PullZoneCounters as DayData>::merged(c, s).0.errors_3xx == c.0.errors_3xx || <PullZoneCounters as DayData>::merged(c, s).0.errors_3xx == s.0.errors_3xx,
        <PullZoneCounters as DayData>::merged(c, s).0.errors_4xx >= c.0.errors_4xx && <PullZoneCounters as DayData>::merged(c, s).0.errors_4xx >= s.0.errors_4xx,
        <PullZoneCounters as DayData>::merged(c, s).0.errors_4xx == c.0.errors_4xx || <PullZoneCounters as DayData>::merged(c, s).0.errors_4xx == s.0.errors_4xx,
        <PullZoneCounters as DayData>::merged(c, s).0.errors_5xx >= c.0.errors_5xx && <PullZoneCounters as DayData>::merged(c, s).0.errors_5xx >= s.0.errors_5xx,
        <PullZoneCounters as DayData>::merged(c, s).0.errors_5xx == c.0.errors_5xx || <PullZoneCounters as DayData>::merged(c, s).0.errors_5xx == s.0.errors_5xx,
        is_keywise_max(c.1, s.1, <PullZoneCounters as DayData>::merged(c, s).1),
{
    lemma_max_counts_is_keywise_max(c.1, s.1);
    let (x, y) = (traffic_values(c.0), traffic_values(s.0));
    let v = Seq::new(10, |i: int| if x[i] >= y[i] { x[i] } else { y[i] });
    lemma_traffic_values_of(v);
    assert(traffic_values(<PullZoneCounters as DayData>::merged(c, s).0) == v);
}

/// Each traffic counter is taken from the chart of its own name: the position named
/// `bandwidth_used` pairs the `bandwidth_used_chart` with the `bandwidth_used` counter,
/// and so on for all ten; every name occurs once.
pub proof fn lemma_traffic_counters_named_by_chart(s: PullZoneTrafficStats, t: PullZoneTraffic)
    ensures
        traffic_charts(s).len() == 10,
        traffic_values(t).len() == 10,
        forall|i: int| 0 <= i < 10 ==> (traffic_charts(s)[i].0 == "bandwidth_used" ==> traffic_charts(s)[i].1 == s.bandwidth_used_chart && traffic_values(t)[i] == t.bandwidth_used) && (traffic_charts(s)[i].0 == "bandwidth_cached" ==> traffic_charts(s)[i].1 == s.bandwidth_cached_chart && traffic_values(t)[i] == t.bandwidth_cached) && (traffic_charts(s)[i].0 == "requests_served" ==> traffic_charts(s)[i].1 == s.requests_served_chart && traffic_values(t)[i] == t.requests_served) && (traffic_charts(s)[i].0 == "pull_requests_pulled" ==> traffic_charts(s)[i].1 == s.pull_requests_pulled_chart && traffic_values(t)[i] == t.pull_requests_pulled) && (traffic_charts(s)[i].0 == "origin_shield_bandwidth_used" ==> traffic_charts(s)[i].1 == s.origin_shield_bandwidth_used_chart && traffic_values(t)[i] == t.origin_shield_bandwidth_used) && (traffic_charts(s)[i].0 == "origin_shield_internal_bandwidth_used" ==> traffic_charts(s)[i].1 == s.origin_shield_internal_bandwidth_used_chart && traffic_values(t)[i] == t.origin_shield_internal_bandwidth_used) && (traffic_charts(s)[i].0 == "origin_traffic" ==> traffic_charts(s)[i].1 == s.origin_traffic_chart && traffic_values(t)[i] == t.origin_traffic) && (traffic_charts(s)[i].0 == "errors_3xx" ==> traffic_charts(s)[i].1 == s.errors_3xx_chart && traffic_values(t)[i] == t.errors_3xx) && (traffic_charts(s)[i].0 == "errors_4xx" ==> traffic_charts(s)[i].1 == s.errors_4xx_chart && traffic_values(t)[i] == t.errors_4xx) && (traffic_charts(s)[i].0 == "errors_5xx" ==> traffic_charts(s)[i].1 == s.errors_5xx_chart && traffic_values(t)[i] == t.errors_5xx),
        forall|i: int, j: int| 0 <= i < j < 10 ==> #[trigger] traffic_charts(s)[i].0 != #[trigger] traffic_charts(s)[j].0,
        exists|i: int| 0 <= i < 10 && #[trigger] traffic_charts(s)[i].0 == "bandwidth_used",
        exists|i: int| 0 <= i < 10 && #[trigger] traffic_charts(s)[i].0 == "bandwidth_cached",
        exists|i: int| 0 <= i < 10 && #[trigger] traffic_charts(s)[i].0 == "requests_served",
        exists|i: int| 0 <= i < 10 && #[trigger] traffic_charts(s)[i].0 == "pull_requests_pulled",
        exists|i: int| 0 <= i < 10 && #[trigger] traffic_charts(s)[i].0 == "origin_shield_bandwidth_used",
        exists|i: int| 0 <= i < 10 && #[trigger] traffic_charts(s)[i].0 == "origin_shield_internal_bandwidth_used",
        exists|i: int| 0 <= i < 10 && #[trigger] traffic_charts(s)[i].0 == "origin_traffic",
        exists|i: int| 0 <= i < 10 && #[trigger] traffic_charts(s)[i].0 == "errors_3xx",
        exists|i: int| 0 <= i < 10 && #[trigger] traffic_charts(s)[i].0 == "errors_4xx",
        exists|i: int| 0 <= i < 10 && #[trigger] traffic_charts(s)[i].0 == "errors_5xx",
{
    assert(traffic_charts(s)[0].0 == "bandwidth_used");
    assert(traffic_charts(s)[1].0 == "bandwidth_cached");
    assert(traffic_charts(s)[2].0 == "requests_served");
    assert(traffic_charts(s)[3].0 == "pull_requests_pulled");
    assert(traffic_charts(s)[4].0 == "origin_shield_bandwidth_used");
    assert(traffic_charts(s)[5].0 == "origin_shield_internal_bandwidth_used");
    assert(traffic_charts(s)[6].0 == "origin_traffic");
    assert(traffic_charts(s)[7].0 == "errors_3xx");
    assert(traffic_charts(s)[8].0 == "errors_4xx");
    assert(traffic_charts(s)[9].0 == "errors_5xx");
}

} // verus!
