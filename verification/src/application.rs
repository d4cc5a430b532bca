use vstd::prelude::*;

use crate::bunny::Application;
use crate::chart::{
    Chart, exact_found, exact_lookup, find_chart_value_for_date, has_key, lemma_pairs_map_at, KeyedError,
};
use crate::date::Date;

use crate::entity_stats::{DayData, EntityType};

verus! {

/// The Magic Containers category: per application, latency, regions, instances,
/// processor and memory use, traffic and per-volume usage and capacity.
pub struct ApplicationKind;

impl EntityType for ApplicationKind {
    type Entity = Application;

    /// An application is known by its id.
    open spec fn id_of(entity: &Application) -> Seq<char> {
        entity.id@
    }

    /// An application is labelled by its name.
    open spec fn label_of(entity: &Application) -> Seq<char> {
        entity.name@
    }

    fn entity_id(entity: &Application) -> (r: String) {
        entity.id.clone()
    }

    fn entity_label(entity: &Application) -> (r: String) {
        entity.name.clone()
    }
}

/// Every series of a chart of series yields its one value for the date.
pub open spec fn all_series_found<V>(chart: Chart<Chart<V>>, text: Seq<char>, allow_missing: bool) -> bool {
    forall|i: int| 0 <= i < chart.pairs().len() ==> exact_found(#[trigger] chart.pairs()[i].1.pairs(), text, allow_missing)
}

/// `values` holds, for every series of the chart, the one value that the series yields
/// for the date, and no other key.
pub open spec fn series_values<V: Default>(chart: Chart<Chart<V>>, text: Seq<char>, allow_missing: bool, values: Map<Seq<char>, V>) -> bool {
    &&& values.dom() == chart@.dom()
    &&& forall|k: Seq<char>| #[trigger] chart@.contains_key(k) ==> exact_lookup(chart@[k].pairs(), text, allow_missing, Ok(values[k]))
}

/// Every series of a chart of series (one per volume) taken for a date: each series must
/// hold exactly the entry of that date; where one does not, the error of the first such
/// series.
pub fn extract_volume_chart_for_date<V: Copy + Default>(chart: &Chart<Chart<V>>, date: &Date, allow_missing: bool) -> (r: Result<
    Chart<V>,
    KeyedError,
>)
    ensures
        r is Ok <==> all_series_found(*chart, date.text(), allow_missing),
        r matches Ok(values) ==> series_values(*chart, date.text(), allow_missing, values@),
        r matches Err(e) ==> exists|i: int| {
            &&& 0 <= i < chart.pairs().len()
            &&& (forall|j: int| 0 <= j < i ==> exact_found(#[trigger] chart.pairs()[j].1.pairs(), date.text(), allow_missing))
            &&& e.key@ == chart.pairs()[i].0
            &&& exact_lookup(chart.pairs()[i].1.pairs(), date.text(), allow_missing, Err(e.error))
        },
{
    proof {
        use_type_invariant(chart);
    }
    let n = chart.len();
    let mut values: Chart<V> = Chart::new();
    let mut i: usize = 0;
    while i < n
        invariant
            n == chart.pairs().len(),
            i <= n,
            crate::chart::distinct_keys(chart.pairs()),
            forall|k: Seq<char>| #[trigger] values@.contains_key(k) <==> has_key(chart.pairs().take(i as int), k),
            forall|j: int| 0 <= j < i ==> exact_found(#[trigger] chart.pairs()[j].1.pairs(), date.text(), allow_missing),
            forall|j: int| 0 <= j < i ==> exact_lookup(#[trigger] chart.pairs()[j].1.pairs(), date.text(), allow_missing, Ok(values@[chart.pairs()[j].0])),
        decreases n - i,
    {
        let key = chart.key_at(i);
        match find_chart_value_for_date(chart.value_at(i), date, allow_missing) {
            Ok(v) => {
                let ghost before = values@;
                values.insert(key.clone(), v);
                proof {
                    assert forall|j: int| 0 <= j < i implies chart.pairs()[j].0 != key@ by {
                        assert(chart.pairs()[j].0 != chart.pairs()[i as int].0);
                    }
                    assert forall|k: Seq<char>| #[trigger] values@.contains_key(k) <==> has_key(chart.pairs().take(i + 1), k) by {
                        let t1 = chart.pairs().take(i + 1);
                        let t0 = chart.pairs().take(i as int);
                        if has_key(t1, k) {
                            let j = choose|j: int| 0 <= j < t1.len() && #[trigger] t1[j].0 == k;
                            if j < i {
                                assert(t0[j].0 == k);
                            }
                        }
                        if before.contains_key(k) {
                            let j = choose|j: int| 0 <= j < t0.len() && #[trigger] t0[j].0 == k;
                            assert(t1[j].0 == k);
                        }
                        if k == key@ {
                            assert(t1[i as int].0 == k);
                        }
                    }
                }
            },
            Err(error) => {
                let k = key.clone();
                proof {
                    let inner = chart.pairs()[i as int].1;
                    assert(!exact_found(inner.pairs(), date.text(), allow_missing));
                    assert(!all_series_found(*chart, date.text(), allow_missing));
                }
                return Err(KeyedError { key: k, error });
            },
        }
        i = i + 1;
    }
    proof {
        assert(chart.pairs().take(n as int) =~= chart.pairs());
        assert forall|k: Seq<char>| #[trigger] chart@.contains_key(k) implies exact_lookup(chart@[k].pairs(), date.text(), allow_missing, Ok(values@[k])) by {
            let j = choose|j: int| 0 <= j < chart.pairs().len() && chart.pairs()[j].0 == k;
            lemma_pairs_map_at(chart.pairs(), j);
        }
        assert(values@.dom() =~= chart@.dom());
    }
    Ok(values)
}

/// An application's counter: traffic.
#[derive(Clone, Copy, Debug, PartialEq, Eq, Structural)]
pub struct ApplicationCounters {
    pub traffic: u64,
}

impl View for ApplicationCounters {
    type V = ApplicationCounters;

    open spec fn view(&self) -> ApplicationCounters {
        *self
    }
}

impl Default for ApplicationCounters {
    fn default() -> (r: Self)
        ensures
            r == (ApplicationCounters { traffic: 0 }),
    {
        ApplicationCounters { traffic: 0 }
    }
}

impl DayData for ApplicationCounters {
    /// The traffic adds up.
    open spec fn accumulated(total: ApplicationCounters, day: ApplicationCounters) -> ApplicationCounters {
        ApplicationCounters { traffic: (total.traffic + day.traffic) as u64 }
    }

    open spec fn can_accumulate(total: ApplicationCounters, day: ApplicationCounters) -> bool {
        total.traffic + day.traffic <= u64::MAX
    }

    /// The traffic keeps the larger of the two fetches.
    open spec fn merged(current: ApplicationCounters, snapshot: ApplicationCounters) -> ApplicationCounters {
        ApplicationCounters {
            traffic: if current.traffic >= snapshot.traffic {
                current.traffic
            } else {
                snapshot.traffic
            },
        }
    }

    open spec fn zero() -> ApplicationCounters {
        ApplicationCounters { traffic: 0 }
    }

    proof fn lemma_merge_idempotent(current: ApplicationCounters, snapshot: ApplicationCounters) {
    }

    proof fn lemma_merge_into_zero(snapshot: ApplicationCounters) {
    }

    proof fn lemma_accumulate_zero(total: ApplicationCounters) {
    }

    proof fn lemma_accumulate_associative(a: ApplicationCounters, b: ApplicationCounters, c: ApplicationCounters) {
    }

    fn accumulate(&mut self, day: Self) {
        self.traffic = self.traffic + day.traffic;
    }

    fn merge_latest(&mut self, snapshot: Self) {
        if snapshot.traffic > self.traffic {
            self.traffic = snapshot.traffic;
        }
    }

    fn empty() -> (r: Self) {
        ApplicationCounters { traffic: 0 }
    }

    fn can_add(&self, day: &Self) -> (r: bool) {
        self.traffic <= u64::MAX - day.traffic
    }
}


/// Adding a day adds each counter on its own, and can be done exactly when no counter
/// leaves `u64`; data on which nothing was counted has every counter at zero.
pub proof fn lemma_application_accumulate_adds_each_counter(t: ApplicationCounters, d: ApplicationCounters)
    ensures
        <ApplicationCounters as DayData>::can_accumulate(t, d) <==> (t.traffic + d.traffic <= u64::MAX),
        <ApplicationCounters as DayData>::can_accumulate(t, d) ==> <ApplicationCounters as DayData>::accumulated(t, d).traffic == t.traffic + d.traffic,
        <ApplicationCounters as DayData>::zero().traffic == 0,
{
}

/// Folding in a newer fetch of the day keeps, for each counter, the larger of the two
/// values, so no counter goes down.
pub proof fn lemma_application_merge_keeps_larger(c: ApplicationCounters, s: ApplicationCounters)
    ensures
        <ApplicationCounters as DayData>::merged(c, s).traffic >= c.traffic,
        <ApplicationCounters as DayData>::merged(c, s).traffic >= s.traffic,
        <ApplicationCounters as DayData>::merged(c, s).traffic == c.traffic || <ApplicationCounters as DayData>::merged(c, s).traffic == s.traffic,
{
}

} // verus!
