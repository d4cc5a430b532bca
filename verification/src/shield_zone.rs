use vstd::prelude::*;

use crate::bunny::{ShieldCategoryMetrics, ShieldMetrics, ShieldZone};
use crate::chart::{
    is_keywise_max, is_keywise_sum, lemma_max_counts_is_keywise_max, lemma_summed_counts_is_keywise_sum,
    Chart, count_of, counts_addable, counts_fit, find_chart_value_for_date_lenient, has_key, prefix_found, lemma_pairs_map_at,
    lemma_max_counts_idempotent, lemma_summed_counts_associative, lemma_summed_counts_empty, max_counts,
    none_with_prefix, prefix_lookup, summed_counts, sum_chart_values_in_range, window_total,
    window_total_fits, ChartError, KeyedError, pairs_map,
};
use crate::date::Date;
use crate::entity_stats::{DayData, EntityType};
use crate::text::{decimal, decimal_text};

verus! {

/// A shield category whose charts could not be taken for a date.
#[derive(Debug)]
pub struct CategoryError {
    pub category: &'static str,
    pub failure: KeyedError,
}

/// The count maps of a chart of charts.
pub open spec fn nested(m: Map<Seq<char>, Chart<u64>>) -> Map<Seq<char>, Map<Seq<char>, u64>> {
    m.map_values(|c: Chart<u64>| c@)
}

/// The count map that a map of count maps holds for a key, empty where it holds none.
pub open spec fn inner_of(m: Map<Seq<char>, Map<Seq<char>, u64>>, k: Seq<char>) -> Map<Seq<char>, u64> {
    if m.contains_key(k) {
        m[k]
    } else {
        Map::empty()
    }
}

/// Per category, the counts can be added without leaving `u64`.
pub open spec fn categories_addable(
    a: Map<Seq<char>, Map<Seq<char>, u64>>,
    b: Map<Seq<char>, Map<Seq<char>, u64>>,
) -> bool {
    forall|k: Seq<char>| counts_addable(#[trigger] inner_of(a, k), inner_of(b, k))
}

/// The category-wise, then action-wise sum of two maps of count maps.
pub open spec fn summed_categories(
    a: Map<Seq<char>, Map<Seq<char>, u64>>,
    b: Map<Seq<char>, Map<Seq<char>, u64>>,
) -> Map<Seq<char>, Map<Seq<char>, u64>> {
    Map::new(
        |k: Seq<char>| a.contains_key(k) || b.contains_key(k),
        |k: Seq<char>| summed_counts(inner_of(a, k), inner_of(b, k)),
    )
}

/// The category-wise, then action-wise maximum of two maps of count maps.
pub open spec fn max_categories(
    a: Map<Seq<char>, Map<Seq<char>, u64>>,
    b: Map<Seq<char>, Map<Seq<char>, u64>>,
) -> Map<Seq<char>, Map<Seq<char>, u64>> {
    Map::new(
        |k: Seq<char>| a.contains_key(k) || b.contains_key(k),
        |k: Seq<char>| max_counts(inner_of(a, k), inner_of(b, k)),
    )
}

proof fn lemma_summed_empty(a: Map<Seq<char>, u64>)
    ensures
        summed_counts(a, Map::empty()) =~= a,
        max_counts(a, Map::empty()) =~= a,
{
}

/// The shield zone category: per shield zone, requests per category and action, and
/// the request limit and billable requests of the month.
pub struct ShieldZoneKind;

impl EntityType for ShieldZoneKind {
    type Entity = ShieldZone;

    /// A shield zone is known by its numeric id, written in decimal.
    open spec fn id_of(entity: &ShieldZone) -> Seq<char> {
        decimal_text(entity.shield_zone_id as nat)
    }

    /// A shield zone is labelled by the id of the pull zone it guards, written in
    /// decimal, and by the empty text where it guards none.
    open spec fn label_of(entity: &ShieldZone) -> Seq<char> {
        match entity.pull_zone_id {
            Some(id) => decimal_text(id as nat),
            None => Seq::empty(),
        }
    }

    fn entity_id(entity: &ShieldZone) -> (r: String) {
        decimal(entity.shield_zone_id)
    }

    fn entity_label(entity: &ShieldZone) -> (r: String) {
        match entity.pull_zone_id {
            Some(id) => decimal(id),
            None => String::new(),
        }
    }
}

impl ShieldZoneKind {
    /// The data of a day, taken from the zone's metrics: every category's actions
    /// taken for the date, and the two monthly gauges as given.
    pub fn day_from_metrics(metrics: &ShieldMetrics, date: &Date, allow_missing: bool) -> (r: Result<
        ShieldZoneDayData,
        CategoryError,
    >)
        ensures
            r matches Ok(d) ==> d.total_clean_requests_limit == metrics.total_clean_requests_limit
                && d.total_billable_requests_this_month == metrics.total_billable_requests_this_month
                && forall|i: int| 0 <= i < 7 ==> {
                    let (name, cat) = #[trigger] category_list(*metrics)[i];
                    &&& d.categories@.contains_key(name@)
                    &&& extracted(cat, date.text(), allow_missing, d.categories@[name@]@)
                },
            r matches Ok(d) ==> forall|k: Seq<char>| #[trigger] d.categories@.contains_key(k) ==> exists|i: int| 0 <= i < 7 && category_list(*metrics)[i].0@ == k,
            r is Ok <==> forall|i: int| 0 <= i < 7 ==> category_succeeds(#[trigger] category_list(*metrics)[i].1, date.text(), allow_missing),
            r matches Err(e) ==> exists|i: int| {
                &&& 0 <= i < 7
                &&& (forall|j: int| 0 <= j < i ==> category_succeeds(#[trigger] category_list(*metrics)[j].1, date.text(), allow_missing))
                &&& !category_succeeds(category_list(*metrics)[i].1, date.text(), allow_missing)
                &&& e.category == category_list(*metrics)[i].0
            },
    {
        let refs = category_refs(metrics);
        let mut categories: Chart<Chart<u64>> = Chart::new();
        let mut i: usize = 0;
        proof {
            lemma_category_names_distinct(*metrics);
        }
        while i < 7
            invariant
                forall|j: int| 0 <= j < 7 ==> (#[trigger] refs@[j]).0 == category_list(*metrics)[j].0 && *refs@[j].1 == category_list(*metrics)[j].1,
                forall|a: int, b: int| 0 <= a < b < 7 ==> (#[trigger] category_list(*metrics)[a]).0@ != (#[trigger] category_list(*metrics)[b]).0@,
                i <= 7,
                forall|j: int| 0 <= j < i ==> category_succeeds(#[trigger] category_list(*metrics)[j].1, date.text(), allow_missing),
                forall|j: int| 0 <= j < i ==> {
                    let (name, cat) = #[trigger] category_list(*metrics)[j];
                    &&& categories@.contains_key(name@)
                    &&& extracted(cat, date.text(), allow_missing, categories@[name@]@)
                },
                forall|k: Seq<char>| #[trigger] categories@.contains_key(k) ==> exists|j: int| 0 <= j < i && category_list(*metrics)[j].0@ == k,
            decreases 7 - i,
        {
            let (name, cat) = refs[i];
            match extract_category_for_date(cat, date, allow_missing) {
                Ok(actions) => {
                    let ghost before = categories@;
                    categories.insert(name.to_owned(), actions);
                    proof {
                        assert forall|j: int| 0 <= j < i + 1 implies {
                            let (nm, ct) = #[trigger] category_list(*metrics)[j];
                            &&& categories@.contains_key(nm@)
                            &&& extracted(ct, date.text(), allow_missing, categories@[nm@]@)
                        } by {
                            if j < i {
                                assert(category_list(*metrics)[j].0@ != category_list(*metrics)[i as int].0@);
                            }
                        }
                        assert forall|k: Seq<char>| #[trigger] categories@.contains_key(k) implies exists|j: int| 0 <= j < i + 1 && category_list(*metrics)[j].0@ == k by {
                            if k != name@ {
                                assert(before.contains_key(k));
                            } else {
                                assert(category_list(*metrics)[i as int].0@ == k);
                            }
                        }
                    }
                },
                Err(failure) => {
                    proof {
                        assert(!category_succeeds(category_list(*metrics)[i as int].1, date.text(), allow_missing));
                    }
                    return Err(CategoryError { category: name, failure });
                },
            }
            i = i + 1;
        }
        Ok(ShieldZoneDayData {
            categories,
            total_clean_requests_limit: metrics.total_clean_requests_limit,
            total_billable_requests_this_month: metrics.total_billable_requests_this_month,
        })
    }
}

proof fn lemma_category_names_distinct(m: ShieldMetrics)
    ensures
        forall|a: int, b: int| 0 <= a < b < 7 ==> (#[trigger] category_list(m)[a]).0@ != (#[trigger] category_list(m)[b]).0@,
{
    reveal_strlit("waf");
    reveal_strlit("ddos");
    reveal_strlit("rate_limit");
    reveal_strlit("access_lists");
    reveal_strlit("bot_detection");
    reveal_strlit("upload_scanning");
    reveal_strlit("api_guardian");
    let l = category_list(m);
    assert(l[0].0@.len() == 3 && l[0].0@[0] == 'w');
    assert(l[1].0@.len() == 4 && l[1].0@[0] == 'd');
    assert(l[2].0@.len() == 10 && l[2].0@[0] == 'r');
    assert(l[3].0@.len() == 12 && l[3].0@[1] == 'c');
    assert(l[4].0@.len() == 13 && l[4].0@[0] == 'b');
    assert(l[5].0@.len() == 15 && l[5].0@[0] == 'u');
    assert(l[6].0@.len() == 12 && l[6].0@[1] == 'p');
    assert forall|a: int, b: int| 0 <= a < b < 7 implies (#[trigger] category_list(m)[a]).0@ != (#[trigger] category_list(m)[b]).0@ by {
        assert(a == 0 || a == 1 || a == 2 || a == 3 || a == 4 || a == 5);
        assert(b == 1 || b == 2 || b == 3 || b == 4 || b == 5 || b == 6);
        if a == 3 && b == 6 {
            assert(l[a].0@[1] != l[b].0@[1]);
        }
    }
}

/// The categories of a shield zone's metrics, each with its name, in a fixed order.
pub open spec fn category_list(m: ShieldMetrics) -> Seq<(&'static str, ShieldCategoryMetrics)> {
    seq![
        ("waf", m.waf),
        ("ddos", m.ddos),
        ("rate_limit", m.rate_limit),
        ("access_lists", m.access_lists),
        ("bot_detection", m.bot_detection),
        ("upload_scanning", m.upload_scanning),
        ("api_guardian", m.api_guardian),
    ]
}

/// Every action chart of the category yields a value for the date.
pub open spec fn category_succeeds(cat: ShieldCategoryMetrics, text: Seq<char>, allow_missing: bool) -> bool {
    forall|i: int| 0 <= i < cat.metrics.pairs().len() ==> prefix_found(#[trigger] cat.metrics.pairs()[i].1.pairs(), text, allow_missing)
}

/// `counts` holds, for every action of the category, the value that its chart yields
/// for the date, and no other action.
pub open spec fn extracted(cat: ShieldCategoryMetrics, text: Seq<char>, allow_missing: bool, counts: Map<Seq<char>, u64>) -> bool {
    &&& counts.dom() == cat.metrics@.dom()
    &&& forall|k: Seq<char>| #[trigger] cat.metrics@.contains_key(k) ==> prefix_lookup(cat.metrics@[k].pairs(), text, allow_missing, Ok(counts[k]))
}

/// The categories of a shield zone's metrics, each with its name.
pub fn category_refs(metrics: &ShieldMetrics) -> (r: [(&'static str, &ShieldCategoryMetrics); 7])
    ensures
        forall|i: int| 0 <= i < 7 ==> (#[trigger] r@[i]).0 == category_list(*metrics)[i].0 && *r@[i].1 == category_list(*metrics)[i].1,
{
    let r = [
        ("waf", &metrics.waf),
        ("ddos", &metrics.ddos),
        ("rate_limit", &metrics.rate_limit),
        ("access_lists", &metrics.access_lists),
        ("bot_detection", &metrics.bot_detection),
        ("upload_scanning", &metrics.upload_scanning),
        ("api_guardian", &metrics.api_guardian),
    ];
    r
}

/// Every action chart of a category taken for a date, leniently: the value of the
/// first key that begins with the date; for a chart without such a key, the default
/// where `allow_missing` is set, and otherwise the error of the first such action.
pub fn extract_category_for_date(cat: &ShieldCategoryMetrics, date: &Date, allow_missing: bool) -> (r: Result<
    Chart<u64>,
    KeyedError,
>)
    ensures
        r is Ok <==> category_succeeds(*cat, date.text(), allow_missing),
        r matches Ok(counts) ==> extracted(*cat, date.text(), allow_missing, counts@),
        r matches Err(e) ==> exists|i: int| {
            &&& 0 <= i < cat.metrics.pairs().len()
            &&& (forall|j: int| 0 <= j < i ==> prefix_found(#[trigger] cat.metrics.pairs()[j].1.pairs(), date.text(), allow_missing))
            &&& e.key@ == cat.metrics.pairs()[i].0
            &&& prefix_lookup(cat.metrics.pairs()[i].1.pairs(), date.text(), allow_missing, Err(e.error))
        },
{
    proof {
        use_type_invariant(&cat.metrics);
    }
    let s = &cat.metrics;
    let n = s.len();
    let mut counts: Chart<u64> = Chart::new();
    let mut i: usize = 0;
    while i < n
        invariant
            *s == cat.metrics,
            n == s.pairs().len(),
            i <= n,
            crate::chart::distinct_keys(s.pairs()),
            forall|k: Seq<char>| #[trigger] counts@.contains_key(k) <==> has_key(s.pairs().take(i as int), k),
            forall|j: int| 0 <= j < i ==> prefix_found(#[trigger] s.pairs()[j].1.pairs(), date.text(), allow_missing),
            forall|j: int| 0 <= j < i ==> prefix_lookup(#[trigger] s.pairs()[j].1.pairs(), date.text(), allow_missing, Ok(counts@[s.pairs()[j].0])),
        decreases n - i,
    {
        let key = s.key_at(i);
        match find_chart_value_for_date_lenient(s.value_at(i), date, allow_missing) {
            Ok(v) => {
                let ghost before = counts@;
                counts.insert(key.clone(), v);
                proof {
                    assert forall|j: int| 0 <= j < i implies s.pairs()[j].0 != key@ by {
                        assert(s.pairs()[j].0 != s.pairs()[i as int].0);
                    }
                    assert forall|k: Seq<char>| #[trigger] counts@.contains_key(k) <==> has_key(s.pairs().take(i + 1), k) by {
                        let t1 = s.pairs().take(i + 1);
                        let t0 = s.pairs().take(i as int);
                        if has_key(t1, k) {
                            let j = choose|j: int| 0 <= j < t1.len() && #[trigger] t1[j].0 == k;
                            if j < i {
                                assert(t0[j].0 == k);
                            }
                        }
                        if before.contains_key(k) {
                            let j = choose|j: int| 0 <= j < t0.len() && #[trigger] t0[j].0 == k;
                            assert(t1[j].0 == k);
                        }
                        if k == key@ {
                            assert(s.pairs().take(i + 1)[i as int].0 == k);
                        }
                    }
                }
            },
            Err(error) => {
                let k = key.clone();
                proof {
                    let inner = cat.metrics.pairs()[i as int].1;
                    assert(!prefix_found(inner.pairs(), date.text(), allow_missing));
                    assert(!category_succeeds(*cat, date.text(), allow_missing));
                    assert(k@ == cat.metrics.pairs()[i as int].0);
                    assert(prefix_lookup(inner.pairs(), date.text(), allow_missing, Err(error)));
                }
                return Err(KeyedError { key: k, error });
            },
        }
        i = i + 1;
    }
    proof {
        assert(s.pairs().take(n as int) =~= s.pairs());
        assert forall|k: Seq<char>| #[trigger] cat.metrics@.contains_key(k) implies prefix_lookup(cat.metrics@[k].pairs(), date.text(), allow_missing, Ok(counts@[k])) by {
            let j = choose|j: int| 0 <= j < s.pairs().len() && s.pairs()[j].0 == k;
            lemma_pairs_map_at(s.pairs(), j);
        }
        assert(counts@.dom() =~= cat.metrics@.dom());
    }
    Ok(counts)
}

/// A shield zone's data: requests per category and action, and the request limit and
/// billable requests of the month.
#[derive(Debug)]
pub struct ShieldZoneDayData {
    pub categories: Chart<Chart<u64>>,
    pub total_clean_requests_limit: u64,
    pub total_billable_requests_this_month: u64,
}

impl View for ShieldZoneDayData {
    type V = (Map<Seq<char>, Map<Seq<char>, u64>>, u64, u64);

    open spec fn view(&self) -> (Map<Seq<char>, Map<Seq<char>, u64>>, u64, u64) {
        (nested(self.categories@), self.total_clean_requests_limit, self.total_billable_requests_this_month)
    }
}

proof fn lemma_nested_insert(m: Map<Seq<char>, Chart<u64>>, k: Seq<char>, c: Chart<u64>)
    ensures
        nested(m.insert(k, c)) =~= nested(m).insert(k, c@),
{
}

proof fn lemma_summed_categories_insert(
    a: Map<Seq<char>, Map<Seq<char>, u64>>,
    b: Map<Seq<char>, Map<Seq<char>, u64>>,
    k: Seq<char>,
    v: Map<Seq<char>, u64>,
)
    requires
        !b.contains_key(k),
    ensures
        summed_categories(a, b.insert(k, v)) =~= summed_categories(a, b).insert(k, summed_counts(inner_of(a, k), v)),
        max_categories(a, b.insert(k, v)) =~= max_categories(a, b).insert(k, max_counts(inner_of(a, k), v)),
{
    assert forall|key: Seq<char>| key != k implies inner_of(b.insert(k, v), key) == inner_of(b, key) by {
    }
    assert(inner_of(b.insert(k, v), k) == v);
}

/// Copies a chart of count charts.
fn duplicate_nested(c: &Chart<Chart<u64>>) -> (r: Chart<Chart<u64>>)
    ensures
        nested(r@) == nested(c@),
{
    proof {
        use_type_invariant(c);
    }
    let mut r: Chart<Chart<u64>> = Chart::new();
    let n = c.len();
    let mut i: usize = 0;
    while i < n
        invariant
            n == c.pairs().len(),
            i <= n,
            crate::chart::distinct_keys(c.pairs()),
            nested(r@) == nested(pairs_map(c.pairs().take(i as int))),
        decreases n - i,
    {
        let key = c.key_at(i);
        let inner = c.value_at(i).duplicate();
        proof {
            crate::chart::lemma_pairs_map_take(c.pairs(), i as int);
            lemma_nested_insert(r@, key@, inner);
            lemma_nested_insert(pairs_map(c.pairs().take(i as int)), key@, c.pairs()[i as int].1);
        }
        r.insert(key.clone(), inner);
        i = i + 1;
    }
    assert(c.pairs().take(n as int) =~= c.pairs());
    r
}

impl Clone for ShieldZoneDayData {
    fn clone(&self) -> (r: Self)
        ensures
            r@ == self@,
    {
        ShieldZoneDayData {
            categories: duplicate_nested(&self.categories),
            total_clean_requests_limit: self.total_clean_requests_limit,
            total_billable_requests_this_month: self.total_billable_requests_this_month,
        }
    }
}

impl Default for ShieldZoneDayData {
    fn default() -> (r: Self)
        ensures
            r@ == (Map::<Seq<char>, Map<Seq<char>, u64>>::empty(), 0u64, 0u64),
    {
        let r = ShieldZoneDayData { categories: Chart::new(), total_clean_requests_limit: 0, total_billable_requests_this_month: 0 };
        assert(nested(r.categories@) =~= Map::<Seq<char>, Map<Seq<char>, u64>>::empty());
        r
    }
}

impl DayData for ShieldZoneDayData {
    /// The requests add up per category and action; the monthly gauges stay as they were.
    open spec fn accumulated(
        total: (Map<Seq<char>, Map<Seq<char>, u64>>, u64, u64),
        day: (Map<Seq<char>, Map<Seq<char>, u64>>, u64, u64),
    ) -> (Map<Seq<char>, Map<Seq<char>, u64>>, u64, u64) {
        (summed_categories(total.0, day.0), total.1, total.2)
    }

    open spec fn can_accumulate(
        total: (Map<Seq<char>, Map<Seq<char>, u64>>, u64, u64),
        day: (Map<Seq<char>, Map<Seq<char>, u64>>, u64, u64),
    ) -> bool {
        categories_addable(total.0, day.0)
    }

    /// The requests keep the larger count per category and action, keeping what only
    /// one side has; the monthly gauges take the newer fetch's values.
    open spec fn merged(
        current: (Map<Seq<char>, Map<Seq<char>, u64>>, u64, u64),
        snapshot: (Map<Seq<char>, Map<Seq<char>, u64>>, u64, u64),
    ) -> (Map<Seq<char>, Map<Seq<char>, u64>>, u64, u64) {
        (max_categories(current.0, snapshot.0), snapshot.1, snapshot.2)
    }

    open spec fn zero() -> (Map<Seq<char>, Map<Seq<char>, u64>>, u64, u64) {
        (Map::empty(), 0, 0)
    }

    proof fn lemma_merge_idempotent(current: (Map<Seq<char>, Map<Seq<char>, u64>>, u64, u64), snapshot: (Map<Seq<char>, Map<Seq<char>, u64>>, u64, u64)) {
        let a = current.0;
        let b = snapshot.0;
        assert forall|k: Seq<char>| #[trigger] max_categories(max_categories(a, b), b).contains_key(k) implies max_categories(max_categories(a, b), b)[k] == max_categories(a, b)[k] by {
            assert(inner_of(max_categories(a, b), k) == max_counts(inner_of(a, k), inner_of(b, k)));
            lemma_max_counts_idempotent(inner_of(a, k), inner_of(b, k));
        }
        assert(max_categories(max_categories(a, b), b) =~= max_categories(a, b));
    }

    proof fn lemma_merge_into_zero(snapshot: (Map<Seq<char>, Map<Seq<char>, u64>>, u64, u64)) {
        let b = snapshot.0;
        assert forall|k: Seq<char>| #[trigger] max_categories(Map::empty(), b).contains_key(k) implies max_categories(Map::empty(), b)[k] == b[k] by {
            assert(max_counts(Map::empty(), b[k]) =~= b[k]);
        }
        assert(max_categories(Map::empty(), b) =~= b);
    }

    proof fn lemma_accumulate_zero(total: (Map<Seq<char>, Map<Seq<char>, u64>>, u64, u64)) {
        let a = total.0;
        assert forall|k: Seq<char>| counts_addable(#[trigger] inner_of(a, k), inner_of(Map::empty(), k)) by {
            lemma_summed_counts_empty(inner_of(a, k));
        }
        assert forall|k: Seq<char>| #[trigger] summed_categories(a, Map::empty()).contains_key(k) implies summed_categories(a, Map::empty())[k] == a[k] by {
            lemma_summed_counts_empty(a[k]);
        }
        assert(summed_categories(a, Map::empty()) =~= a);
    }

    proof fn lemma_accumulate_associative(x: (Map<Seq<char>, Map<Seq<char>, u64>>, u64, u64), y: (Map<Seq<char>, Map<Seq<char>, u64>>, u64, u64), z: (Map<Seq<char>, Map<Seq<char>, u64>>, u64, u64)) {
        let a = x.0;
        let b = y.0;
        let c = z.0;
        assert forall|k: Seq<char>| #![trigger inner_of(b, k)] counts_addable(inner_of(b, k), inner_of(c, k)) && counts_addable(inner_of(a, k), inner_of(summed_categories(b, c), k)) && inner_of(summed_categories(summed_categories(a, b), c), k) == inner_of(summed_categories(a, summed_categories(b, c)), k) by {
            assert(counts_addable(inner_of(a, k), inner_of(b, k)));
            assert(counts_addable(inner_of(summed_categories(a, b), k), inner_of(c, k)));
            assert(inner_of(summed_categories(a, b), k) == summed_counts(inner_of(a, k), inner_of(b, k))) by {
                if !(a.contains_key(k) || b.contains_key(k)) {
                    lemma_summed_counts_empty(Map::<Seq<char>, u64>::empty());
                }
            }
            assert(inner_of(summed_categories(b, c), k) == summed_counts(inner_of(b, k), inner_of(c, k))) by {
                if !(b.contains_key(k) || c.contains_key(k)) {
                    lemma_summed_counts_empty(Map::<Seq<char>, u64>::empty());
                }
            }
            lemma_summed_counts_associative(inner_of(a, k), inner_of(b, k), inner_of(c, k));
        }
        assert forall|k: Seq<char>| counts_addable(#[trigger] inner_of(a, k), inner_of(summed_categories(b, c), k)) by {
            assert(counts_addable(inner_of(b, k), inner_of(c, k)));
        }
        assert forall|k: Seq<char>| #[trigger] summed_categories(summed_categories(a, b), c).contains_key(k) implies summed_categories(summed_categories(a, b), c)[k] == summed_categories(a, summed_categories(b, c))[k] by {
            assert(counts_addable(inner_of(b, k), inner_of(c, k)));
        }
        assert(summed_categories(summed_categories(a, b), c) =~= summed_categories(a, summed_categories(b, c)));
    }

    fn accumulate(&mut self, day: Self) {
        proof {
            use_type_invariant(&day.categories);
        }
        let ghost start = nested(self.categories@);
        let ghost other = nested(day.categories@);
        let d = &day.categories;
        let n = d.len();
        let mut j: usize = 0;
        assert(pairs_map(d.pairs().take(0)) =~= Map::<Seq<char>, Chart<u64>>::empty());
        assert(summed_categories(start, nested(pairs_map(d.pairs().take(0)))) =~= start) by {
            assert forall|k: Seq<char>| start.contains_key(k) implies #[trigger] summed_categories(start, nested(pairs_map(d.pairs().take(0))))[k] == start[k] by {
                lemma_summed_empty(start[k]);
            }
        }
        while j < n
            invariant
                n == d.pairs().len(),
                j <= n,
                crate::chart::distinct_keys(d.pairs()),
                other == nested(pairs_map(d.pairs())),
                categories_addable(start, other),
                *d == day.categories,
                self.total_clean_requests_limit == old(self).total_clean_requests_limit,
                self.total_billable_requests_this_month == old(self).total_billable_requests_this_month,
                nested(self.categories@) == summed_categories(start, nested(pairs_map(d.pairs().take(j as int)))),
            decreases n - j,
        {
            let key = d.key_at(j);
            let actions = d.value_at(j);
            let ghost b = nested(pairs_map(d.pairs().take(j as int)));
            proof {
                crate::chart::lemma_pairs_map_take(d.pairs(), j as int);
                lemma_pairs_map_at(d.pairs(), j as int);
                lemma_nested_insert(pairs_map(d.pairs().take(j as int)), key@, *actions);
                lemma_summed_categories_insert(start, b, key@, actions@);
                assert(counts_addable(inner_of(start, key@), inner_of(other, key@)));
                assert(inner_of(other, key@) == actions@);
                assert(inner_of(nested(self.categories@), key@) =~= inner_of(start, key@)) by {
                    if start.contains_key(key@) {
                        lemma_summed_empty(start[key@]);
                    }
                }
            }
            let mut merged = match self.categories.get(key.as_str()) {
                Some(existing) => existing.duplicate(),
                None => Chart::new(),
            };
            merged.add_counts(actions);
            proof {
                lemma_nested_insert(self.categories@, key@, merged);
            }
            self.categories.insert(key.clone(), merged);
            j = j + 1;
        }
        assert(d.pairs().take(n as int) =~= d.pairs());
    }

    fn merge_latest(&mut self, snapshot: Self) {
        proof {
            use_type_invariant(&snapshot.categories);
        }
        let ghost start = nested(self.categories@);
        let d = &snapshot.categories;
        let n = d.len();
        let mut j: usize = 0;
        assert(pairs_map(d.pairs().take(0)) =~= Map::<Seq<char>, Chart<u64>>::empty());
        assert(max_categories(start, nested(pairs_map(d.pairs().take(0)))) =~= start) by {
            assert forall|k: Seq<char>| start.contains_key(k) implies #[trigger] max_categories(start, nested(pairs_map(d.pairs().take(0))))[k] == start[k] by {
                lemma_summed_empty(start[k]);
            }
        }
        while j < n
            invariant
                n == d.pairs().len(),
                j <= n,
                crate::chart::distinct_keys(d.pairs()),
                *d == snapshot.categories,
                nested(self.categories@) == max_categories(start, nested(pairs_map(d.pairs().take(j as int)))),
            decreases n - j,
        {
            let key = d.key_at(j);
            let actions = d.value_at(j);
            let ghost b = nested(pairs_map(d.pairs().take(j as int)));
            proof {
                crate::chart::lemma_pairs_map_take(d.pairs(), j as int);
                lemma_nested_insert(pairs_map(d.pairs().take(j as int)), key@, *actions);
                lemma_summed_categories_insert(start, b, key@, actions@);
                assert(inner_of(nested(self.categories@), key@) =~= inner_of(start, key@)) by {
                    if start.contains_key(key@) {
                        lemma_summed_empty(start[key@]);
                    }
                }
            }
            let mut merged = match self.categories.get(key.as_str()) {
                Some(existing) => existing.duplicate(),
                None => Chart::new(),
            };
            merged.max_counts_with(actions);
            proof {
                lemma_nested_insert(self.categories@, key@, merged);
            }
            self.categories.insert(key.clone(), merged);
            j = j + 1;
        }
        assert(d.pairs().take(n as int) =~= d.pairs());
        self.total_clean_requests_limit = snapshot.total_clean_requests_limit;
        self.total_billable_requests_this_month = snapshot.total_billable_requests_this_month;
    }

    fn empty() -> (r: Self) {
        let r = ShieldZoneDayData { categories: Chart::new(), total_clean_requests_limit: 0, total_billable_requests_this_month: 0 };
        assert(nested(r.categories@) =~= Map::<Seq<char>, Map<Seq<char>, u64>>::empty());
        r
    }

    fn can_add(&self, day: &Self) -> (r: bool) {
        proof {
            use_type_invariant(&day.categories);
        }
        let d = &day.categories;
        let n = d.len();
        let mut j: usize = 0;
        while j < n
            invariant
                n == d.pairs().len(),
                j <= n,
                crate::chart::distinct_keys(d.pairs()),
                *d == day.categories,
                forall|i: int| 0 <= i < j ==> counts_addable(inner_of(nested(self.categories@), #[trigger] d.pairs()[i].0), d.pairs()[i].1@),
            decreases n - j,
        {
            let key = d.key_at(j);
            let fits = match self.categories.get(key.as_str()) {
                Some(existing) => counts_fit(existing, d.value_at(j)),
                None => {
                    let none: Chart<u64> = Chart::new();
                    counts_fit(&none, d.value_at(j))
                },
            };
            proof {
                assert(inner_of(nested(self.categories@), key@) == if self.categories@.contains_key(key@) {
                    self.categories@[key@]@
                } else {
                    Map::<Seq<char>, u64>::empty()
                });
                assert(fits == counts_addable(inner_of(nested(self.categories@), key@), d.pairs()[j as int].1@));
            }
            if !fits {
                proof {
                    lemma_pairs_map_at(d.pairs(), j as int);
                    assert(inner_of(nested(d@), key@) == d.pairs()[j as int].1@);
                    assert(!counts_addable(inner_of(nested(self.categories@), key@), inner_of(nested(d@), key@)));
                    assert(!categories_addable(nested(self.categories@), nested(d@)));
                    assert(!Self::can_accumulate(self@, day@));
                }
                return false;
            }
            j = j + 1;
        }
        proof {
            assert forall|k: Seq<char>| counts_addable(#[trigger] inner_of(nested(self.categories@), k), inner_of(nested(d@), k)) by {
                if d@.contains_key(k) {
                    let i = choose|i: int| 0 <= i < d.pairs().len() && d.pairs()[i].0 == k;
                    lemma_pairs_map_at(d.pairs(), i);
                    assert(counts_addable(inner_of(nested(self.categories@), d.pairs()[i].0), d.pairs()[i].1@));
                } else {
                    assert(inner_of(nested(d@), k) == Map::<Seq<char>, u64>::empty());
                    assert forall|a: Seq<char>| count_of(inner_of(nested(self.categories@), k), a) + count_of(Map::<Seq<char>, u64>::empty(), a) <= u64::MAX by {
                    }
                }
            }
        }
        true
    }
}

impl ShieldZoneDayData {
    /// The request counters to report: for every category and action that either the
    /// complete days or the current day hold, the two counts added up.
    pub fn request_totals(last: &ShieldZoneDayData, current: &ShieldZoneDayData) -> (r: Chart<Chart<u64>>)
        requires
            categories_addable(last@.0, current@.0),
        ensures
            nested(r@) == summed_categories(last@.0, current@.0),
    {
        let mut totals = last.clone();
        totals.accumulate(current.clone());
        totals.categories
    }
}

/// Every action chart of the category sums to a value that fits in `u64` over the window.
pub open spec fn category_window_fits(cat: ShieldCategoryMetrics, from: Seq<char>, to: Seq<char>) -> bool {
    forall|i: int| 0 <= i < cat.metrics.pairs().len() ==> window_total(#[trigger] cat.metrics.pairs()[i].1.pairs(), from, to) <= u64::MAX
}

/// `counts` holds, for every action of the category, the sum of its chart over the
/// window, and no other action.
pub open spec fn windowed(cat: ShieldCategoryMetrics, from: Seq<char>, to: Seq<char>, counts: Map<Seq<char>, u64>) -> bool {
    &&& counts.dom() == cat.metrics@.dom()
    &&& forall|k: Seq<char>| #[trigger] cat.metrics@.contains_key(k) ==> counts[k] == window_total(cat.metrics@[k].pairs(), from, to)
}

/// Every action chart of a category summed over the days from `from` to `to`.
pub fn sum_category_in_range(cat: &ShieldCategoryMetrics, from: &Date, to: &Date) -> (r: Chart<u64>)
    requires
        category_window_fits(*cat, from.text(), to.text()),
    ensures
        windowed(*cat, from.text(), to.text(), r@),
{
    proof {
        use_type_invariant(&cat.metrics);
    }
    let s = &cat.metrics;
    let n = s.len();
    let mut counts: Chart<u64> = Chart::new();
    let mut i: usize = 0;
    while i < n
        invariant
            *s == cat.metrics,
            category_window_fits(*cat, from.text(), to.text()),
            n == s.pairs().len(),
            i <= n,
            crate::chart::distinct_keys(s.pairs()),
            forall|k: Seq<char>| #[trigger] counts@.contains_key(k) <==> has_key(s.pairs().take(i as int), k),
            forall|j: int| 0 <= j < i ==> counts@[#[trigger] s.pairs()[j].0] == window_total(s.pairs()[j].1.pairs(), from.text(), to.text()),
        decreases n - i,
    {
        let key = s.key_at(i);
        assert(window_total(s.pairs()[i as int].1.pairs(), from.text(), to.text()) <= u64::MAX);
        let v = sum_chart_values_in_range(s.value_at(i), from, to);
        let ghost before = counts@;
        counts.insert(key.clone(), v);
        proof {
            assert forall|j: int| 0 <= j < i implies s.pairs()[j].0 != key@ by {
                assert(s.pairs()[j].0 != s.pairs()[i as int].0);
            }
            assert forall|k: Seq<char>| #[trigger] counts@.contains_key(k) <==> has_key(s.pairs().take(i + 1), k) by {
                let t1 = s.pairs().take(i + 1);
                let t0 = s.pairs().take(i as int);
                if has_key(t1, k) {
                    let j = choose|j: int| 0 <= j < t1.len() && #[trigger] t1[j].0 == k;
                    if j < i {
                        assert(t0[j].0 == k);
                    }
                }
                if before.contains_key(k) {
                    let j = choose|j: int| 0 <= j < t0.len() && #[trigger] t0[j].0 == k;
                    assert(t1[j].0 == k);
                }
                if k == key@ {
                    assert(t1[i as int].0 == k);
                }
            }
        }
        i = i + 1;
    }
    proof {
        assert(s.pairs().take(n as int) =~= s.pairs());
        assert forall|k: Seq<char>| #[trigger] cat.metrics@.contains_key(k) implies counts@[k] == window_total(cat.metrics@[k].pairs(), from.text(), to.text()) by {
            let j = choose|j: int| 0 <= j < s.pairs().len() && s.pairs()[j].0 == k;
            lemma_pairs_map_at(s.pairs(), j);
        }
        assert(counts@.dom() =~= cat.metrics@.dom());
    }
    counts
}

/// Whether every action chart of a category sums to a value that fits in `u64` over the window.
pub fn category_window_total_fits(cat: &ShieldCategoryMetrics, from: &Date, to: &Date) -> (r: bool)
    ensures
        r == category_window_fits(*cat, from.text(), to.text()),
{
    let s = &cat.metrics;
    let n = s.len();
    let mut i: usize = 0;
    while i < n
        invariant
            *s == cat.metrics,
            n == s.pairs().len(),
            i <= n,
            forall|j: int| 0 <= j < i ==> window_total(#[trigger] s.pairs()[j].1.pairs(), from.text(), to.text()) <= u64::MAX,
        decreases n - i,
    {
        if !window_total_fits(s.value_at(i), from, to) {
            return false;
        }
        i = i + 1;
    }
    true
}

impl ShieldZoneKind {
    /// Whether the actions of every category sum to values that fit in `u64` over the window.
    pub fn range_fits(metrics: &ShieldMetrics, from: &Date, to: &Date) -> (r: bool)
        ensures
            r == forall|i: int| 0 <= i < 7 ==> category_window_fits(#[trigger] category_list(*metrics)[i].1, from.text(), to.text()),
    {
        let refs = category_refs(metrics);
        let mut i: usize = 0;
        while i < 7
            invariant
                forall|j: int| 0 <= j < 7 ==> (#[trigger] refs@[j]).0 == category_list(*metrics)[j].0 && *refs@[j].1 == category_list(*metrics)[j].1,
                i <= 7,
                forall|j: int| 0 <= j < i ==> category_window_fits(#[trigger] category_list(*metrics)[j].1, from.text(), to.text()),
            decreases 7 - i,
        {
            let (_, cat) = refs[i];
            if !category_window_total_fits(cat, from, to) {
                assert(!category_window_fits(category_list(*metrics)[i as int].1, from.text(), to.text()));
                return false;
            }
            i = i + 1;
        }
        true
    }

    /// The data of a range of days, taken from the zone's metrics: every category's
    /// actions summed over the days from `from` to `to`; the monthly gauges are zero.
    pub fn range_from_metrics(metrics: &ShieldMetrics, from: &Date, to: &Date) -> (r: ShieldZoneDayData)
        requires
            forall|i: int| 0 <= i < 7 ==> category_window_fits(#[trigger] category_list(*metrics)[i].1, from.text(), to.text()),
        ensures
            r.total_clean_requests_limit == 0,
            r.total_billable_requests_this_month == 0,
            forall|i: int| 0 <= i < 7 ==> {
                let (name, cat) = #[trigger] category_list(*metrics)[i];
                &&& r.categories@.contains_key(name@)
                &&& windowed(cat, from.text(), to.text(), r.categories@[name@]@)
            },
            forall|k: Seq<char>| #[trigger] r.categories@.contains_key(k) ==> exists|i: int| 0 <= i < 7 && category_list(*metrics)[i].0@ == k,
    {
        let refs = category_refs(metrics);
        let mut categories: Chart<Chart<u64>> = Chart::new();
        let mut i: usize = 0;
        proof {
            lemma_category_names_distinct(*metrics);
        }
        while i < 7
            invariant
                forall|j: int| 0 <= j < 7 ==> (#[trigger] refs@[j]).0 == category_list(*metrics)[j].0 && *refs@[j].1 == category_list(*metrics)[j].1,
                forall|a: int, b: int| 0 <= a < b < 7 ==> (#[trigger] category_list(*metrics)[a]).0@ != (#[trigger] category_list(*metrics)[b]).0@,
                forall|j: int| 0 <= j < 7 ==> category_window_fits(#[trigger] category_list(*metrics)[j].1, from.text(), to.text()),
                i <= 7,
                forall|j: int| 0 <= j < i ==> {
                    let (name, cat) = #[trigger] category_list(*metrics)[j];
                    &&& categories@.contains_key(name@)
                    &&& windowed(cat, from.text(), to.text(), categories@[name@]@)
                },
                forall|k: Seq<char>| #[trigger] categories@.contains_key(k) ==> exists|j: int| 0 <= j < i && category_list(*metrics)[j].0@ == k,
            decreases 7 - i,
        {
            let (name, cat) = refs[i];
            assert(category_window_fits(category_list(*metrics)[i as int].1, from.text(), to.text()));
            let actions = sum_category_in_range(cat, from, to);
            let ghost before = categories@;
            categories.insert(name.to_owned(), actions);
            proof {
                assert forall|j: int| 0 <= j < i + 1 implies {
                    let (nm, ct) = #[trigger] category_list(*metrics)[j];
                    &&& categories@.contains_key(nm@)
                    &&& windowed(ct, from.text(), to.text(), categories@[nm@]@)
                } by {
                    if j < i {
                        assert(category_list(*metrics)[j].0@ != category_list(*metrics)[i as int].0@);
                    }
                }
                assert forall|k: Seq<char>| #[trigger] categories@.contains_key(k) implies exists|j: int| 0 <= j < i + 1 && category_list(*metrics)[j].0@ == k by {
                    if k != name@ {
                        assert(before.contains_key(k));
                    } else {
                        assert(category_list(*metrics)[i as int].0@ == k);
                    }
                }
            }
            i = i + 1;
        }
        ShieldZoneDayData { categories, total_clean_requests_limit: 0, total_billable_requests_this_month: 0 }
    }
}

/// Adding a day adds the requests of each category and action on its own, keeping every
/// category of either side, and leaves the monthly gauges of the total as they were; it
/// can be done exactly when no count leaves `u64`. Data on which nothing was counted has
/// no category and zero gauges.
pub proof fn lemma_shield_accumulate_adds_each_action(t: (Map<Seq<char>, Map<Seq<char>, u64>>, u64, u64), d: (Map<Seq<char>, Map<Seq<char>, u64>>, u64, u64))
    ensures
        <ShieldZoneDayData as DayData>::can_accumulate(t, d) <==> forall|k: Seq<char>| #[trigger] counts_addable(inner_of(t.0, k), inner_of(d.0, k)),
        <ShieldZoneDayData as DayData>::can_accumulate(t, d) ==> forall|k: Seq<char>|
            (<ShieldZoneDayData as DayData>::accumulated(t, d).0.contains_key(k) <==> (t.0.contains_key(k) || d.0.contains_key(k)))
                && is_keywise_sum(inner_of(t.0, k), inner_of(d.0, k), #[trigger] inner_of(<ShieldZoneDayData as DayData>::accumulated(t, d).0, k)),
        <ShieldZoneDayData as DayData>::accumulated(t, d).1 == t.1,
        <ShieldZoneDayData as DayData>::accumulated(t, d).2 == t.2,
        <ShieldZoneDayData as DayData>::zero() == (Map::<Seq<char>, Map<Seq<char>, u64>>::empty(), 0u64, 0u64),
{
    if <ShieldZoneDayData as DayData>::can_accumulate(t, d) {
        assert forall|k: Seq<char>|
            (<ShieldZoneDayData as DayData>::accumulated(t, d).0.contains_key(k) <==> (t.0.contains_key(k) || d.0.contains_key(k)))
                && is_keywise_sum(inner_of(t.0, k), inner_of(d.0, k), #[trigger] inner_of(<ShieldZoneDayData as DayData>::accumulated(t, d).0, k)) by {
            assert(counts_addable(inner_of(t.0, k), inner_of(d.0, k)));
            lemma_summed_counts_is_keywise_sum(inner_of(t.0, k), inner_of(d.0, k));
            if !(t.0.contains_key(k) || d.0.contains_key(k)) {
                lemma_summed_counts_is_keywise_sum(Map::<Seq<char>, u64>::empty(), Map::<Seq<char>, u64>::empty());
                assert(is_keywise_sum(inner_of(t.0, k), inner_of(d.0, k), Map::<Seq<char>, u64>::empty()));
            }
        }
    }
}

/// Folding in a newer fetch keeps, for each category and action, the larger of the two
/// request counts, keeping every category of either side; the monthly gauges take the
/// newer fetch's values.
pub proof fn lemma_shield_merge_keeps_larger(c: (Map<Seq<char>, Map<Seq<char>, u64>>, u64, u64), s: (Map<Seq<char>, Map<Seq<char>, u64>>, u64, u64))
    ensures
        forall|k: Seq<char>|
            (<ShieldZoneDayData as DayData>::merged(c, s).0.contains_key(k) <==> (c.0.contains_key(k) || s.0.contains_key(k)))
                && is_keywise_max(inner_of(c.0, k), inner_of(s.0, k), #[trigger] inner_of(<ShieldZoneDayData as DayData>::merged(c, s).0, k)),
        <ShieldZoneDayData as DayData>::merged(c, s).1 == s.1,
        <ShieldZoneDayData as DayData>::merged(c, s).2 == s.2,
{
    assert forall|k: Seq<char>|
        (<ShieldZoneDayData as DayData>::merged(c, s).0.contains_key(k) <==> (c.0.contains_key(k) || s.0.contains_key(k)))
            && is_keywise_max(inner_of(c.0, k), inner_of(s.0, k), #[trigger] inner_of(<ShieldZoneDayData as DayData>::merged(c, s).0, k)) by {
        lemma_max_counts_is_keywise_max(inner_of(c.0, k), inner_of(s.0, k));
        if !(c.0.contains_key(k) || s.0.contains_key(k)) {
            lemma_max_counts_is_keywise_max(Map::<Seq<char>, u64>::empty(), Map::<Seq<char>, u64>::empty());
            assert(is_keywise_max(inner_of(c.0, k), inner_of(s.0, k), Map::<Seq<char>, u64>::empty()));
        }
    }
}

/// Each of the seven categories is reported under its own name, with the metrics field of
/// that name: the entry named `rate_limit` holds `m.rate_limit`, the one named
/// `access_lists` holds `m.access_lists`, and so on; every name occurs once.
pub proof fn lemma_categories_named_by_field(m: ShieldMetrics)
    ensures
        category_list(m).len() == 7,
        forall|i: int| 0 <= i < 7 ==> (category_list(m)[i].0 == "waf" ==> category_list(m)[i].1 == m.waf) && (category_list(m)[i].0 == "ddos" ==> category_list(m)[i].1 == m.ddos) && (category_list(m)[i].0 == "rate_limit" ==> category_list(m)[i].1 == m.rate_limit) && (category_list(m)[i].0 == "access_lists" ==> category_list(m)[i].1 == m.access_lists) && (category_list(m)[i].0 == "bot_detection" ==> category_list(m)[i].1 == m.bot_detection) && (category_list(m)[i].0 == "upload_scanning" ==> category_list(m)[i].1 == m.upload_scanning) && (category_list(m)[i].0 == "api_guardian" ==> category_list(m)[i].1 == m.api_guardian),
        forall|i: int, j: int| 0 <= i < j < 7 ==> #[trigger] category_list(m)[i].0 != #[trigger] category_list(m)[j].0,
        exists|i: int| 0 <= i < 7 && #[trigger] category_list(m)[i].0 == "waf",
        exists|i: int| 0 <= i < 7 && #[trigger] category_list(m)[i].0 == "ddos",
        exists|i: int| 0 <= i < 7 && #[trigger] category_list(m)[i].0 == "rate_limit",
        exists|i: int| 0 <= i < 7 && #[trigger] category_list(m)[i].0 == "access_lists",
        exists|i: int| 0 <= i < 7 && #[trigger] category_list(m)[i].0 == "bot_detection",
        exists|i: int| 0 <= i < 7 && #[trigger] category_list(m)[i].0 == "upload_scanning",
        exists|i: int| 0 <= i < 7 && #[trigger] category_list(m)[i].0 == "api_guardian",
{
    assert(category_list(m)[0].0 == "waf");
    assert(category_list(m)[1].0 == "ddos");
    assert(category_list(m)[2].0 == "rate_limit");
    assert(category_list(m)[3].0 == "access_lists");
    assert(category_list(m)[4].0 == "bot_detection");
    assert(category_list(m)[5].0 == "upload_scanning");
    assert(category_list(m)[6].0 == "api_guardian");
}

} // verus!
