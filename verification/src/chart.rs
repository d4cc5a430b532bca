use vstd::prelude::*;

use crate::date::Date;
use crate::text::{bytes_le, bytes_le_prefix, bytes_prefix_le, has_prefix, text_eq, text_starts_with};
use vstd::utf8::{encode_utf8, is_char_boundary};

verus! {

/// The keys of a sequence of entries are pairwise distinct.
pub open spec fn distinct_keys<V>(s: Seq<(Seq<char>, V)>) -> bool {
    forall|i: int, j: int| 0 <= i < j < s.len() ==> s[i].0 != s[j].0
}

/// Some entry of `s` has key `k`.
pub open spec fn has_key<V>(s: Seq<(Seq<char>, V)>, k: Seq<char>) -> bool {
    exists|i: int| 0 <= i < s.len() && s[i].0 == k
}

/// The map from key to value that a sequence of entries with distinct keys stands for.
pub open spec fn pairs_map<V>(s: Seq<(Seq<char>, V)>) -> Map<Seq<char>, V> {
    Map::new(
        |k: Seq<char>| has_key(s, k),
        |k: Seq<char>| s[choose|i: int| 0 <= i < s.len() && s[i].0 == k].1,
    )
}

/// A statistics chart: values keyed by text (a date, a country, a record type, an
/// action, ...), each key at most once, in the order in which the keys were added.
#[derive(Debug)]
pub struct Chart<V> {
    entries: Vec<(String, V)>,
}

/// Why a value could not be taken from a chart for a date.
#[derive(Debug)]
pub enum ChartError {
    /// The chart did not hold exactly one entry, or its one entry was not for the date.
    NotExactlyOne { expected: String, found: usize },
    /// No key of the chart begins with the date.
    NotFound { expected: String },
}

/// A chart value that could not be taken, with the name of the statistic it was for.
#[derive(Debug)]
pub struct FieldError {
    pub field: &'static str,
    pub error: ChartError,
}

/// A chart value that could not be taken, with the key of the series it was for.
#[derive(Debug)]
pub struct KeyedError {
    pub key: String,
    pub error: ChartError,
}

impl<V> View for Chart<V> {
    type V = Map<Seq<char>, V>;

    open spec fn view(&self) -> Map<Seq<char>, V> {
        pairs_map(self.pairs())
    }
}

/// In a sequence of entries with distinct keys, the map holds each entry.
pub proof fn lemma_pairs_map_at<V>(s: Seq<(Seq<char>, V)>, i: int)
    requires
        distinct_keys(s),
        0 <= i < s.len(),
    ensures
        pairs_map(s).contains_key(s[i].0),
        pairs_map(s)[s[i].0] == s[i].1,
{
    lemma_map_at(s, i);
}

proof fn lemma_map_at<V>(s: Seq<(Seq<char>, V)>, i: int)
    requires
        distinct_keys(s),
        0 <= i < s.len(),
    ensures
        pairs_map(s).contains_key(s[i].0),
        pairs_map(s)[s[i].0] == s[i].1,
{
    assert(has_key(s, s[i].0));
    let j = choose|j: int| 0 <= j < s.len() && s[j].0 == s[i].0;
    if j != i {
        if j < i {
            assert(s[j].0 != s[i].0);
        } else {
            assert(s[i].0 != s[j].0);
        }
    }
}

proof fn lemma_map_push<V>(s: Seq<(Seq<char>, V)>, k: Seq<char>, v: V)
    requires
        distinct_keys(s),
        !has_key(s, k),
    ensures
        distinct_keys(s.push((k, v))),
        pairs_map(s.push((k, v))) =~= pairs_map(s).insert(k, v),
{
    let t = s.push((k, v));
    assert forall|i: int, j: int| 0 <= i < j < t.len() implies t[i].0 != t[j].0 by {
        if j == s.len() {
            assert(s[i].0 != k);
        } else {
            assert(s[i].0 != s[j].0);
        }
    }
    assert forall|key: Seq<char>| #[trigger] pairs_map(t).contains_key(key) <==> pairs_map(s).insert(k, v).contains_key(key) by {
        if has_key(s, key) {
            let i = choose|i: int| 0 <= i < s.len() && s[i].0 == key;
            assert(t[i].0 == key);
        }
        if key == k {
            assert(t[s.len() as int].0 == k);
        }
        if has_key(t, key) && key != k {
            let i = choose|i: int| 0 <= i < t.len() && t[i].0 == key;
            assert(i < s.len());
            assert(s[i].0 == key);
        }
    }
    assert forall|key: Seq<char>| pairs_map(t).contains_key(key) implies #[trigger] pairs_map(t)[key] == pairs_map(s).insert(k, v)[key] by {
        let i = choose|i: int| 0 <= i < t.len() && t[i].0 == key;
        lemma_map_at(t, i);
        if i < s.len() {
            assert(s[i] == t[i]);
            lemma_map_at(s, i);
        }
    }
}

proof fn lemma_map_update<V>(s: Seq<(Seq<char>, V)>, i: int, v: V)
    requires
        distinct_keys(s),
        0 <= i < s.len(),
    ensures
        distinct_keys(s.update(i, (s[i].0, v))),
        pairs_map(s.update(i, (s[i].0, v))) =~= pairs_map(s).insert(s[i].0, v),
{
    let t = s.update(i, (s[i].0, v));
    assert forall|a: int, b: int| 0 <= a < b < t.len() implies t[a].0 != t[b].0 by {
        assert(s[a].0 != s[b].0);
    }
    assert forall|key: Seq<char>| #[trigger] pairs_map(t).contains_key(key) <==> pairs_map(s).insert(s[i].0, v).contains_key(key) by {
        if has_key(s, key) {
            let j = choose|j: int| 0 <= j < s.len() && s[j].0 == key;
            assert(t[j].0 == key);
        }
        if has_key(t, key) {
            let j = choose|j: int| 0 <= j < t.len() && t[j].0 == key;
            assert(s[j].0 == key);
        }
        assert(t[i].0 == s[i].0);
    }
    assert forall|key: Seq<char>| pairs_map(t).contains_key(key) implies #[trigger] pairs_map(t)[key] == pairs_map(s).insert(s[i].0, v)[key] by {
        let j = choose|j: int| 0 <= j < t.len() && t[j].0 == key;
        lemma_map_at(t, j);
        if j != i {
            lemma_map_at(s, j);
        }
    }
}

/// Taking one more entry of a sequence with distinct keys adds that entry to the map.
pub proof fn lemma_pairs_map_take<V>(s: Seq<(Seq<char>, V)>, j: int)
    requires
        distinct_keys(s),
        0 <= j < s.len(),
    ensures
        distinct_keys(s.take(j)),
        !has_key(s.take(j), s[j].0),
        pairs_map(s.take(j + 1)) =~= pairs_map(s.take(j)).insert(s[j].0, s[j].1),
{
    lemma_map_take(s, j);
}

proof fn lemma_map_take<V>(s: Seq<(Seq<char>, V)>, j: int)
    requires
        distinct_keys(s),
        0 <= j < s.len(),
    ensures
        distinct_keys(s.take(j)),
        !has_key(s.take(j), s[j].0),
        s.take(j + 1) == s.take(j).push(s[j]),
        pairs_map(s.take(j + 1)) =~= pairs_map(s.take(j)).insert(s[j].0, s[j].1),
{
    assert(s.take(j + 1) =~= s.take(j).push(s[j]));
    if has_key(s.take(j), s[j].0) {
        let i = choose|i: int| 0 <= i < s.take(j).len() && s.take(j)[i].0 == s[j].0;
        assert(s[i].0 != s[j].0);
    }
    lemma_map_push(s.take(j), s[j].0, s[j].1);
}

impl<V> Chart<V> {
    /// Every chart holds each key at most once.
    #[verifier::type_invariant]
    pub open spec fn keys_are_distinct(self) -> bool {
        distinct_keys(self.pairs())
    }

    /// The entries, in order, each as its key text and value.
    pub closed spec fn pairs(self) -> Seq<(Seq<char>, V)> {
        self.entries@.map_values(|e: (String, V)| (e.0@, e.1))
    }

    /// An empty chart.
    pub fn new() -> (r: Chart<V>)
        ensures
            r.pairs() == Seq::<(Seq<char>, V)>::empty(),
            r@ == Map::<Seq<char>, V>::empty(),
    {
        let r = Chart { entries: Vec::new() };
        assert(r.pairs() =~= Seq::<(Seq<char>, V)>::empty());
        assert(r@ =~= Map::<Seq<char>, V>::empty());
        r
    }

    /// The number of entries.
    pub fn len(&self) -> (r: usize)
        ensures
            r == self.pairs().len(),
    {
        self.entries.len()
    }

    /// The key of the entry at position `i`.
    pub fn key_at(&self, i: usize) -> (r: &String)
        requires
            i < self.pairs().len(),
        ensures
            r@ == self.pairs()[i as int].0,
    {
        &self.entries[i].0
    }

    /// The value of the entry at position `i`.
    pub fn value_at(&self, i: usize) -> (r: &V)
        requires
            i < self.pairs().len(),
        ensures
            *r == self.pairs()[i as int].1,
    {
        &self.entries[i].1
    }

    /// The position of the entry with the given key, if there is one.
    pub fn position(&self, key: &str) -> (r: Option<usize>)
        ensures
            r matches Some(i) ==> i < self.pairs().len() && self.pairs()[i as int].0 == key@,
            r is None ==> !has_key(self.pairs(), key@),
            r is Some <==> self@.contains_key(key@),
    {
        let mut i: usize = 0;
        while i < self.entries.len()
            invariant
                i <= self.pairs().len(),
                self.pairs().len() == self.entries@.len(),
                forall|j: int| 0 <= j < i ==> self.pairs()[j].0 != key@,
            decreases self.entries@.len() - i,
        {
            if text_eq(self.entries[i].0.as_str(), key) {
                assert(self.pairs()[i as int].0 == key@);
                assert(has_key(self.pairs(), key@));
                return Some(i);
            }
            i = i + 1;
        }
        None
    }

    /// The value for the given key, if the chart holds it.
    pub fn get(&self, key: &str) -> (r: Option<&V>)
        ensures
            r is Some <==> self@.contains_key(key@),
            r matches Some(v) ==> *v == self@[key@],
    {
        proof {
            use_type_invariant(self);
        }
        match self.position(key) {
            Some(i) => {
                proof {
                    lemma_map_at(self.pairs(), i as int);
                }
                Some(&self.entries[i].1)
            },
            None => None,
        }
    }

    /// Sets the value of a key: an entry with that key takes the new value in its place;
    /// otherwise a new entry comes last.
    pub fn insert(&mut self, key: String, value: V)
        ensures
            final(self)@ == old(self)@.insert(key@, value),
            old(self)@.contains_key(key@) ==> final(self).pairs().len() == old(self).pairs().len(),
            !old(self)@.contains_key(key@) ==> final(self).pairs() == old(self).pairs().push((key@, value)),
    {
        proof {
            use_type_invariant(&*self);
        }
        match self.position(key.as_str()) {
            Some(i) => {
                proof {
                    lemma_map_update(self.pairs(), i as int, value);
                }
                let ghost before = self.pairs();
                let mut entries: Vec<(String, V)> = Vec::new();
                std::mem::swap(&mut entries, &mut self.entries);
                entries.set(i, (key, value));
                let ghost after = entries@.map_values(|e: (String, V)| (e.0@, e.1));
                assert(after =~= before.update(i as int, (before[i as int].0, value)));
                self.entries = entries;
            },
            None => {
                proof {
                    lemma_map_push(self.pairs(), key@, value);
                }
                let ghost before = self.pairs();
                let ghost k = key@;
                let mut entries: Vec<(String, V)> = Vec::new();
                std::mem::swap(&mut entries, &mut self.entries);
                entries.push((key, value));
                let ghost after = entries@.map_values(|e: (String, V)| (e.0@, e.1));
                assert(after =~= before.push((k, value)));
                self.entries = entries;
            },
        }
    }
}


impl<V: Copy> Chart<V> {
    /// A chart with the same entries in the same order.
    pub fn duplicate(&self) -> (r: Chart<V>)
        ensures
            r.pairs() == self.pairs(),
            r@ == self@,
    {
        proof {
            use_type_invariant(self);
        }
        let mut entries: Vec<(String, V)> = Vec::new();
        let mut i: usize = 0;
        while i < self.entries.len()
            invariant
                i <= self.entries@.len(),
                entries@.map_values(|e: (String, V)| (e.0@, e.1)) == self.pairs().take(i as int),
            decreases self.entries@.len() - i,
        {
            let key = self.entries[i].0.clone();
            let value = self.entries[i].1;
            let ghost before = entries@.map_values(|e: (String, V)| (e.0@, e.1));
            entries.push((key, value));
            assert(entries@.map_values(|e: (String, V)| (e.0@, e.1)) =~= before.push(self.pairs()[i as int]));
            assert(self.pairs().take(i + 1) =~= self.pairs().take(i as int).push(self.pairs()[i as int]));
            i = i + 1;
        }
        assert(self.pairs().take(i as int) =~= self.pairs());
        Chart { entries }
    }
}

/// The chart holds exactly one entry, and its key begins with `text`.
pub open spec fn single_entry_for<V>(s: Seq<(Seq<char>, V)>, text: Seq<char>) -> bool {
    s.len() == 1 && has_prefix(s[0].0, text)
}

/// What taking the one value of a chart for a date yields: the value of the single
/// entry whose key begins with the date text; the default value for an empty chart
/// where missing data is allowed; and otherwise an error that names the date text and
/// the number of entries.
pub open spec fn exact_lookup<V: Default>(
    s: Seq<(Seq<char>, V)>,
    text: Seq<char>,
    allow_missing: bool,
    r: Result<V, ChartError>,
) -> bool {
    if single_entry_for(s, text) {
        r == Ok::<V, ChartError>(s[0].1)
    } else if s.len() == 0 && allow_missing {
        r matches Ok(v) && call_ensures(V::default, (), v)
    } else {
        r matches Err(ChartError::NotExactlyOne { expected, found }) && expected@ == text && found == s.len()
    }
}

/// Taking the one value of a chart for a date succeeds.
pub open spec fn exact_found<V>(s: Seq<(Seq<char>, V)>, text: Seq<char>, allow_missing: bool) -> bool {
    single_entry_for(s, text) || (s.len() == 0 && allow_missing)
}

/// Entry `i` is the first entry whose key begins with `text`.
pub open spec fn first_with_prefix<V>(s: Seq<(Seq<char>, V)>, text: Seq<char>, i: int) -> bool {
    &&& 0 <= i < s.len()
    &&& has_prefix(s[i].0, text)
    &&& forall|j: int| 0 <= j < i ==> !has_prefix(#[trigger] s[j].0, text)
}

/// No key begins with `text`.
pub open spec fn none_with_prefix<V>(s: Seq<(Seq<char>, V)>, text: Seq<char>) -> bool {
    forall|j: int| 0 <= j < s.len() ==> !has_prefix(#[trigger] s[j].0, text)
}

/// Taking a value of a chart leniently for a date succeeds.
pub open spec fn prefix_found<V>(s: Seq<(Seq<char>, V)>, text: Seq<char>, allow_missing: bool) -> bool {
    !none_with_prefix(s, text) || allow_missing
}

/// What taking a value of a chart for a date leniently yields: the value of the first
/// entry whose key begins with the date text; if there is none, the default value
/// where missing data is allowed, and otherwise an error that names the date text.
pub open spec fn prefix_lookup<V: Default>(
    s: Seq<(Seq<char>, V)>,
    text: Seq<char>,
    allow_missing: bool,
    r: Result<V, ChartError>,
) -> bool {
    &&& (r is Ok <==> prefix_found(s, text, allow_missing))
    &&& forall|i: int| first_with_prefix(s, text, i) ==> r == Ok::<V, ChartError>(s[i].1)
    &&& none_with_prefix(s, text) && allow_missing ==> (r matches Ok(v) && call_ensures(V::default, (), v))
    &&& none_with_prefix(s, text) && !allow_missing ==> (r matches Err(ChartError::NotFound { expected }) && expected@ == text)
}

/// The value that a chart holds for a date, where the chart must hold exactly that one
/// entry; an empty chart gives the default value where `allow_missing` is set.
pub fn find_chart_value_for_date<V: Copy + Default>(
    chart: &Chart<V>,
    date: &Date,
    allow_missing: bool,
) -> (r: Result<V, ChartError>)
    ensures
        exact_lookup(chart.pairs(), date.text(), allow_missing, r),
{
    let date_str = date.key();
    let n = chart.len();
    if n == 1 && text_starts_with(chart.key_at(0).as_str(), date_str.as_str()) {
        Ok(*chart.value_at(0))
    } else if n == 0 && allow_missing {
        Ok(V::default())
    } else {
        Err(ChartError::NotExactlyOne { expected: date_str, found: n })
    }
}

/// The value of the first entry whose key begins with the date; where there is none,
/// the default value if `allow_missing` is set, and an error otherwise.
pub fn find_chart_value_for_date_lenient<V: Copy + Default>(
    chart: &Chart<V>,
    date: &Date,
    allow_missing: bool,
) -> (r: Result<V, ChartError>)
    ensures
        prefix_lookup(chart.pairs(), date.text(), allow_missing, r),
{
    let date_str = date.key();
    let n = chart.len();
    let mut i: usize = 0;
    while i < n
        invariant
            n == chart.pairs().len(),
            date_str@ == date.text(),
            i <= n,
            forall|j: int| 0 <= j < i ==> !has_prefix(#[trigger] chart.pairs()[j].0, date.text()),
        decreases n - i,
    {
        if text_starts_with(chart.key_at(i).as_str(), date_str.as_str()) {
            let v = *chart.value_at(i);
            proof {
                assert(first_with_prefix(chart.pairs(), date.text(), i as int));
                assert forall|k: int| first_with_prefix(chart.pairs(), date.text(), k) implies k == i by {
                    if k < i {
                        assert(!has_prefix(chart.pairs()[k].0, date.text()));
                    } else if k > i {
                        assert(!has_prefix(chart.pairs()[i as int].0, date.text()));
                    }
                }
            }
            return Ok(v);
        }
        i = i + 1;
    }
    if allow_missing {
        Ok(V::default())
    } else {
        Err(ChartError::NotFound { expected: date_str })
    }
}

/// The sum of the values of a sequence of entries.
pub open spec fn values_total(s: Seq<(Seq<char>, u64)>) -> int
    decreases s.len(),
{
    if s.len() == 0 {
        0
    } else {
        values_total(s.drop_last()) + s.last().1
    }
}

proof fn lemma_values_total_prefix(s: Seq<(Seq<char>, u64)>, i: int)
    requires
        0 <= i <= s.len(),
    ensures
        0 <= values_total(s.take(i)) <= values_total(s),
    decreases s.len() - i,
{
    if i == s.len() {
        assert(s.take(i) =~= s);
        lemma_values_total_nonneg(s);
    } else {
        lemma_values_total_prefix(s, i + 1);
        assert(s.take(i + 1).drop_last() =~= s.take(i));
        lemma_values_total_nonneg(s.take(i));
    }
}

proof fn lemma_values_total_nonneg(s: Seq<(Seq<char>, u64)>)
    ensures
        values_total(s) >= 0,
    decreases s.len(),
{
    if s.len() > 0 {
        lemma_values_total_nonneg(s.drop_last());
    }
}

/// The sum of all values of a chart.
pub fn sum_chart_values(chart: &Chart<u64>) -> (r: u64)
    requires
        values_total(chart.pairs()) <= u64::MAX,
    ensures
        r == values_total(chart.pairs()),
{
    let n = chart.len();
    let mut total: u64 = 0;
    let mut i: usize = 0;
    while i < n
        invariant
            n == chart.pairs().len(),
            i <= n,
            values_total(chart.pairs()) <= u64::MAX,
            total == values_total(chart.pairs().take(i as int)),
        decreases n - i,
    {
        proof {
            lemma_values_total_prefix(chart.pairs(), i + 1);
            assert(chart.pairs().take(i + 1).drop_last() =~= chart.pairs().take(i as int));
        }
        total = total + *chart.value_at(i);
        i = i + 1;
    }
    assert(chart.pairs().take(n as int) =~= chart.pairs());
    total
}

/// The key falls in the date window: its first bytes, as many as the bytes of the
/// `from` text, exist and end on a character boundary, and lie between the `from`
/// and the `to` text in byte order, both ends included.
pub open spec fn in_window(key: Seq<char>, from: Seq<char>, to: Seq<char>) -> bool {
    let kb = encode_utf8(key);
    let n = encode_utf8(from).len();
    &&& n <= kb.len()
    &&& is_char_boundary(kb, n as int)
    &&& bytes_le(encode_utf8(from), kb.subrange(0, n as int))
    &&& bytes_le(kb.subrange(0, n as int), encode_utf8(to))
}

/// The sum of the values of the entries whose keys fall in the date window.
pub open spec fn window_total(s: Seq<(Seq<char>, u64)>, from: Seq<char>, to: Seq<char>) -> int
    decreases s.len(),
{
    if s.len() == 0 {
        0
    } else {
        window_total(s.drop_last(), from, to) + if in_window(s.last().0, from, to) {
            s.last().1 as int
        } else {
            0
        }
    }
}

proof fn lemma_window_total_prefix(s: Seq<(Seq<char>, u64)>, from: Seq<char>, to: Seq<char>, i: int)
    requires
        0 <= i <= s.len(),
    ensures
        0 <= window_total(s.take(i), from, to) <= window_total(s, from, to),
    decreases s.len() - i,
{
    if i == s.len() {
        assert(s.take(i) =~= s);
        lemma_window_total_nonneg(s, from, to);
    } else {
        lemma_window_total_prefix(s, from, to, i + 1);
        assert(s.take(i + 1).drop_last() =~= s.take(i));
        lemma_window_total_nonneg(s.take(i), from, to);
    }
}

proof fn lemma_window_total_nonneg(s: Seq<(Seq<char>, u64)>, from: Seq<char>, to: Seq<char>)
    ensures
        window_total(s, from, to) >= 0,
    decreases s.len(),
{
    if s.len() > 0 {
        lemma_window_total_nonneg(s.drop_last(), from, to);
    }
}

/// Whether a key falls in the window given by the `from` and `to` texts.
fn key_in_window(key: &str, from_key: &str, to_key: &str) -> (r: bool)
    ensures
        r == in_window(key@, from_key@, to_key@),
{
    let kb = key.as_bytes();
    let fb = from_key.as_bytes();
    let tb = to_key.as_bytes();
    let n = fb.len();
    if n > kb.len() {
        return false;
    }
    if !key.is_char_boundary(n) {
        return false;
    }
    bytes_le_prefix(fb, kb, n) && bytes_prefix_le(kb, n, tb)
}

/// The sum of the values whose keys, cut to the length of a date text, lie between
/// the `from` and the `to` date, both included.
pub fn sum_chart_values_in_range(chart: &Chart<u64>, from: &Date, to: &Date) -> (r: u64)
    requires
        window_total(chart.pairs(), from.text(), to.text()) <= u64::MAX,
    ensures
        r == window_total(chart.pairs(), from.text(), to.text()),
{
    let from_key = from.key();
    let to_key = to.key();
    let n = chart.len();
    let mut total: u64 = 0;
    let mut i: usize = 0;
    while i < n
        invariant
            n == chart.pairs().len(),
            i <= n,
            from_key@ == from.text(),
            to_key@ == to.text(),
            window_total(chart.pairs(), from.text(), to.text()) <= u64::MAX,
            total == window_total(chart.pairs().take(i as int), from.text(), to.text()),
        decreases n - i,
    {
        proof {
            lemma_window_total_prefix(chart.pairs(), from.text(), to.text(), i + 1);
            assert(chart.pairs().take(i + 1).drop_last() =~= chart.pairs().take(i as int));
        }
        if key_in_window(chart.key_at(i).as_str(), from_key.as_str(), to_key.as_str()) {
            total = total + *chart.value_at(i);
        }
        i = i + 1;
    }
    assert(chart.pairs().take(n as int) =~= chart.pairs());
    total
}


/// The count that a map holds for a key, zero where it holds none.
pub open spec fn count_of(m: Map<Seq<char>, u64>, k: Seq<char>) -> int {
    if m.contains_key(k) {
        m[k] as int
    } else {
        0
    }
}

/// Per key, the two counts can be added without leaving `u64`.
pub open spec fn counts_addable(a: Map<Seq<char>, u64>, b: Map<Seq<char>, u64>) -> bool {
    forall|k: Seq<char>| count_of(a, k) + count_of(b, k) <= u64::MAX
}

/// The key-wise sum of two count maps, over the keys of either.
pub open spec fn summed_counts(a: Map<Seq<char>, u64>, b: Map<Seq<char>, u64>) -> Map<Seq<char>, u64> {
    Map::new(
        |k: Seq<char>| a.contains_key(k) || b.contains_key(k),
        |k: Seq<char>| (count_of(a, k) + count_of(b, k)) as u64,
    )
}

/// The key-wise maximum of two count maps, over the keys of either.
pub open spec fn max_counts(a: Map<Seq<char>, u64>, b: Map<Seq<char>, u64>) -> Map<Seq<char>, u64> {
    Map::new(
        |k: Seq<char>| a.contains_key(k) || b.contains_key(k),
        |k: Seq<char>| if count_of(a, k) >= count_of(b, k) { count_of(a, k) as u64 } else { count_of(b, k) as u64 },
    )
}

proof fn lemma_summed_insert(a: Map<Seq<char>, u64>, b: Map<Seq<char>, u64>, k: Seq<char>, v: u64)
    requires
        !b.contains_key(k),
        count_of(a, k) + v <= u64::MAX,
    ensures
        summed_counts(a, b.insert(k, v)) =~= summed_counts(a, b).insert(k, (count_of(a, k) + v) as u64),
{
}

proof fn lemma_max_insert(a: Map<Seq<char>, u64>, b: Map<Seq<char>, u64>, k: Seq<char>, v: u64)
    requires
        !b.contains_key(k),
    ensures
        max_counts(a, b.insert(k, v)) =~= max_counts(a, b).insert(
            k,
            if count_of(a, k) >= v { count_of(a, k) as u64 } else { v },
        ),
{
}

impl Chart<u64> {
    /// Adds the counts of `other` key by key: a key that this chart holds gets the sum,
    /// a key that only `other` holds is added with its count.
    pub fn add_counts(&mut self, other: &Chart<u64>)
        requires
            counts_addable(old(self)@, other@),
        ensures
            final(self)@ == summed_counts(old(self)@, other@),
    {
        proof {
            use_type_invariant(other);
        }
        let ghost start = self@;
        let n = other.len();
        let mut j: usize = 0;
        assert(other.pairs().take(0) =~= Seq::<(Seq<char>, u64)>::empty());
        assert(pairs_map(other.pairs().take(0)) =~= Map::<Seq<char>, u64>::empty());
        assert(summed_counts(start, Map::<Seq<char>, u64>::empty()) =~= start);
        while j < n
            invariant
                n == other.pairs().len(),
                j <= n,
                distinct_keys(other.pairs()),
                counts_addable(start, other@),
                other@ == pairs_map(other.pairs()),
                self@ == summed_counts(start, pairs_map(other.pairs().take(j as int))),
            decreases n - j,
        {
            let key = other.key_at(j);
            let v = *other.value_at(j);
            proof {
                lemma_map_take(other.pairs(), j as int);
                lemma_map_at(other.pairs(), j as int);
                assert(count_of(start, key@) + count_of(other@, key@) <= u64::MAX);
                lemma_summed_insert(start, pairs_map(other.pairs().take(j as int)), key@, v);
            }
            let current = match self.get(key.as_str()) {
                Some(c) => *c,
                None => 0,
            };
            self.insert(key.clone(), current + v);
            j = j + 1;
        }
        assert(other.pairs().take(n as int) =~= other.pairs());
    }

    /// Raises the counts of this chart to those of `other` key by key: a key that this
    /// chart holds gets the larger count, a key that only `other` holds is added.
    pub fn max_counts_with(&mut self, other: &Chart<u64>)
        ensures
            final(self)@ == max_counts(old(self)@, other@),
    {
        proof {
            use_type_invariant(other);
        }
        let ghost start = self@;
        let n = other.len();
        let mut j: usize = 0;
        assert(other.pairs().take(0) =~= Seq::<(Seq<char>, u64)>::empty());
        assert(pairs_map(other.pairs().take(0)) =~= Map::<Seq<char>, u64>::empty());
        assert(max_counts(start, Map::<Seq<char>, u64>::empty()) =~= start);
        while j < n
            invariant
                n == other.pairs().len(),
                j <= n,
                distinct_keys(other.pairs()),
                other@ == pairs_map(other.pairs()),
                self@ == max_counts(start, pairs_map(other.pairs().take(j as int))),
            decreases n - j,
        {
            let key = other.key_at(j);
            let v = *other.value_at(j);
            proof {
                lemma_map_take(other.pairs(), j as int);
                lemma_max_insert(start, pairs_map(other.pairs().take(j as int)), key@, v);
            }
            let current = match self.get(key.as_str()) {
                Some(c) => *c,
                None => 0,
            };
            let larger = if current >= v { current } else { v };
            self.insert(key.clone(), larger);
            j = j + 1;
        }
        assert(other.pairs().take(n as int) =~= other.pairs());
    }
}

/// The totals to report per key: for every key of either chart, the sum of its counts
/// in `last` and in `current`.
pub fn labeled_totals(last: &Chart<u64>, current: &Chart<u64>) -> (r: Chart<u64>)
    requires
        counts_addable(last@, current@),
    ensures
        r@ == summed_counts(last@, current@),
{
    let mut totals = last.duplicate();
    totals.add_counts(current);
    totals
}

/// The total to report for a counter: the count of the complete days and that of the
/// current day added up; `None` where the sum leaves `u64`.
pub fn counter_total(last: u64, current: u64) -> (r: Option<u64>)
    ensures
        last + current <= u64::MAX ==> r == Some((last + current) as u64),
        last + current > u64::MAX ==> r is None,
{
    if last <= u64::MAX - current {
        Some(last + current)
    } else {
        None
    }
}

/// Whether the counts of two charts can be added key by key without leaving `u64`.
pub fn counts_fit(a: &Chart<u64>, b: &Chart<u64>) -> (r: bool)
    ensures
        r == counts_addable(a@, b@),
{
    proof {
        use_type_invariant(b);
    }
    let n = b.len();
    let mut i: usize = 0;
    while i < n
        invariant
            n == b.pairs().len(),
            i <= n,
            distinct_keys(b.pairs()),
            forall|j: int| 0 <= j < i ==> count_of(a@, #[trigger] b.pairs()[j].0) + b.pairs()[j].1 <= u64::MAX,
        decreases n - i,
    {
        let key = b.key_at(i);
        let v = *b.value_at(i);
        let current = match a.get(key.as_str()) {
            Some(c) => *c,
            None => 0,
        };
        if current > u64::MAX - v {
            proof {
                lemma_map_at(b.pairs(), i as int);
                assert(count_of(a@, key@) + count_of(b@, key@) > u64::MAX);
            }
            return false;
        }
        i = i + 1;
    }
    proof {
        assert forall|k: Seq<char>| count_of(a@, k) + count_of(b@, k) <= u64::MAX by {
            if b@.contains_key(k) {
                let j = choose|j: int| 0 <= j < b.pairs().len() && b.pairs()[j].0 == k;
                lemma_map_at(b.pairs(), j);
                assert(count_of(a@, b.pairs()[j].0) + b.pairs()[j].1 <= u64::MAX);
            }
        }
    }
    true
}

/// Whether the values of a chart add up to a sum that fits in `u64`.
pub fn total_fits(chart: &Chart<u64>) -> (r: bool)
    ensures
        r == (values_total(chart.pairs()) <= u64::MAX),
{
    let n = chart.len();
    let mut total: u64 = 0;
    let mut i: usize = 0;
    while i < n
        invariant
            n == chart.pairs().len(),
            i <= n,
            total == values_total(chart.pairs().take(i as int)),
        decreases n - i,
    {
        let v = *chart.value_at(i);
        proof {
            assert(chart.pairs().take(i + 1).drop_last() =~= chart.pairs().take(i as int));
        }
        if total > u64::MAX - v {
            proof {
                lemma_values_total_prefix(chart.pairs(), i + 1);
            }
            return false;
        }
        total = total + v;
        i = i + 1;
    }
    assert(chart.pairs().take(n as int) =~= chart.pairs());
    true
}

/// Whether the values whose keys fall in the date window add up to a sum that fits in `u64`.
pub fn window_total_fits(chart: &Chart<u64>, from: &Date, to: &Date) -> (r: bool)
    ensures
        r == (window_total(chart.pairs(), from.text(), to.text()) <= u64::MAX),
{
    let from_key = from.key();
    let to_key = to.key();
    let n = chart.len();
    let mut total: u64 = 0;
    let mut i: usize = 0;
    while i < n
        invariant
            n == chart.pairs().len(),
            i <= n,
            from_key@ == from.text(),
            to_key@ == to.text(),
            total == window_total(chart.pairs().take(i as int), from.text(), to.text()),
        decreases n - i,
    {
        proof {
            assert(chart.pairs().take(i + 1).drop_last() =~= chart.pairs().take(i as int));
        }
        if key_in_window(chart.key_at(i).as_str(), from_key.as_str(), to_key.as_str()) {
            let v = *chart.value_at(i);
            if total > u64::MAX - v {
                proof {
                    lemma_window_total_prefix(chart.pairs(), from.text(), to.text(), i + 1);
                }
                return false;
            }
            total = total + v;
        }
        i = i + 1;
    }
    assert(chart.pairs().take(n as int) =~= chart.pairs());
    true
}

/// Adding counts key by key does not depend on the grouping: adding `b` and then `c`
/// to `a` gives what adding the sum of `b` and `c` to `a` gives.
pub proof fn lemma_summed_counts_associative(
    a: Map<Seq<char>, u64>,
    b: Map<Seq<char>, u64>,
    c: Map<Seq<char>, u64>,
)
    requires
        counts_addable(a, b),
        counts_addable(summed_counts(a, b), c),
    ensures
        counts_addable(b, c),
        counts_addable(a, summed_counts(b, c)),
        summed_counts(summed_counts(a, b), c) == summed_counts(a, summed_counts(b, c)),
{
    assert forall|k: Seq<char>| count_of(b, k) + count_of(c, k) <= u64::MAX by {
        assert(count_of(a, k) + count_of(b, k) <= u64::MAX);
        assert(count_of(summed_counts(a, b), k) + count_of(c, k) <= u64::MAX);
    }
    assert forall|k: Seq<char>| count_of(a, k) + count_of(summed_counts(b, c), k) <= u64::MAX by {
        assert(count_of(a, k) + count_of(b, k) <= u64::MAX);
        assert(count_of(summed_counts(a, b), k) + count_of(c, k) <= u64::MAX);
    }
    assert forall|k: Seq<char>| #[trigger] summed_counts(summed_counts(a, b), c).contains_key(k) implies summed_counts(summed_counts(a, b), c)[k] == summed_counts(a, summed_counts(b, c))[k] by {
        assert(count_of(a, k) + count_of(b, k) <= u64::MAX);
        assert(count_of(summed_counts(a, b), k) + count_of(c, k) <= u64::MAX);
    }
    assert(summed_counts(summed_counts(a, b), c) =~= summed_counts(a, summed_counts(b, c)));
}

/// Adding counts key by key does not depend on the order of the two sides.
pub proof fn lemma_summed_counts_commutative(a: Map<Seq<char>, u64>, b: Map<Seq<char>, u64>)
    ensures
        counts_addable(a, b) == counts_addable(b, a),
        summed_counts(a, b) == summed_counts(b, a),
{
    assert(summed_counts(a, b) =~= summed_counts(b, a));
}

/// Adding no counts changes nothing.
pub proof fn lemma_summed_counts_empty(a: Map<Seq<char>, u64>)
    ensures
        counts_addable(a, Map::empty()),
        summed_counts(a, Map::empty()) == a,
{
    assert(summed_counts(a, Map::empty()) =~= a);
}

/// Raising counts to a snapshot twice gives what raising them once gives.
pub proof fn lemma_max_counts_idempotent(a: Map<Seq<char>, u64>, b: Map<Seq<char>, u64>)
    ensures
        max_counts(max_counts(a, b), b) == max_counts(a, b),
{
    assert(max_counts(max_counts(a, b), b) =~= max_counts(a, b));
}

/// Raising counts to a snapshot does not depend on the order of the two sides.
pub proof fn lemma_max_counts_commutative(a: Map<Seq<char>, u64>, b: Map<Seq<char>, u64>)
    ensures
        max_counts(a, b) == max_counts(b, a),
{
    assert(max_counts(a, b) =~= max_counts(b, a));
}

/// Raising counts to a snapshot loses no count: every key keeps at least the count it
/// had on either side, and gets the count of one of them.
pub proof fn lemma_max_counts_bounds(a: Map<Seq<char>, u64>, b: Map<Seq<char>, u64>, k: Seq<char>)
    ensures
        count_of(max_counts(a, b), k) >= count_of(a, k),
        count_of(max_counts(a, b), k) >= count_of(b, k),
        count_of(max_counts(a, b), k) == count_of(a, k) || count_of(max_counts(a, b), k) == count_of(b, k),
{
}

/// Adding count maps key by key keeps every key of either side, with the sum of its two
/// counts (a missing count being zero), and adds no other key.
pub proof fn lemma_summed_counts_keywise(a: Map<Seq<char>, u64>, b: Map<Seq<char>, u64>, k: Seq<char>)
    requires
        count_of(a, k) + count_of(b, k) <= u64::MAX,
    ensures
        summed_counts(a, b).contains_key(k) <==> (a.contains_key(k) || b.contains_key(k)),
        count_of(summed_counts(a, b), k) == count_of(a, k) + count_of(b, k),
{
}

/// Raising counts to a snapshot keeps every key of either side and adds no other key.
pub proof fn lemma_max_counts_keys(a: Map<Seq<char>, u64>, b: Map<Seq<char>, u64>, k: Seq<char>)
    ensures
        max_counts(a, b).contains_key(k) <==> (a.contains_key(k) || b.contains_key(k)),
{
}

/// `r` holds every key of `a` or `b`, and no other, each with the sum of its two counts
/// (a missing count being zero).
pub open spec fn is_keywise_sum(a: Map<Seq<char>, u64>, b: Map<Seq<char>, u64>, r: Map<Seq<char>, u64>) -> bool {
    forall|k: Seq<char>|
        (#[trigger] r.contains_key(k) <==> (a.contains_key(k) || b.contains_key(k))) && count_of(r, k) == count_of(a, k)
            + count_of(b, k)
}

/// `r` holds every key of `a` or `b`, and no other, each with the larger of its two
/// counts (a missing count being zero).
pub open spec fn is_keywise_max(a: Map<Seq<char>, u64>, b: Map<Seq<char>, u64>, r: Map<Seq<char>, u64>) -> bool {
    forall|k: Seq<char>|
        (#[trigger] r.contains_key(k) <==> (a.contains_key(k) || b.contains_key(k))) && count_of(r, k) >= count_of(a, k)
            && count_of(r, k) >= count_of(b, k) && (count_of(r, k) == count_of(a, k) || count_of(r, k) == count_of(b, k))
}

/// Adding count maps key by key gives their key-wise sum.
pub proof fn lemma_summed_counts_is_keywise_sum(a: Map<Seq<char>, u64>, b: Map<Seq<char>, u64>)
    requires
        counts_addable(a, b),
    ensures
        is_keywise_sum(a, b, summed_counts(a, b)),
{
    assert forall|k: Seq<char>|
        (#[trigger] summed_counts(a, b).contains_key(k) <==> (a.contains_key(k) || b.contains_key(k))) && count_of(
            summed_counts(a, b),
            k,
        ) == count_of(a, k) + count_of(b, k) by {
        assert(count_of(a, k) + count_of(b, k) <= u64::MAX);
    }
}

/// Raising counts to a snapshot gives their key-wise maximum.
pub proof fn lemma_max_counts_is_keywise_max(a: Map<Seq<char>, u64>, b: Map<Seq<char>, u64>)
    ensures
        is_keywise_max(a, b, max_counts(a, b)),
{
}

} // verus!
