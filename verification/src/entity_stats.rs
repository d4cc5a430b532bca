use vstd::prelude::*;

use crate::chart::{Chart, distinct_keys, has_key, pairs_map};
use crate::date::{Date, MAX_DAY};
use vstd::pervasive::cloned;

verus! {

/// The statistics of one entity for one day, or summed over several days.
///
/// Counters add up over days (`accumulate`); within the current day the statistics
/// are fetched again and again, and each fetch is folded in with `merge_latest`.
pub trait DayData: View + Sized {
    /// The result of adding a day to a total.
    spec fn accumulated(total: Self::V, day: Self::V) -> Self::V;

    /// The day can be added to the total without a counter leaving `u64`.
    spec fn can_accumulate(total: Self::V, day: Self::V) -> bool;

    /// The result of folding a newer fetch of the same day into the current data.
    spec fn merged(current: Self::V, snapshot: Self::V) -> Self::V;

    /// The data of a day on which nothing was counted.
    spec fn zero() -> Self::V;

    /// Folding the same fetch in twice gives what folding it in once gives, so that
    /// polling again without new statistics changes nothing.
    proof fn lemma_merge_idempotent(current: Self::V, snapshot: Self::V)
        ensures
            Self::merged(Self::merged(current, snapshot), snapshot) == Self::merged(current, snapshot),
    ;

    /// Folding a fetch into data on which nothing was counted gives the fetch.
    proof fn lemma_merge_into_zero(snapshot: Self::V)
        ensures
            Self::merged(Self::zero(), snapshot) == snapshot,
    ;

    /// Adding a day on which nothing was counted changes nothing.
    proof fn lemma_accumulate_zero(total: Self::V)
        ensures
            Self::can_accumulate(total, Self::zero()),
            Self::accumulated(total, Self::zero()) == total,
    ;

    /// Summing days does not depend on the grouping: adding two days one after the
    /// other gives what adding their sum gives.
    proof fn lemma_accumulate_associative(a: Self::V, b: Self::V, c: Self::V)
        requires
            Self::can_accumulate(a, b),
            Self::can_accumulate(Self::accumulated(a, b), c),
        ensures
            Self::can_accumulate(b, c),
            Self::can_accumulate(a, Self::accumulated(b, c)),
            Self::accumulated(Self::accumulated(a, b), c) == Self::accumulated(a, Self::accumulated(b, c)),
    ;

    /// Adds the statistics of a day to this total.
    fn accumulate(&mut self, day: Self)
        requires
            Self::can_accumulate(old(self)@, day@),
        ensures
            final(self)@ == Self::accumulated(old(self)@, day@),
    ;

    /// Folds a newer fetch of the same day into this data.
    fn merge_latest(&mut self, snapshot: Self)
        ensures
            final(self)@ == Self::merged(old(self)@, snapshot@),
    ;

    /// Data on which nothing was counted.
    fn empty() -> (r: Self)
        ensures
            r@ == Self::zero(),
    ;

    /// Whether `day` can be added to this total without a counter leaving `u64`.
    fn can_add(&self, day: &Self) -> (r: bool)
        ensures
            r == Self::can_accumulate(self@, day@),
    ;
}

/// A category of entities whose statistics are polled: how an entity is known and
/// how it is labelled.
pub trait EntityType {
    /// The entities of the category, as the account lists them.
    type Entity;

    /// The id by which an entity is known.
    spec fn id_of(entity: &Self::Entity) -> Seq<char>;

    /// The label under which an entity is reported.
    spec fn label_of(entity: &Self::Entity) -> Seq<char>;

    /// The id by which an entity is known.
    fn entity_id(entity: &Self::Entity) -> (r: String)
        ensures
            r@ == Self::id_of(entity),
    ;

    /// The label under which an entity is reported.
    fn entity_label(entity: &Self::Entity) -> (r: String)
        ensures
            r@ == Self::label_of(entity),
    ;
}

/// What is kept of one entity between polls.
pub struct EntityEntry<D> {
    /// The entity's display label, taken afresh from the entity list at each poll.
    pub label: String,
    /// The last day whose statistics are summed in `last_complete_day_state`.
    pub last_complete_day: Option<Date>,
    /// The statistics of all complete days up to `last_complete_day`.
    pub last_complete_day_state: D,
    /// The statistics of the current day so far.
    pub current_day_state: D,
}

/// The entry has complete days that it has not summed yet: its last complete day
/// lies before yesterday.
pub open spec fn needs_backfill(last_complete_day: Option<Date>, yesterday: Date) -> bool {
    last_complete_day matches Some(last) && last.number() < yesterday.number()
}

/// The days that an update must fetch and sum before it fetches today: from the day
/// after the entry's last complete day up to yesterday, where that is a gap.
pub fn backfill_range<D>(entry: &EntityEntry<D>, yesterday: &Date) -> (r: Option<(Date, Date)>)
    ensures
        needs_backfill(entry.last_complete_day, *yesterday) ==> (r matches Some((first, last)) && first.number()
            == entry.last_complete_day.unwrap().number() + 1 && last == *yesterday),
        !needs_backfill(entry.last_complete_day, *yesterday) ==> r is None,
{
    match &entry.last_complete_day {
        Some(last) => {
            if last.is_before(yesterday) {
                proof {
                    use_type_invariant(yesterday);
                }
                match last.succ() {
                    Some(first) => Some((first, *yesterday)),
                    None => None,
                }
            } else {
                None
            }
        },
        None => None,
    }
}

/// Brings an entry up to date with the statistics that were fetched for it.
///
/// `backfill` is the sum of the days from the entry's last complete day up to
/// yesterday, given exactly when there is such a gap; `snapshot` is the latest fetch
/// of today. A gap is added to the complete days, and today's data starts afresh;
/// otherwise the complete days stay as they are. Yesterday becomes the last complete
/// day, and the snapshot is folded into today's data.
pub fn update_entry<D: DayData>(
    entry: &mut EntityEntry<D>,
    yesterday: &Date,
    backfill: Option<D>,
    snapshot: D,
)
    requires
        backfill is Some <==> needs_backfill(old(entry).last_complete_day, *yesterday),
        backfill matches Some(b) ==> D::can_accumulate(old(entry).last_complete_day_state@, b@),
    ensures
        final(entry).label == old(entry).label,
        final(entry).last_complete_day == Some(*yesterday),
        backfill matches Some(b) ==> final(entry).last_complete_day_state@ == D::accumulated(
            old(entry).last_complete_day_state@,
            b@,
        ) && final(entry).current_day_state@ == D::merged(D::zero(), snapshot@),
        backfill is None ==> final(entry).last_complete_day_state@ == old(
            entry,
        ).last_complete_day_state@ && final(entry).current_day_state@ == D::merged(
            old(entry).current_day_state@,
            snapshot@,
        ),
{
    match backfill {
        Some(b) => {
            entry.last_complete_day_state.accumulate(b);
            entry.last_complete_day = Some(*yesterday);
            entry.current_day_state = D::empty();
        },
        None => {
            entry.last_complete_day = Some(*yesterday);
        },
    }
    entry.current_day_state.merge_latest(snapshot);
}

/// The days from `from` to `to`, both included, in order; none where `from` comes
/// after `to`.
pub fn days_in_range(from: &Date, to: &Date) -> (r: Vec<Date>)
    requires
        from.number() <= to.number() ==> to.number() < MAX_DAY,
    ensures
        from.number() <= to.number() ==> r@.len() == to.number() - from.number() + 1,
        from.number() > to.number() ==> r@.len() == 0,
        forall|i: int| 0 <= i < r@.len() ==> #[trigger] r@[i].number() == from.number() + i,
{
    let mut days: Vec<Date> = Vec::new();
    let mut cursor = *from;
    while cursor.is_not_after(to)
        invariant
            from.number() <= to.number() ==> to.number() < MAX_DAY,
            from.number() <= cursor.number() <= to.number() + 1 || (from.number() > to.number() && cursor
                == *from),
            days@.len() == cursor.number() - from.number(),
            forall|i: int| 0 <= i < days@.len() ==> #[trigger] days@[i].number() == from.number() + i,
        decreases to.number() + 1 - cursor.number(),
    {
        days.push(cursor);
        match cursor.succ() {
            Some(next) => {
                cursor = next;
            },
            None => {},
        }
    }
    days
}

/// How the number of listed entities compares with the previous poll.
#[derive(Debug, PartialEq, Eq, Structural)]
pub enum CountChange {
    /// The first poll since start: this many entities are watched.
    First(usize),
    /// The number changed from `previous` to `current`.
    Changed { previous: usize, current: usize },
    /// The number is the same as before.
    Unchanged,
}

/// The entities of one statistics category: per entity id, what is kept of it.
pub struct EntityStatsState<D> {
    entities: Chart<EntityEntry<D>>,
    last_entity_count: Option<usize>,
}

/// The entries of a list of updated entries, each as its id text and entry.
pub open spec fn keyed<D>(v: Seq<(String, EntityEntry<D>)>) -> Seq<(Seq<char>, EntityEntry<D>)> {
    v.map_values(|e: (String, EntityEntry<D>)| (e.0@, e.1))
}

/// The map from id to entry that a sequence of updated entries gives when they are
/// stored one after the other, a later entry replacing an earlier one of the same id.
pub open spec fn stored_entries<D>(s: Seq<(Seq<char>, EntityEntry<D>)>) -> Map<Seq<char>, EntityEntry<D>>
    decreases s.len(),
{
    if s.len() == 0 {
        Map::empty()
    } else {
        stored_entries(s.drop_last()).insert(s.last().0, s.last().1)
    }
}

/// After a successful poll the state holds an entry for exactly the listed entity ids,
/// and the entry of an id is the last updated entry that the list gives for it.
pub proof fn lemma_poll_keeps_listed_entities<D>(s: Seq<(Seq<char>, EntityEntry<D>)>, id: Seq<char>)
    ensures
        stored_entries(s).contains_key(id) <==> exists|i: int| 0 <= i < s.len() && s[i].0 == id,
        stored_entries(s).contains_key(id) ==> exists|i: int| {
            &&& 0 <= i < s.len()
            &&& s[i].0 == id
            &&& stored_entries(s)[id] == s[i].1
            &&& forall|j: int| i < j < s.len() ==> #[trigger] s[j].0 != id
        },
    decreases s.len(),
{
    if s.len() > 0 {
        let t = s.drop_last();
        lemma_poll_keeps_listed_entities(t, id);
        if s.last().0 == id {
            assert(s[s.len() - 1].0 == id);
        } else {
            if exists|i: int| 0 <= i < s.len() && s[i].0 == id {
                let i = choose|i: int| 0 <= i < s.len() && s[i].0 == id;
                assert(t[i].0 == id);
            }
            if stored_entries(s).contains_key(id) {
                let i = choose|i: int| {
                    &&& 0 <= i < t.len()
                    &&& t[i].0 == id
                    &&& stored_entries(t)[id] == t[i].1
                    &&& forall|j: int| i < j < t.len() ==> #[trigger] t[j].0 != id
                };
                assert(s[i] == t[i]);
                assert forall|j: int| i < j < s.len() implies #[trigger] s[j].0 != id by {
                    if j < t.len() {
                        assert(s[j] == t[j]);
                    }
                }
            }
        }
    }
}

/// The keys of a sequence of entries with distinct keys are its map's keys, each once.
proof fn lemma_ids_enumerate<V>(s: Seq<(Seq<char>, V)>)
    requires
        distinct_keys(s),
    ensures
        s.map_values(|p: (Seq<char>, V)| p.0).len() == s.len(),
        s.map_values(|p: (Seq<char>, V)| p.0).no_duplicates(),
        s.map_values(|p: (Seq<char>, V)| p.0).to_set() == pairs_map(s).dom(),
{
    let ks = s.map_values(|p: (Seq<char>, V)| p.0);
    assert forall|i: int, j: int| 0 <= i < ks.len() && 0 <= j < ks.len() && i != j implies ks[i] != ks[j] by {
        if i < j {
            assert(s[i].0 != s[j].0);
        } else {
            assert(s[j].0 != s[i].0);
        }
    }
    assert forall|k: Seq<char>| #[trigger] ks.to_set().contains(k) <==> pairs_map(s).dom().contains(k) by {
        if ks.contains(k) {
            let i = choose|i: int| 0 <= i < ks.len() && ks[i] == k;
            assert(s[i].0 == k);
        }
        if has_key(s, k) {
            let i = choose|i: int| 0 <= i < s.len() && s[i].0 == k;
            assert(ks[i] == k);
        }
    }
    assert(ks.to_set() =~= pairs_map(s).dom());
}

impl<D> EntityStatsState<D> {
    /// The entries, by entity id.
    pub closed spec fn entries(self) -> Map<Seq<char>, EntityEntry<D>> {
        self.entities@
    }

    /// The number of entities kept.
    pub closed spec fn size(self) -> nat {
        self.entities.pairs().len()
    }

    /// The ids of the kept entities, each once, in the order of the positions that
    /// `entry_at` takes.
    pub closed spec fn ids(self) -> Seq<Seq<char>> {
        self.entities.pairs().map_values(|p: (Seq<char>, EntityEntry<D>)| p.0)
    }

    /// The number of entities that the last successful poll listed, if there was one.
    pub closed spec fn entity_count(self) -> Option<usize> {
        self.last_entity_count
    }

    /// A state without entities and without a past poll.
    pub fn new() -> (r: EntityStatsState<D>)
        ensures
            r.entries() == Map::<Seq<char>, EntityEntry<D>>::empty(),
            r.entity_count() is None,
    {
        EntityStatsState { entities: Chart::new(), last_entity_count: None }
    }

    /// The number of entities kept.
    pub fn len(&self) -> (r: usize)
        ensures
            r == self.size(),
            self.ids().len() == self.size(),
            self.ids().no_duplicates(),
            self.ids().to_set() == self.entries().dom(),
    {
        proof {
            use_type_invariant(&self.entities);
            lemma_ids_enumerate(self.entities.pairs());
        }
        self.entities.len()
    }

    /// The entry kept for an entity id, if there is one.
    pub fn entry(&self, id: &str) -> (r: Option<&EntityEntry<D>>)
        ensures
            r is Some <==> self.entries().contains_key(id@),
            r matches Some(e) ==> *e == self.entries()[id@],
    {
        self.entities.get(id)
    }

    /// The id and entry at position `i`, for reporting every entity.
    pub fn entry_at(&self, i: usize) -> (r: (&String, &EntityEntry<D>))
        requires
            i < self.size(),
        ensures
            r.0@ == self.ids()[i as int],
            self.entries().contains_key(r.0@),
            self.entries()[r.0@] == *r.1,
    {
        proof {
            use_type_invariant(&self.entities);
        }
        let id = self.entities.key_at(i);
        let e = self.entities.value_at(i);
        proof {
            crate::chart::lemma_pairs_map_at(self.entities.pairs(), i as int);
        }
        (id, e)
    }

    /// The number of entities that the last successful poll listed, if there was one.
    pub fn last_entity_count(&self) -> (r: Option<usize>)
        ensures
            r == self.entity_count(),
    {
        self.last_entity_count
    }

    /// Keeps an entry for an entity id, replacing any entry it had.
    pub fn insert_entry(&mut self, id: String, entry: EntityEntry<D>)
        ensures
            final(self).entries() == old(self).entries().insert(id@, entry),
            final(self).entity_count() == old(self).entity_count(),
    {
        self.entities.insert(id, entry);
    }

    /// How the number of entities that a poll lists compares with the last poll.
    pub fn count_change(&self, count: usize) -> (r: CountChange)
        ensures
            self.entity_count() is None ==> r == CountChange::First(count),
            self.entity_count() matches Some(previous) ==> (if previous != count {
                r == CountChange::Changed { previous, current: count }
            } else {
                r == CountChange::Unchanged
            }),
    {
        match self.last_entity_count {
            None => CountChange::First(count),
            Some(previous) => {
                if previous != count {
                    CountChange::Changed { previous, current: count }
                } else {
                    CountChange::Unchanged
                }
            },
        }
    }

    /// Records a successful poll: the entities it listed were `count`, and `updated`
    /// holds the updated entry of every listed entity. Afterwards the state holds
    /// exactly those entries: unknown entities are added, and entities that were not
    /// listed any more are dropped.
    pub fn commit_poll(&mut self, count: usize, updated: Vec<(String, EntityEntry<D>)>)
        ensures
            final(self).entries() == stored_entries(
                keyed(updated@),
            ),
            final(self).entity_count() == Some(count),
    {
        let ghost s = keyed(updated@);
        let ghost n = s.len();
        let mut entities: Chart<EntityEntry<D>> = Chart::new();
        let mut rest = updated;
        assert(keyed(rest@) =~= s.skip(0));
        assert(s.take(0) =~= Seq::<(Seq<char>, EntityEntry<D>)>::empty());
        while rest.len() > 0
            invariant
                n == s.len(),
                rest@.len() <= n,
                keyed(rest@) == s.skip(n - rest@.len()),
                entities@ == stored_entries(s.take(n - rest@.len())),
            decreases rest@.len(),
        {
            let ghost k = n - rest@.len();
            let ghost before = rest@;
            let (id, entry) = rest.remove(0);
            proof {
                assert(s.skip(k)[0] == s[k]);
                assert(s.take(k + 1).drop_last() =~= s.take(k));
                assert(s.take(k + 1).last() == s[k]);
                assert(rest@ =~= before.subrange(1, before.len() as int));
                let bm = keyed(before);
                assert(bm == s.skip(k));
                assert forall|i: int| 0 <= i < rest@.len() implies #[trigger] keyed(rest@)[i] == s.skip(k + 1)[i] by {
                    assert(rest@[i] == before[i + 1]);
                    assert(bm[i + 1] == s.skip(k)[i + 1]);
                }
                assert(keyed(rest@) =~= s.skip(k + 1));
            }
            entities.insert(id, entry);
        }
        assert(s.take(n as int) =~= s);
        self.entities = entities;
        self.last_entity_count = Some(count);
    }

    /// The end of a poll: a successful outcome is recorded as `commit_poll` records it;
    /// a failed poll leaves the state as it was, and its error is handed back.
    pub fn poll<E>(&mut self, outcome: Result<(usize, Vec<(String, EntityEntry<D>)>), E>) -> (r: Result<(), E>)
        ensures
            outcome matches Err(e) ==> *final(self) == *old(self) && r == Err::<(), E>(e),
            outcome matches Ok((count, updated)) ==> r is Ok && final(self).entries() == stored_entries(
                keyed(updated@),
            ) && final(self).entity_count() == Some(count),
    {
        match outcome {
            Ok((count, updated)) => {
                self.commit_poll(count, updated);
                Ok(())
            },
            Err(e) => Err(e),
        }
    }
}

impl<D: Clone + Default> EntityStatsState<D> {
    /// The entry that a poll updates for a listed entity: a copy of the kept entry of
    /// that id, or, for an unknown id, an entry without complete days and with default
    /// statistics; in either case with the label that the entity list gives.
    pub fn prepare_entry(&self, id: &str, label: String) -> (r: EntityEntry<D>)
        ensures
            r.label == label,
            self.entries().contains_key(id@) ==> ({
                let kept = self.entries()[id@];
                &&& r.last_complete_day == kept.last_complete_day
                &&& cloned(kept.last_complete_day_state, r.last_complete_day_state)
                &&& cloned(kept.current_day_state, r.current_day_state)
            }),
            !self.entries().contains_key(id@) ==> ({
                &&& r.last_complete_day is None
                &&& call_ensures(D::default, (), r.last_complete_day_state)
                &&& call_ensures(D::default, (), r.current_day_state)
            }),
    {
        match self.entities.get(id) {
            Some(kept) => EntityEntry {
                label,
                last_complete_day: kept.last_complete_day,
                last_complete_day_state: kept.last_complete_day_state.clone(),
                current_day_state: kept.current_day_state.clone(),
            },
            None => EntityEntry {
                label,
                last_complete_day: None,
                last_complete_day_state: D::default(),
                current_day_state: D::default(),
            },
        }
    }
}

} // verus!
