use vstd::prelude::*;

use crate::bunny::EdgeScript;
use crate::text::{decimal, decimal_text};

use crate::entity_stats::{DayData, EntityType};

verus! {

/// The edge script category: per script, requests served and processor time.
pub struct EdgeScriptKind;

impl EntityType for EdgeScriptKind {
    type Entity = EdgeScript;

    /// A script is known by its numeric id, written in decimal.
    open spec fn id_of(entity: &EdgeScript) -> Seq<char> {
        decimal_text(entity.id as nat)
    }

    /// A script is labelled by its name.
    open spec fn label_of(entity: &EdgeScript) -> Seq<char> {
        entity.name@
    }

    fn entity_id(entity: &EdgeScript) -> (r: String) {
        decimal(entity.id)
    }

    fn entity_label(entity: &EdgeScript) -> (r: String) {
        entity.name.clone()
    }
}

/// An edge script's counters: requests served and processor time used.
#[derive(Clone, Copy, Debug, PartialEq, Eq, Structural)]
pub struct EdgeScriptCounters {
    pub requests_served: u64,
    pub total_cpu_time: u64,
}

impl View for EdgeScriptCounters {
    type V = EdgeScriptCounters;

    open spec fn view(&self) -> EdgeScriptCounters {
        *self
    }
}

impl Default for EdgeScriptCounters {
    fn default() -> (r: Self)
        ensures
            r == (EdgeScriptCounters { requests_served: 0, total_cpu_time: 0 }),
    {
        EdgeScriptCounters { requests_served: 0, total_cpu_time: 0 }
    }
}

impl DayData for EdgeScriptCounters {
    /// Both counters add up.
    open spec fn accumulated(total: EdgeScriptCounters, day: EdgeScriptCounters) -> EdgeScriptCounters {
        EdgeScriptCounters {
            requests_served: (total.requests_served + day.requests_served) as u64,
            total_cpu_time: (total.total_cpu_time + day.total_cpu_time) as u64,
        }
    }

    open spec fn can_accumulate(total: EdgeScriptCounters, day: EdgeScriptCounters) -> bool {
        &&& total.requests_served + day.requests_served <= u64::MAX
        &&& total.total_cpu_time + day.total_cpu_time <= u64::MAX
    }

    /// Each counter keeps the larger of the two fetches.
    open spec fn merged(current: EdgeScriptCounters, snapshot: EdgeScriptCounters) -> EdgeScriptCounters {
        EdgeScriptCounters {
            requests_served: if current.requests_served >= snapshot.requests_served {
                current.requests_served
            } else {
                snapshot.requests_served
            },
            total_cpu_time: if current.total_cpu_time >= snapshot.total_cpu_time {
                current.total_cpu_time
            } else {
                snapshot.total_cpu_time
            },
        }
    }

    open spec fn zero() -> EdgeScriptCounters {
        EdgeScriptCounters { requests_served: 0, total_cpu_time: 0 }
    }

    proof fn lemma_merge_idempotent(current: EdgeScriptCounters, snapshot: EdgeScriptCounters) {
    }

    proof fn lemma_merge_into_zero(snapshot: EdgeScriptCounters) {
    }

    proof fn lemma_accumulate_zero(total: EdgeScriptCounters) {
    }

    proof fn lemma_accumulate_associative(a: EdgeScriptCounters, b: EdgeScriptCounters, c: EdgeScriptCounters) {
    }

    fn accumulate(&mut self, day: Self) {
        self.requests_served = self.requests_served + day.requests_served;
        self.total_cpu_time = self.total_cpu_time + day.total_cpu_time;
    }

    fn merge_latest(&mut self, snapshot: Self) {
        if snapshot.requests_served > self.requests_served {
            self.requests_served = snapshot.requests_served;
        }
        if snapshot.total_cpu_time > self.total_cpu_time {
            self.total_cpu_time = snapshot.total_cpu_time;
        }
    }

    fn empty() -> (r: Self) {
        EdgeScriptCounters { requests_served: 0, total_cpu_time: 0 }
    }

    fn can_add(&self, day: &Self) -> (r: bool) {
        self.requests_served <= u64::MAX - day.requests_served && self.total_cpu_time <= u64::MAX
            - day.total_cpu_time
    }
}


/// Adding a day adds each counter on its own, and can be done exactly when no counter
/// leaves `u64`; data on which nothing was counted has every counter at zero.
pub proof fn lemma_edge_script_accumulate_adds_each_counter(t: EdgeScriptCounters, d: EdgeScriptCounters)
    ensures
        <EdgeScriptCounters as DayData>::can_accumulate(t, d) <==> (t.requests_served + d.requests_served <= u64::MAX && t.total_cpu_time + d.total_cpu_time <= u64::MAX),
        <EdgeScriptCounters as DayData>::can_accumulate(t, d) ==> <EdgeScriptCounters as DayData>::accumulated(t, d).requests_served == t.requests_served + d.requests_served,
        <EdgeScriptCounters as DayData>::can_accumulate(t, d) ==> <EdgeScriptCounters as DayData>::accumulated(t, d).total_cpu_time == t.total_cpu_time + d.total_cpu_time,
        <EdgeScriptCounters as DayData>::zero().requests_served == 0,
        <EdgeScriptCounters as DayData>::zero().total_cpu_time == 0,
{
}

/// Folding in a newer fetch of the day keeps, for each counter, the larger of the two
/// values, so no counter goes down.
pub proof fn lemma_edge_script_merge_keeps_larger(c: EdgeScriptCounters, s: EdgeScriptCounters)
    ensures
        <EdgeScriptCounters as DayData>::merged(c, s).requests_served >= c.requests_served,
        <EdgeScriptCounters as DayData>::merged(c, s).requests_served >= s.requests_served,
        <EdgeScriptCounters as DayData>::merged(c, s).requests_served == c.requests_served || <EdgeScriptCounters as DayData>::merged(c, s).requests_served == s.requests_served,
        <EdgeScriptCounters as DayData>::merged(c, s).total_cpu_time >= c.total_cpu_time,
        <EdgeScriptCounters as DayData>::merged(c, s).total_cpu_time >= s.total_cpu_time,
        <EdgeScriptCounters as DayData>::merged(c, s).total_cpu_time == c.total_cpu_time || <EdgeScriptCounters as DayData>::merged(c, s).total_cpu_time == s.total_cpu_time,
{
}

} // verus!
