use vstd::prelude::*;

verus! {

/// What became of one collector in a poll cycle.
#[derive(Clone, Copy, Debug, PartialEq, Eq, Structural)]
pub enum CollectorOutcome {
    /// The poll failed; the collector's state stays as it was.
    PollFailed,
    /// The poll succeeded but its state could not be saved.
    SaveFailed,
    /// The poll succeeded and its state was saved.
    Updated,
}

/// The number of collectors among `s` that were polled and saved.
pub open spec fn updated_count(s: Seq<CollectorOutcome>) -> nat
    decreases s.len(),
{
    if s.len() == 0 {
        0
    } else {
        updated_count(s.drop_last()) + if s.last() == CollectorOutcome::Updated {
            1nat
        } else {
            0nat
        }
    }
}

/// A cycle counts every collector as updated exactly when each of them was polled and
/// saved; no cycle counts more updates than collectors.
pub proof fn lemma_updated_count_full(s: Seq<CollectorOutcome>)
    ensures
        updated_count(s) <= s.len(),
        updated_count(s) == s.len() <==> forall|i: int| 0 <= i < s.len() ==> s[i] == CollectorOutcome::Updated,
    decreases s.len(),
{
    if s.len() > 0 {
        let t = s.drop_last();
        lemma_updated_count_full(t);
        assert forall|i: int| 0 <= i < t.len() implies t[i] == s[i] by {}
        if forall|i: int| 0 <= i < s.len() ==> s[i] == CollectorOutcome::Updated {
            assert forall|i: int| 0 <= i < t.len() implies t[i] == CollectorOutcome::Updated by {
                assert(s[i] == CollectorOutcome::Updated);
            }
            assert(s[s.len() - 1] == CollectorOutcome::Updated);
        }
        if updated_count(s) == s.len() {
            assert forall|i: int| 0 <= i < s.len() implies s[i] == CollectorOutcome::Updated by {
                if i < t.len() {
                    assert(t[i] == CollectorOutcome::Updated);
                }
            }
        }
    }
}

/// What the poll loop does next in a cycle.
#[derive(Clone, Copy, Debug, PartialEq, Eq, Structural)]
pub enum TickAction {
    /// Poll the collector at this position.
    Poll(usize),
    /// Save the state of the collector at this position, whose poll succeeded; then set
    /// its update time.
    Save(usize),
    /// Every collector is done: set the time of the update attempt, and, where the cycle
    /// was successful, the time of the last successful update.
    Finish { successful: bool },
}

/// The tally of one poll cycle over the enabled collectors, and the steps of the cycle:
/// every collector is polled once, in order, also after an earlier one failed; a
/// collector's state is saved exactly when its poll succeeded.
pub struct CycleTally {
    total: usize,
    recorded: usize,
    succeeded: usize,
    awaiting_save: bool,
    outcomes: Ghost<Seq<CollectorOutcome>>,
}

impl CycleTally {
    /// The counts agree with the outcomes recorded so far.
    #[verifier::type_invariant]
    spec fn consistent(self) -> bool {
        &&& self.recorded as nat == self.outcomes@.len()
        &&& self.succeeded as nat == updated_count(self.outcomes@)
        &&& self.recorded <= self.total
        &&& self.awaiting_save ==> self.recorded < self.total
    }

    /// The number of collectors the cycle polls.
    pub closed spec fn total_count(self) -> nat {
        self.total as nat
    }

    /// The number of collectors whose outcome is recorded.
    pub closed spec fn recorded_count(self) -> nat {
        self.recorded as nat
    }

    /// The number of collectors that were polled and saved.
    pub closed spec fn succeeded_count(self) -> nat {
        self.succeeded as nat
    }

    /// The poll of the next collector succeeded and its state is still to be saved.
    pub closed spec fn awaiting(self) -> bool {
        self.awaiting_save
    }

    /// The outcomes recorded so far, in the order of the collectors.
    pub closed spec fn outcomes(self) -> Seq<CollectorOutcome> {
        self.outcomes@
    }

    /// The steps left before the cycle finishes: a poll and a save per collector not
    /// yet recorded, less the poll already done for one awaiting its save.
    pub open spec fn steps_left(self) -> int {
        2 * (self.total_count() - self.recorded_count()) - if self.awaiting() {
            1int
        } else {
            0int
        }
    }

    /// Every collector recorded was polled and saved.
    pub open spec fn all_updated(self) -> bool {
        forall|i: int| 0 <= i < self.outcomes().len() ==> #[trigger] self.outcomes()[i] == CollectorOutcome::Updated
    }

    /// A cycle over `total` collectors, before any is polled.
    pub fn new(total: usize) -> (r: CycleTally)
        ensures
            r.total_count() == total,
            r.recorded_count() == 0,
            r.succeeded_count() == 0,
            !r.awaiting(),
            r.outcomes() == Seq::<CollectorOutcome>::empty(),
    {
        CycleTally { total, recorded: 0, succeeded: 0, awaiting_save: false, outcomes: Ghost(Seq::empty()) }
    }

    /// What the loop does next: save the collector whose poll just succeeded; else poll
    /// the next collector; after the last one, finish, successfully exactly when every
    /// collector was polled and saved.
    pub fn next_action(&self) -> (r: TickAction)
        ensures
            self.awaiting() ==> r == TickAction::Save(self.recorded_count() as usize),
            !self.awaiting() && self.recorded_count() < self.total_count() ==> r == TickAction::Poll(
                self.recorded_count() as usize,
            ),
            !self.awaiting() && self.recorded_count() >= self.total_count() ==> r == (TickAction::Finish {
                successful: self.all_updated(),
            }),
            self.recorded_count() <= self.total_count(),
            self.awaiting() ==> self.recorded_count() < self.total_count(),
    {
        proof {
            use_type_invariant(self);
            lemma_updated_count_full(self.outcomes@);
        }
        if self.awaiting_save {
            TickAction::Save(self.recorded)
        } else if self.recorded < self.total {
            TickAction::Poll(self.recorded)
        } else {
            TickAction::Finish { successful: self.succeeded == self.total }
        }
    }

    /// Records the end of the next collector's poll. A failed poll is its outcome and
    /// the loop moves on; after a successful one its state is to be saved.
    pub fn poll_finished(&mut self, ok: bool)
        requires
            !old(self).awaiting(),
            old(self).recorded_count() < old(self).total_count(),
        ensures
            final(self).total_count() == old(self).total_count(),
            final(self).steps_left() < old(self).steps_left(),
            ok ==> final(self).awaiting() && final(self).outcomes() == old(self).outcomes()
                && final(self).recorded_count() == old(self).recorded_count(),
            !ok ==> !final(self).awaiting() && final(self).outcomes() == old(self).outcomes().push(
                CollectorOutcome::PollFailed,
            ) && final(self).recorded_count() == old(self).recorded_count() + 1,
    {
        proof {
            use_type_invariant(&*self);
        }
        if ok {
            *self = CycleTally {
                total: self.total,
                recorded: self.recorded,
                succeeded: self.succeeded,
                awaiting_save: true,
                outcomes: Ghost(self.outcomes@),
            };
        } else {
            self.record(false, false);
        }
    }

    /// Records the end of saving the state of the collector whose poll succeeded.
    pub fn save_finished(&mut self, ok: bool)
        requires
            old(self).awaiting(),
        ensures
            final(self).total_count() == old(self).total_count(),
            final(self).steps_left() < old(self).steps_left(),
            !final(self).awaiting(),
            final(self).recorded_count() == old(self).recorded_count() + 1,
            final(self).outcomes() == old(self).outcomes().push(
                if ok {
                    CollectorOutcome::Updated
                } else {
                    CollectorOutcome::SaveFailed
                },
            ),
    {
        proof {
            use_type_invariant(&*self);
        }
        *self = CycleTally {
            total: self.total,
            recorded: self.recorded,
            succeeded: self.succeeded,
            awaiting_save: false,
            outcomes: Ghost(self.outcomes@),
        };
        self.record(true, ok);
    }

    /// Records what became of the next collector: its poll failed, or its poll
    /// succeeded and saving its state failed or succeeded. Only the last counts as a
    /// success. The outcome says whether the collector's update time is to be set:
    /// it is, for every poll that succeeded.
    pub fn record(&mut self, polled: bool, saved: bool) -> (r: CollectorOutcome)
        requires
            !old(self).awaiting(),
            old(self).recorded_count() < old(self).total_count(),
        ensures
            final(self).total_count() == old(self).total_count(),
            final(self).recorded_count() == old(self).recorded_count() + 1,
            final(self).succeeded_count() <= final(self).recorded_count(),
            !final(self).awaiting(),
            final(self).outcomes() == old(self).outcomes().push(r),
            !polled ==> r == CollectorOutcome::PollFailed,
            polled && !saved ==> r == CollectorOutcome::SaveFailed,
            polled && saved ==> r == CollectorOutcome::Updated,
            final(self).succeeded_count() == old(self).succeeded_count() + if r == CollectorOutcome::Updated {
                1nat
            } else {
                0nat
            },
    {
        proof {
            use_type_invariant(&*self);
            lemma_updated_count_full(self.outcomes@);
        }
        let (r, succeeded) = if !polled {
            (CollectorOutcome::PollFailed, self.succeeded)
        } else if !saved {
            (CollectorOutcome::SaveFailed, self.succeeded)
        } else {
            (CollectorOutcome::Updated, self.succeeded + 1)
        };
        let ghost outcomes = self.outcomes@.push(r);
        assert(outcomes.drop_last() =~= self.outcomes@);
        proof {
            lemma_updated_count_full(outcomes);
        }
        *self = CycleTally {
            total: self.total,
            recorded: self.recorded + 1,
            succeeded,
            awaiting_save: false,
            outcomes: Ghost(outcomes),
        };
        r
    }

    /// The number of collectors that were polled and saved.
    pub fn succeeded(&self) -> (r: usize)
        ensures
            r == self.succeeded_count(),
    {
        self.succeeded
    }

    /// Whether the cycle counts as a successful update: every collector of the cycle
    /// was polled and saved. Once every collector is recorded, that is so exactly when
    /// every recorded outcome is `Updated`.
    pub fn all_succeeded(&self) -> (r: bool)
        ensures
            r == (self.succeeded_count() == self.total_count()),
            self.recorded_count() == self.total_count() ==> (r <==> self.all_updated()),
    {
        proof {
            use_type_invariant(self);
            lemma_updated_count_full(self.outcomes@);
        }
        self.succeeded == self.total
    }
}

/// A whole cycle, step by step: after the steps of `next_action`, `poll_finished` and
/// `save_finished`, at `Finish` every collector has exactly one outcome, in order; the
/// outcome of a collector is `PollFailed` exactly when its poll failed, so it was saved
/// exactly when its poll succeeded; and the cycle is successful exactly when every poll
/// and every save succeeded.
pub proof fn lemma_finished_cycle(t: CycleTally, polls: Seq<bool>, saves: Seq<bool>)
    requires
        !t.awaiting(),
        t.recorded_count() >= t.total_count(),
        polls.len() == t.outcomes().len(),
        saves.len() == t.outcomes().len(),
        forall|i: int| 0 <= i < polls.len() ==> #[trigger] t.outcomes()[i] == if !polls[i] {
            CollectorOutcome::PollFailed
        } else if saves[i] {
            CollectorOutcome::Updated
        } else {
            CollectorOutcome::SaveFailed
        },
    ensures
        forall|i: int| 0 <= i < polls.len() ==> (#[trigger] t.outcomes()[i] == CollectorOutcome::PollFailed <==> !polls[i]),
        t.all_updated() <==> forall|i: int| 0 <= i < polls.len() ==> #[trigger] polls[i] && saves[i],
{
    if t.all_updated() {
        assert forall|i: int| 0 <= i < polls.len() implies #[trigger] polls[i] && saves[i] by {
            assert(t.outcomes()[i] == CollectorOutcome::Updated);
        }
    }
    if forall|i: int| 0 <= i < polls.len() ==> #[trigger] polls[i] && saves[i] {
        assert forall|i: int| 0 <= i < t.outcomes().len() implies #[trigger] t.outcomes()[i] == CollectorOutcome::Updated by {
            assert(polls[i] && saves[i]);
        }
    }
}

/// The page cursor of a paged listing.
pub struct Pages {
    page: u32,
    finished: bool,
}

impl Pages {
    /// The number of the page to fetch next.
    pub closed spec fn page_number(self) -> nat {
        self.page as nat
    }

    /// The listing has fetched its last page.
    pub closed spec fn is_done(self) -> bool {
        self.finished
    }

    /// A listing that starts at page 1.
    pub fn new() -> (r: Pages)
        ensures
            r.page_number() == 1,
            !r.is_done(),
    {
        Pages { page: 1, finished: false }
    }

    /// The number of the page to fetch next.
    pub fn current(&self) -> (r: u32)
        ensures
            r == self.page_number(),
    {
        self.page
    }

    /// Whether the listing has fetched its last page.
    pub fn finished(&self) -> (r: bool)
        ensures
            r == self.is_done(),
    {
        self.finished
    }

    /// Records a fetched page of a listing that says whether more items follow: the
    /// listing ends with an empty page or a page that says no more items follow, and
    /// goes on to the next page number otherwise.
    pub fn after_page(&mut self, page_was_empty: bool, has_more_items: bool)
        requires
            !old(self).is_done(),
            old(self).page_number() < u32::MAX,
        ensures
            final(self).page_number() == old(self).page_number() + 1,
            final(self).is_done() == (page_was_empty || !has_more_items),
    {
        self.finished = page_was_empty || !has_more_items;
        self.page = self.page + 1;
    }

    /// Records a fetched page of a listing that names its next page: the listing goes
    /// on to that page, and ends where the page names none.
    pub fn after_data_page(&mut self, next_page: Option<u32>)
        requires
            !old(self).is_done(),
        ensures
            next_page matches Some(n) ==> final(self).page_number() == n && !final(self).is_done(),
            next_page is None ==> final(self).is_done() && final(self).page_number() == old(self).page_number(),
    {
        match next_page {
            Some(n) => {
                self.page = n;
            },
            None => {
                self.finished = true;
            },
        }
    }
}

/// Where the access key is read from.
#[derive(Clone, Copy, Debug, PartialEq, Eq, Structural)]
pub enum AccessKeySource {
    CommandLine,
    File,
    Environment,
}

/// The source of the access key: the command line where a key is given there, else
/// the key file where one is given, else the environment.
pub fn access_key_source(key_given: bool, key_file_given: bool) -> (r: AccessKeySource)
    ensures
        key_given ==> r == AccessKeySource::CommandLine,
        !key_given && key_file_given ==> r == AccessKeySource::File,
        !key_given && !key_file_given ==> r == AccessKeySource::Environment,
{
    if key_given {
        AccessKeySource::CommandLine
    } else if key_file_given {
        AccessKeySource::File
    } else {
        AccessKeySource::Environment
    }
}

/// A character has the Unicode White_Space property (PropList.txt), as
/// `char::is_whitespace` tells.
pub open spec fn white_space(c: char) -> bool {
    ||| '\u{9}' <= c <= '\u{d}'
    ||| c == ' '
    ||| c == '\u{85}'
    ||| c == '\u{a0}'
    ||| c == '\u{1680}'
    ||| '\u{2000}' <= c <= '\u{200a}'
    ||| c == '\u{2028}'
    ||| c == '\u{2029}'
    ||| c == '\u{202f}'
    ||| c == '\u{205f}'
    ||| c == '\u{3000}'
}

/// `r` is `s` without its leading and trailing white space.
pub open spec fn trimmed(s: Seq<char>, r: Seq<char>) -> bool {
    exists|i: int, j: int| {
        &&& 0 <= i <= j <= s.len()
        &&& r == s.subrange(i, j)
        &&& (forall|k: int| 0 <= k < i ==> white_space(#[trigger] s[k]))
        &&& (forall|k: int| j <= k < s.len() ==> white_space(#[trigger] s[k]))
        &&& (i < j ==> !white_space(s[i]) && !white_space(s[j - 1]))
    }
}

/// Whether a character has the Unicode White_Space property.
fn is_white_space(c: char) -> (r: bool)
    ensures
        r == white_space(c),
{
    ('\u{9}' <= c && c <= '\u{d}') || c == ' ' || c == '\u{85}' || c == '\u{a0}' || c == '\u{1680}' || (
    '\u{2000}' <= c && c <= '\u{200a}') || c == '\u{2028}' || c == '\u{2029}' || c == '\u{202f}' || c
        == '\u{205f}' || c == '\u{3000}'
}

/// The text without its leading and trailing white space, as `str::trim` removes it.
fn trim_text(s: &str) -> (r: String)
    ensures
        trimmed(s@, r@),
        r@.len() > 0 ==> !white_space(r@[0]) && !white_space(r@[r@.len() - 1]),
{
    let n = s.unicode_len();
    let mut i: usize = 0;
    while i < n && is_white_space(s.get_char(i))
        invariant
            n == s@.len(),
            i <= n,
            forall|k: int| 0 <= k < i ==> white_space(#[trigger] s@[k]),
        decreases n - i,
    {
        i = i + 1;
    }
    let mut j: usize = n;
    while j > i && is_white_space(s.get_char(j - 1))
        invariant
            n == s@.len(),
            i <= j <= n,
            forall|k: int| j <= k < n ==> white_space(#[trigger] s@[k]),
        decreases j - i,
    {
        j = j - 1;
    }
    let r = s.substring_char(i, j).to_owned();
    proof {
        assert(i < j ==> !white_space(s@[i as int]) && !white_space(s@[j - 1]));
        assert(r@ == s@.subrange(i as int, j as int));
        assert(trimmed(s@, r@)) by {
            assert(0 <= i <= j <= s@.len());
        }
        if r@.len() > 0 {
            assert(r@[0] == s@[i as int]);
            assert(r@[r@.len() - 1] == s@[j - 1]);
        }
    }
    r
}

/// Why an access key was refused.
#[derive(Clone, Copy, Debug, PartialEq, Eq, Structural)]
pub enum AccessKeyError {
    /// Nothing is left of the key once white space is removed.
    Empty,
}

/// The access key as it is used: without leading and trailing white space; a key of
/// white space alone is refused.
pub fn normalize_access_key(raw: &str) -> (r: Result<String, AccessKeyError>)
    ensures
        r matches Ok(k) ==> trimmed(raw@, k@) && k@.len() > 0,
        r matches Err(e) ==> e == AccessKeyError::Empty && trimmed(raw@, Seq::<char>::empty()),
{
    let key = trim_text(raw);
    if key.as_str().unicode_len() == 0 {
        assert(key@ =~= Seq::<char>::empty());
        Err(AccessKeyError::Empty)
    } else {
        Ok(key)
    }
}

} // verus!
