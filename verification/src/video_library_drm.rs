use vstd::prelude::*;

use crate::bunny::VideoLibrary;
use crate::entity_stats::{DayData, EntityType};
use crate::text::{decimal, decimal_text};

verus! {

/// The video DRM category: per library, licenses issued.
pub struct VideoLibraryDrmKind;

impl EntityType for VideoLibraryDrmKind {
    type Entity = VideoLibrary;

    /// A library is known by its numeric id, written in decimal.
    open spec fn id_of(entity: &VideoLibrary) -> Seq<char> {
        decimal_text(entity.id as nat)
    }

    /// A library is labelled by its name.
    open spec fn label_of(entity: &VideoLibrary) -> Seq<char> {
        entity.name@
    }

    fn entity_id(entity: &VideoLibrary) -> (r: String) {
        decimal(entity.id)
    }

    fn entity_label(entity: &VideoLibrary) -> (r: String) {
        entity.name.clone()
    }
}

/// Licenses issued.
#[derive(Clone, Copy, Debug, PartialEq, Eq, Structural)]
pub struct VideoLibraryDrmDayData {
    pub licenses_issued: u64,
}

impl View for VideoLibraryDrmDayData {
    type V = VideoLibraryDrmDayData;

    open spec fn view(&self) -> VideoLibraryDrmDayData {
        *self
    }
}

impl Default for VideoLibraryDrmDayData {
    fn default() -> (r: Self)
        ensures
            r == (VideoLibraryDrmDayData { licenses_issued: 0 }),
    {
        VideoLibraryDrmDayData { licenses_issued: 0 }
    }
}

impl DayData for VideoLibraryDrmDayData {
    /// The counter adds up.
    open spec fn accumulated(total: VideoLibraryDrmDayData, day: VideoLibraryDrmDayData) -> VideoLibraryDrmDayData {
        VideoLibraryDrmDayData { licenses_issued: (total.licenses_issued + day.licenses_issued) as u64 }
    }

    open spec fn can_accumulate(total: VideoLibraryDrmDayData, day: VideoLibraryDrmDayData) -> bool {
        total.licenses_issued + day.licenses_issued <= u64::MAX
    }

    /// The counter keeps the larger of the two fetches.
    open spec fn merged(current: VideoLibraryDrmDayData, snapshot: VideoLibraryDrmDayData) -> VideoLibraryDrmDayData {
        if current.licenses_issued >= snapshot.licenses_issued {
            current
        } else {
            snapshot
        }
    }

    open spec fn zero() -> VideoLibraryDrmDayData {
        VideoLibraryDrmDayData { licenses_issued: 0 }
    }

    proof fn lemma_merge_idempotent(current: VideoLibraryDrmDayData, snapshot: VideoLibraryDrmDayData) {
    }

    proof fn lemma_merge_into_zero(snapshot: VideoLibraryDrmDayData) {
    }

    proof fn lemma_accumulate_zero(total: VideoLibraryDrmDayData) {
    }

    proof fn lemma_accumulate_associative(a: VideoLibraryDrmDayData, b: VideoLibraryDrmDayData, c: VideoLibraryDrmDayData) {
    }

    fn accumulate(&mut self, day: Self) {
        self.licenses_issued = self.licenses_issued + day.licenses_issued;
    }

    fn merge_latest(&mut self, snapshot: Self) {
        if snapshot.licenses_issued > self.licenses_issued {
            self.licenses_issued = snapshot.licenses_issued;
        }
    }

    fn empty() -> (r: Self) {
        VideoLibraryDrmDayData { licenses_issued: 0 }
    }

    fn can_add(&self, day: &Self) -> (r: bool) {
        self.licenses_issued <= u64::MAX - day.licenses_issued
    }
}


/// Adding a day adds each counter on its own, and can be done exactly when no counter
/// leaves `u64`; data on which nothing was counted has every counter at zero.
pub proof fn lemma_drm_accumulate_adds_each_counter(t: VideoLibraryDrmDayData, d: VideoLibraryDrmDayData)
    ensures
        <VideoLibraryDrmDayData as DayData>::can_accumulate(t, d) <==> (t.licenses_issued + d.licenses_issued <= u64::MAX),
        <VideoLibraryDrmDayData as DayData>::can_accumulate(t, d) ==> <VideoLibraryDrmDayData as DayData>::accumulated(t, d).licenses_issued == t.licenses_issued + d.licenses_issued,
        <VideoLibraryDrmDayData as DayData>::zero().licenses_issued == 0,
{
}

/// Folding in a newer fetch of the day keeps, for each counter, the larger of the two
/// values, so no counter goes down.
pub proof fn lemma_drm_merge_keeps_larger(c: VideoLibraryDrmDayData, s: VideoLibraryDrmDayData)
    ensures
        <VideoLibraryDrmDayData as DayData>::merged(c, s).licenses_issued >= c.licenses_issued,
        <VideoLibraryDrmDayData as DayData>::merged(c, s).licenses_issued >= s.licenses_issued,
        <VideoLibraryDrmDayData as DayData>::merged(c, s).licenses_issued == c.licenses_issued || <VideoLibraryDrmDayData as DayData>::merged(c, s).licenses_issued == s.licenses_issued,
{
}

} // verus!
