use vstd::prelude::*;

use crate::bunny::VideoLibrary;
use crate::entity_stats::{DayData, EntityType};
use crate::text::{decimal, decimal_text};

verus! {

/// The video transcribing category: per library, seconds transcribed.
pub struct VideoLibraryTranscribingKind;

impl EntityType for VideoLibraryTranscribingKind {
    type Entity = VideoLibrary;

    /// A library is known by its numeric id, written in decimal.
    open spec fn id_of(entity: &VideoLibrary) -> Seq<char> {
        decimal_text(entity.id as nat)
    }

    /// A library is labelled by its name.
    open spec fn label_of(entity: &VideoLibrary) -> Seq<char> {
        entity.name@
    }

    fn entity_id(entity: &VideoLibrary) -> (r: String) {
        decimal(entity.id)
    }

    fn entity_label(entity: &VideoLibrary) -> (r: String) {
        entity.name.clone()
    }
}

/// Seconds transcribed.
#[derive(Clone, Copy, Debug, PartialEq, Eq, Structural)]
pub struct VideoLibraryTranscribingDayData {
    pub transcription_seconds: u64,
}

impl View for VideoLibraryTranscribingDayData {
    type V = VideoLibraryTranscribingDayData;

    open spec fn view(&self) -> VideoLibraryTranscribingDayData {
        *self
    }
}

impl Default for VideoLibraryTranscribingDayData {
    fn default() -> (r: Self)
        ensures
            r == (VideoLibraryTranscribingDayData { transcription_seconds: 0 }),
    {
        VideoLibraryTranscribingDayData { transcription_seconds: 0 }
    }
}

impl DayData for VideoLibraryTranscribingDayData {
    /// The counter adds up.
    open spec fn accumulated(total: VideoLibraryTranscribingDayData, day: VideoLibraryTranscribingDayData) -> VideoLibraryTranscribingDayData {
        VideoLibraryTranscribingDayData { transcription_seconds: (total.transcription_seconds + day.transcription_seconds) as u64 }
    }

    open spec fn can_accumulate(total: VideoLibraryTranscribingDayData, day: VideoLibraryTranscribingDayData) -> bool {
        total.transcription_seconds + day.transcription_seconds <= u64::MAX
    }

    /// The counter keeps the larger of the two fetches.
    open spec fn merged(current: VideoLibraryTranscribingDayData, snapshot: VideoLibraryTranscribingDayData) -> VideoLibraryTranscribingDayData {
        if current.transcription_seconds >= snapshot.transcription_seconds {
            current
        } else {
            snapshot
        }
    }

    open spec fn zero() -> VideoLibraryTranscribingDayData {
        VideoLibraryTranscribingDayData { transcription_seconds: 0 }
    }

    proof fn lemma_merge_idempotent(current: VideoLibraryTranscribingDayData, snapshot: VideoLibraryTranscribingDayData) {
    }

    proof fn lemma_merge_into_zero(snapshot: VideoLibraryTranscribingDayData) {
    }

    proof fn lemma_accumulate_zero(total: VideoLibraryTranscribingDayData) {
    }

    proof fn lemma_accumulate_associative(a: VideoLibraryTranscribingDayData, b: VideoLibraryTranscribingDayData, c: VideoLibraryTranscribingDayData) {
    }

    fn accumulate(&mut self, day: Self) {
        self.transcription_seconds = self.transcription_seconds + day.transcription_seconds;
    }

    fn merge_latest(&mut self, snapshot: Self) {
        if snapshot.transcription_seconds > self.transcription_seconds {
            self.transcription_seconds = snapshot.transcription_seconds;
        }
    }

    fn empty() -> (r: Self) {
        VideoLibraryTranscribingDayData { transcription_seconds: 0 }
    }

    fn can_add(&self, day: &Self) -> (r: bool) {
        self.transcription_seconds <= u64::MAX - day.transcription_seconds
    }
}


/// Adding a day adds each counter on its own, and can be done exactly when no counter
/// leaves `u64`; data on which nothing was counted has every counter at zero.
pub proof fn lemma_transcribing_accumulate_adds_each_counter(t: VideoLibraryTranscribingDayData, d: VideoLibraryTranscribingDayData)
    ensures
        <VideoLibraryTranscribingDayData as DayData>::can_accumulate(t, d) <==> (t.transcription_seconds + d.transcription_seconds <= u64::MAX),
        <VideoLibraryTranscribingDayData as DayData>::can_accumulate(t, d) ==> <VideoLibraryTranscribingDayData as DayData>::accumulated(t, d).transcription_seconds == t.transcription_seconds + d.transcription_seconds,
        <VideoLibraryTranscribingDayData as DayData>::zero().transcription_seconds == 0,
{
}

/// Folding in a newer fetch of the day keeps, for each counter, the larger of the two
/// values, so no counter goes down.
pub proof fn lemma_transcribing_merge_keeps_larger(c: VideoLibraryTranscribingDayData, s: VideoLibraryTranscribingDayData)
    ensures
        <VideoLibraryTranscribingDayData as DayData>::merged(c, s).transcription_seconds >= c.transcription_seconds,
        <VideoLibraryTranscribingDayData as DayData>::merged(c, s).transcription_seconds >= s.transcription_seconds,
        <VideoLibraryTranscribingDayData as DayData>::merged(c, s).transcription_seconds == c.transcription_seconds || <VideoLibraryTranscribingDayData as DayData>::merged(c, s).transcription_seconds == s.transcription_seconds,
{
}

} // verus!
