use vstd::prelude::*;

use crate::bunny::{CountryViewCounts, CountryWatchTime, VideoLibrary, VideoLibraryStats};
use crate::chart::{
    is_keywise_max, is_keywise_sum, lemma_max_counts_is_keywise_max, lemma_summed_counts_is_keywise_sum,
    Chart, counts_addable, counts_fit, exact_found, lemma_max_counts_idempotent, lemma_summed_counts_associative,
    lemma_summed_counts_empty, exact_lookup, find_chart_value_for_date, max_counts,
    summed_counts, sum_chart_values, values_total, FieldError,
};
use crate::date::Date;
use crate::entity_stats::{DayData, EntityType};
use crate::text::{decimal, decimal_text};

verus! {

/// The video library category: per library, views and watch time, in total and per country.
pub struct VideoLibraryKind;

impl EntityType for VideoLibraryKind {
    type Entity = VideoLibrary;

    /// A library is known by its numeric id, written in decimal.
    open spec fn id_of(entity: &VideoLibrary) -> Seq<char> {
        decimal_text(entity.id as nat)
    }

    /// A library is labelled by its name.
    open spec fn label_of(entity: &VideoLibrary) -> Seq<char> {
        entity.name@
    }

    fn entity_id(entity: &VideoLibrary) -> (r: String) {
        decimal(entity.id)
    }

    fn entity_label(entity: &VideoLibrary) -> (r: String) {
        entity.name.clone()
    }
}

impl VideoLibraryKind {
    /// The data of a day, taken from the library's statistics for that day; the counts
    /// per country are taken as they come.
    pub fn day_from_stats(stats: VideoLibraryStats, date: &Date, allow_missing: bool) -> (r: Result<
        VideoLibraryDayData,
        FieldError,
    >)
        ensures
            r is Ok <==> exact_found(stats.views_chart.pairs(), date.text(), allow_missing) && exact_found(
                stats.watch_time_chart.pairs(),
                date.text(),
                allow_missing,
            ),
            r matches Ok(d) ==> exact_lookup(stats.views_chart.pairs(), date.text(), allow_missing, Ok(d.views))
                && exact_lookup(stats.watch_time_chart.pairs(), date.text(), allow_missing, Ok(d.watch_time))
                && d.country_views@ == stats.country_view_counts@ && d.country_watch_time@
                == stats.country_watch_time@,
            r matches Err(e) ==> (e.field == "views" && exact_lookup(
                stats.views_chart.pairs(),
                date.text(),
                allow_missing,
                Err(e.error),
            )) || (e.field == "watch_time" && exact_found(stats.views_chart.pairs(), date.text(), allow_missing)
                && exact_lookup(stats.watch_time_chart.pairs(), date.text(), allow_missing, Err(e.error))),
    {
        let views = match find_chart_value_for_date(&stats.views_chart, date, allow_missing) {
            Ok(v) => v,
            Err(error) => return Err(FieldError { field: "views", error }),
        };
        let watch_time = match find_chart_value_for_date(&stats.watch_time_chart, date, allow_missing) {
            Ok(v) => v,
            Err(error) => return Err(FieldError { field: "watch_time", error }),
        };
        Ok(VideoLibraryDayData {
            views,
            watch_time,
            country_views: stats.country_view_counts,
            country_watch_time: stats.country_watch_time,
        })
    }

    /// The data of a range of days: views and watch time are the sums of their charts;
    /// the counts per country are taken as they come.
    pub fn range_from_stats(stats: VideoLibraryStats) -> (r: VideoLibraryDayData)
        requires
            values_total(stats.views_chart.pairs()) <= u64::MAX,
            values_total(stats.watch_time_chart.pairs()) <= u64::MAX,
        ensures
            r.views == values_total(stats.views_chart.pairs()),
            r.watch_time == values_total(stats.watch_time_chart.pairs()),
            r.country_views@ == stats.country_view_counts@,
            r.country_watch_time@ == stats.country_watch_time@,
    {
        let views = sum_chart_values(&stats.views_chart);
        let watch_time = sum_chart_values(&stats.watch_time_chart);
        VideoLibraryDayData {
            views,
            watch_time,
            country_views: stats.country_view_counts,
            country_watch_time: stats.country_watch_time,
        }
    }
}

/// A video library's counters: views and watch time, in total and per country.
#[derive(Debug)]
pub struct VideoLibraryDayData {
    pub views: u64,
    pub watch_time: u64,
    pub country_views: CountryViewCounts,
    pub country_watch_time: CountryWatchTime,
}

impl View for VideoLibraryDayData {
    type V = (u64, u64, Map<Seq<char>, u64>, Map<Seq<char>, u64>);

    open spec fn view(&self) -> (u64, u64, Map<Seq<char>, u64>, Map<Seq<char>, u64>) {
        (self.views, self.watch_time, self.country_views@, self.country_watch_time@)
    }
}

impl Clone for VideoLibraryDayData {
    fn clone(&self) -> (r: Self)
        ensures
            r@ == self@,
    {
        VideoLibraryDayData {
            views: self.views,
            watch_time: self.watch_time,
            country_views: self.country_views.duplicate(),
            country_watch_time: self.country_watch_time.duplicate(),
        }
    }
}

impl Default for VideoLibraryDayData {
    fn default() -> (r: Self)
        ensures
            r@ == (0u64, 0u64, Map::<Seq<char>, u64>::empty(), Map::<Seq<char>, u64>::empty()),
    {
        VideoLibraryDayData { views: 0, watch_time: 0, country_views: Chart::new(), country_watch_time: Chart::new() }
    }
}

impl DayData for VideoLibraryDayData {
    /// All counters add up, per country too.
    open spec fn accumulated(
        total: (u64, u64, Map<Seq<char>, u64>, Map<Seq<char>, u64>),
        day: (u64, u64, Map<Seq<char>, u64>, Map<Seq<char>, u64>),
    ) -> (u64, u64, Map<Seq<char>, u64>, Map<Seq<char>, u64>) {
        (
            (total.0 + day.0) as u64,
            (total.1 + day.1) as u64,
            summed_counts(total.2, day.2),
            summed_counts(total.3, day.3),
        )
    }

    open spec fn can_accumulate(
        total: (u64, u64, Map<Seq<char>, u64>, Map<Seq<char>, u64>),
        day: (u64, u64, Map<Seq<char>, u64>, Map<Seq<char>, u64>),
    ) -> bool {
        &&& total.0 + day.0 <= u64::MAX
        &&& total.1 + day.1 <= u64::MAX
        &&& counts_addable(total.2, day.2)
        &&& counts_addable(total.3, day.3)
    }

    /// Every counter keeps the larger of the two fetches, per country too; countries
    /// that only one of them has are kept.
    open spec fn merged(
        current: (u64, u64, Map<Seq<char>, u64>, Map<Seq<char>, u64>),
        snapshot: (u64, u64, Map<Seq<char>, u64>, Map<Seq<char>, u64>),
    ) -> (u64, u64, Map<Seq<char>, u64>, Map<Seq<char>, u64>) {
        (
            if current.0 >= snapshot.0 { current.0 } else { snapshot.0 },
            if current.1 >= snapshot.1 { current.1 } else { snapshot.1 },
            max_counts(current.2, snapshot.2),
            max_counts(current.3, snapshot.3),
        )
    }

    open spec fn zero() -> (u64, u64, Map<Seq<char>, u64>, Map<Seq<char>, u64>) {
        (0, 0, Map::empty(), Map::empty())
    }

    proof fn lemma_merge_idempotent(current: (u64, u64, Map<Seq<char>, u64>, Map<Seq<char>, u64>), snapshot: (u64, u64, Map<Seq<char>, u64>, Map<Seq<char>, u64>)) {
        lemma_max_counts_idempotent(current.2, snapshot.2);
        lemma_max_counts_idempotent(current.3, snapshot.3);
    }

    proof fn lemma_merge_into_zero(snapshot: (u64, u64, Map<Seq<char>, u64>, Map<Seq<char>, u64>)) {
        assert(max_counts(Map::empty(), snapshot.2) =~= snapshot.2);
        assert(max_counts(Map::empty(), snapshot.3) =~= snapshot.3);
    }

    proof fn lemma_accumulate_zero(total: (u64, u64, Map<Seq<char>, u64>, Map<Seq<char>, u64>)) {
        lemma_summed_counts_empty(total.2);
        lemma_summed_counts_empty(total.3);
    }

    proof fn lemma_accumulate_associative(a: (u64, u64, Map<Seq<char>, u64>, Map<Seq<char>, u64>), b: (u64, u64, Map<Seq<char>, u64>, Map<Seq<char>, u64>), c: (u64, u64, Map<Seq<char>, u64>, Map<Seq<char>, u64>)) {
        lemma_summed_counts_associative(a.2, b.2, c.2);
        lemma_summed_counts_associative(a.3, b.3, c.3);
    }

    fn accumulate(&mut self, day: Self) {
        self.views = self.views + day.views;
        self.watch_time = self.watch_time + day.watch_time;
        self.country_views.add_counts(&day.country_views);
        self.country_watch_time.add_counts(&day.country_watch_time);
    }

    fn merge_latest(&mut self, snapshot: Self) {
        if snapshot.views > self.views {
            self.views = snapshot.views;
        }
        if snapshot.watch_time > self.watch_time {
            self.watch_time = snapshot.watch_time;
        }
        self.country_views.max_counts_with(&snapshot.country_views);
        self.country_watch_time.max_counts_with(&snapshot.country_watch_time);
    }

    fn empty() -> (r: Self) {
        VideoLibraryDayData { views: 0, watch_time: 0, country_views: Chart::new(), country_watch_time: Chart::new() }
    }

    fn can_add(&self, day: &Self) -> (r: bool) {
        self.views <= u64::MAX - day.views && self.watch_time <= u64::MAX - day.watch_time && counts_fit(
            &self.country_views,
            &day.country_views,
        ) && counts_fit(&self.country_watch_time, &day.country_watch_time)
    }
}

/// Adding a day adds each counter on its own (views, watch time, and both per country),
/// and can be done exactly when none leaves `u64`; data on which nothing was counted has
/// no views.
pub proof fn lemma_video_library_accumulate_adds_each_counter(t: (u64, u64, Map<Seq<char>, u64>, Map<Seq<char>, u64>), d: (u64, u64, Map<Seq<char>, u64>, Map<Seq<char>, u64>))
    ensures
        <VideoLibraryDayData as DayData>::can_accumulate(t, d) <==> (t.0 + d.0 <= u64::MAX && t.1 + d.1 <= u64::MAX && counts_addable(t.2, d.2)
            && counts_addable(t.3, d.3)),
        <VideoLibraryDayData as DayData>::can_accumulate(t, d) ==> <VideoLibraryDayData as DayData>::accumulated(t, d).0 == t.0 + d.0,
        <VideoLibraryDayData as DayData>::can_accumulate(t, d) ==> <VideoLibraryDayData as DayData>::accumulated(t, d).1 == t.1 + d.1,
        <VideoLibraryDayData as DayData>::can_accumulate(t, d) ==> is_keywise_sum(t.2, d.2, <VideoLibraryDayData as DayData>::accumulated(t, d).2),
        <VideoLibraryDayData as DayData>::can_accumulate(t, d) ==> is_keywise_sum(t.3, d.3, <VideoLibraryDayData as DayData>::accumulated(t, d).3),
        <VideoLibraryDayData as DayData>::zero() == (0u64, 0u64, Map::<Seq<char>, u64>::empty(), Map::<Seq<char>, u64>::empty()),
{
    if <VideoLibraryDayData as DayData>::can_accumulate(t, d) {
        lemma_summed_counts_is_keywise_sum(t.2, d.2);
        lemma_summed_counts_is_keywise_sum(t.3, d.3);
    }
}

/// Folding in a newer fetch keeps, for each counter and each country, the larger of the
/// two values, so no counter goes down.
pub proof fn lemma_video_library_merge_keeps_larger(c: (u64, u64, Map<Seq<char>, u64>, Map<Seq<char>, u64>), s: (u64, u64, Map<Seq<char>, u64>, Map<Seq<char>, u64>))
    ensures
        <VideoLibraryDayData as DayData>::merged(c, s).0 >= c.0 && <VideoLibraryDayData as DayData>::merged(c, s).0 >= s.0,
        <VideoLibraryDayData as DayData>::merged(c, s).0 == c.0 || <VideoLibraryDayData as DayData>::merged(c, s).0 == s.0,
        <VideoLibraryDayData as DayData>::merged(c, s).1 >= c.1 && <VideoLibraryDayData as DayData>::merged(c, s).1 >= s.1,
        <VideoLibraryDayData as DayData>::merged(c, s).1 == c.1 || <VideoLibraryDayData as DayData>::merged(c, s).1 == s.1,
        is_keywise_max(c.2, s.2, <VideoLibraryDayData as DayData>::merged(c, s).2),
        is_keywise_max(c.3, s.3, <VideoLibraryDayData as DayData>::merged(c, s).3),
{
    lemma_max_counts_is_keywise_max(c.2, s.2);
    lemma_max_counts_is_keywise_max(c.3, s.3);
}

} // verus!
