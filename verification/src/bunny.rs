use vstd::prelude::*;

use crate::chart::Chart;

verus! {

/// Queries served per DNS record type (by type number, or by type name once named).
pub type QueriesByTypeChart = Chart<u64>;

/// Bytes stored per day.
pub type StorageUsedChart = Chart<u64>;

/// Files held per day.
pub type FileCountChart = Chart<u64>;

/// Views per day.
pub type ViewsChart = Chart<u64>;

/// Seconds watched per day.
pub type WatchTimeChart = Chart<u64>;

/// Views per country.
pub type CountryViewCounts = Chart<u64>;

/// Seconds watched per country.
pub type CountryWatchTime = Chart<u64>;

/// Counts of one shield action per time slot.
pub type ShieldMetricChart = Chart<u64>;

/// Concurrent origin shield requests per day.
pub type ConcurrentRequestsChart = Chart<u64>;

/// Queued origin shield requests per day.
pub type QueuedRequestsChart = Chart<u64>;

/// Requests retried by SafeHop per day.
pub type RequestsRetriedChart = Chart<u64>;

/// Requests saved by SafeHop per day.
pub type RequestsSavedChart = Chart<u64>;

/// Traffic per region.
pub type GeoTrafficDistribution = Chart<u64>;

/// A DNS zone of the account.
#[derive(Debug)]
pub struct DnsZone {
    pub id: u64,
    pub domain: String,
}

/// A storage zone of the account.
#[derive(Debug)]
pub struct StorageZone {
    pub id: u64,
    pub name: String,
}

/// The statistics of a storage zone over a date range.
#[derive(Debug)]
pub struct StorageZoneStats {
    pub storage_used_chart: StorageUsedChart,
    pub file_count_chart: FileCountChart,
}

/// A video library of the account, with the key by which its statistics are read.
#[derive(Debug)]
pub struct VideoLibrary {
    pub id: u64,
    pub name: String,
    pub read_only_api_key: String,
}

/// The statistics of a video library over a date range.
#[derive(Debug)]
pub struct VideoLibraryStats {
    pub views_chart: ViewsChart,
    pub watch_time_chart: WatchTimeChart,
    pub country_view_counts: CountryViewCounts,
    pub country_watch_time: CountryWatchTime,
}

/// An edge script of the account.
#[derive(Debug)]
pub struct EdgeScript {
    pub id: u64,
    pub name: String,
}

/// A shield zone of the account, and the pull zone it guards, if any.
#[derive(Debug)]
pub struct ShieldZone {
    pub shield_zone_id: u64,
    pub pull_zone_id: Option<u64>,
}

/// The charts of one shield category, per action.
#[derive(Debug)]
pub struct ShieldCategoryMetrics {
    pub metrics: Chart<ShieldMetricChart>,
}

/// The metrics of a shield zone from a start date on.
#[derive(Debug)]
pub struct ShieldMetrics {
    pub waf: ShieldCategoryMetrics,
    pub ddos: ShieldCategoryMetrics,
    pub rate_limit: ShieldCategoryMetrics,
    pub access_lists: ShieldCategoryMetrics,
    pub bot_detection: ShieldCategoryMetrics,
    pub upload_scanning: ShieldCategoryMetrics,
    pub api_guardian: ShieldCategoryMetrics,
    pub total_clean_requests_limit: u64,
    pub total_billable_requests_this_month: u64,
}

/// A pull zone of the account.
#[derive(Debug)]
pub struct PullZone {
    pub id: u64,
    pub name: String,
}

/// The origin shield queue statistics of a pull zone over a date range.
#[derive(Debug)]
pub struct PullZoneOriginShieldQueueStats {
    pub concurrent_requests_chart: ConcurrentRequestsChart,
    pub queued_requests_chart: QueuedRequestsChart,
}

/// The SafeHop statistics of a pull zone over a date range.
#[derive(Debug)]
pub struct PullZoneSafeHopStats {
    pub requests_retried_chart: RequestsRetriedChart,
    pub requests_saved_chart: RequestsSavedChart,
}

/// A Magic Containers application of the account.
#[derive(Debug)]
pub struct Application {
    pub id: String,
    pub name: String,
}

/// The counter charts of a pull zone's statistics: traffic, requests, errors per class,
/// and traffic per region.
#[derive(Debug)]
pub struct PullZoneTrafficStats {
    pub bandwidth_used_chart: Chart<u64>,
    pub bandwidth_cached_chart: Chart<u64>,
    pub requests_served_chart: Chart<u64>,
    pub pull_requests_pulled_chart: Chart<u64>,
    pub origin_shield_bandwidth_used_chart: Chart<u64>,
    pub origin_shield_internal_bandwidth_used_chart: Chart<u64>,
    pub origin_traffic_chart: Chart<u64>,
    pub errors_3xx_chart: Chart<u64>,
    pub errors_4xx_chart: Chart<u64>,
    pub errors_5xx_chart: Chart<u64>,
    pub geo_traffic_distribution: GeoTrafficDistribution,
}

} // verus!
