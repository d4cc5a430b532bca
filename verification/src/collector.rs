use vstd::prelude::*;

verus! {

/// A category of statistics that can be polled.
#[derive(Clone, Copy, Debug, PartialEq, Eq, Structural)]
pub enum Collector {
    Application,
    DnsZone,
    EdgeScript,
    StorageZone,
    VideoLibrary,
    VideoLibraryTranscribing,
    VideoLibraryDrm,
    PullZone,
    PullZoneOptimizer,
    PullZoneOriginShieldQueue,
    PullZoneSafehop,
    ShieldZone,
}

impl Collector {
    /// The name of the category, as it is given on the command line and in metric names.
    pub open spec fn name_text(self) -> &'static str {
        match self {
            Collector::Application => "application",
            Collector::DnsZone => "dns_zone",
            Collector::EdgeScript => "edge_script",
            Collector::StorageZone => "storage_zone",
            Collector::VideoLibrary => "video_library",
            Collector::VideoLibraryTranscribing => "video_library_transcribing",
            Collector::VideoLibraryDrm => "video_library_drm",
            Collector::PullZone => "pull_zone",
            Collector::PullZoneOptimizer => "pull_zone_optimizer",
            Collector::PullZoneOriginShieldQueue => "pull_zone_origin_shield_queue",
            Collector::PullZoneSafehop => "pull_zone_safehop",
            Collector::ShieldZone => "shield_zone",
        }
    }

    /// The name of the category, as it is given on the command line and in metric names.
    pub fn name(self) -> (r: &'static str)
        ensures
            r == self.name_text(),
    {
        match self {
            Collector::Application => "application",
            Collector::DnsZone => "dns_zone",
            Collector::EdgeScript => "edge_script",
            Collector::StorageZone => "storage_zone",
            Collector::VideoLibrary => "video_library",
            Collector::VideoLibraryTranscribing => "video_library_transcribing",
            Collector::VideoLibraryDrm => "video_library_drm",
            Collector::PullZone => "pull_zone",
            Collector::PullZoneOptimizer => "pull_zone_optimizer",
            Collector::PullZoneOriginShieldQueue => "pull_zone_origin_shield_queue",
            Collector::PullZoneSafehop => "pull_zone_safehop",
            Collector::ShieldZone => "shield_zone",
        }
    }

    /// The file that holds the persisted state of the category: its name with `.json`.
    pub fn state_file_name(self) -> (r: String)
        ensures
            r@ == self.name_text()@ + ".json"@,
    {
        let mut file = self.name().to_owned();
        file.append(".json");
        file
    }
}

/// Each collector is named by its command-line value, written here against each variant.
pub proof fn lemma_collector_names()
    ensures
        Collector::Application.name_text() == "application",
        Collector::DnsZone.name_text() == "dns_zone",
        Collector::EdgeScript.name_text() == "edge_script",
        Collector::StorageZone.name_text() == "storage_zone",
        Collector::VideoLibrary.name_text() == "video_library",
        Collector::VideoLibraryTranscribing.name_text() == "video_library_transcribing",
        Collector::VideoLibraryDrm.name_text() == "video_library_drm",
        Collector::PullZone.name_text() == "pull_zone",
        Collector::PullZoneOptimizer.name_text() == "pull_zone_optimizer",
        Collector::PullZoneOriginShieldQueue.name_text() == "pull_zone_origin_shield_queue",
        Collector::PullZoneSafehop.name_text() == "pull_zone_safehop",
        Collector::ShieldZone.name_text() == "shield_zone",
{
}

/// Different collectors have different names, and so keep their state in different files.
pub proof fn lemma_collector_names_distinct(a: Collector, b: Collector)
    requires
        a != b,
    ensures
        a.name_text()@ != b.name_text()@,
        a.name_text()@ + ".json"@ != b.name_text()@ + ".json"@,
{
    reveal_strlit("application");
    reveal_strlit("dns_zone");
    reveal_strlit("edge_script");
    reveal_strlit("storage_zone");
    reveal_strlit("video_library");
    reveal_strlit("video_library_transcribing");
    reveal_strlit("video_library_drm");
    reveal_strlit("pull_zone");
    reveal_strlit("pull_zone_optimizer");
    reveal_strlit("pull_zone_origin_shield_queue");
    reveal_strlit("pull_zone_safehop");
    reveal_strlit("shield_zone");
    reveal_strlit(".json");
    let x = a.name_text()@;
    let y = b.name_text()@;
    let j = ".json"@;
    assert(x.len() != y.len() || x[0] != y[0]);
    if x + j == y + j {
        assert((x + j).len() == (y + j).len());
        assert(x.len() == y.len());
        assert((x + j).subrange(0, x.len() as int) =~= x);
        assert((y + j).subrange(0, y.len() as int) =~= y);
    }
}

} // verus!
