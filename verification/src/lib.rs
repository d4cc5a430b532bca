//! Polling bookkeeping and statistics arithmetic for a Bunny.net Prometheus exporter.
//!
//! The library holds what the exporter decides and computes: calendar days,
//! statistics charts keyed by date strings, per-day counter and gauge data of
//! each statistics category, the per-entity state that carries totals across
//! day rollovers and restarts, and the bookkeeping of a poll cycle.

pub mod date;
pub mod text;
pub mod chart;
pub mod entity_stats;
pub mod bunny;
pub mod storage_zone;
pub mod video_library_drm;
pub mod video_library_transcribing;
pub mod pull_zone_origin_shield_queue;
pub mod pull_zone_safehop;
pub mod dns_zone;
pub mod video_library;
pub mod shield_zone;
pub mod pull_zone;
pub mod edge_script;
pub mod pull_zone_optimizer;
pub mod application;
pub mod collector;
pub mod poller;
