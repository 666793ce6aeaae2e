//! Call metrics and media statistics.
pub mod laws;
pub mod media_stats;
pub mod metrics;
pub mod rtcp_rtt;
