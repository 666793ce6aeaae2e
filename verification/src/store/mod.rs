//! Event log and aggregate stores.
pub mod codec;
pub mod dialog;
pub mod dialog_laws;
pub mod evlog;
pub mod evstats;
pub mod evstats_laws;
pub mod heatmap;
pub mod intern;
pub mod ipstats;
pub mod ipstats_laws;
pub mod registry;
pub mod registry_laws;
pub mod report;
pub mod report_laws;
pub mod report_json;
pub mod report_show_laws;
pub mod report_text;
pub mod sipstats;
pub mod sipstats_laws;
pub mod snapshot;
pub mod view_laws;
pub mod wire;
pub mod wire_laws;
