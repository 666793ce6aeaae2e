//! From decoded packets to calls, streams and diagnostics.
pub mod call;
pub mod call_laws;
pub mod correlator;
pub mod frames;
pub mod history;
pub mod media;
pub mod media_laws;
pub mod route;
pub mod signaling;
pub mod signaling_laws;
pub mod stream;
pub mod stream_laws;
pub mod teardown;
pub mod teardown_laws;
pub mod traffic_laws;
pub mod turn;
