//! SIP/RTP call monitoring: packet decoding, call correlation, quality
//! statistics, the binary event log and the state behind the terminal UI.
//!
//! Everything here works on plain values. Capture, files, the terminal and
//! floating point live in the program around this library.
pub mod analyze;
pub mod config;
pub mod correlate;
pub mod decode;
pub mod diagnostics;
pub mod export;
pub mod filter;
pub mod json;
pub mod model;
pub mod numfmt;
pub mod numfmt_laws;
pub mod octets;
pub mod pipeline;
pub mod session_laws;
pub mod store;
pub mod text;
pub mod text_laws;
pub mod ui;
