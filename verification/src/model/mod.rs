//! Data shared by the decoders, the correlator and the stores.
pub mod addr;
pub mod addr_laws;
pub mod addr_text;
pub mod laws;
pub mod media;
pub mod packet;
pub mod sip;
pub mod stats;
