//! Packet and message decoders.
pub mod frame;
pub mod frame_laws;
pub mod media_laws;
pub mod rtcp;
pub mod rtp;
pub mod sdp;
pub mod sdp_laws;
pub mod sip;
pub mod sip_laws;
pub mod stun;
pub mod stun_laws;
pub mod tcp_reasm;
