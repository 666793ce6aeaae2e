//! RTP on the wire.
use crate::octets;
use crate::octets::{be16, be32};
use vstd::prelude::*;

verus! {

/// The fixed part of an RTP header.
#[derive(Debug, Clone, Copy, PartialEq, Eq, Structural)]
pub struct RtpHeader {
    pub version: u8,
    pub payload_type: u8,
    pub sequence_number: u16,
    pub timestamp: u32,
    pub ssrc: u32,
}

/// What a UDP payload looks like.
#[derive(Debug, Clone, Copy, PartialEq, Eq, Structural)]
pub enum MediaKind {
    Rtp,
    Rtcp,
    Other,
}

/// Clock rate of a payload type from RFC 3551; 8000, where it has none of its own.
pub open spec fn static_clock_rate(pt: u8) -> u32 {
    match pt {
        6u8 => 16000,
        10u8 | 11u8 => 44100,
        14u8 | 25u8 | 26u8 | 28u8 | 31u8 | 32u8 | 33u8 | 34u8 => 90000,
        16u8 => 11025,
        17u8 => 22050,
        _ => 8000,
    }
}

pub fn rtp_clock_rate_for_payload_type(pt: u8) -> (r: u32)
    ensures
        r == static_clock_rate(pt),
{
    match pt {
        6 => 16000,
        10 | 11 => 44100,
        14 | 25 | 26 | 28 | 31 | 32 | 33 | 34 => 90000,
        16 => 11025,
        17 => 22050,
        _ => 8000,
    }
}

/// Version 2 in the first two bits.
pub open spec fn version_two(b: Seq<u8>) -> bool {
    b.len() > 0 && b[0] / 64 == 2
}

/// RTP and RTCP share the version; the packet types 192 to 223 are RTCP.
pub open spec fn kind_of(b: Seq<u8>) -> MediaKind {
    if !version_two(b) || b.len() < 8 {
        MediaKind::Other
    } else if 192 <= b[1] <= 223 {
        MediaKind::Rtcp
    } else if b.len() >= 12 {
        MediaKind::Rtp
    } else {
        MediaKind::Other
    }
}

/// Tells RTP, RTCP and anything else apart.
pub fn classify(b: &[u8]) -> (r: MediaKind)
    ensures
        r == kind_of(b@),
{
    if b.len() < 8 || b[0] / 64 != 2 {
        MediaKind::Other
    } else if b[1] >= 192 && b[1] <= 223 {
        MediaKind::Rtcp
    } else if b.len() >= 12 {
        MediaKind::Rtp
    } else {
        MediaKind::Other
    }
}

/// The fixed header of an RTP packet.
pub open spec fn header_of(b: Seq<u8>) -> Option<RtpHeader> {
    if b.len() >= 12 && version_two(b) {
        Some(
            RtpHeader {
                version: 2,
                payload_type: (b[1] % 128) as u8,
                sequence_number: octets::be_value(b, 2, 2) as u16,
                timestamp: octets::be_value(b, 4, 4) as u32,
                ssrc: octets::be_value(b, 8, 4) as u32,
            },
        )
    } else {
        None
    }
}

pub fn parse_rtp_header(b: &[u8]) -> (r: Option<RtpHeader>)
    ensures
        r == header_of(b@),
{
    if b.len() < 12 || b[0] / 64 != 2 {
        return None;
    }
    Some(
        RtpHeader {
            version: 2,
            payload_type: b[1] % 128,
            sequence_number: be16(b, 2),
            timestamp: be32(b, 4),
            ssrc: be32(b, 8),
        },
    )
}

} // verus!
