//! RTCP-derived network timing, in units of 1/65536 second.
use crate::decode::rtcp::ReportBlock;
use vstd::prelude::*;

verus! {

/// The longest round trip that is believed: one minute.
pub const MAX_RTT_UNITS: u64 = 3_932_160;

/// Round trip of a report block that arrived at `arrival` (the middle 32 bits
/// of the NTP time): the time since the last sender report, less the
/// reporter's delay; a difference below zero has wrapped once.
pub open spec fn rtt_units_of(arrival: u32, b: ReportBlock) -> Option<int> {
    let d = arrival - b.lsr - b.dlsr;
    let e = if d < 0 {
        d + 0x1_0000_0000
    } else {
        d
    };
    if b.lsr != 0 && 0 <= e <= MAX_RTT_UNITS {
        Some(e)
    } else {
        None
    }
}

/// Round trip of a report block, `None` where the sender has seen no sender
/// report or the time is not believable.
pub fn rtt_units(arrival: u32, block: &ReportBlock) -> (r: Option<u64>)
    ensures
        match rtt_units_of(arrival, *block) {
            Some(u) => r is Some && r->Some_0 == u,
            None => r is None,
        },
{
    if block.lsr == 0 {
        return None;
    }
    let d: i64 = arrival as i64 - block.lsr as i64 - block.dlsr as i64;
    let e: i64 = if d < 0 {
        d + 0x1_0000_0000
    } else {
        d
    };
    if e < 0 || e > MAX_RTT_UNITS as i64 {
        return None;
    }
    Some(e as u64)
}

} // verus!
