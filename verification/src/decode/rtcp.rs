//! RTCP sender and receiver reports.
use crate::octets;
use crate::octets::{be16, be32};
use vstd::prelude::*;
use vstd::slice::slice_subrange;

verus! {

/// RTCP packet types (RFC 3550 / 4585 / 5104).
pub const PT_SR: u8 = 200;

pub const PT_RR: u8 = 201;

pub const PT_SDES: u8 = 202;

pub const PT_BYE: u8 = 203;

pub const PT_APP: u8 = 204;

pub const PT_RTPFB: u8 = 205;

pub const PT_PSFB: u8 = 206;

pub const PT_XR: u8 = 207;

/// Common header of one member of a compound packet.
#[derive(Debug, Clone, Copy, PartialEq, Eq, Structural)]
pub struct RtcpHeader {
    pub payload_type: u8,
    /// Length of this compound member in bytes (including the common header).
    pub length_bytes: usize,
    pub ssrc: u32,
}

/// Report block of an SR or RR.
#[derive(Debug, Clone, Copy, PartialEq, Eq, Structural)]
pub struct ReportBlock {
    pub ssrc: u32,
    pub fraction_lost: u8,
    /// Cumulative number of packets lost (signed 24-bit).
    pub cumulative_lost: i32,
    pub highest_seq: u32,
    pub jitter: u32,
    /// Middle 32 bits of the NTP timestamp of the last SR (LSR).
    pub lsr: u32,
    /// Delay since last SR, expressed in 1/65536 seconds (DLSR).
    pub dlsr: u32,
}

/// Sender part of an SR.
#[derive(Debug, Clone, Copy, PartialEq, Eq, Structural)]
pub struct SenderInfo {
    pub ntp_secs: u32,
    pub ntp_frac: u32,
    pub rtp_timestamp: u32,
    pub sender_packet_count: u32,
    pub sender_octet_count: u32,
}

#[derive(Debug, Clone)]
pub struct SrReport {
    pub ssrc: u32,
    pub sender: SenderInfo,
    pub reports: Vec<ReportBlock>,
}

#[derive(Debug, Clone)]
pub struct RrReport {
    pub ssrc: u32,
    pub reports: Vec<ReportBlock>,
}

#[derive(Debug, Clone)]
pub enum RtcpMessage {
    Sr(SrReport),
    Rr(RrReport),
    Other(u8),
}

/// An RTCP member by its contents.
pub enum RtcpView {
    Sr(u32, SenderInfo, Seq<ReportBlock>),
    Rr(u32, Seq<ReportBlock>),
    Other(u8),
}

impl View for RtcpMessage {
    type V = RtcpView;

    open spec fn view(&self) -> RtcpView {
        match *self {
            RtcpMessage::Sr(r) => RtcpView::Sr(r.ssrc, r.sender, r.reports@),
            RtcpMessage::Rr(r) => RtcpView::Rr(r.ssrc, r.reports@),
            RtcpMessage::Other(pt) => RtcpView::Other(pt),
        }
    }
}

pub open spec fn u32_at(b: Seq<u8>, i: int) -> u32 {
    octets::be_value(b, i, 4) as u32
}

/// The signed 24-bit number at `i`.
pub open spec fn i24_at(b: Seq<u8>, i: int) -> i32 {
    let n = octets::be_value(b, i, 3);
    if n < 0x80_0000 {
        n as i32
    } else {
        (n - 0x100_0000) as i32
    }
}

/// The report block at `i`.
pub open spec fn block_at(b: Seq<u8>, i: int) -> ReportBlock {
    ReportBlock {
        ssrc: u32_at(b, i),
        fraction_lost: b[i + 4],
        cumulative_lost: i24_at(b, i + 5),
        highest_seq: u32_at(b, i + 8),
        jitter: u32_at(b, i + 12),
        lsr: u32_at(b, i + 16),
        dlsr: u32_at(b, i + 20),
    }
}

/// How many of `count` announced blocks a member of `len` bytes holds from
/// `start` on.
pub open spec fn blocks_held(len: nat, start: int, count: nat) -> nat {
    let room = if len >= start {
        (len - start) / 24
    } else {
        0
    };
    if room < count {
        room as nat
    } else {
        count
    }
}

/// The report blocks of a member: as many as announced and as fit.
pub open spec fn blocks(b: Seq<u8>, start: int, count: nat) -> Seq<ReportBlock> {
    Seq::new(blocks_held(b.len(), start, count), |k: int| block_at(b, start + 24 * k))
}

/// Reads the report blocks of a member.
pub fn parse_report_blocks(member: &[u8], start: usize, count: usize) -> (r: Vec<ReportBlock>)
    requires
        start <= member@.len(),
    ensures
        r@ == blocks(member@, start as int, count as nat),
{
    let mut out: Vec<ReportBlock> = Vec::new();
    let mut off: usize = start;
    let mut k: usize = 0;
    while k < count && member.len() - off >= 24
        invariant
            k <= count,
            start <= off <= member.len(),
            off == start + 24 * k,
            k <= blocks_held(member@.len(), start as int, count as nat),
            out@ =~= blocks(member@, start as int, count as nat).take(k as int),
        decreases count - k,
    {
        proof {
            reveal_with_fuel(octets::be_value, 4);
        }
        let lost: u32 = member[off + 5] as u32 * 0x1_0000 + member[off + 6] as u32 * 0x100
            + member[off + 7] as u32;
        assert(lost == octets::be_value(member@, off + 5, 3));
        let cumulative_lost: i32 = if lost < 0x80_0000 {
            lost as i32
        } else {
            lost as i32 - 0x100_0000
        };
        let block = ReportBlock {
            ssrc: be32(member, off),
            fraction_lost: member[off + 4],
            cumulative_lost,
            highest_seq: be32(member, off + 8),
            jitter: be32(member, off + 12),
            lsr: be32(member, off + 16),
            dlsr: be32(member, off + 20),
        };
        assert(block == block_at(member@, start + 24 * k));
        out.push(block);
        off += 24;
        k += 1;
    }
    out
}

/// One member of a compound packet, or nothing where it is too short to hold
/// what its type promises.
pub open spec fn member_view(m: Seq<u8>) -> Option<RtcpView> {
    let count = (m[0] % 32) as nat;
    if m.len() < 8 {
        None
    } else if m[1] == PT_SR {
        if m.len() < 28 {
            None
        } else {
            Some(
                RtcpView::Sr(
                    u32_at(m, 4),
                    SenderInfo {
                        ntp_secs: u32_at(m, 8),
                        ntp_frac: u32_at(m, 12),
                        rtp_timestamp: u32_at(m, 16),
                        sender_packet_count: u32_at(m, 20),
                        sender_octet_count: u32_at(m, 24),
                    },
                    blocks(m, 28, count),
                ),
            )
        }
    } else if m[1] == PT_RR {
        Some(RtcpView::Rr(u32_at(m, 4), blocks(m, 8, count)))
    } else {
        Some(RtcpView::Other(m[1]))
    }
}

/// Bytes of the member at `off`: one word more than announced.
pub open spec fn member_len(b: Seq<u8>, off: int) -> int {
    4 * (octets::be_value(b, off + 2, 2) as int + 1)
}

/// The members of a compound packet from `off` on, up to the first that is cut
/// short.
pub open spec fn members_from(b: Seq<u8>, off: int) -> Seq<RtcpView>
    decreases b.len() - off,
{
    let n = member_len(b, off);
    if off + 4 <= b.len() && off + n <= b.len() {
        (match member_view(b.subrange(off, off + n)) {
            Some(v) => seq![v],
            None => Seq::empty(),
        }) + members_from(b, off + n)
    } else {
        Seq::empty()
    }
}

pub open spec fn views(v: Seq<RtcpMessage>) -> Seq<RtcpView> {
    v.map_values(|m: RtcpMessage| m@)
}

fn parse_member(member: &[u8]) -> (r: Option<RtcpMessage>)
    requires
        member@.len() >= 4,
    ensures
        match member_view(member@) {
            Some(v) => r is Some && r->Some_0@ == v,
            None => r is None,
        },
{
    if member.len() < 8 {
        return None;
    }
    let count: usize = (member[0] % 32) as usize;
    let pt: u8 = member[1];
    let ssrc: u32 = be32(member, 4);
    if pt == PT_SR {
        if member.len() < 28 {
            return None;
        }
        let sender = SenderInfo {
            ntp_secs: be32(member, 8),
            ntp_frac: be32(member, 12),
            rtp_timestamp: be32(member, 16),
            sender_packet_count: be32(member, 20),
            sender_octet_count: be32(member, 24),
        };
        let reports = parse_report_blocks(member, 28, count);
        Some(RtcpMessage::Sr(SrReport { ssrc, sender, reports }))
    } else if pt == PT_RR {
        let reports = parse_report_blocks(member, 8, count);
        Some(RtcpMessage::Rr(RrReport { ssrc, reports }))
    } else {
        Some(RtcpMessage::Other(pt))
    }
}

/// Parses all RTCP members of a compound packet.
pub fn parse_all(payload: &[u8]) -> (r: Vec<RtcpMessage>)
    ensures
        views(r@) == members_from(payload@, 0),
{
    let mut out: Vec<RtcpMessage> = Vec::new();
    let mut off: usize = 0;
    assert(views(out@) + members_from(payload@, 0) =~= members_from(payload@, 0));
    while payload.len() - off >= 4
        invariant
            off <= payload.len(),
            members_from(payload@, 0) == views(out@) + members_from(payload@, off as int),
        decreases payload.len() - off,
    {
        let words: usize = be16(payload, off + 2) as usize;
        let n: usize = (words + 1) * 4;
        if payload.len() - off < n {
            assert(views(out@) + Seq::<RtcpView>::empty() =~= views(out@));
            return out;
        }
        let ghost before = out@;
        let member = slice_subrange(payload, off, off + n);
        match parse_member(member) {
            Some(m) => {
                out.push(m);
                assert(views(out@) =~= views(before) + seq![m@]);
            },
            None => {
                assert(views(out@) =~= views(before) + Seq::<RtcpView>::empty());
            },
        }
        proof {
            let here = match member_view(member@) {
                Some(v) => seq![v],
                None => Seq::<RtcpView>::empty(),
            };
            assert(views(before) + (here + members_from(payload@, off + n)) =~= views(out@)
                + members_from(payload@, off + n));
        }
        off += n;
    }
    assert(views(out@) + Seq::<RtcpView>::empty() =~= views(out@));
    out
}

/// Parses the first RTCP member of a compound packet.
pub fn parse_first(payload: &[u8]) -> (r: Option<RtcpMessage>)
    ensures
        ({
            let all = members_from(payload@, 0);
            if all.len() > 0 {
                r is Some && r->Some_0@ == all[0]
            } else {
                r is None
            }
        }),
{
    let mut all = parse_all(payload);
    if all.len() > 0 {
        assert(views(all@)[0] == all@[0]@);
        Some(all.swap_remove(0))
    } else {
        assert(views(all@).len() == 0);
        None
    }
}

} // verus!
