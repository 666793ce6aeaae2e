//! RTP and RTCP packets, by where their fields stand.
use crate::decode::rtcp::{
    block_at, blocks, member_view, members_from, ReportBlock, RtcpView, SenderInfo,
};
use crate::decode::rtp::{header_of, kind_of, static_clock_rate, MediaKind, RtpHeader};
use crate::octets;
use crate::octets::be_value;
use vstd::prelude::*;

verus! {

/// The `len` bytes at `at` spell a number, most significant byte first.
pub open spec fn holds(b: Seq<u8>, at: int, n: int, len: nat) -> bool {
    0 <= at && at + len <= b.len() && 0 <= n && b.subrange(at, at + len) == octets::be_bytes(
        n as nat,
        len,
    )
}

/// Every byte string spells the one number that its bytes give in base 256.
pub proof fn law_big_endian(b: Seq<u8>, at: int, len: nat)
    requires
        0 <= at,
        at + len + 1 <= b.len(),
    ensures
        be_value(b, at, 0) == 0,
        be_value(b, at, len + 1) == 256 * be_value(b, at, len) + b[at + len],
        be_value(b, at, 1) == b[at],
{
    reveal_with_fuel(octets::be_value, 2);
}

proof fn lemma_holds(b: Seq<u8>, at: int, n: int, len: nat)
    requires
        holds(b, at, n, len),
        n < octets::pow256(len),
    ensures
        be_value(b, at, len) == n,
{
    octets::lemma_be_round(b, at, n as nat, len);
}

proof fn lemma_pow3()
    ensures
        octets::pow256(3) == 0x100_0000,
{
    reveal_with_fuel(octets::pow256, 4);
}

// ----------------------------- RTP -----------------------------

/// The fixed header of RTP version 2: the payload type in the lower seven bits of the second byte,
/// then the sequence number, the timestamp and the SSRC.
pub proof fn law_rtp_header(b: Seq<u8>, first: u8, marker: bool, pt: u8, seq: u16, ts: u32, ssrc: u32)
    requires
        b.len() >= 12,
        first < 64,
        b[0] == 128 + first,
        pt < 128,
        b[1] == pt + (if marker {
            128int
        } else {
            0int
        }),
        holds(b, 2, seq as int, 2),
        holds(b, 4, ts as int, 4),
        holds(b, 8, ssrc as int, 4),
    ensures
        header_of(b) == Some(
            RtpHeader { version: 2, payload_type: pt, sequence_number: seq, timestamp: ts, ssrc },
        ),
{
    octets::lemma_pow256_values();
    lemma_holds(b, 2, seq as int, 2);
    lemma_holds(b, 4, ts as int, 4);
    lemma_holds(b, 8, ssrc as int, 4);
}

/// A packet that is shorter than the header, or of another version, has none.
pub proof fn law_no_rtp_header(b: Seq<u8>)
    ensures
        header_of(b) is Some <==> b.len() >= 12 && 128 <= b[0] < 192,
{
}

/// Version 2 with a packet type from 192 to 223 is RTCP, from eight bytes on; any other of
/// version 2 is RTP, from twelve bytes on. Nothing else is media.
pub proof fn law_media_kinds(b: Seq<u8>)
    ensures
        kind_of(b) == MediaKind::Rtcp <==> b.len() >= 8 && 128 <= b[0] < 192 && 192 <= b[1] <= 223,
        kind_of(b) == MediaKind::Rtp <==> b.len() >= 12 && 128 <= b[0] < 192 && (b[1] < 192 || b[1]
            > 223),
{
}

/// The clock of a payload type that RFC 3551 assigns; all others run at 8000 Hz.
pub proof fn law_clock_rates(pt: u8)
    ensures
        static_clock_rate(pt) == 90000 <==> (pt == 14 || pt == 25 || pt == 26 || pt == 28 || (31
            <= pt && pt <= 34)),
        static_clock_rate(pt) == 44100 <==> (pt == 10 || pt == 11),
        static_clock_rate(pt) == 16000 <==> pt == 6,
        static_clock_rate(pt) == 11025 <==> pt == 16,
        static_clock_rate(pt) == 22050 <==> pt == 17,
        static_clock_rate(pt) == 8000 || static_clock_rate(pt) == 90000 || static_clock_rate(pt)
            == 44100 || static_clock_rate(pt) == 16000 || static_clock_rate(pt) == 11025
            || static_clock_rate(pt) == 22050,
{
}

// ----------------------------- RTCP -----------------------------

/// A report block of 24 bytes: the SSRC that it is about, the fraction lost, the packets lost
/// as a signed 24-bit number, the highest sequence number, the jitter, the last sender report
/// and the delay since.
pub proof fn law_report_block(b: Seq<u8>, i: int, r: ReportBlock)
    requires
        0 <= i,
        i + 24 <= b.len(),
        -0x80_0000 <= r.cumulative_lost < 0x80_0000,
        holds(b, i, r.ssrc as int, 4),
        b[i + 4] == r.fraction_lost,
        holds(
            b,
            i + 5,
            if r.cumulative_lost < 0 {
                r.cumulative_lost + 0x100_0000
            } else {
                r.cumulative_lost as int
            },
            3,
        ),
        holds(b, i + 8, r.highest_seq as int, 4),
        holds(b, i + 12, r.jitter as int, 4),
        holds(b, i + 16, r.lsr as int, 4),
        holds(b, i + 20, r.dlsr as int, 4),
    ensures
        block_at(b, i) == r,
{
    octets::lemma_pow256_values();
    lemma_pow3();
    lemma_holds(b, i, r.ssrc as int, 4);
    lemma_holds(
        b,
        i + 5,
        if r.cumulative_lost < 0 {
            r.cumulative_lost + 0x100_0000
        } else {
            r.cumulative_lost as int
        },
        3,
    );
    lemma_holds(b, i + 8, r.highest_seq as int, 4);
    lemma_holds(b, i + 12, r.jitter as int, 4);
    lemma_holds(b, i + 16, r.lsr as int, 4);
    lemma_holds(b, i + 20, r.dlsr as int, 4);
}

/// A sender report is of type 200: the sender, its clocks and its counts, and then as many
/// report blocks as the lower five bits of the first byte say.
pub proof fn law_sender_report(m: Seq<u8>, n: nat, ssrc: u32, s: SenderInfo)
    requires
        n < 32,
        m.len() >= 28 + 24 * n,
        m[0] % 32 == n,
        m[1] == 200,
        holds(m, 4, ssrc as int, 4),
        holds(m, 8, s.ntp_secs as int, 4),
        holds(m, 12, s.ntp_frac as int, 4),
        holds(m, 16, s.rtp_timestamp as int, 4),
        holds(m, 20, s.sender_packet_count as int, 4),
        holds(m, 24, s.sender_octet_count as int, 4),
    ensures
        member_view(m) == Some(
            RtcpView::Sr(ssrc, s, Seq::new(n, |k: int| block_at(m, 28 + 24 * k))),
        ),
{
    octets::lemma_pow256_values();
    lemma_holds(m, 4, ssrc as int, 4);
    lemma_holds(m, 8, s.ntp_secs as int, 4);
    lemma_holds(m, 12, s.ntp_frac as int, 4);
    lemma_holds(m, 16, s.rtp_timestamp as int, 4);
    lemma_holds(m, 20, s.sender_packet_count as int, 4);
    lemma_holds(m, 24, s.sender_octet_count as int, 4);
    assert(blocks(m, 28, n) =~= Seq::new(n, |k: int| block_at(m, 28 + 24 * k)));
}

/// A receiver report is of type 201: the receiver, and its report blocks.
pub proof fn law_receiver_report(m: Seq<u8>, n: nat, ssrc: u32)
    requires
        n < 32,
        m.len() >= 8 + 24 * n,
        m[0] % 32 == n,
        m[1] == 201,
        holds(m, 4, ssrc as int, 4),
    ensures
        member_view(m) == Some(RtcpView::Rr(ssrc, Seq::new(n, |k: int| block_at(m, 8 + 24 * k)))),
{
    octets::lemma_pow256_values();
    lemma_holds(m, 4, ssrc as int, 4);
    assert(blocks(m, 8, n) =~= Seq::new(n, |k: int| block_at(m, 8 + 24 * k)));
}

/// A report that announces more blocks than it holds gives those that it holds whole.
pub proof fn law_blocks_cut_short(m: Seq<u8>, start: int, count: nat)
    requires
        0 <= start <= m.len(),
    ensures
        blocks(m, start, count).len() <= count,
        start + 24 * blocks(m, start, count).len() <= m.len(),
        blocks(m, start, count).len() < count ==> m.len() < start + 24 * (blocks(
            m,
            start,
            count,
        ).len() + 1),
        forall|k: int|
            0 <= k < blocks(m, start, count).len() ==> #[trigger] blocks(m, start, count)[k]
                == block_at(m, start + 24 * k),
{
}

/// Members of other types are told by their type alone; one that is too short for its type is
/// none.
pub proof fn law_other_members(m: Seq<u8>)
    ensures
        m.len() >= 8 && m[1] != 200 && m[1] != 201 ==> member_view(m) == Some(
            RtcpView::Other(m[1]),
        ),
        m.len() < 8 ==> member_view(m) is None,
        m[1] == 200 && m.len() < 28 ==> member_view(m) is None,
{
}

proof fn lemma_value_shift(a: Seq<u8>, b: Seq<u8>, at: int, len: nat)
    requires
        0 <= at,
        at + len <= b.len(),
    ensures
        be_value(a + b, a.len() + at, len) == be_value(b, at, len),
    decreases len,
{
    if len > 0 {
        lemma_value_shift(a, b, at, (len - 1) as nat);
        assert((a + b)[a.len() + at + len - 1] == b[at + len - 1]);
    }
}

proof fn lemma_members_shift(a: Seq<u8>, b: Seq<u8>, off: int)
    requires
        0 <= off,
    ensures
        members_from(a + b, a.len() + off) == members_from(b, off),
    decreases b.len() - off,
{
    if off + 4 <= b.len() {
        lemma_value_shift(a, b, off + 2, 2);
        assert((a.len() + off) + 2 == a.len() + (off + 2));
        let n = 4 * (be_value(b, off + 2, 2) as int + 1);
        if off + n <= b.len() {
            assert((a + b).subrange(a.len() + off, a.len() + off + n) =~= b.subrange(off, off + n));
            lemma_members_shift(a, b, off + n);
        }
    }
}

/// A compound packet is read member by member: each is as long as its length field says, in words
/// of four bytes and one more, and the rest follows it.
pub proof fn law_compound(m: Seq<u8>, rest: Seq<u8>, words: int)
    requires
        0 <= words <= 0xffff,
        m.len() == 4 * words + 4,
        holds(m, 2, words, 2),
    ensures
        member_view(m) matches Some(v) ==> members_from(m + rest, 0) == seq![v] + members_from(
            rest,
            0,
        ),
        member_view(m) is None ==> members_from(m + rest, 0) == members_from(rest, 0),
{
    octets::lemma_pow256_values();
    let b = m + rest;
    assert(b.subrange(2, 4) =~= m.subrange(2, 4));
    lemma_holds(b, 2, words, 2);
    assert(b.subrange(0, m.len() as int) =~= m);
    lemma_members_shift(m, rest, 0);
    assert(Seq::<RtcpView>::empty() + members_from(rest, 0) =~= members_from(rest, 0));
}

/// A member that is cut short ends the packet, and so does less than a member's header.
pub proof fn law_compound_cut_short(b: Seq<u8>, words: int)
    ensures
        b.len() < 4 ==> members_from(b, 0).len() == 0,
        0 <= words <= 0xffff && holds(b, 2, words, 2) && b.len() < 4 * words + 4 ==> members_from(
            b,
            0,
        ).len() == 0,
{
    octets::lemma_pow256_values();
    if 0 <= words <= 0xffff && holds(b, 2, words, 2) {
        lemma_holds(b, 2, words, 2);
    }
}

} // verus!
