//! How delays, outcomes, round trips and sequence numbers are measured.
use crate::analyze::media_stats::{ahead, in_window, just_before, seq_step, ts_delta, SeqState};
use crate::analyze::metrics::{first_provisional, outcome_of};
use crate::analyze::rtcp_rtt::rtt_units_of;
use crate::correlate::call::{apply, ms32};
use crate::correlate::call_laws::{law_487_cancels, law_refusal_fails, names, response};
use crate::decode::rtcp::ReportBlock;
use crate::model::sip::{CallState, CallView, MsgView, Outcome};
use vstd::prelude::*;

verus! {

// ----------------------------- delays and outcomes -----------------------------

/// A delay is in whole milliseconds, rounded down; one that would be negative is none.
pub proof fn law_milliseconds(a: u64, b: u64)
    ensures
        a <= b && b - a < 1000 * 0x1_0000_0000 ==> 1000 * ms32(a, b) <= b - a && b - a < 1000 * ms32(
            a,
            b,
        ) + 1000,
        b < a ==> ms32(a, b) == 0,
{
}

/// The first provisional response is the earlier of the two kinds; with neither there is none.
pub proof fn law_first_provisional(c: CallView)
    ensures
        first_provisional(c) is None <==> c.trying_ts is None && c.ringing_ts is None,
        first_provisional(c) matches Some(t) ==> {
            &&& Some(t) == c.trying_ts || Some(t) == c.ringing_ts
            &&& c.trying_ts matches Some(x) ==> t <= x
            &&& c.ringing_ts matches Some(x) ==> t <= x
        },
{
}

/// The outcome that a finished call shows: answered if completed, canceled if canceled, and, if
/// failed, rejected by a 4xx cause and failed by any other; a call that goes on has none.
pub proof fn law_outcome(c: CallView)
    ensures
        outcome_of(c) == Outcome::Answered <==> c.state == CallState::Completed,
        outcome_of(c) == Outcome::Canceled <==> c.state == CallState::Canceled,
        outcome_of(c) == Outcome::Rejected <==> c.state == CallState::Failed && c.hangup.code is Some
            && c.hangup.code->Some_0 / 100 == 4,
        outcome_of(c) == Outcome::Failed <==> c.state == CallState::Failed && !(c.hangup.code is Some
            && c.hangup.code->Some_0 / 100 == 4),
        outcome_of(c) == Outcome::InProgress <==> c.state == CallState::Dialing || c.state
            == CallState::Ringing || c.state == CallState::Active,
{
}

/// The outcome that a call takes when it is refused or canceled while it is set up is the one that
/// is read off it afterwards.
pub proof fn law_outcome_agrees(c: CallView, m: MsgView, code: u16)
    requires
        response(m, code),
        code >= 300,
        !names(m, "BYE"@),
        c.state == CallState::Dialing || c.state == CallState::Ringing,
    ensures
        outcome_of(apply(c, m)) == apply(c, m).outcome,
{
    if code == 487 {
        law_487_cancels(c, m);
    } else {
        law_refusal_fails(c, m, code);
    }
}

// ----------------------------- round trips -----------------------------

/// A report that comes `rtt` after the sender report that it names and the reporter's delay gives that
/// round trip, up to a minute, also across a wrap of the clock.
pub proof fn law_round_trip(arrival: u32, b: ReportBlock, rtt: int)
    requires
        b.lsr != 0,
        0 <= rtt <= 60 * 65536,
        b.lsr + b.dlsr + rtt == arrival || b.lsr + b.dlsr + rtt == arrival + 0x1_0000_0000,
    ensures
        rtt_units_of(arrival, b) == Some(rtt),
{
}

/// No other round trip is believed: without a sender report there is none, and what is found is the
/// time that has passed.
pub proof fn law_round_trip_sound(arrival: u32, b: ReportBlock)
    ensures
        b.lsr == 0 ==> rtt_units_of(arrival, b) is None,
        rtt_units_of(arrival, b) matches Some(u) ==> {
            &&& 0 <= u <= 60 * 65536
            &&& b.lsr + b.dlsr + u == arrival || b.lsr + b.dlsr + u == arrival + 0x1_0000_0000
        },
{
}

// ----------------------------- sequence numbers -----------------------------

/// How far one number is ahead of another: adding it to the other gives the one, modulo 2^16.
pub proof fn law_ahead(a: u16, b: u16)
    ensures
        0 <= ahead(a, b) < 0x1_0000,
        b + ahead(a, b) == a || b + ahead(a, b) == a + 0x1_0000,
{
}

/// The distance of two RTP timestamps goes the shorter way round.
pub proof fn law_timestamp_distance(cur: u32, prev: u32)
    ensures
        -0x8000_0000 <= ts_delta(cur, prev) < 0x8000_0000,
        prev + ts_delta(cur, prev) == cur || prev + ts_delta(cur, prev) == cur + 0x1_0000_0000 || prev
            + ts_delta(cur, prev) == cur - 0x1_0000_0000,
{
}

/// The first packet of a stream misses nothing, a repeated one changes nothing, and one that follows
/// the latest misses nothing.
pub proof fn law_packets_in_order(s: SeqState, seq: u16)
    ensures
        s.first is None ==> seq_step(s, seq) == (SeqState {
            first: Some(seq),
            last: Some(seq),
            ..s
        }),
        s.first is Some && s.last == Some(seq) ==> seq_step(s, seq) == s,
        s.first is Some && s.last is Some && s.pending =~= Set::<u16>::empty() && (s.last->Some_0 + 1
            == seq || s.last->Some_0 == 0xffff && seq == 0) ==> seq_step(s, seq).last == Some(seq)
            && seq_step(s, seq).lost == s.lost && seq_step(s, seq).pending =~= Set::<u16>::empty()
            && seq_step(s, seq).first == s.first,
{
    if s.first is Some && s.last is Some && s.pending =~= Set::<u16>::empty() && (s.last->Some_0 + 1
        == seq || s.last->Some_0 == 0xffff && seq == 0) {
        let e = crate::analyze::media_stats::expired(s.pending, seq);
        assert(e =~= Set::<u16>::empty());
        assert(s.pending.difference(e) =~= Set::<u16>::empty());
    }
}

/// A gap leaves the latest 64 of the missing numbers waiting and gives the others up, where none was
/// missing before.
pub proof fn law_gap(s: SeqState, seq: u16)
    requires
        in_window(s),
        s.pending =~= Set::<u16>::empty(),
        2 <= ahead(seq, s.last->Some_0) < 0x8000,
    ensures
        seq_step(s, seq).lost == s.lost + (if ahead(seq, s.last->Some_0) - 1 > 64 {
            ahead(seq, s.last->Some_0) - 1 - 64
        } else {
            0
        }),
        forall|x: u16|
            #[trigger] seq_step(s, seq).pending.contains(x) <==> 1 <= ahead(seq, x) <= 64 && ahead(
                seq,
                x,
            ) < ahead(seq, s.last->Some_0),
        seq_step(s, seq).last == Some(seq),
{
    let last = s.last->Some_0;
    let missing = ahead(seq, last) - 1;
    let kept = if missing <= 64 {
        missing
    } else {
        64
    };
    let p = s.pending.union(just_before(seq, kept));
    let e = crate::analyze::media_stats::expired(p, seq);
    assert(e =~= Set::<u16>::empty()) by {
        assert forall|x: u16| !#[trigger] e.contains(x) by {
            if p.contains(x) {
                assert(1 <= ahead(seq, x) <= kept);
            }
        }
    }
    assert(p.difference(e) =~= p);
}

/// A number that waits is given up once the latest is more than 64 ahead of it, and not before.
pub proof fn law_given_up(s: SeqState, seq: u16, x: u16)
    requires
        in_window(s),
        s.pending.contains(x),
        1 <= ahead(seq, s.last->Some_0) < 0x8000 - 64,
    ensures
        seq_step(s, seq).pending.contains(x) <==> ahead(seq, x) <= 64,
{
    let last = s.last->Some_0;
    assert(1 <= ahead(last, x) <= 64);
    assert(ahead(seq, x) == ahead(last, x) + ahead(seq, last));
}

} // verus!
