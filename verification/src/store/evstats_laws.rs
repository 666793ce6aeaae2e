//! What each event adds to the statistics.
use crate::correlate::call_laws::same_letters;
use crate::correlate::call_laws::law_same_word;
use crate::correlate::teardown;
use crate::model::addr::IpAddr;
use crate::model::sip::{CallState, CallView};
use crate::model::stats::Real64;
use crate::store::evlog::EventView;
use crate::store::evstats::{
    call_fact, code_index, code_plus, fail_kind, ip_index, ip_plus, opened, sip_fact, snap_fact,
    snap_growth, snaps_with, stream_mark, window_start, CallCounts, Counters, EventCounts, FailKind,
    FailSplit, SnapEntry, StatsView, WinView,
};
use crate::store::evstats;
use crate::store::intern;
use crate::store::wire::{CallEvtKind, FieldVal};
use vstd::prelude::*;

verus! {

// ----------------------------- the end of a call -----------------------------

/// The record of the end of a call.
pub open spec fn is_end(e: EventView) -> bool {
    e.ty == 3 && e.fields[1] == FieldVal::CallKind(CallEvtKind::Teardown)
}

/// The talk time of a call runs from its answer to its end, or to its BYE where the end is
/// not known. A call that was not answered, did not end or ended before its answer adds none.
pub proof fn law_talk_time(
    s: StatsView,
    e: EventView,
    answer: Option<u64>,
    bye: Option<u64>,
    end: Option<u64>,
)
    requires
        is_end(e),
        e.fields[11] == FieldVal::OptU64(answer),
        e.fields[12] == FieldVal::OptU64(bye),
        e.fields[13] == FieldVal::OptU64(end),
    ensures
        answer is Some && end is Some && answer->Some_0 <= end->Some_0 ==> s.with_event(e).talks
            == s.talks.push((end->Some_0 - answer->Some_0) as u64),
        answer is Some && end is None && bye is Some && answer->Some_0 <= bye->Some_0
            ==> s.with_event(e).talks == s.talks.push((bye->Some_0 - answer->Some_0) as u64),
        answer is None ==> s.with_event(e).talks == s.talks,
        end is None && bye is None ==> s.with_event(e).talks == s.talks,
        answer is Some && end is Some && answer->Some_0 > end->Some_0 ==> s.with_event(e).talks
            == s.talks,
        answer is Some && end is None && bye is Some && answer->Some_0 > bye->Some_0
            ==> s.with_event(e).talks == s.talks,
{
}

/// The duration of a call runs from its INVITE in the same way.
pub proof fn law_duration(
    s: StatsView,
    e: EventView,
    invite: Option<u64>,
    bye: Option<u64>,
    end: Option<u64>,
)
    requires
        is_end(e),
        e.fields[8] == FieldVal::OptU64(invite),
        e.fields[12] == FieldVal::OptU64(bye),
        e.fields[13] == FieldVal::OptU64(end),
    ensures
        invite is Some && end is Some && invite->Some_0 <= end->Some_0 ==> s.with_event(e).durations
            == s.durations.push((end->Some_0 - invite->Some_0) as u64),
        invite is Some && end is None && bye is Some && invite->Some_0 <= bye->Some_0
            ==> s.with_event(e).durations == s.durations.push((bye->Some_0 - invite->Some_0) as u64),
        invite is None ==> s.with_event(e).durations == s.durations,
        end is None && bye is None ==> s.with_event(e).durations == s.durations,
        invite is Some && end is Some && invite->Some_0 > end->Some_0 ==> s.with_event(e).durations
            == s.durations,
        invite is Some && end is None && bye is Some && invite->Some_0 > bye->Some_0
            ==> s.with_event(e).durations == s.durations,
{
}

/// What a call held at its end is what the statistics take from its record: the talk time
/// of an answered call is the time from its answer to its end, that of any other is none.
pub proof fn law_finished_call_measured(s: StatsView, c: CallView, ts: u64)
    ensures
        ({
            let t = s.with_event(teardown::end_event(c, ts));
            &&& c.answer_ts is None ==> t.talks == s.talks && t.answered == s.answered
            &&& c.answer_ts is Some ==> t.answered == s.answered.wrapping_add(1)
            &&& c.answer_ts is Some && c.end_ts is Some && c.answer_ts->Some_0 <= c.end_ts->Some_0
                ==> t.talks == s.talks.push((c.end_ts->Some_0 - c.answer_ts->Some_0) as u64)
            &&& c.invite_ts is Some && c.end_ts is Some && c.invite_ts->Some_0 <= c.end_ts->Some_0
                ==> t.durations == s.durations.push(
                (c.end_ts->Some_0 - c.invite_ts->Some_0) as u64,
            )
            &&& c.pdd_ms matches Some(d) ==> t.pdds == s.pdds.push(d)
            &&& c.pdd_ms is None ==> t.pdds == s.pdds
            &&& c.setup_ms matches Some(d) ==> t.setups == s.setups.push(d)
            &&& c.setup_ms is None ==> t.setups == s.setups
            &&& t.calls.completed == s.calls.completed.wrapping_add(
                if c.state == CallState::Completed {
                    1
                } else {
                    0
                },
            )
            &&& t.calls.failed == s.calls.failed.wrapping_add(
                if c.state == CallState::Failed {
                    1
                } else {
                    0
                },
            )
            &&& t.calls.canceled == s.calls.canceled.wrapping_add(
                if c.state == CallState::Canceled {
                    1
                } else {
                    0
                },
            )
            &&& t.calls.invite == s.calls.invite
            &&& t.calls.bye == s.calls.bye
            &&& t.calls.cancel == s.calls.cancel
            &&& t.events.call == s.events.call.wrapping_add(1)
        }),
{
    let e = teardown::end_event(c, ts);
    law_talk_time(s, e, c.answer_ts, c.bye_ts, c.end_ts);
    law_duration(s, e, c.invite_ts, c.bye_ts, c.end_ts);
}

/// The delays that a call recorded are kept as they are, each in its list.
pub proof fn law_delays_kept(s: StatsView, e: EventView, pdd: Option<u32>, setup: Option<u32>)
    requires
        is_end(e),
        e.fields[14] == FieldVal::OptU32(pdd),
        e.fields[15] == FieldVal::OptU32(setup),
    ensures
        pdd matches Some(d) ==> s.with_event(e).pdds == s.pdds.push(d),
        pdd is None ==> s.with_event(e).pdds == s.pdds,
        setup matches Some(d) ==> s.with_event(e).setups == s.setups.push(d),
        setup is None ==> s.with_event(e).setups == s.setups,
{
}

/// A call counts as completed, failed or canceled by its state, and as answered where it has
/// an answer time, whatever its state.
pub proof fn law_end_classified(s: StatsView, e: EventView, state: u8, answer: Option<u64>)
    requires
        is_end(e),
        e.fields[6] == FieldVal::Byte(state),
        e.fields[11] == FieldVal::OptU64(answer),
    ensures
        s.with_event(e).calls == (CallCounts {
            completed: s.calls.completed.wrapping_add(
                if state == 3 {
                    1
                } else {
                    0
                },
            ),
            failed: s.calls.failed.wrapping_add(
                if state == 4 {
                    1
                } else {
                    0
                },
            ),
            canceled: s.calls.canceled.wrapping_add(
                if state == 5 {
                    1
                } else {
                    0
                },
            ),
            ..s.calls
        }),
        s.with_event(e).answered == s.answered.wrapping_add(
            if answer is Some {
                1
            } else {
                0
            },
        ),
        state != 4 ==> s.with_event(e).fail == s.fail,
{
}

/// The reason of a failure: which SIP statuses and Q.850 causes mean that the number was not found,
/// that the callee was busy, did not answer in time or refused. Anything else is a failure of
/// no special kind.
pub proof fn law_fail_reasons(c: u32)
    ensures
        fail_kind(None) == FailKind::Fail,
        fail_kind(Some(c)) == FailKind::NotFound <==> (c == 1 || c == 404 || c == 410 || c == 484
            || c == 485 || c == 604),
        fail_kind(Some(c)) == FailKind::Busy <==> (c == 17 || c == 486 || c == 600),
        fail_kind(Some(c)) == FailKind::Timeout <==> (c == 18 || c == 19 || c == 408 || c == 480 || c
            == 504),
        fail_kind(Some(c)) == FailKind::Reject <==> (c == 21 || c == 401 || c == 403 || c == 407 || c
            == 433 || c == 488 || c == 603 || c == 606 || c == 607),
{
}

/// A failed call counts for the one reason that its cause gives.
pub proof fn law_failure_counted(s: StatsView, e: EventView, code: Option<u32>)
    requires
        is_end(e),
        e.fields[6] == FieldVal::Byte(4u8),
        e.fields[16] == FieldVal::OptU32(code),
    ensures
        s.with_event(e).fail == match fail_kind(code) {
            FailKind::NotFound => FailSplit { notfound: s.fail.notfound.wrapping_add(1), ..s.fail },
            FailKind::Reject => FailSplit { reject: s.fail.reject.wrapping_add(1), ..s.fail },
            FailKind::Busy => FailSplit { busy: s.fail.busy.wrapping_add(1), ..s.fail },
            FailKind::Timeout => FailSplit { timeout: s.fail.timeout.wrapping_add(1), ..s.fail },
            FailKind::Fail => FailSplit { fail: s.fail.fail.wrapping_add(1), ..s.fail },
        },
{
}

/// How often a code was the cause; each stands once in the list.
pub open spec fn code_count(v: Seq<(u32, u64)>, code: u32) -> u64 {
    let i = code_index(v, code, 0);
    if i < v.len() {
        v[i].1
    } else {
        0
    }
}

proof fn lemma_code_index(v: Seq<(u32, u64)>, code: u32, i: int)
    requires
        0 <= i <= v.len(),
    ensures
        i <= code_index(v, code, i) <= v.len(),
        code_index(v, code, i) < v.len() ==> v[code_index(v, code, i)].0 == code,
        forall|k: int| i <= k < code_index(v, code, i) ==> (#[trigger] v[k]).0 != code,
    decreases v.len() - i,
{
    if i < v.len() && v[i].0 != code {
        lemma_code_index(v, code, i + 1);
    }
}

proof fn lemma_code_at(v: Seq<(u32, u64)>, code: u32, i: int, k: int)
    requires
        0 <= i <= k <= v.len(),
        k == v.len() || v[k].0 == code,
        forall|x: int| i <= x < k ==> (#[trigger] v[x]).0 != code,
    ensures
        code_index(v, code, i) == k,
    decreases k - i,
{
    if i < k {
        assert(v[i].0 != code);
        lemma_code_at(v, code, i + 1, k);
    }
}

/// The cause of an end is counted once more, and no other is; without a cause none is.
pub proof fn law_cause_counted(s: StatsView, e: EventView, code: Option<u32>, other: u32)
    requires
        is_end(e),
        e.fields[16] == FieldVal::OptU32(code),
    ensures
        code is None ==> s.with_event(e).hangup == s.hangup,
        code matches Some(c) ==> code_count(s.with_event(e).hangup, other) == code_count(
            s.hangup,
            other,
        ).wrapping_add(
            if other == c {
                1
            } else {
                0
            },
        ),
{
    if let Some(c) = code {
        let v = s.hangup;
        let w = code_plus(v, c);
        lemma_code_index(v, c, 0);
        lemma_code_index(v, other, 0);
        let i = code_index(v, c, 0);
        let j = code_index(v, other, 0);
        if other == c {
            lemma_code_at(w, c, 0, i);
        } else {
            let k = if j < v.len() {
                j
            } else {
                w.len() as int
            };
            lemma_code_at(w, other, 0, k);
        }
    }
}

/// Any other event of a call only counts as one: it ends nothing.
pub proof fn law_other_call_event(s: StatsView, e: EventView)
    requires
        e.ty == 3,
        e.fields[1] == FieldVal::CallKind(e.fields[1]->CallKind_0),
        e.fields[1]->CallKind_0 != CallEvtKind::Teardown,
    ensures
        s.with_event(e) == (StatsView {
            events: EventCounts { call: s.events.call.wrapping_add(1), ..s.events },
            ids: s.with_event(e).ids,
            snaps: s.with_event(e).snaps,
            start_ts_us: if s.start_ts_us is Some {
                s.start_ts_us
            } else {
                Some(e.ts_us)
            },
            end_ts_us: Some(e.ts_us),
            ..s
        }),
{
}

// ----------------------------- messages -----------------------------

/// A request counts by its method, in any case; a response by the first digit of its status,
/// one to six. The two never mix.
pub proof fn law_message_counted(
    s: StatsView,
    e: EventView,
    is_request: bool,
    method: Option<Seq<char>>,
    status: Option<u16>,
    body: Seq<u8>,
)
    requires
        e.ty == 1,
        e.fields[1] == FieldVal::Flag(is_request),
        e.fields[2] == FieldVal::OptText(method),
        e.fields[3] == FieldVal::OptU16(status),
        e.fields[9] == FieldVal::Blob(body),
        s.sip_class.len() == 7,
    ensures
        ({
            let t = s.with_event(e);
            let named = |name: Seq<char>|
                is_request && method is Some && same_letters(method->Some_0, name);
            &&& t.calls == CallCounts {
                invite: s.calls.invite.wrapping_add(
                    if named("INVITE"@) {
                        1
                    } else {
                        0
                    },
                ),
                bye: s.calls.bye.wrapping_add(
                    if named("BYE"@) {
                        1
                    } else {
                        0
                    },
                ),
                cancel: s.calls.cancel.wrapping_add(
                    if named("CANCEL"@) {
                        1
                    } else {
                        0
                    },
                ),
                ..s.calls
            }
            &&& t.events == EventCounts { sip: s.events.sip.wrapping_add(1), ..s.events }
            &&& t.sip_bytes == s.sip_bytes.wrapping_add(body.len() as u64)
            &&& t.sip_class.len() == 7
            &&& forall|k: int|
                0 <= k < 7 ==> #[trigger] t.sip_class[k] == s.sip_class[k].wrapping_add(
                    if !is_request && status is Some && 1 <= k <= 6 && 100 * k <= status->Some_0
                        < 100 * k + 100 {
                        1
                    } else {
                        0
                    },
                )
            &&& t.talks == s.talks
            &&& t.durations == s.durations
            &&& t.answered == s.answered
            &&& t.all == s.all
        }),
{
    reveal_strlit("INVITE");
    reveal_strlit("BYE");
    reveal_strlit("CANCEL");
    if let Some(m) = method {
        law_same_word(m, "INVITE"@);
        law_same_word(m, "BYE"@);
        law_same_word(m, "CANCEL"@);
        if same_letters(m, "INVITE"@) && same_letters(m, "CANCEL"@) {
            assert("INVITE"@[0] == 'I' && "CANCEL"@[0] == 'C');
            assert(crate::correlate::call_laws::alike(m[0], 'I'));
            assert(crate::correlate::call_laws::alike(m[0], 'C'));
            assert(false);
        }
    }
    let t = s.with_event(e);
    assert forall|k: int| 0 <= k < 7 implies #[trigger] t.sip_class[k]
        == s.sip_class[k].wrapping_add(
        if !is_request && status is Some && 1 <= k <= 6 && 100 * k <= status->Some_0 < 100 * k
            + 100 {
            1
        } else {
            0
        },
    ) by {
    }
}

/// A call counts as seized once an INVITE of it has been seen, and by nothing else; its number is
/// where its ID stands.
pub proof fn law_seized(s: StatsView, e: EventView, k: int)
    requires
        s.ids.len() < usize::MAX,
        0 <= k < s.with_event(e).ids.len(),
        e.ty == 1,
        e.fields[1] == FieldVal::Flag(true),
        e.fields[2] == FieldVal::OptText(Some("INVITE"@)),
        e.fields[4] == FieldVal::Text(s.with_event(e).ids[k]),
        forall|x: int| 0 <= x < k ==> #[trigger] s.with_event(e).ids[x] != s.with_event(e).ids[k],
    ensures
        s.with_event(e).seized == s.seized.insert(k as usize),
{
    let id = s.with_event(e).ids[k];
    intern::lemma_text_index(s.ids, id, 0);
    let i = intern::text_index(s.ids, id, 0);
    if i < s.ids.len() {
        assert(s.with_event(e).ids == s.ids);
        intern::lemma_text_at(s.ids, id, 0, k);
    } else {
        assert(s.with_event(e).ids == s.ids.push(id));
        if k < s.ids.len() {
            assert(s.ids[k] == s.ids.push(id)[k]);
        }
    }
}

// ----------------------------- streams and round trips -----------------------------

/// A snapshot of a stream counts what the stream has gained since its previous one: everything, if
/// it is the first, and nothing where a number went back.
pub proof fn law_snapshot_growth(v: Seq<SnapEntry>, x: SnapEntry, k: int)
    ensures
        (forall|i: int| 0 <= i < v.len() ==> (#[trigger] v[i]).key != x.key) ==> snap_growth(v, x)
            == (x.packets, x.lost, x.bytes) && snaps_with(v, x) == v.push(x),
        0 <= k < v.len() && v[k].key == x.key && (forall|i: int|
            0 <= i < k ==> (#[trigger] v[i]).key != x.key) ==> {
            let by = snap_growth(v, x);
            &&& by.0 == (if x.packets >= v[k].packets {
                x.packets - v[k].packets
            } else {
                0
            })
            &&& by.1 == (if x.lost >= v[k].lost {
                x.lost - v[k].lost
            } else {
                0
            })
            &&& by.2 == (if x.bytes >= v[k].bytes {
                x.bytes - v[k].bytes
            } else {
                0
            })
            &&& snaps_with(v, x) == v.update(k, x)
        },
{
    evstats::lemma_snap_index(v, x.key, 0);
}

/// What a record of a stream holds is what the statistics read: call, flow, SSRC, packets, lost
/// packets, bytes, jitter, quality and average round trip.
pub proof fn law_snapshot_read(e: EventView, x: SnapEntry)
    requires
        e.fields[1] == FieldVal::U32Be(x.key.ssrc),
        e.fields[2] == FieldVal::Flow(x.key.flow),
        e.fields[5] == FieldVal::Varint(x.packets),
        e.fields[6] == FieldVal::Varint(x.lost),
        e.fields[9] == FieldVal::OptF64(x.jitter_ms),
        e.fields[10] == FieldVal::OptF64(x.mos),
        e.fields[12] == FieldVal::Varint(x.bytes),
        e.fields[16] == FieldVal::OptF64(x.rtt_ms),
    ensures
        snap_fact(e.fields) == x,
{
}

/// The counters of an IP; each stands once in the list.
pub open spec fn ip_count(v: Seq<(IpAddr, Counters)>, ip: IpAddr) -> Counters {
    let i = ip_index(v, ip, 0);
    if i < v.len() {
        v[i].1
    } else {
        Counters { pkts: 0, lost: 0, bytes: 0 }
    }
}

proof fn lemma_ip_index(v: Seq<(IpAddr, Counters)>, ip: IpAddr, i: int)
    requires
        0 <= i <= v.len(),
    ensures
        i <= ip_index(v, ip, i) <= v.len(),
        ip_index(v, ip, i) < v.len() ==> v[ip_index(v, ip, i)].0 == ip,
        forall|k: int| i <= k < ip_index(v, ip, i) ==> (#[trigger] v[k]).0 != ip,
    decreases v.len() - i,
{
    if i < v.len() && v[i].0 != ip {
        lemma_ip_index(v, ip, i + 1);
    }
}

proof fn lemma_ip_at(v: Seq<(IpAddr, Counters)>, ip: IpAddr, i: int, k: int)
    requires
        0 <= i <= k <= v.len(),
        k == v.len() || v[k].0 == ip,
        forall|x: int| i <= x < k ==> (#[trigger] v[x]).0 != ip,
    ensures
        ip_index(v, ip, i) == k,
    decreases k - i,
{
    if i < k {
        assert(v[i].0 != ip);
        lemma_ip_at(v, ip, i + 1, k);
    }
}

proof fn lemma_ip_plus(
    v: Seq<(IpAddr, Counters)>,
    ip: IpAddr,
    by: (u64, u64, u64),
    other: IpAddr,
)
    ensures
        ip_count(ip_plus(v, ip, by.0, by.1, by.2), other) == (if other == ip {
            Counters {
                pkts: ip_count(v, ip).pkts.wrapping_add(by.0),
                lost: ip_count(v, ip).lost.wrapping_add(by.1),
                bytes: ip_count(v, ip).bytes.wrapping_add(by.2),
            }
        } else {
            ip_count(v, other)
        }),
{
    let w = ip_plus(v, ip, by.0, by.1, by.2);
    lemma_ip_index(v, ip, 0);
    lemma_ip_index(v, other, 0);
    let i = ip_index(v, ip, 0);
    let j = ip_index(v, other, 0);
    if other == ip {
        lemma_ip_at(w, ip, 0, i);
    } else {
        let k = if j < v.len() {
            j
        } else {
            w.len() as int
        };
        lemma_ip_at(w, other, 0, k);
    }
}

/// What a stream has gained counts in all, and for both ends of its flow: twice where they are one
/// IP, and for no other.
pub proof fn law_snapshot_counted(s: StatsView, ts: u64, id: Seq<char>, x: SnapEntry, other: IpAddr)
    requires
        s.snaps.len() == s.ids.len() < usize::MAX,
    ensures
        ({
            let t = s.with_snap(ts, id, x);
            let n = s.number(id) as int;
            let old = if n < s.snaps.len() {
                s.snaps[n]
            } else {
                Seq::empty()
            };
            let by = snap_growth(old, x);
            let f = x.key.flow;
            &&& t.all.pkts == s.all.pkts.wrapping_add(by.0)
            &&& t.all.lost == s.all.lost.wrapping_add(by.1)
            &&& t.all.bytes == s.all.bytes.wrapping_add(by.2)
            &&& t.snaps.len() == t.ids.len()
            &&& t.snaps[n] == snaps_with(old, x)
            &&& other != f.src.ip && other != f.dst.ip ==> ip_count(t.ip_loss, other) == ip_count(
                s.ip_loss,
                other,
            )
            &&& f.src.ip != f.dst.ip && (other == f.src.ip || other == f.dst.ip) && (by.0 > 0 || by.1
                > 0 || by.2 > 0) ==> ip_count(t.ip_loss, other) == Counters {
                pkts: ip_count(s.ip_loss, other).pkts.wrapping_add(by.0),
                lost: ip_count(s.ip_loss, other).lost.wrapping_add(by.1),
                bytes: ip_count(s.ip_loss, other).bytes.wrapping_add(by.2),
            }
            &&& by.0 == 0 && by.1 == 0 && by.2 == 0 ==> t.ip_loss == s.ip_loss
            &&& t.events.stream_snap == s.events.stream_snap.wrapping_add(1)
            &&& t.calls == s.calls
            &&& t.talks == s.talks
        }),
{
    intern::lemma_text_index(s.ids, id, 0);
    let v = s.noted(ts).with_id(id);
    let n = s.number(id) as int;
    let by = snap_growth(v.snaps[n], x);
    let f = x.key.flow;
    lemma_ip_plus(s.ip_loss, f.src.ip, by, other);
    lemma_ip_plus(
        ip_plus(s.ip_loss, f.src.ip, by.0, by.1, by.2),
        f.dst.ip,
        by,
        other,
    );
    if n < s.snaps.len() {
        assert(v.snaps[n] == s.snaps[n]);
    } else {
        assert(v.snaps[n] == Seq::<SnapEntry>::empty());
    }
}

/// A round trip is kept as it is, at the end of the list.
pub proof fn law_round_trip_kept(s: StatsView, e: EventView, rtt: Real64)
    requires
        e.ty == 5,
        e.fields[2] == FieldVal::F64(rtt),
    ensures
        s.with_event(e).rtts == s.rtts.push(rtt),
        s.with_event(e).events.rtcp_rtt == s.events.rtcp_rtt.wrapping_add(1),
        s.with_event(e).all == s.all,
        s.with_event(e).calls == s.calls,
{
}

/// Every event counts under its own type and moves the end of the time covered; the first one
/// sets the beginning.
pub proof fn law_event_types(s: StatsView, e: EventView)
    ensures
        s.with_event(e).events == (if e.ty == 1 {
            EventCounts { sip: s.events.sip.wrapping_add(1), ..s.events }
        } else if e.ty == 2 {
            EventCounts { txn: s.events.txn.wrapping_add(1), ..s.events }
        } else if e.ty == 3 {
            EventCounts { call: s.events.call.wrapping_add(1), ..s.events }
        } else if e.ty == 4 {
            EventCounts { stream_snap: s.events.stream_snap.wrapping_add(1), ..s.events }
        } else if e.ty == 5 {
            EventCounts { rtcp_rtt: s.events.rtcp_rtt.wrapping_add(1), ..s.events }
        } else if e.ty == 6 {
            EventCounts { health: s.events.health.wrapping_add(1), ..s.events }
        } else if e.ty == 8 {
            EventCounts { diag: s.events.diag.wrapping_add(1), ..s.events }
        } else {
            EventCounts { error: s.events.error.wrapping_add(1), ..s.events }
        }),
        s.with_event(e).end_ts_us == Some(e.ts_us),
        s.start_ts_us is None ==> s.with_event(e).start_ts_us == Some(e.ts_us),
        s.start_ts_us is Some ==> s.with_event(e).start_ts_us == s.start_ts_us,
{
}

// ----------------------------- windows -----------------------------

/// A window covers a time: it begins at a multiple of five minutes, at most five minutes before.
pub open spec fn covers(w: WinView, ts: u64) -> bool {
    &&& w.start_ts_us % 300_000_000 == 0
    &&& w.start_ts_us <= ts
    &&& ts < w.start_ts_us + 300_000_000
}

/// The windows before an event, with those that stay and the one that the event falls into.
proof fn lemma_windows(ws: Seq<WinView>, ts: u64) -> (i: int)
    requires
        evstats::ascending(ws),
    ensures
        0 <= i < opened(ws, window_start(ts)).0.len(),
        i == opened(ws, window_start(ts)).1,
        covers(opened(ws, window_start(ts)).0[i], ts),
        opened(ws, window_start(ts)).0.len() == ws.len() ==> opened(ws, window_start(ts)).0 == ws,
        opened(ws, window_start(ts)).0.len() != ws.len() ==> opened(ws, window_start(ts)).0
            == ws.insert(i, WinView::fresh(window_start(ts))) && i <= ws.len(),
{
    let start = window_start(ts);
    evstats::lemma_opened(ws, start);
    evstats::lemma_win_slot(ws, start, ws.len() as int);
    assert(start % 300_000_000 == 0 && start <= ts < start + 300_000_000) by (nonlinear_arith)
        requires
            start == ts / 300_000_000 * 300_000_000,
    ;
    opened(ws, start).1
}

/// The window of a time, as it was: empty, if there was none.
pub open spec fn window_before(ws: Seq<WinView>, ts: u64) -> WinView {
    opened(ws, window_start(ts)).0[opened(ws, window_start(ts)).1]
}

/// A message counts in the window that covers its time: by its calls, its bytes and, for an INVITE,
/// its seizure; there alone.
pub proof fn law_message_in_window(s: StatsView, e: EventView)
    requires
        evstats::ascending(s.windows),
        e.ty == 1,
    ensures
        exists|i: int|
            0 <= i < s.with_event(e).windows.len() && {
                let a = window_before(s.windows, e.ts_us);
                let b = #[trigger] s.with_event(e).windows[i];
                &&& covers(b, e.ts_us)
                &&& b.sip_msgs == a.sip_msgs.wrapping_add(1)
                &&& b.sip_bytes == a.sip_bytes.wrapping_add(
                    sip_fact(e.fields).len as u64,
                )
                &&& b.teardowns == a.teardowns
                &&& b.answered == a.answered
                &&& b.completed == a.completed
                &&& b.canceled == a.canceled
                &&& b.fail == a.fail
                &&& b.loss == a.loss
                &&& b.rtts == a.rtts
                &&& b.calls.contains(s.number(sip_fact(e.fields).call_id))
                &&& forall|k: int|
                    0 <= k < s.with_event(e).windows.len() && k != i ==> #[trigger] s.with_event(
                        e,
                    ).windows[k] == opened(s.windows, window_start(e.ts_us)).0[k]
            },
{
    let i = lemma_windows(s.windows, e.ts_us);
    let b = s.with_event(e).windows[i];
}

/// The end of a call counts in the window that covers its time, by the same classes as in all.
pub proof fn law_end_in_window(s: StatsView, e: EventView, state: u8, answer: Option<u64>)
    requires
        evstats::ascending(s.windows),
        is_end(e),
        e.fields[6] == FieldVal::Byte(state),
        e.fields[11] == FieldVal::OptU64(answer),
    ensures
        exists|i: int|
            0 <= i < s.with_event(e).windows.len() && {
                let a = window_before(s.windows, e.ts_us);
                let b = #[trigger] s.with_event(e).windows[i];
                &&& covers(b, e.ts_us)
                &&& b.teardowns == a.teardowns.wrapping_add(1)
                &&& b.completed == a.completed.wrapping_add(
                    if state == 3 {
                        1
                    } else {
                        0
                    },
                )
                &&& b.canceled == a.canceled.wrapping_add(
                    if state == 5 {
                        1
                    } else {
                        0
                    },
                )
                &&& b.answered == a.answered.wrapping_add(
                    if answer is Some {
                        1
                    } else {
                        0
                    },
                )
                &&& state != 4 ==> b.fail == a.fail
                &&& state == 4 ==> b.fail == a.fail.bumped(
                    fail_kind(call_fact(e.fields).hangup_code),
                )
                &&& b.sip_msgs == a.sip_msgs
                &&& b.loss == a.loss
            },
{
    let i = lemma_windows(s.windows, e.ts_us);
    let b = s.with_event(e).windows[i];
}

/// What a stream has gained counts in the window of the snapshot, with the stream and its call; a
/// round trip in that of its report.
pub proof fn law_media_in_window(s: StatsView, ts: u64, id: Seq<char>, x: SnapEntry, rtt: Real64)
    requires
        evstats::ascending(s.windows),
        s.snaps.len() == s.ids.len() < usize::MAX,
    ensures
        exists|i: int|
            0 <= i < s.with_snap(ts, id, x).windows.len() && {
                let a = window_before(s.windows, ts);
                let b = #[trigger] s.with_snap(ts, id, x).windows[i];
                let t = s.with_snap(ts, id, x);
                &&& covers(b, ts)
                &&& b.loss.pkts.wrapping_sub(a.loss.pkts) == t.all.pkts.wrapping_sub(s.all.pkts)
                &&& b.loss.lost.wrapping_sub(a.loss.lost) == t.all.lost.wrapping_sub(s.all.lost)
                &&& b.loss.bytes.wrapping_sub(a.loss.bytes) == t.all.bytes.wrapping_sub(s.all.bytes)
                &&& b.calls == a.calls.insert(s.number(id))
                &&& b.streams == a.streams.insert(stream_mark(s.number(id), x.key.ssrc))
                &&& b.sip_msgs == a.sip_msgs
                &&& b.teardowns == a.teardowns
            },
        exists|i: int|
            0 <= i < s.with_rtt(ts, rtt).windows.len() && {
                let a = window_before(s.windows, ts);
                let b = #[trigger] s.with_rtt(ts, rtt).windows[i];
                &&& covers(b, ts)
                &&& b.rtts == a.rtts.push(rtt)
                &&& b.loss == a.loss
                &&& b.sip_msgs == a.sip_msgs
            },
{
    let i = lemma_windows(s.windows, ts);
    let b = s.with_snap(ts, id, x).windows[i];
    let c = s.with_rtt(ts, rtt).windows[i];
    assert(c.rtts == window_before(s.windows, ts).rtts.push(rtt));
    assert(covers(b, ts));
}

/// A window that no event fell into before is empty, and the windows stay in order.
pub proof fn law_window_begins_empty(ws: Seq<WinView>, ts: u64)
    requires
        evstats::ascending(ws),
        forall|i: int| 0 <= i < ws.len() ==> !covers(#[trigger] ws[i], ts),
    ensures
        ({
            let a = window_before(ws, ts);
            &&& covers(a, ts)
            &&& a.loss == Counters { pkts: 0, lost: 0, bytes: 0 }
            &&& a.sip_msgs == 0
            &&& a.sip_bytes == 0
            &&& a.teardowns == 0
            &&& a.answered == 0
            &&& a.completed == 0
            &&& a.canceled == 0
            &&& a.fail == FailSplit { notfound: 0, reject: 0, busy: 0, timeout: 0, fail: 0 }
            &&& a.invites == Set::<usize>::empty()
            &&& a.calls == Set::<usize>::empty()
            &&& a.streams == Set::<u128>::empty()
            &&& a.rtts == Seq::<Real64>::empty()
        }),
{
    let i = lemma_windows(ws, ts);
    let vs = opened(ws, window_start(ts)).0;
    if vs.len() == ws.len() {
        assert(covers(ws[i], ts));
    }
}

/// A record is counted by its type; one that cannot be read is skipped and counts for nothing else.
pub proof fn law_record_counted(s: StatsView, ty: u8, ts: u64, payload: Seq<u8>)
    requires
        s.events.txn < u64::MAX,
        s.events.health < u64::MAX,
        s.events.diag < u64::MAX,
        s.events.error < u64::MAX,
        s.events.skipped < u64::MAX,
    ensures
        ty == 2 ==> s.with_record(ty, ts, payload).events.txn == s.events.txn + 1,
        ty == 6 ==> s.with_record(ty, ts, payload).events.health == s.events.health + 1,
        ty == 8 ==> s.with_record(ty, ts, payload).events.diag == s.events.diag + 1,
        ty == 7 || ty == 0 || ty > 8 ==> s.with_record(ty, ts, payload).events.error
            == s.events.error + 1,
        (ty == 1 || ty == 3 || ty == 4 || ty == 5) && crate::store::evlog::payload_read(
            ty,
            ts,
            payload,
        ) is Err ==> s.with_record(ty, ts, payload) == (StatsView {
            events: EventCounts { skipped: (s.events.skipped + 1) as u64, ..s.events },
            ..s
        }),
{
}

/// The events in all are those of every type, without the skipped ones.
pub proof fn law_events_in_all(e: EventCounts)
    requires
        e.sip + e.txn + e.call + e.stream_snap + e.rtcp_rtt + e.health + e.error + e.diag
            <= u64::MAX,
    ensures
        e.spec_total() == e.sip + e.txn + e.call + e.stream_snap + e.rtcp_rtt + e.health + e.error
            + e.diag,
{
}

} // verus!
