//! What is reported, logged and counted at the end of a call, and when the clock flushes.
use crate::correlate::correlator;
use crate::correlate::correlator::CorrView;
use crate::correlate::stream::StreamView;
use crate::correlate::teardown;
use crate::correlate::teardown::{
    code_of_outcome, code_of_state, end_line, flows_of, lost_before, one_way_finding,
};
use crate::diagnostics::{DiagView, Severity};
use crate::model::media::SummaryView;
use crate::model::sip::{CallState, CallView, MsgView, Outcome};
use crate::store::ipstats;
use crate::store::registry;
use crate::store::registry::{RegView, StreamKey};
use crate::store::wire::{CallEvtKind, FieldVal};
use vstd::prelude::*;

verus! {

// ----------------------------- one-way media -----------------------------

proof fn lemma_flows_none(streams: Seq<StreamView>, id: Seq<char>, n: int)
    requires
        0 <= n <= streams.len(),
        forall|k: int| 0 <= k < n ==> (#[trigger] streams[k]).call_id != id,
    ensures
        flows_of(streams, id, n).len() == 0,
    decreases n,
{
    if n > 0 {
        lemma_flows_none(streams, id, n - 1);
    }
}

proof fn lemma_flows_some(streams: Seq<StreamView>, id: Seq<char>, n: int, i: int)
    requires
        0 <= i < n <= streams.len(),
        streams[i].call_id == id,
    ensures
        flows_of(streams, id, n).len() >= 1,
    decreases n,
{
    if n - 1 > i {
        lemma_flows_some(streams, id, n - 1, i);
    }
}

proof fn lemma_flows_two(streams: Seq<StreamView>, id: Seq<char>, n: int, i: int, j: int)
    requires
        0 <= i < j < n <= streams.len(),
        streams[i].call_id == id,
        streams[j].call_id == id,
    ensures
        flows_of(streams, id, n).len() >= 2,
    decreases n,
{
    if n - 1 > j {
        lemma_flows_two(streams, id, n - 1, i, j);
    } else {
        lemma_flows_some(streams, id, n - 1, i);
    }
}

proof fn lemma_flows_one(streams: Seq<StreamView>, id: Seq<char>, n: int, i: int)
    requires
        0 <= i < n <= streams.len(),
        streams[i].call_id == id,
        forall|k: int| 0 <= k < n && k != i ==> (#[trigger] streams[k]).call_id != id,
    ensures
        flows_of(streams, id, n) == seq![streams[i].flow],
    decreases n,
{
    if n - 1 > i {
        lemma_flows_one(streams, id, n - 1, i);
    } else {
        lemma_flows_none(streams, id, n - 1);
        assert(flows_of(streams, id, n) =~= seq![streams[i].flow]);
    }
}

/// The media of the call is a single stream.
pub open spec fn sole_stream(r: RegView, id: Seq<char>, i: int) -> bool {
    &&& 0 <= i < r.streams.len()
    &&& r.streams[i].call_id == id
    &&& forall|k: int| 0 <= k < r.streams.len() && k != i ==> (#[trigger] r.streams[k]).call_id != id
}

/// Two streams of a call, such as one on a flow and one on its reverse, are not one-way
/// media; neither is no stream at all.
pub proof fn law_two_streams_not_one_way(r: RegView, id: Seq<char>)
    ensures
        (forall|k: int| 0 <= k < r.streams.len() ==> (#[trigger] r.streams[k]).call_id != id)
            ==> one_way_finding(r, id) is None,
        forall|i: int, j: int|
            0 <= i < j < r.streams.len() && (#[trigger] r.streams[i]).call_id == id && (
            #[trigger] r.streams[j]).call_id == id ==> one_way_finding(r, id) is None,
{
    let n = r.streams.len() as int;
    if forall|k: int| 0 <= k < r.streams.len() ==> (#[trigger] r.streams[k]).call_id != id {
        lemma_flows_none(r.streams, id, n);
    }
    assert forall|i: int, j: int|
        0 <= i < j < r.streams.len() && (#[trigger] r.streams[i]).call_id == id && (
        #[trigger] r.streams[j]).call_id == id implies one_way_finding(r, id) is None by {
        lemma_flows_two(r.streams, id, n, i, j);
    }
}

/// A call whose only stream runs between two different endpoints had media one way:
/// that is a warning for the call, at the latest time, and names the flow. A stream from
/// an endpoint to itself is none.
pub proof fn law_single_stream_one_way(r: RegView, id: Seq<char>, i: int)
    requires
        sole_stream(r, id, i),
    ensures
        r.streams[i].flow.src != r.streams[i].flow.dst ==> {
            let d = one_way_finding(r, id);
            &&& d is Some
            &&& d->Some_0.call_id == id
            &&& d->Some_0.severity == Severity::Warn
            &&& d->Some_0.code == "ONE_WAY_MEDIA"@
            &&& d->Some_0.message == "only one RTP direction observed on "@
                + r.streams[i].flow.spec_text()
            &&& r.last_us matches Some(t) ==> d->Some_0.ts_us == t
            &&& r.last_us is None ==> d->Some_0.ts_us == 0
        },
        r.streams[i].flow.src == r.streams[i].flow.dst ==> one_way_finding(r, id) is None,
{
    lemma_flows_one(r.streams, id, r.streams.len() as int, i);
}

proof fn lemma_room_keeps(v: CorrView, id: Seq<char>)
    ensures
        v.with_room_made(id).reg.diagnostics == v.reg.diagnostics,
        v.with_room_made(id).reg.completed == v.reg.completed,
        v.with_room_made(id).reg.failed == v.reg.failed,
        v.with_room_made(id).reg.events == v.reg.events,
        v.with_room_made(id).pending_events == v.pending_events,
{
    lemma_fewer_keeps(v.reg);
}

proof fn lemma_fewer_keeps(r: RegView)
    ensures
        r.with_fewer_calls().diagnostics == r.diagnostics,
        r.with_fewer_calls().completed == r.completed,
        r.with_fewer_calls().failed == r.failed,
        r.with_fewer_calls().events == r.events,
    decreases r.calls.len(),
{
    if r.calls.len() > r.max_calls {
        if let Some(v) = registry::victim(r.calls) {
            let id = r.calls[v].call_id;
            if id.len() > 0 {
                let next = r.without(seq![id]);
                assert(seq![id][0] == id);
                registry::lemma_oldest(r.calls, true, r.calls.len() as int);
                registry::lemma_oldest(r.calls, false, r.calls.len() as int);
                registry::lemma_filter_shorter(r.calls, registry::call_outside(seq![id]), v);
                lemma_fewer_keeps(next);
            }
        }
    }
}

proof fn lemma_end_diagnostics(v: CorrView, id: Seq<char>)
    ensures
        v.with_end(id, None).reg.diagnostics == v.with_opt_diag(
            one_way_finding(v.reg, id),
        ).reg.diagnostics,
{
    let x = v.with_opt_diag(one_way_finding(v.reg, id));
    if let Some(i) = registry::call_index(x.reg.calls, id, 0) {
        let c = x.reg.calls[i];
        let w = CorrView {
            reg: RegView {
                ipstats: teardown::released(x.reg.ipstats, c.active_ips, c.active_ips.len() as int),
                ..x.reg
            },
            ..x
        };
        if c.state.spec_terminal() {
            lemma_room_keeps(w.with_logged_end(c), id);
        }
    }
}

/// At the end of a call with media on a flow and on its reverse nothing is reported of
/// its media; at that of a call whose only stream runs between two endpoints, exactly one
/// finding is, where warnings are wanted and kept.
pub proof fn law_one_way_reported(v: CorrView, id: Seq<char>, i: int, j: int)
    requires
        v.min_severity != Severity::Critical,
        v.reg.diagnostics.len() < v.reg.max_diagnostics,
    ensures
        0 <= i < v.reg.streams.len() && 0 <= j < v.reg.streams.len() && i != j
            && v.reg.streams[i].call_id == id && v.reg.streams[j].call_id == id
            && v.reg.streams[j].flow.src == v.reg.streams[i].flow.dst
            && v.reg.streams[j].flow.dst == v.reg.streams[i].flow.src ==> v.with_end(
            id,
            None,
        ).reg.diagnostics == v.reg.diagnostics,
        sole_stream(v.reg, id, i) && v.reg.streams[i].flow.src != v.reg.streams[i].flow.dst ==> {
            let ds = v.with_end(id, None).reg.diagnostics;
            &&& ds.len() == v.reg.diagnostics.len() + 1
            &&& ds.drop_last() == v.reg.diagnostics
            &&& ds.last().code == "ONE_WAY_MEDIA"@
            &&& ds.last().call_id == id
            &&& ds.last().severity == Severity::Warn
        },
{
    lemma_end_diagnostics(v, id);
    law_two_streams_not_one_way(v.reg, id);
    if 0 <= i < v.reg.streams.len() && 0 <= j < v.reg.streams.len() && i != j
        && v.reg.streams[i].call_id == id && v.reg.streams[j].call_id == id {
        assert(one_way_finding(v.reg, id) is None);
    }
    if sole_stream(v.reg, id, i) {
        law_single_stream_one_way(v.reg, id, i);
        if v.reg.streams[i].flow.src != v.reg.streams[i].flow.dst {
            let d = one_way_finding(v.reg, id)->Some_0;
            assert(v.reg.diagnostics.push(d).drop_last() =~= v.reg.diagnostics);
        }
    }
}

// ----------------------------- the record of the end -----------------------------

/// What the log keeps of a finished call is what the call holds: its parties, its state and
/// outcome by number, its times and delays, its cause and its counters.
pub proof fn law_end_record(c: CallView, ts: u64)
    ensures
        ({
            let e = teardown::end_event(c, ts);
            &&& e.ty == 3
            &&& e.ts_us == ts
            &&& e.fields.len() == 22
            &&& e.fields[0] == FieldVal::Text(c.call_id)
            &&& e.fields[1] == FieldVal::CallKind(CallEvtKind::Teardown)
            &&& e.fields[2] == FieldVal::OptText(c.from_user)
            &&& e.fields[3] == FieldVal::OptText(c.to_user)
            &&& e.fields[4] == FieldVal::OptText(c.from_uri)
            &&& e.fields[5] == FieldVal::OptText(c.to_uri)
            &&& e.fields[6] == FieldVal::Byte(
                match c.state {
                    CallState::Dialing => 0u8,
                    CallState::Ringing => 1u8,
                    CallState::Active => 2u8,
                    CallState::Completed => 3u8,
                    CallState::Failed => 4u8,
                    CallState::Canceled => 5u8,
                },
            )
            &&& e.fields[7] == FieldVal::Byte(
                match c.outcome {
                    Outcome::InProgress => 0u8,
                    Outcome::Answered => 1u8,
                    Outcome::Rejected => 2u8,
                    Outcome::NoAnswer => 3u8,
                    Outcome::Canceled => 4u8,
                    Outcome::Failed => 5u8,
                },
            )
            &&& e.fields[8] == FieldVal::OptU64(c.invite_ts)
            &&& e.fields[9] == FieldVal::OptU64(c.trying_ts)
            &&& e.fields[10] == FieldVal::OptU64(c.ringing_ts)
            &&& e.fields[11] == FieldVal::OptU64(c.answer_ts)
            &&& e.fields[12] == FieldVal::OptU64(c.bye_ts)
            &&& e.fields[13] == FieldVal::OptU64(c.end_ts)
            &&& e.fields[14] == FieldVal::OptU32(c.pdd_ms)
            &&& e.fields[15] == FieldVal::OptU32(c.setup_ms)
            &&& e.fields[16] == FieldVal::OptU32(c.hangup.code)
            &&& e.fields[17] == FieldVal::OptText(c.hangup.reason)
            &&& e.fields[18] == FieldVal::Varint(c.pkts_sip)
            &&& e.fields[19] == FieldVal::Varint(c.pkts_rtp)
            &&& e.fields[20] == FieldVal::Varint(c.pkts_rtcp)
            &&& e.fields[21] == FieldVal::Varint(c.bytes)
        }),
{
}

/// The end of a call that completed, failed or was canceled is logged at its end time,
/// or at the latest time where it has none, and counts as completed or as failed. The end of
/// any other is neither logged nor counted.
pub proof fn law_end_counted(v: CorrView, id: Seq<char>, i: int)
    requires
        v.reg.wf(),
        one_way_finding(v.reg, id) is None,
        0 <= i < v.reg.calls.len(),
        v.reg.calls[i].call_id == id,
        v.reg.completed < u64::MAX,
        v.reg.failed < u64::MAX,
    ensures
        ({
            let c = v.reg.calls[i];
            let w = v.with_end(id, None);
            let over = c.state == CallState::Completed || c.state == CallState::Failed || c.state
                == CallState::Canceled;
            &&& !over ==> w.pending_events == v.pending_events && w.reg.completed == v.reg.completed
                && w.reg.failed == v.reg.failed && w.reg.calls == v.reg.calls
            &&& over ==> {
                &&& w.pending_events.len() == v.pending_events.len() + 1
                &&& w.pending_events.drop_last() == v.pending_events
                &&& w.pending_events.last().ty == 3
                &&& w.pending_events.last().fields == teardown::end_event(c, 0).fields
                &&& c.end_ts matches Some(t) ==> w.pending_events.last().ts_us == t
                &&& c.end_ts is None && v.reg.last_us is Some ==> w.pending_events.last().ts_us
                    == v.reg.last_us->Some_0
            }
            &&& c.state == CallState::Completed ==> w.reg.completed == v.reg.completed + 1
                && w.reg.failed == v.reg.failed
            &&& c.state == CallState::Failed || c.state == CallState::Canceled ==> w.reg.failed
                == v.reg.failed + 1 && w.reg.completed == v.reg.completed
        }),
{
    registry::lemma_call_index(v.reg.calls, id, 0);
    let c = v.reg.calls[i];
    assert(registry::call_index(v.reg.calls, id, 0) == Some(i));
    let w = CorrView {
        reg: RegView {
            ipstats: teardown::released(v.reg.ipstats, c.active_ips, c.active_ips.len() as int),
            ..v.reg
        },
        ..v
    };
    if c.state.spec_terminal() {
        let x = w.with_logged_end(c);
        lemma_room_keeps(x, id);
        assert(x.pending_events.drop_last() =~= v.pending_events);
    }
}

/// A call that ended leaves the registry where ended calls are not kept.
pub proof fn law_end_leaves(v: CorrView, id: Seq<char>, i: int)
    requires
        v.reg.wf(),
        !v.keep_terminated,
        0 <= i < v.reg.calls.len(),
        v.reg.calls[i].call_id == id,
        v.reg.calls[i].state == CallState::Completed || v.reg.calls[i].state == CallState::Failed
            || v.reg.calls[i].state == CallState::Canceled,
    ensures
        forall|k: int|
            0 <= k < v.with_end(id, None).reg.calls.len() ==> (#[trigger] v.with_end(
                id,
                None,
            ).reg.calls[k]).call_id != id,
        forall|k: int|
            0 <= k < v.with_end(id, None).reg.streams.len() ==> (#[trigger] v.with_end(
                id,
                None,
            ).reg.streams[k]).call_id != id,
        forall|k: int|
            0 <= k < v.with_end(id, None).reg.endpoint_call.len() ==> (#[trigger] v.with_end(
                id,
                None,
            ).reg.endpoint_call[k]).1 != id,
{
    let x = v.with_opt_diag(one_way_finding(v.reg, id));
    registry::lemma_call_index(v.reg.calls, id, 0);
    assert(registry::call_index(v.reg.calls, id, 0) == Some(i));
    if let Some(d) = one_way_finding(v.reg, id) {
        correlator::lemma_diag_keeps(v, d, id);
    }
    let c = x.reg.calls[i];
    let w = CorrView {
        reg: RegView {
            ipstats: teardown::released(x.reg.ipstats, c.active_ips, c.active_ips.len() as int),
            ..x.reg
        },
        ..x
    };
    let y = w.with_logged_end(c).reg.evicted();
    let ids = seq![id];
    assert(ids.contains(id)) by {
        assert(ids[0] == id);
    }
    registry::law_removed_is_gone(y, ids);
}

// ----------------------------- the clock -----------------------------

/// The first look at the clock starts it. After that nothing happens until five
/// seconds have passed since the latest flush, and then the clock starts anew.
pub proof fn law_flush_every_five_seconds(v: CorrView, ts: u64)
    ensures
        v.last_flush_us is None ==> v.with_tick(ts) == (CorrView {
            last_flush_us: Some(ts),
            ..v
        }) && !teardown::flush_due(v, ts),
        v.last_flush_us matches Some(last) ==> {
            &&& ts < last + 5_000_000 ==> v.with_tick(ts) == v && !teardown::flush_due(v, ts)
            &&& ts >= last + 5_000_000 ==> v.with_tick(ts).last_flush_us == Some(ts)
                && teardown::flush_due(v, ts)
        },
        v.with_tick(ts).pending_events == v.pending_events,
        v.with_tick(ts).reg.diagnostics == v.reg.diagnostics,
{
}

proof fn lemma_snaps_logged(v: CorrView, ts: u64, sums: Seq<SummaryView>, n: int)
    requires
        0 <= n <= sums.len(),
    ensures
        v.with_snaps(ts, sums, n).pending_events.len() == v.pending_events.len() + n,
        forall|k: int|
            0 <= k < v.pending_events.len() ==> #[trigger] v.with_snaps(
                ts,
                sums,
                n,
            ).pending_events[k] == v.pending_events[k],
        forall|k: int|
            0 <= k < n ==> v.with_snaps(ts, sums, n).pending_events[v.pending_events.len() + k]
                == #[trigger] teardown::snap_event(v.reg.streams[k], sums[k], ts),
        v.with_snaps(ts, sums, n).reg.streams == v.reg.streams,
        v.with_snaps(ts, sums, n).reg.calls == v.reg.calls,
    decreases n,
{
    if n > 0 {
        lemma_snaps_logged(v, ts, sums, n - 1);
    }
}

/// A flush logs every stream once, in order, with its call, its flow, what its summary
/// says of it, and the time; it changes no stream and no call.
pub proof fn law_streams_logged(v: CorrView, ts: u64, sums: Seq<SummaryView>, k: int)
    requires
        sums.len() == v.reg.streams.len(),
        0 <= k < sums.len(),
    ensures
        v.with_all_snaps(ts, sums).pending_events.len() == v.pending_events.len() + sums.len(),
        v.with_all_snaps(ts, sums).reg.streams == v.reg.streams,
        v.with_all_snaps(ts, sums).reg.calls == v.reg.calls,
        ({
            let e = v.with_all_snaps(ts, sums).pending_events[v.pending_events.len() + k];
            let s = v.reg.streams[k];
            &&& e.ty == 4
            &&& e.ts_us == ts
            &&& e.fields.len() == 21
            &&& e.fields[0] == FieldVal::Text(s.call_id)
            &&& e.fields[1] == FieldVal::U32Be(s.ssrc)
            &&& e.fields[2] == FieldVal::Flow(s.flow)
            &&& e.fields[3] == FieldVal::OptText(s.codec)
            &&& e.fields[4] == FieldVal::OptU8(s.rest.1)
            &&& e.fields[5] == FieldVal::Varint(sums[k].packets)
            &&& e.fields[6] == FieldVal::Varint(sums[k].lost)
            &&& e.fields[7] == FieldVal::Varint(sums[k].expected)
            &&& e.fields[8] == FieldVal::F64(sums[k].loss_pct)
            &&& e.fields[9] == FieldVal::OptF64(sums[k].jitter_ms)
            &&& e.fields[10] == FieldVal::OptF64(sums[k].mos)
            &&& e.fields[11] == FieldVal::OptText(sums[k].direction)
            &&& e.fields[12] == FieldVal::Varint(s.bytes)
            &&& e.fields[13] == FieldVal::OptU64(s.first_ts_us)
            &&& e.fields[14] == FieldVal::OptU64(s.last_ts_us)
            &&& e.fields[15] == FieldVal::OptF64(sums[k].rtt_min_ms)
            &&& e.fields[16] == FieldVal::OptF64(sums[k].rtt_avg_ms)
            &&& e.fields[17] == FieldVal::OptF64(sums[k].rtt_max_ms)
            &&& e.fields[18] == FieldVal::OptF64(sums[k].oneway_ms)
            &&& e.fields[19] == FieldVal::OptText(sums[k].leg)
            &&& e.fields[20] == FieldVal::Flag(sums[k].via_turn)
        }),
{
    lemma_snaps_logged(v, ts, sums, sums.len() as int);
    let e = teardown::snap_event(v.reg.streams[k], sums[k], ts);
}

/// The numbers of the states and outcomes in the log.
pub proof fn law_codes_in_log()
    ensures
        code_of_state(CallState::Dialing) == 0,
        code_of_state(CallState::Ringing) == 1,
        code_of_state(CallState::Active) == 2,
        code_of_state(CallState::Completed) == 3,
        code_of_state(CallState::Failed) == 4,
        code_of_state(CallState::Canceled) == 5,
        code_of_outcome(Outcome::InProgress) == 0,
        code_of_outcome(Outcome::Answered) == 1,
        code_of_outcome(Outcome::Rejected) == 2,
        code_of_outcome(Outcome::NoAnswer) == 3,
        code_of_outcome(Outcome::Canceled) == 4,
        code_of_outcome(Outcome::Failed) == 5,
{
}

/// What a stream had lost at the latest flush is what was kept under its key, and nothing where it was not kept.
pub proof fn law_lost_before(v: Seq<(StreamKey, u64)>, key: StreamKey, k: int)
    requires
        0 <= k < v.len(),
    ensures
        v[k].0 == key && (forall|i: int| 0 <= i < k ==> (#[trigger] v[i]).0 != key) ==> lost_before(
            v,
            key,
            0,
        ) == v[k].1,
        (forall|i: int| 0 <= i < v.len() ==> (#[trigger] v[i]).0 != key) ==> lost_before(v, key, 0)
            == 0,
{
    lemma_lost_before(v, key, 0, k);
}

proof fn lemma_lost_before(v: Seq<(StreamKey, u64)>, key: StreamKey, i: int, k: int)
    requires
        0 <= i <= v.len(),
        0 <= k < v.len(),
    ensures
        i <= k && v[k].0 == key && (forall|j: int| i <= j < k ==> (#[trigger] v[j]).0 != key)
            ==> lost_before(v, key, i) == v[k].1,
        (forall|j: int| i <= j < v.len() ==> (#[trigger] v[j]).0 != key) ==> lost_before(v, key, i)
            == 0,
    decreases v.len() - i,
{
    if i < v.len() {
        lemma_lost_before(v, key, i + 1, k);
    }
}

/// The line of a call that ended: its ID, its state and its code.
pub proof fn law_end_line_text(c: CallView)
    ensures
        c.hangup.code matches Some(n) ==> end_line(c) == "call "@ + c.call_id + " -> "@
            + c.state.spec_label() + " ("@ + crate::text::dec(n as nat) + ")"@,
        c.hangup.code is None ==> end_line(c) == "call "@ + c.call_id + " -> "@
            + c.state.spec_label() + " ("@ + Seq::<char>::empty() + ")"@,
{
}

/// A message is taken in, and where it ends its call the end is handled after it.
pub proof fn law_end_follows_message(v: CorrView, m: MsgView, relay: Option<DiagView>)
    ensures
        v.ends_call(m) ==> v.after_sip(m, relay) == v.with_sip(m).with_end(m.call_id, relay),
        !v.ends_call(m) ==> v.after_sip(m, relay) == v.with_sip(m),
{
}

/// What a stream has lost since the latest flush counts for both ends of its flow, and a stream that has lost no
/// more counts for neither.
pub proof fn law_new_losses_counted(v: CorrView, ts: u64, sums: Seq<SummaryView>, k: int, before: u64)
    requires
        0 <= k < sums.len(),
        before == lost_before(
            v.last_lost,
            StreamKey { flow: v.reg.streams[k].flow, ssrc: v.reg.streams[k].ssrc },
            0,
        ),
    ensures
        sums[k].lost > before ==> v.with_snaps(ts, sums, k + 1).reg.ipstats == ipstats::flow_lost(
            v.with_snaps(ts, sums, k).reg.ipstats,
            v.reg.streams[k].flow,
            ts,
            (sums[k].lost - before) as u64,
        ),
        sums[k].lost <= before ==> v.with_snaps(ts, sums, k + 1).reg.ipstats == v.with_snaps(
            ts,
            sums,
            k,
        ).reg.ipstats,
{
}

/// A flush remembers what each stream has lost, and nothing of streams that are gone.
pub proof fn law_losses_remembered(v: CorrView, ts: u64, sums: Seq<SummaryView>, k: int)
    requires
        0 <= k < sums.len(),
    ensures
        v.with_all_snaps(ts, sums).last_lost.len() == sums.len(),
        v.with_all_snaps(ts, sums).last_lost[k].0.flow == v.reg.streams[k].flow,
        v.with_all_snaps(ts, sums).last_lost[k].0.ssrc == v.reg.streams[k].ssrc,
        v.with_all_snaps(ts, sums).last_lost[k].1 == sums[k].lost,
{
}

/// Calls that have not been heard of for their time to live leave at a flush.
pub proof fn law_stale_calls_leave_at_flush(v: CorrView, ts: u64, last: u64)
    requires
        v.last_flush_us == Some(last),
    ensures
        ts >= last + 5_000_000 ==> v.with_tick(ts).reg == (RegView {
            removed: Seq::empty(),
            ..v.reg.without_stale(v.call_ttl_secs, ts)
        }),
        ts < last + 5_000_000 ==> v.with_tick(ts).reg == v.reg,
{
}

/// With a call goes what was marked of it, and what was marked of others stays.
pub proof fn law_marks_go_with_call(v: CorrView, x: (Seq<char>, usize), id: Seq<char>)
    ensures
        v.pruned().invite_rr.contains(x) <==> v.invite_rr.contains(x) && !v.reg.removed.contains(x.0),
        v.pruned().terminal_done.contains(id) <==> v.terminal_done.contains(id)
            && !v.reg.removed.contains(id),
{
    let p = teardown::mark_outside(v.reg.removed);
    let q = teardown::text_outside(v.reg.removed);
    let a = v.invite_rr;
    let b = v.terminal_done;
    if a.contains(x) && !v.reg.removed.contains(x.0) {
        let i = choose|i: int| 0 <= i < a.len() && a[i] == x;
        a.lemma_filter_contains(p, i);
    }
    if a.filter(p).contains(x) {
        let i = choose|i: int| 0 <= i < a.filter(p).len() && a.filter(p)[i] == x;
        a.lemma_filter_pred(p, i);
        a.lemma_filter_contains_rev(p, x);
    }
    if b.contains(id) && !v.reg.removed.contains(id) {
        let i = choose|i: int| 0 <= i < b.len() && b[i] == id;
        b.lemma_filter_contains(q, i);
    }
    if b.filter(q).contains(id) {
        let i = choose|i: int| 0 <= i < b.filter(q).len() && b.filter(q)[i] == id;
        b.lemma_filter_pred(q, i);
        b.lemma_filter_contains_rev(q, id);
    }
}

} // verus!
