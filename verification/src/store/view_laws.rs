//! What snapshots, heatmaps and dialogs show of the calls.
use crate::correlate::call_laws::law_same_word;
use crate::correlate::stream::StreamView;
use crate::diagnostics::DiagView;
use crate::model::media::SummaryView;
use crate::model::sip::{CallState, CallView, MsgView};
use crate::store::dialog;
use crate::store::heatmap;
use crate::store::heatmap::{recent_cells, width_us, CellView, HeatView};
use crate::store::registry;
use crate::store::registry::RegView;
use crate::store::snapshot;
use crate::store::snapshot::{
    count_class, detail_of, diags_of, first_msg, imported_of, live_of, recent_rows, row_of,
    snapshot_of, streams_of, worst_mos, RowView,
};
use vstd::prelude::*;

verus! {

// ----------------------------- rows -----------------------------

/// The row of a call shows what the call holds; its duration is the whole milliseconds from its INVITE to
/// its end, or to its BYE.
pub proof fn law_row(r: RegView, live: Seq<SummaryView>, c: CallView)
    ensures
        ({
            let w = row_of(r, live, c);
            &&& w.call_id == c.call_id
            &&& w.from_user == c.from_user
            &&& w.to_user == c.to_user
            &&& w.state == c.state
            &&& w.outcome == c.outcome
            &&& w.invite_ts == c.invite_ts
            &&& w.pdd_ms == c.pdd_ms
            &&& w.setup_ms == c.setup_ms
            &&& w.ring_ms == c.ring_ms
            &&& w.ring_code == c.ring_code
            &&& w.early_media == c.early_media
            &&& w.hangup_by == c.hangup_by
            &&& w.hangup_code == c.hangup.code
            &&& w.pkts_sip == c.pkts_sip
            &&& w.warn_count == c.warn_count
            &&& w.critical_count == c.critical_count
            &&& w.via_turn == c.via_turn
            &&& w.ips == c.ips
            &&& c.invite_ts is None ==> w.duration_ms is None
            &&& c.end_ts is None && c.bye_ts is None ==> w.duration_ms is None
            &&& c.invite_ts is Some && c.end_ts is Some && c.invite_ts->Some_0 <= c.end_ts->Some_0
                ==> w.duration_ms is Some && 1000 * w.duration_ms->Some_0 <= c.end_ts->Some_0
                - c.invite_ts->Some_0 < 1000 * w.duration_ms->Some_0 + 1000
            &&& c.invite_ts is Some && c.end_ts is None && c.bye_ts is Some && c.invite_ts->Some_0
                <= c.bye_ts->Some_0 ==> w.duration_ms is Some && 1000 * w.duration_ms->Some_0
                <= c.bye_ts->Some_0 - c.invite_ts->Some_0 < 1000 * w.duration_ms->Some_0 + 1000
        }),
{
}

/// One of the first `n` summaries, of a stream of the call.
spec fn stands_among(
    streams: Seq<StreamView>,
    live: Seq<SummaryView>,
    id: Seq<char>,
    n: int,
    s: SummaryView,
) -> bool {
    exists|k: int| 0 <= k < n && (#[trigger] streams[k]).call_id == id && live[k] == s
}

proof fn lemma_live(streams: Seq<StreamView>, live: Seq<SummaryView>, id: Seq<char>, n: int)
    requires
        0 <= n <= streams.len(),
    ensures
        forall|k: int|
            0 <= k < n && (#[trigger] streams[k]).call_id == id ==> live_of(
                streams,
                live,
                id,
                n,
            ).contains(live[k]),
        forall|j: int|
            0 <= j < live_of(streams, live, id, n).len() ==> stands_among(
                streams,
                live,
                id,
                n,
                #[trigger] live_of(streams, live, id, n)[j],
            ),
        live_of(streams, live, id, n).len() <= n,
    decreases n,
{
    if n > 0 {
        lemma_live(streams, live, id, n - 1);
        let a = live_of(streams, live, id, n - 1);
        let b = live_of(streams, live, id, n);
        assert forall|k: int| 0 <= k < n && (#[trigger] streams[k]).call_id == id implies b.contains(
            live[k],
        ) by {
            if k < n - 1 {
                let j = choose|j: int| 0 <= j < a.len() && a[j] == live[k];
                assert(b[j] == live[k]);
            } else {
                assert(b[b.len() - 1] == live[k]);
            }
        }
        assert forall|j: int| 0 <= j < b.len() implies stands_among(
            streams,
            live,
            id,
            n,
            #[trigger] b[j],
        ) by {
            if j < a.len() {
                assert(b[j] == a[j]);
                assert(stands_among(streams, live, id, n - 1, a[j]));
            } else {
                assert(streams[n - 1].call_id == id);
            }
        }
    }
}

proof fn lemma_imported(v: Seq<SummaryView>, id: Seq<char>, n: int)
    requires
        0 <= n <= v.len(),
        id.len() > 0,
    ensures
        forall|k: int|
            0 <= k < n && (#[trigger] v[k]).call_id == Some(id) ==> imported_of(v, id, n).contains(
                v[k],
            ),
        forall|j: int|
            0 <= j < imported_of(v, id, n).len() ==> (#[trigger] imported_of(v, id, n)[j]).call_id
                == Some(id) && v.contains(imported_of(v, id, n)[j]),
    decreases n,
{
    if n > 0 {
        lemma_imported(v, id, n - 1);
        let a = imported_of(v, id, n - 1);
        let b = imported_of(v, id, n);
        assert forall|k: int| 0 <= k < n && (#[trigger] v[k]).call_id == Some(id) implies b.contains(
            v[k],
        ) by {
            if k < n - 1 {
                let j = choose|j: int| 0 <= j < a.len() && a[j] == v[k];
                assert(b[j] == v[k]);
            } else {
                assert(b[b.len() - 1] == v[k]);
            }
        }
        assert forall|j: int| 0 <= j < b.len() implies (#[trigger] b[j]).call_id == Some(id)
            && v.contains(b[j]) by {
            if j < a.len() {
                assert(b[j] == a[j]);
            } else {
                assert(v[n - 1] == b[j]);
            }
        }
    }
}

/// The streams of a call are the observed ones that belong to it and the imported ones with its ID: each of
/// them, and no other.
pub proof fn law_streams_of_call(r: RegView, live: Seq<SummaryView>, id: Seq<char>, k: int)
    requires
        id.len() > 0,
        live.len() == r.streams.len(),
    ensures
        0 <= k < r.streams.len() && r.streams[k].call_id == id ==> streams_of(r, live, id).contains(
            live[k],
        ),
        0 <= k < r.imported_streams.len() && r.imported_streams[k].call_id == Some(id) ==> streams_of(
            r,
            live,
            id,
        ).contains(r.imported_streams[k]),
        forall|j: int|
            0 <= j < streams_of(r, live, id).len() ==> {
                let s = #[trigger] streams_of(r, live, id)[j];
                ||| s.call_id == Some(id) && r.imported_streams.contains(s)
                ||| exists|x: int|
                    0 <= x < r.streams.len() && (#[trigger] r.streams[x]).call_id == id && live[x] == s
            },
{
    let n = r.streams.len() as int;
    let m = r.imported_streams.len() as int;
    lemma_live(r.streams, live, id, n);
    lemma_imported(r.imported_streams, id, m);
    let a = live_of(r.streams, live, id, n);
    let b = imported_of(r.imported_streams, id, m);
    let all = streams_of(r, live, id);
    if 0 <= k < n && r.streams[k].call_id == id {
        let j = choose|j: int| 0 <= j < a.len() && a[j] == live[k];
        assert(all[j] == live[k]);
    }
    if 0 <= k < m && r.imported_streams[k].call_id == Some(id) {
        let j = choose|j: int| 0 <= j < b.len() && b[j] == r.imported_streams[k];
        assert(all[a.len() + j] == r.imported_streams[k]);
    }
    assert forall|j: int| 0 <= j < all.len() implies {
        let s = #[trigger] all[j];
        ||| s.call_id == Some(id) && r.imported_streams.contains(s)
        ||| exists|x: int|
            0 <= x < r.streams.len() && (#[trigger] r.streams[x]).call_id == id && live[x] == s
    } by {
        if j < a.len() {
            assert(all[j] == a[j]);
            assert(stands_among(r.streams, live, id, n, a[j]));
        } else {
            assert(all[j] == b[j - a.len()]);
        }
    }
}

/// The quality of a call is that of its worst stream, and what is not measured or not a number is passed over.
pub proof fn law_worst_quality(v: Seq<SummaryView>, n: int, k: int)
    requires
        0 <= k < n <= v.len(),
        v[k].mos is Some,
        !v[k].mos->Some_0.spec_nan(),
    ensures
        worst_mos(v, n) is Some,
        !worst_mos(v, n)->Some_0.spec_nan(),
        worst_mos(v, n)->Some_0.rank() <= v[k].mos->Some_0.rank(),
    decreases n,
{
    if k < n - 1 {
        law_worst_quality(v, n - 1, k);
    }
}

/// The quality shown is one that some stream has; without any there is none.
pub proof fn law_worst_quality_is_one(v: Seq<SummaryView>, n: int)
    requires
        0 <= n <= v.len(),
    ensures
        worst_mos(v, n) is Some ==> exists|k: int|
            0 <= k < n && (#[trigger] v[k]).mos == worst_mos(v, n),
        (forall|k: int| 0 <= k < n ==> (#[trigger] v[k]).mos is None) ==> worst_mos(v, n) is None,
    decreases n,
{
    if n > 0 {
        law_worst_quality_is_one(v, n - 1);
        if worst_mos(v, n) is Some {
            if worst_mos(v, n) == v[n - 1].mos {
                assert(v[n - 1].mos == worst_mos(v, n));
            } else {
                assert(worst_mos(v, n) == worst_mos(v, n - 1));
                let k = choose|k: int|
                    0 <= k < n - 1 && (#[trigger] v[k]).mos == worst_mos(v, n - 1);
                assert(v[k].mos == worst_mos(v, n));
            }
        }
    }
}

/// The RTP packets shown are those observed and those of the imported streams together.
pub proof fn law_row_packets(r: RegView, live: Seq<SummaryView>, c: CallView)
    requires
        c.pkts_rtp + snapshot::imported_packets(r, c.call_id) <= u64::MAX,
    ensures
        row_of(r, live, c).pkts_rtp == c.pkts_rtp + snapshot::imported_packets(r, c.call_id),
        row_of(r, live, c).stream_count == streams_of(r, live, c.call_id).len(),
{
}

// ----------------------------- snapshots -----------------------------

proof fn lemma_recent(r: RegView, live: Seq<SummaryView>, n: int)
    requires
        0 <= n <= r.calls.len(),
    ensures
        recent_rows(r, live, n).len() == n,
        forall|k: int|
            0 <= k < n ==> #[trigger] recent_rows(r, live, n)[k] == row_of(
                r,
                live,
                r.calls[r.calls.len() - 1 - k],
            ),
    decreases n,
{
    if n > 0 {
        lemma_recent(r, live, n - 1);
    }
}

/// A snapshot shows the calls that came last, as many as are wanted, and counts them by state: those that
/// are set up or active, those that completed, and those that failed or were canceled.
pub proof fn law_snapshot(r: RegView, live: Seq<SummaryView>, limit: usize, stream_limit: usize)
    ensures
        ({
            let s = snapshot_of(r, live, limit, stream_limit);
            let n: int = if r.calls.len() <= limit {
                r.calls.len() as int
            } else {
                limit as int
            };
            let m: int = if live.len() + r.imported_streams.len() <= stream_limit {
                (live.len() + r.imported_streams.len()) as int
            } else {
                stream_limit as int
            };
            &&& s.calls.len() == n
            &&& s.active + s.completed + s.failed == n
            &&& s.streams.len() == m
            &&& forall|k: int|
                0 <= k < m ==> #[trigger] s.streams[k] == (if k < live.len() {
                    live[k]
                } else {
                    r.imported_streams[k - live.len()]
                })
            &&& s.source == r.source
            &&& s.start_us == r.start_us
            &&& s.pkts_total == r.pkts_total
            &&& s.pkts_dropped == r.pkts_dropped
            &&& s.answered_total == r.completed
            &&& s.events == r.events
            &&& s.diagnostics == r.diagnostics
            &&& r.start_us is None || r.last_us is None ==> s.elapsed_us is None
            &&& r.start_us is Some && r.last_us is Some && r.start_us->Some_0 <= r.last_us->Some_0
                ==> s.elapsed_us == Some((r.last_us->Some_0 - r.start_us->Some_0) as u64)
            &&& r.focus_hint is None ==> s.focus is None
        }),
{
    let n: int = if r.calls.len() <= limit {
        r.calls.len() as int
    } else {
        limit as int
    };
    lemma_recent(r, live, n);
    let rows = recent_rows(r, live, n);
    snapshot::law_newest_first(rows, n);
    snapshot::law_counts_add_up(rows, n);
}

/// A state counts in one class: the three before the end as active, the completed alone, failed and canceled
/// together.
pub proof fn law_state_classes(rows: Seq<RowView>, n: int)
    requires
        0 < n <= rows.len(),
    ensures
        ({
            let s = rows[n - 1].state;
            &&& count_class(rows, 0, n) == count_class(rows, 0, n - 1) + (if s == CallState::Dialing || s
                == CallState::Ringing || s == CallState::Active {
                1int
            } else {
                0int
            })
            &&& count_class(rows, 1, n) == count_class(rows, 1, n - 1) + (if s == CallState::Completed {
                1int
            } else {
                0int
            })
            &&& count_class(rows, 2, n) == count_class(rows, 2, n - 1) + (if s == CallState::Failed || s
                == CallState::Canceled {
                1int
            } else {
                0int
            })
        }),
{
}

/// All calls that ever were: those that have ended and those still going on, and never fewer than are held.
pub proof fn law_calls_in_all(r: RegView, live: Seq<SummaryView>, limit: usize, stream_limit: usize)
    requires
        r.completed + r.failed + r.calls.len() <= u64::MAX,
    ensures
        ({
            let s = snapshot_of(r, live, limit, stream_limit);
            &&& s.calls_total >= r.calls.len()
            &&& s.calls_total >= r.completed + r.failed + s.active
            &&& s.calls_total == r.calls.len() || s.calls_total == r.completed + r.failed + s.active
        }),
{
    law_snapshot(r, live, limit, stream_limit);
}

proof fn lemma_first_msg(msgs: Seq<MsgView>, invite: bool, i: int)
    requires
        0 <= i <= msgs.len(),
    ensures
        first_msg(msgs, invite, i) matches Some(m) ==> exists|k: int|
            i <= k < msgs.len() && #[trigger] msgs[k] == m && (if invite {
                m.is_initial_invite()
            } else {
                !m.is_request
            }) && forall|j: int|
                i <= j < k ==> (if invite {
                    !(#[trigger] msgs[j]).is_initial_invite()
                } else {
                    msgs[j].is_request
                }),
        first_msg(msgs, invite, i) is None ==> forall|j: int|
            i <= j < msgs.len() ==> (if invite {
                !(#[trigger] msgs[j]).is_initial_invite()
            } else {
                msgs[j].is_request
            }),
    decreases msgs.len() - i,
{
    if i < msgs.len() {
        let hit = (invite && msgs[i].is_initial_invite()) || (!invite && !msgs[i].is_request);
        if hit {
            assert(msgs[i] == first_msg(msgs, invite, i)->Some_0);
        } else {
            lemma_first_msg(msgs, invite, i + 1);
            if first_msg(msgs, invite, i) is Some {
                let m = first_msg(msgs, invite, i)->Some_0;
                let k = choose|k: int|
                    i + 1 <= k < msgs.len() && #[trigger] msgs[k] == m && (if invite {
                        m.is_initial_invite()
                    } else {
                        !m.is_request
                    }) && forall|j: int|
                        i + 1 <= j < k ==> (if invite {
                            !(#[trigger] msgs[j]).is_initial_invite()
                        } else {
                            msgs[j].is_request
                        });
                assert(msgs[k] == m);
            }
        }
    }
}

/// The detail of a call shows its latest thousand messages; the caller is the source of the first initial
/// INVITE among them, and the callee that of the first response.
pub proof fn law_detail(r: RegView, live: Seq<SummaryView>, c: CallView)
    ensures
        ({
            let d = detail_of(r, live, c);
            &&& d.call_id == c.call_id
            &&& d.state == c.state
            &&& d.messages == registry::last_n(c.messages, 1000)
            &&& d.streams == streams_of(r, live, c.call_id)
            &&& d.invite_ts == c.invite_ts
            &&& d.trying_ts == c.trying_ts
            &&& d.ringing_ts == c.ringing_ts
            &&& d.answer_ts == c.answer_ts
            &&& d.bye_ts == c.bye_ts
            &&& d.end_ts == c.end_ts
            &&& d.pdd_ms == c.pdd_ms
            &&& d.setup_ms == c.setup_ms
            &&& d.ring_ms == c.ring_ms
            &&& d.hangup_code == c.hangup.code
            &&& d.hangup_reason == c.hangup.reason
            &&& d.hangup_by == c.hangup_by
            &&& d.negotiated_endpoints == c.negotiated.endpoints
            &&& d.caller_addr matches Some(a) ==> exists|k: int|
                0 <= k < d.messages.len() && (#[trigger] d.messages[k]).is_initial_invite()
                    && d.messages[k].flow.src == a && d.caller_ip == Some(a.ip) && forall|j: int|
                    0 <= j < k ==> !(#[trigger] d.messages[j]).is_initial_invite()
            &&& d.callee_addr matches Some(a) ==> exists|k: int|
                0 <= k < d.messages.len() && !(#[trigger] d.messages[k]).is_request
                    && d.messages[k].flow.src == a && forall|j: int|
                    0 <= j < k ==> (#[trigger] d.messages[j]).is_request
            &&& d.callee_addr is None ==> forall|j: int|
                0 <= j < d.messages.len() ==> (#[trigger] d.messages[j]).is_request
        }),
{
    let msgs = registry::last_n(c.messages, 1000);
    lemma_first_msg(msgs, true, 0);
    lemma_first_msg(msgs, false, 0);
}

/// The diagnostics of a call are those that name it, in their order.
pub proof fn law_diagnostics_of_call(v: Seq<DiagView>, id: Seq<char>, n: int)
    requires
        0 <= n < v.len(),
    ensures
        diags_of(v, id, 0).len() == 0,
        v[n].call_id == id ==> diags_of(v, id, n + 1) == diags_of(v, id, n).push(v[n]),
        v[n].call_id != id ==> diags_of(v, id, n + 1) == diags_of(v, id, n),
{
}

// ----------------------------- heatmap -----------------------------

/// A finished call counts in the cell of its bucket and its key, which begins at a multiple of the width, at
/// most a width before; no other cell changes.
pub proof fn law_heat_cell(v: HeatView, ts: u64, key: Seq<char>, answered: bool, failed: bool, k: int)
    requires
        v.wf(),
        v.room(ts, key),
    ensures
        ({
            let w = v.with_call(ts, key, answered, failed);
            let one = |yes: bool| {
                if yes {
                    1int
                } else {
                    0int
                }
            };
            &&& 0 <= k < v.cells.len() && v.cells[k].key == key && v.cells[k].bucket_us <= ts < v.cells[k].bucket_us
                + v.bucket_us ==> {
                &&& w.cells.len() == v.cells.len()
                &&& w.cells[k].metrics.calls == v.cells[k].metrics.calls + 1
                &&& w.cells[k].metrics.answered == v.cells[k].metrics.answered + one(answered)
                &&& w.cells[k].metrics.failed == v.cells[k].metrics.failed + one(failed)
                &&& w.cells[k].key == key
                &&& w.cells[k].bucket_us == v.cells[k].bucket_us
            }
            &&& 0 <= k < v.cells.len() && !(v.cells[k].key == key && v.cells[k].bucket_us <= ts < v.cells[k].bucket_us
                + v.bucket_us) ==> w.cells[k] == v.cells[k]
        }),
{
    let w = v.bucket_us as int;
    let t = ts as int;
    let b = v.bucket_of(ts) as int;
    heatmap::lemma_bucket(ts, v.bucket_us);
    vstd::arithmetic::div_mod::lemma_fundamental_div_mod(t, w);
    assert(ts / v.bucket_us * v.bucket_us == v.bucket_us * (ts / v.bucket_us)) by (nonlinear_arith);
    assert(b <= t < b + w);
    heatmap::lemma_cell_index(v.cells, v.bucket_of(ts), key, 0);
    let i = v.slot(ts, key);
    if 0 <= k < v.cells.len() {
        let c = v.cells[k].bucket_us as int;
        if c <= t < c + w {
            assert(c % w == 0);
            lemma_one_multiple(c, t, w);
            assert(c == b);
        }
        if v.cells[k].bucket_us == v.bucket_of(ts) && v.cells[k].key == key {
            assert(i == k);
        }
    }
}

proof fn lemma_one_multiple(c: int, t: int, w: int)
    requires
        w > 0,
        c >= 0,
        c % w == 0,
        c <= t < c + w,
    ensures
        c == w * (t / w),
{
    vstd::arithmetic::div_mod::lemma_fundamental_div_mod(c, w);
    vstd::arithmetic::div_mod::lemma_fundamental_div_mod(t, w);
    let a = c / w;
    let b = t / w;
    assert(a == b) by (nonlinear_arith)
        requires
            w > 0,
            w * a <= t,
            t < w * a + w,
            w * b <= t,
            t < w * b + w,
    ;
}

/// A call without a cell begins one with that call alone.
pub proof fn law_heat_cell_begins(v: HeatView, ts: u64, key: Seq<char>, answered: bool, failed: bool)
    requires
        v.wf(),
        forall|k: int|
            0 <= k < v.cells.len() ==> !((#[trigger] v.cells[k]).key == key && v.cells[k].bucket_us <= ts
                < v.cells[k].bucket_us + v.bucket_us),
    ensures
        ({
            let w = v.with_call(ts, key, answered, failed);
            let c = w.cells.last();
            &&& w.cells.len() == v.cells.len() + 1
            &&& c.key == key
            &&& c.bucket_us <= ts < c.bucket_us + v.bucket_us
            &&& c.bucket_us % v.bucket_us == 0
            &&& c.metrics.calls == 1
            &&& c.metrics.answered == (if answered {
                1int
            } else {
                0int
            })
            &&& c.metrics.failed == (if failed {
                1int
            } else {
                0int
            })
        }),
{
    let w = v.bucket_us as int;
    let t = ts as int;
    heatmap::lemma_bucket(ts, v.bucket_us);
    vstd::arithmetic::div_mod::lemma_fundamental_div_mod(t, w);
    assert(ts / v.bucket_us * v.bucket_us == v.bucket_us * (ts / v.bucket_us)) by (nonlinear_arith);
    heatmap::lemma_cell_index(v.cells, v.bucket_of(ts), key, 0);
    let i = v.slot(ts, key);
    if i < v.cells.len() {
        assert(v.cells[i].key == key && v.cells[i].bucket_us <= ts < v.cells[i].bucket_us + v.bucket_us);
    }
}

/// Those cells are recent whose bucket does not begin before the time, in their order.
pub proof fn law_recent_cells(v: Seq<CellView>, cutoff: u64, n: int)
    requires
        0 <= n < v.len(),
    ensures
        recent_cells(v, cutoff, 0).len() == 0,
        v[n].bucket_us >= cutoff ==> recent_cells(v, cutoff, n + 1) == recent_cells(v, cutoff, n).push(
            v[n],
        ),
        v[n].bucket_us < cutoff ==> recent_cells(v, cutoff, n + 1) == recent_cells(v, cutoff, n),
{
}

/// A bucket is as many seconds wide as is asked for, and at least one.
pub proof fn law_heat_width(secs: u64)
    ensures
        secs > 0 ==> width_us(secs) == secs * 1_000_000,
        width_us(0) == 1_000_000,
{
}

// ----------------------------- dialogs -----------------------------

/// A header is found by its name in any case of letters, and its value is what follows the first colon,
/// without white space at its ends; other lines are none of it.
pub proof fn law_header_line(name: Seq<char>, value: Seq<char>, wanted: Seq<char>)
    requires
        crate::model::addr_laws::lacks(name, ':'),
    ensures
        dialog::line_value(name + seq![':'] + value, wanted) == (
        if crate::correlate::call_laws::same_letters(crate::text::trimmed(name), wanted) {
            Some(crate::text::trimmed(value))
        } else {
            None
        }),
        dialog::line_value(name, wanted) is None,
{
    let line = name + seq![':'] + value;
    law_same_word(crate::text::trimmed(name), wanted);
    let cls = crate::text::Class::Is(':');
    crate::text::lemma_scan(line, 0, cls, true);
    crate::text::lemma_scan(name, 0, cls, true);
    let i = crate::text::scan(line, 0, cls, true);
    let n = name.len() as int;
    assert(line[n] == ':');
    if i < n {
        assert(line[i] == name[i]);
        assert(name[i] != ':');
    }
    if i > n {
        assert(cls.has(line[n]) != true);
    }
    assert(line.take(n) =~= name);
    assert(line.skip(n + 1) =~= value);
}

/// What tells dialogs apart is the From tag, or else the branch.
pub proof fn law_dialog_key(m: MsgView)
    ensures
        m.from_tag matches Some(t) ==> dialog::dialog_key(m) == t,
        m.from_tag is None && m.branch is Some ==> dialog::dialog_key(m) == m.branch->Some_0,
        m.from_tag is None && m.branch is None ==> dialog::dialog_key(m).len() == 0,
{
}

/// The detail of a call shows its parties, its findings and the legs of its messages; a call of two legs or more
/// has a box between them, where its first two legs meet.
pub proof fn law_detail_legs(r: RegView, live: Seq<SummaryView>, c: CallView)
    ensures
        ({
            let d = detail_of(r, live, c);
            &&& d.from_user == c.from_user
            &&& d.to_user == c.to_user
            &&& d.early_media == c.early_media
            &&& d.diagnostics == diags_of(r.diagnostics, c.call_id, r.diagnostics.len() as int)
            &&& d.legs == dialog::legs_of(d.messages, d.messages.len() as int)
            &&& d.b2bua is Some <==> dialog::leg_count(d.messages) >= 2
            &&& d.b2bua matches Some(b) ==> b.legs == dialog::leg_count(d.messages) && b.addr
                == dialog::meeting_ip(d.messages, d.legs)
        }),
{
}

/// The caller's agent is named by the User-Agent of its INVITE; the callee's by the Server of the first
/// response, or else by its User-Agent.
pub proof fn law_detail_agents(r: RegView, live: Seq<SummaryView>, c: CallView, k: int)
    requires
        0 <= k < c.messages.len() <= 1000,
    ensures
        c.messages[k].is_initial_invite() && (forall|j: int|
            0 <= j < k ==> !(#[trigger] c.messages[j]).is_initial_invite()) ==> detail_of(
            r,
            live,
            c,
        ).caller_ua == dialog::header_in(c.messages[k].raw, "User-Agent"@),
        !c.messages[k].is_request && (forall|j: int|
            0 <= j < k ==> (#[trigger] c.messages[j]).is_request) ==> (dialog::header_in(
            c.messages[k].raw,
            "Server"@,
        ) matches Some(s) ==> detail_of(r, live, c).callee_ua == Some(s)),
        !c.messages[k].is_request && (forall|j: int|
            0 <= j < k ==> (#[trigger] c.messages[j]).is_request) && dialog::header_in(
            c.messages[k].raw,
            "Server"@,
        ) is None ==> detail_of(r, live, c).callee_ua == dialog::header_in(
            c.messages[k].raw,
            "User-Agent"@,
        ),
{
    assert(registry::last_n(c.messages, 1000) =~= c.messages);
    if c.messages[k].is_initial_invite() && (forall|j: int|
        0 <= j < k ==> !(#[trigger] c.messages[j]).is_initial_invite()) {
        lemma_first_at(c.messages, true, 0, k);
    }
    if !c.messages[k].is_request && (forall|j: int|
        0 <= j < k ==> (#[trigger] c.messages[j]).is_request) {
        lemma_first_at(c.messages, false, 0, k);
    }
}

proof fn lemma_first_at(msgs: Seq<MsgView>, invite: bool, i: int, k: int)
    requires
        0 <= i <= k < msgs.len(),
        invite ==> msgs[k].is_initial_invite() && forall|j: int|
            i <= j < k ==> !(#[trigger] msgs[j]).is_initial_invite(),
        !invite ==> !msgs[k].is_request && forall|j: int|
            i <= j < k ==> (#[trigger] msgs[j]).is_request,
    ensures
        first_msg(msgs, invite, i) == Some(msgs[k]),
    decreases k - i,
{
    if i < k {
        assert(msgs[i].is_initial_invite() || !msgs[i].is_initial_invite());
        lemma_first_at(msgs, invite, i + 1, k);
    }
}

} // verus!
