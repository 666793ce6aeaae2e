//! What the registry keeps, and what it lets go.
use crate::correlate::stream::StreamView;
use crate::model::addr::IpAddr;
use crate::model::media::SummaryView;
use crate::model::sip::{CallState, CallView};
use crate::store::ipstats;
use crate::store::registry;
use crate::store::registry::{
    import_index, import_key, is_stale, last_n, newest_streams, oldest_call, oldest_stream, stale_ids,
    stream_begun, victim, RegView,
};
use vstd::prelude::*;

verus! {

/// The last `n` of a list: all of a short one, and otherwise the `n` at the end, in order.
pub proof fn law_last_n<T>(s: Seq<T>, n: int)
    requires
        0 <= n,
    ensures
        s.len() <= n ==> last_n(s, n) == s,
        s.len() > n ==> last_n(s, n).len() == n && (forall|i: int|
            0 <= i < n ==> #[trigger] last_n(s, n)[i] == s[s.len() - n + i]),
{
}

// ----------------------------- stale calls -----------------------------

/// A call has been quiet, or over, for so long: by its end where it has ended, or else by its BYE or
/// its latest packet.
pub open spec fn quiet_since(c: CallView) -> u64 {
    let over = c.state == CallState::Completed || c.state == CallState::Failed || c.state
        == CallState::Canceled;
    if over && c.end_ts is Some {
        c.end_ts->Some_0
    } else if over && c.bye_ts is Some {
        c.bye_ts->Some_0
    } else {
        c.last_ts_us
    }
}

proof fn lemma_stale_ids(calls: Seq<CallView>, focus: Option<Seq<char>>, cutoff: u64, n: int)
    requires
        0 <= n <= calls.len(),
    ensures
        forall|k: int|
            0 <= k < n && focus != Some((#[trigger] calls[k]).call_id) && is_stale(calls[k], cutoff)
                ==> stale_ids(calls, focus, cutoff, n).contains(calls[k].call_id),
        forall|j: int|
            0 <= j < stale_ids(calls, focus, cutoff, n).len() ==> exists|k: int|
                0 <= k < n && (#[trigger] calls[k]).call_id == #[trigger] stale_ids(
                    calls,
                    focus,
                    cutoff,
                    n,
                )[j] && focus != Some(calls[k].call_id) && is_stale(calls[k], cutoff),
    decreases n,
{
    if n > 0 {
        lemma_stale_ids(calls, focus, cutoff, n - 1);
        let a = stale_ids(calls, focus, cutoff, n - 1);
        let b = stale_ids(calls, focus, cutoff, n);
        assert forall|k: int|
            0 <= k < n && focus != Some((#[trigger] calls[k]).call_id) && is_stale(
                calls[k],
                cutoff,
            ) implies b.contains(calls[k].call_id) by {
            if k < n - 1 {
                let j = choose|j: int| 0 <= j < a.len() && a[j] == calls[k].call_id;
                assert(b[j] == calls[k].call_id);
            } else {
                assert(b[b.len() - 1] == calls[k].call_id);
            }
        }
        assert forall|j: int| 0 <= j < b.len() implies exists|k: int|
            0 <= k < n && (#[trigger] calls[k]).call_id == #[trigger] b[j] && focus != Some(
                calls[k].call_id,
            ) && is_stale(calls[k], cutoff) by {
            if j < a.len() {
                assert(b[j] == a[j]);
            } else {
                assert(calls[n - 1].call_id == b[j]);
            }
        }
    }
}

/// A call leaves when it has been quiet or over for longer than the time to live, unless it is the
/// one in focus; every other call stays.
pub proof fn law_stale_calls_leave(r: RegView, ttl_secs: u64, now: u64, i: int)
    requires
        r.wf(),
        ttl_secs > 0,
        ttl_secs * 1_000_000 <= now,
        0 <= i < r.calls.len(),
    ensures
        ({
            let c = r.calls[i];
            let gone = quiet_since(c) != 0 && quiet_since(c) + ttl_secs * 1_000_000 < now
                && r.focus_hint != Some(c.call_id);
            r.without_stale(ttl_secs, now).calls.contains(c) <==> !gone
        }),
{
    let cutoff = (now - ttl_secs * 1_000_000) as u64;
    let n = r.calls.len() as int;
    let ids = stale_ids(r.calls, r.focus_hint, cutoff, n);
    lemma_stale_ids(r.calls, r.focus_hint, cutoff, n);
    let c = r.calls[i];
    let f = registry::call_outside(ids);
    let w = r.without_stale(ttl_secs, now).calls;
    if ids.contains(c.call_id) {
        let j = choose|j: int| 0 <= j < ids.len() && ids[j] == c.call_id;
        let k = choose|k: int|
            0 <= k < n && (#[trigger] r.calls[k]).call_id == ids[j] && r.focus_hint != Some(
                r.calls[k].call_id,
            ) && is_stale(r.calls[k], cutoff);
        assert(k == i);
        registry::law_removed_is_gone(r, ids);
        if w.contains(c) {
            let x = choose|x: int| 0 <= x < w.len() && w[x] == c;
            assert(!ids.contains(r.without(ids).calls[x].call_id));
        }
    } else if ids.len() > 0 {
        r.calls.lemma_filter_contains(f, i);
    } else {
        assert(w[i] == c);
    }
}

/// A time to live of zero lets every call stay.
pub proof fn law_no_time_to_live(r: RegView, now: u64)
    ensures
        r.without_stale(0, now) == r,
{
}

// ----------------------------- eviction -----------------------------

proof fn lemma_oldest_is_least(calls: Seq<CallView>, ended: bool, n: int)
    requires
        0 <= n <= calls.len(),
    ensures
        oldest_call(calls, ended, n) matches Some(i) ==> 0 <= i < n && forall|k: int|
            0 <= k < n && (!ended || (#[trigger] calls[k]).state.spec_terminal())
                ==> registry::begun(calls[i]) <= registry::begun(#[trigger] calls[k]),
        oldest_call(calls, ended, n) is None ==> forall|k: int|
            0 <= k < n ==> ended && !(#[trigger] calls[k]).state.spec_terminal(),
    decreases n,
{
    if n > 0 {
        lemma_oldest_is_least(calls, ended, n - 1);
    }
}

/// The call that is evicted is one that has ended, if any has, and of those the one whose INVITE came
/// first; a call without INVITE counts as the latest.
pub proof fn law_oldest_evicted(calls: Seq<CallView>, k: int)
    requires
        0 <= k < calls.len(),
    ensures
        victim(calls) matches Some(v) && 0 <= v < calls.len() && {
            let over = |c: CallView|
                c.state == CallState::Completed || c.state == CallState::Failed || c.state
                    == CallState::Canceled;
            let since = |c: CallView|
                match c.invite_ts {
                    Some(t) => t,
                    None => u64::MAX,
                };
            &&& over(calls[k]) ==> over(calls[v])
            &&& over(calls[k]) == over(calls[v]) ==> since(calls[v]) <= since(calls[k])
        },
{
    let n = calls.len() as int;
    lemma_oldest_is_least(calls, true, n);
    lemma_oldest_is_least(calls, false, n);
    registry::lemma_oldest(calls, true, n);
    registry::lemma_oldest(calls, false, n);
}

proof fn lemma_oldest_stream_least(streams: Seq<StreamView>, n: int)
    requires
        0 < n <= streams.len(),
    ensures
        0 <= oldest_stream(streams, n) < n,
        forall|k: int|
            0 <= k < n ==> stream_begun(streams[oldest_stream(streams, n)]) <= stream_begun(
                #[trigger] streams[k],
            ),
    decreases n,
{
    if n > 1 {
        lemma_oldest_stream_least(streams, n - 1);
    }
}

/// Where there are too many streams, none that stays began before one that goes; those that stay keep
/// their order.
pub proof fn law_newest_streams_stay(streams: Seq<StreamView>, max: nat, i: int)
    requires
        0 <= i < streams.len(),
    ensures
        streams.len() <= max ==> newest_streams(streams, max) == streams,
        !newest_streams(streams, max).contains(streams[i]) ==> forall|k: int|
            0 <= k < newest_streams(streams, max).len() ==> (match streams[i].first_ts_us {
                Some(t) => t,
                None => u64::MAX,
            }) <= (match (#[trigger] newest_streams(streams, max)[k]).first_ts_us {
                Some(t) => t,
                None => u64::MAX,
            }),
    decreases streams.len(),
{
    if streams.len() > max {
        let o = oldest_stream(streams, streams.len() as int);
        lemma_oldest_stream_least(streams, streams.len() as int);
        let rest = streams.remove(o);
        lemma_newest_within(rest, max);
        if i != o {
            let j = if i < o {
                i
            } else {
                i - 1
            };
            assert(rest[j] == streams[i]);
            law_newest_streams_stay(rest, max, j);
        } else {
            assert forall|k: int| 0 <= k < newest_streams(streams, max).len() implies stream_begun(
                streams[i],
            ) <= stream_begun(#[trigger] newest_streams(streams, max)[k]) by {
                let x = newest_streams(rest, max)[k];
                assert(rest.contains(x));
                let y = choose|y: int| 0 <= y < rest.len() && rest[y] == x;
                let z = if y < o {
                    y
                } else {
                    y + 1
                };
                assert(streams[z] == x);
            }
        }
    }
}

proof fn lemma_newest_within(streams: Seq<StreamView>, max: nat)
    ensures
        forall|k: int|
            0 <= k < newest_streams(streams, max).len() ==> streams.contains(
                #[trigger] newest_streams(streams, max)[k],
            ),
    decreases streams.len(),
{
    if streams.len() > max {
        let o = oldest_stream(streams, streams.len() as int);
        if 0 <= o < streams.len() {
            let rest = streams.remove(o);
            lemma_newest_within(rest, max);
            assert forall|k: int| 0 <= k < newest_streams(streams, max).len() implies streams.contains(
                #[trigger] newest_streams(streams, max)[k],
            ) by {
                let x = newest_streams(rest, max)[k];
                let y = choose|y: int| 0 <= y < rest.len() && rest[y] == x;
                let z = if y < o {
                    y
                } else {
                    y + 1
                };
                assert(streams[z] == x);
            }
        }
    }
}

// ----------------------------- the clock -----------------------------

/// A packet moves the clock to its time. The first one starts it and opens a window; once a second has
/// passed since a window was opened, the next packet opens another.
pub proof fn law_clock(r: RegView, ts: u64)
    requires
        r.pkts_last_window < u64::MAX,
    ensures
        ({
            let t = r.touched(ts);
            &&& t.last_us == Some(ts)
            &&& r.start_us is None ==> t.start_us == Some(ts)
            &&& r.start_us is Some ==> t.start_us == r.start_us
            &&& r.window_start_us is None ==> t.window_start_us == Some(ts) && t.pkts_last_window
                == r.pkts_last_window + 1
            &&& r.window_start_us matches Some(w) ==> {
                &&& ts >= w + 1_000_000 ==> t.window_start_us == Some(ts) && t.pkts_last_window == 1
                &&& ts < w + 1_000_000 ==> t.window_start_us == Some(w) && t.pkts_last_window
                    == r.pkts_last_window + 1
            }
            &&& t.calls == r.calls
            &&& t.streams == r.streams
        }),
{
}

/// What is cleared: calls, streams, endpoints, diagnostics, counters and the clock. The settings stay.
pub proof fn law_cleared(r: RegView)
    ensures
        ({
            let c = r.cleared();
            &&& c.calls.len() == 0
            &&& c.streams.len() == 0
            &&& c.endpoint_call.len() == 0
            &&& c.events.len() == 0
            &&& c.diagnostics.len() == 0
            &&& c.imported_streams.len() == 0
            &&& c.ipstats == Map::<IpAddr, ipstats::IpView>::empty()
            &&& c.pkts_total == 0
            &&& c.pkts_last_window == 0
            &&& c.completed == 0
            &&& c.failed == 0
            &&& c.start_us is None
            &&& c.last_us is None
            &&& c.window_start_us is None
            &&& c.focus_hint is None
            &&& c.source == r.source
            &&& c.max_calls == r.max_calls
            &&& c.max_streams == r.max_streams
            &&& c.max_diagnostics == r.max_diagnostics
            &&& c.pkts_dropped == r.pkts_dropped
            &&& c.removed == r.removed
        }),
{
}

/// The latest thousand lines of the event list are kept.
pub proof fn law_event_lines(r: RegView, line: Seq<char>)
    ensures
        r.with_event(line).events.len() > 0,
        r.with_event(line).events.last() == line,
        r.events.len() < 1000 ==> r.with_event(line).events == r.events.push(line),
        r.events.len() == 1000 ==> r.with_event(line).events == r.events.skip(1).push(line),
{
    if r.events.len() == 1000 {
        assert(r.events.push(line).skip(1) =~= r.events.skip(1).push(line));
    }
}

// ----------------------------- imported streams -----------------------------

/// What a snapshot of a stream adds: everything the first time, and what has been gained since after
/// that; a counter that went back adds nothing. The newer snapshot takes the place of the older.
pub proof fn law_import_growth(r: RegView, ts: u64, s: SummaryView, k: int)
    requires
        registry::imports_distinct(r.imported_streams),
    ensures
        (forall|i: int|
            0 <= i < r.imported_streams.len() ==> import_key(#[trigger] r.imported_streams[i])
                != import_key(s)) ==> r.growth(s) == (s.packets, s.lost, s.bytes)
            && (r.imported_streams.len() < r.max_streams ==> r.with_snap(ts, s).imported_streams
            == r.imported_streams.push(s)) && (r.imported_streams.len() >= r.max_streams
            ==> r.with_snap(ts, s).imported_streams == r.imported_streams),
        0 <= k < r.imported_streams.len() && import_key(r.imported_streams[k]) == import_key(s) ==> {
            let o = r.imported_streams[k];
            &&& r.growth(s).0 == (if s.packets >= o.packets {
                s.packets - o.packets
            } else {
                0
            })
            &&& r.growth(s).1 == (if s.lost >= o.lost {
                s.lost - o.lost
            } else {
                0
            })
            &&& r.growth(s).2 == (if s.bytes >= o.bytes {
                s.bytes - o.bytes
            } else {
                0
            })
            &&& r.with_snap(ts, s).imported_streams == r.imported_streams.update(k, s)
        },
        r.last_us is None && ts > 0 || r.last_us is Some && ts > r.last_us->Some_0 ==> r.with_snap(
            ts,
            s,
        ).last_us == Some(ts),
        r.last_us is Some && ts <= r.last_us->Some_0 ==> r.with_snap(ts, s).last_us == r.last_us,
{
    registry::lemma_import_index(r.imported_streams, import_key(s), 0);
    if 0 <= k < r.imported_streams.len() && import_key(r.imported_streams[k]) == import_key(s) {
        let i = import_index(r.imported_streams, import_key(s), 0)->Some_0;
        assert(import_key(r.imported_streams[i]) == import_key(s));
        assert(i == k);
    }
}

} // verus!
