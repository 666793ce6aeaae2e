//! In-memory state: calls, streams, media endpoints, diagnostics and counters.
use crate::correlate::stream;
use crate::correlate::stream::{RtpStream, StreamView};
use crate::diagnostics;
use crate::diagnostics::{DiagView, Diagnostic};
use crate::model::addr::{IpAddr, SocketAddr};
use crate::model::media;
use crate::model::media::{StreamSummary, SummaryView};
use crate::model::packet::Flow5Tuple;
use crate::model::sip;
use crate::model::sip::{Call, CallView};
use crate::store::ipstats;
use crate::store::ipstats::{IpStatsStore, IpView};
use crate::text;
use crate::text::str_eq;
use vstd::prelude::*;

verus! {

/// Lines kept in the event list.
pub const MAX_EVENTS: usize = 1000;

/// One RTP/RTCP stream keyed by (5-tuple, ssrc).
#[derive(Debug, Clone, Copy, PartialEq, Eq, Hash, Structural)]
pub struct StreamKey {
    pub flow: Flow5Tuple,
    pub ssrc: u32,
}

/// In-memory application state.
pub struct Registry {
    /// The calls in the order in which they were first seen.
    pub calls: Vec<Call>,
    /// The streams in the order in which they were first seen.
    pub streams: Vec<RtpStream>,
    /// SDP-advertised media endpoint and the call that owns it.
    pub endpoint_call: Vec<(SocketAddr, String)>,
    pub events: Vec<String>,
    pub source: String,
    pub start_us: Option<u64>,
    pub last_us: Option<u64>,
    pub pkts_total: u64,
    /// UTC offset (seconds) of the machine that recorded the event log.
    pub tz_offset_secs: Option<i32>,
    pub pkts_dropped: u64,
    pub pkts_last_window: u64,
    pub window_start_us: Option<u64>,
    pub completed: u64,
    pub failed: u64,
    /// The latest diagnostics.
    pub diagnostics: Vec<Diagnostic>,
    /// Call id whose detail is wanted in snapshots.
    pub focus_hint: Option<String>,
    /// Call ids removed since the last drain.
    pub removed: Vec<String>,
    /// Heatmap window in microseconds; older buckets are pruned.
    pub heatmap_retain_us: u64,
    pub ipstats: IpStatsStore,
    /// Stream summaries reconstructed from an event log.
    pub imported_streams: Vec<StreamSummary>,
    pub max_calls: usize,
    pub max_streams: usize,
    pub max_diagnostics: usize,
}

/// The state by its contents.
pub struct RegView {
    pub calls: Seq<CallView>,
    pub streams: Seq<StreamView>,
    pub endpoint_call: Seq<(SocketAddr, Seq<char>)>,
    pub events: Seq<Seq<char>>,
    pub source: Seq<char>,
    pub start_us: Option<u64>,
    pub last_us: Option<u64>,
    pub pkts_total: u64,
    pub tz_offset_secs: Option<i32>,
    pub pkts_dropped: u64,
    pub pkts_last_window: u64,
    pub window_start_us: Option<u64>,
    pub completed: u64,
    pub failed: u64,
    pub diagnostics: Seq<DiagView>,
    pub focus_hint: Option<Seq<char>>,
    pub removed: Seq<Seq<char>>,
    pub heatmap_retain_us: u64,
    pub ipstats: Map<IpAddr, IpView>,
    pub imported_streams: Seq<SummaryView>,
    pub max_calls: usize,
    pub max_streams: usize,
    pub max_diagnostics: usize,
}

pub open spec fn endpoint_views(v: Seq<(SocketAddr, String)>) -> Seq<(SocketAddr, Seq<char>)> {
    v.map_values(|e: (SocketAddr, String)| (e.0, e.1@))
}

impl View for Registry {
    type V = RegView;

    open spec fn view(&self) -> RegView {
        RegView {
            calls: sip::call_views(self.calls@),
            streams: stream::stream_views(self.streams@),
            endpoint_call: endpoint_views(self.endpoint_call@),
            events: text::texts(self.events@),
            source: self.source@,
            start_us: self.start_us,
            last_us: self.last_us,
            pkts_total: self.pkts_total,
            tz_offset_secs: self.tz_offset_secs,
            pkts_dropped: self.pkts_dropped,
            pkts_last_window: self.pkts_last_window,
            window_start_us: self.window_start_us,
            completed: self.completed,
            failed: self.failed,
            diagnostics: diagnostics::diag_views(self.diagnostics@),
            focus_hint: text::opt_text(self.focus_hint),
            removed: text::texts(self.removed@),
            heatmap_retain_us: self.heatmap_retain_us,
            ipstats: self.ipstats@,
            imported_streams: media::summary_views(self.imported_streams@),
            max_calls: self.max_calls,
            max_streams: self.max_streams,
            max_diagnostics: self.max_diagnostics,
        }
    }
}

// ----------------------------- lookups -----------------------------

/// Where a call stands, from `i` on.
pub open spec fn call_index(calls: Seq<CallView>, id: Seq<char>, i: int) -> Option<int>
    decreases calls.len() - i,
{
    if i >= calls.len() {
        None
    } else if calls[i].call_id == id {
        Some(i)
    } else {
        call_index(calls, id, i + 1)
    }
}

/// Where a stream stands, from `i` on.
pub open spec fn stream_index(streams: Seq<StreamView>, key: StreamKey, i: int) -> Option<int>
    decreases streams.len() - i,
{
    if i >= streams.len() {
        None
    } else if streams[i].flow == key.flow && streams[i].ssrc == key.ssrc {
        Some(i)
    } else {
        stream_index(streams, key, i + 1)
    }
}

/// Where an endpoint stands, from `i` on.
pub open spec fn endpoint_index(
    eps: Seq<(SocketAddr, Seq<char>)>,
    ep: SocketAddr,
    i: int,
) -> Option<int>
    decreases eps.len() - i,
{
    if i >= eps.len() {
        None
    } else if eps[i].0 == ep {
        Some(i)
    } else {
        endpoint_index(eps, ep, i + 1)
    }
}

/// What tells an imported stream from others: call, SSRC and flow.
pub open spec fn import_key(s: SummaryView) -> (Seq<char>, u32, Option<Flow5Tuple>) {
    (
        match s.call_id {
            Some(id) => id,
            None => Seq::empty(),
        },
        s.ssrc,
        s.flow,
    )
}

/// Where an imported stream stands, from `i` on.
pub open spec fn import_index(
    v: Seq<SummaryView>,
    key: (Seq<char>, u32, Option<Flow5Tuple>),
    i: int,
) -> Option<int>
    decreases v.len() - i,
{
    if i >= v.len() {
        None
    } else if import_key(v[i]) == key {
        Some(i)
    } else {
        import_index(v, key, i + 1)
    }
}

pub proof fn lemma_call_index(calls: Seq<CallView>, id: Seq<char>, i: int)
    requires
        0 <= i,
    ensures
        match call_index(calls, id, i) {
            Some(k) => i <= k < calls.len() && calls[k].call_id == id,
            None => forall|k: int| i <= k < calls.len() ==> (#[trigger] calls[k]).call_id != id,
        },
    decreases calls.len() - i,
{
    if i < calls.len() && calls[i].call_id != id {
        lemma_call_index(calls, id, i + 1);
    }
}

pub proof fn lemma_stream_index(streams: Seq<StreamView>, key: StreamKey, i: int)
    requires
        0 <= i,
    ensures
        match stream_index(streams, key, i) {
            Some(k) => i <= k < streams.len() && streams[k].flow == key.flow && streams[k].ssrc
                == key.ssrc,
            None => forall|k: int|
                i <= k < streams.len() ==> (#[trigger] streams[k]).flow != key.flow
                    || streams[k].ssrc != key.ssrc,
        },
    decreases streams.len() - i,
{
    if i < streams.len() && !(streams[i].flow == key.flow && streams[i].ssrc == key.ssrc) {
        lemma_stream_index(streams, key, i + 1);
    }
}

pub proof fn lemma_endpoint_index(eps: Seq<(SocketAddr, Seq<char>)>, ep: SocketAddr, i: int)
    requires
        0 <= i,
    ensures
        match endpoint_index(eps, ep, i) {
            Some(k) => i <= k < eps.len() && eps[k].0 == ep,
            None => forall|k: int| i <= k < eps.len() ==> (#[trigger] eps[k]).0 != ep,
        },
    decreases eps.len() - i,
{
    if i < eps.len() && eps[i].0 != ep {
        lemma_endpoint_index(eps, ep, i + 1);
    }
}

pub proof fn lemma_import_index(
    v: Seq<SummaryView>,
    key: (Seq<char>, u32, Option<Flow5Tuple>),
    i: int,
)
    requires
        0 <= i,
    ensures
        match import_index(v, key, i) {
            Some(k) => i <= k < v.len() && import_key(v[k]) == key,
            None => forall|k: int| i <= k < v.len() ==> import_key(#[trigger] v[k]) != key,
        },
    decreases v.len() - i,
{
    if i < v.len() && import_key(v[i]) != key {
        lemma_import_index(v, key, i + 1);
    }
}

// ----------------------------- the model -----------------------------

/// The last `n` elements, or all.
pub open spec fn last_n<T>(s: Seq<T>, n: int) -> Seq<T> {
    if s.len() > n {
        s.skip(s.len() - n)
    } else {
        s
    }
}

pub open spec fn ids_distinct(calls: Seq<CallView>) -> bool {
    forall|i: int, j: int|
        0 <= i < j < calls.len() ==> (#[trigger] calls[i]).call_id != (
        #[trigger] calls[j]).call_id
}

pub open spec fn keys_distinct(streams: Seq<StreamView>) -> bool {
    forall|i: int, j: int|
        0 <= i < j < streams.len() ==> (#[trigger] streams[i]).flow != (
        #[trigger] streams[j]).flow || streams[i].ssrc != streams[j].ssrc
}

pub open spec fn endpoints_distinct(eps: Seq<(SocketAddr, Seq<char>)>) -> bool {
    forall|i: int, j: int|
        0 <= i < j < eps.len() ==> (#[trigger] eps[i]).0 != (#[trigger] eps[j]).0
}

pub open spec fn imports_distinct(v: Seq<SummaryView>) -> bool {
    forall|i: int, j: int|
        0 <= i < j < v.len() ==> import_key(#[trigger] v[i]) != import_key(#[trigger] v[j])
}

pub open spec fn call_outside(ids: Seq<Seq<char>>) -> spec_fn(CallView) -> bool {
    |c: CallView| !ids.contains(c.call_id)
}

pub open spec fn stream_outside(ids: Seq<Seq<char>>) -> spec_fn(StreamView) -> bool {
    |s: StreamView| !ids.contains(s.call_id)
}

pub open spec fn endpoint_outside(ids: Seq<Seq<char>>) -> spec_fn((SocketAddr, Seq<char>)) -> bool {
    |e: (SocketAddr, Seq<char>)| !ids.contains(e.1)
}

/// When a call counts as begun, for eviction: never, if no INVITE was seen.
pub open spec fn begun(c: CallView) -> u64 {
    match c.invite_ts {
        Some(t) => t,
        None => u64::MAX,
    }
}

/// The first of the oldest among the first `n` calls; of those that have ended,
/// if `ended` is set.
pub open spec fn oldest_call(calls: Seq<CallView>, ended: bool, n: int) -> Option<int>
    decreases n,
{
    if n <= 0 {
        None
    } else {
        let best = oldest_call(calls, ended, n - 1);
        let c = calls[n - 1];
        if ended && !c.state.spec_terminal() {
            best
        } else {
            match best {
                Some(b) => if begun(c) < begun(calls[b]) {
                    Some(n - 1)
                } else {
                    best
                },
                None => Some(n - 1),
            }
        }
    }
}

/// The call to evict: the oldest that has ended, or else the oldest.
pub open spec fn victim(calls: Seq<CallView>) -> Option<int> {
    match oldest_call(calls, true, calls.len() as int) {
        Some(i) => Some(i),
        None => oldest_call(calls, false, calls.len() as int),
    }
}

pub proof fn lemma_oldest(calls: Seq<CallView>, ended: bool, n: int)
    requires
        0 <= n <= calls.len(),
    ensures
        oldest_call(calls, ended, n) matches Some(i) ==> 0 <= i < n,
        oldest_call(calls, ended, n) matches Some(i) ==> ended ==> calls[i].state.spec_terminal(),
        !ended && n > 0 ==> oldest_call(calls, ended, n) is Some,
    decreases n,
{
    if n > 0 {
        lemma_oldest(calls, ended, n - 1);
    }
}

/// The first of the oldest among the first `n` streams.
pub open spec fn oldest_stream(streams: Seq<StreamView>, n: int) -> int
    decreases n,
{
    if n <= 1 {
        0
    } else {
        let best = oldest_stream(streams, n - 1);
        if stream_begun(streams[n - 1]) < stream_begun(streams[best]) {
            n - 1
        } else {
            best
        }
    }
}

pub open spec fn stream_begun(s: StreamView) -> u64 {
    match s.first_ts_us {
        Some(t) => t,
        None => u64::MAX,
    }
}

/// Without the oldest, until `max` are left.
pub open spec fn newest_streams(streams: Seq<StreamView>, max: nat) -> Seq<StreamView>
    decreases streams.len(),
{
    if streams.len() > max {
        let i = oldest_stream(streams, streams.len() as int);
        if 0 <= i < streams.len() {
            newest_streams(streams.remove(i), max)
        } else {
            streams
        }
    } else {
        streams
    }
}

pub proof fn lemma_oldest_stream(streams: Seq<StreamView>, n: int)
    requires
        0 < n <= streams.len(),
    ensures
        0 <= oldest_stream(streams, n) < n,
    decreases n,
{
    if n > 1 {
        lemma_oldest_stream(streams, n - 1);
    }
}

/// Idle, or ended for long: the last activity lies before `cutoff`.
pub open spec fn is_stale(c: CallView, cutoff: u64) -> bool {
    let t = if c.state.spec_terminal() {
        match c.ended() {
            Some(t) => t,
            None => c.last_ts_us,
        }
    } else {
        c.last_ts_us
    };
    t != 0 && t < cutoff
}

/// The stale ones among the first `n` calls, but for the one in focus.
pub open spec fn stale_ids(
    calls: Seq<CallView>,
    focus: Option<Seq<char>>,
    cutoff: u64,
    n: int,
) -> Seq<Seq<char>>
    decreases n,
{
    if n <= 0 {
        Seq::empty()
    } else {
        let s = stale_ids(calls, focus, cutoff, n - 1);
        let c = calls[n - 1];
        if focus != Some(c.call_id) && is_stale(c, cutoff) {
            s.push(c.call_id)
        } else {
            s
        }
    }
}

impl RegView {
    /// Nothing stands twice.
    pub open spec fn wf(self) -> bool {
        &&& ids_distinct(self.calls)
        &&& keys_distinct(self.streams)
        &&& endpoints_distinct(self.endpoint_call)
        &&& imports_distinct(self.imported_streams)
    }

    pub open spec fn fresh(source: Seq<char>) -> RegView {
        RegView {
            calls: Seq::empty(),
            streams: Seq::empty(),
            endpoint_call: Seq::empty(),
            events: Seq::empty(),
            source,
            start_us: None,
            last_us: None,
            pkts_total: 0,
            tz_offset_secs: None,
            pkts_dropped: 0,
            pkts_last_window: 0,
            window_start_us: None,
            completed: 0,
            failed: 0,
            diagnostics: Seq::empty(),
            focus_hint: None,
            removed: Seq::empty(),
            heatmap_retain_us: 86_400_000_000,
            ipstats: Map::empty(),
            imported_streams: Seq::empty(),
            max_calls: 100_000,
            max_streams: 50_000,
            max_diagnostics: 50_000,
        }
    }

    /// Everything forgotten but the settings, the source and what is dropped.
    pub open spec fn cleared(self) -> RegView {
        RegView {
            calls: Seq::empty(),
            streams: Seq::empty(),
            endpoint_call: Seq::empty(),
            events: Seq::empty(),
            diagnostics: Seq::empty(),
            ipstats: Map::empty(),
            imported_streams: Seq::empty(),
            pkts_total: 0,
            pkts_last_window: 0,
            window_start_us: None,
            start_us: None,
            last_us: None,
            completed: 0,
            failed: 0,
            focus_hint: None,
            ..self
        }
    }

    /// Without some calls, their streams and their endpoints.
    pub open spec fn without(self, ids: Seq<Seq<char>>) -> RegView {
        if ids.len() == 0 {
            self
        } else {
            RegView {
                calls: self.calls.filter(call_outside(ids)),
                streams: self.streams.filter(stream_outside(ids)),
                endpoint_call: self.endpoint_call.filter(endpoint_outside(ids)),
                removed: self.removed + ids,
                ..self
            }
        }
    }

    /// Without the calls that are too many. A call without an ID stops it.
    pub open spec fn with_fewer_calls(self) -> RegView
        decreases self.calls.len(),
    {
        if self.calls.len() > self.max_calls {
            match victim(self.calls) {
                Some(v) => {
                    let id = self.calls[v].call_id;
                    if id.len() == 0 {
                        self
                    } else {
                        let next = self.without(seq![id]);
                        proof {
                            assert(seq![id][0] == id);
                            lemma_oldest(self.calls, true, self.calls.len() as int);
                            lemma_oldest(self.calls, false, self.calls.len() as int);
                            lemma_filter_shorter(self.calls, call_outside(seq![id]), v);
                        }
                        next.with_fewer_calls()
                    }
                },
                None => self,
            }
        } else {
            self
        }
    }

    /// Without the calls and streams that are too many.
    pub open spec fn evicted(self) -> RegView {
        let fewer = self.with_fewer_calls();
        RegView { streams: newest_streams(fewer.streams, self.max_streams as nat), ..fewer }
    }

    /// Without what has been idle or over for `ttl_secs` at `now`. Zero turns
    /// this off.
    pub open spec fn without_stale(self, ttl_secs: u64, now: u64) -> RegView {
        if ttl_secs == 0 || now == 0 {
            self
        } else {
            let back = ttl_secs * 1_000_000;
            let cutoff: u64 = if back <= now {
                (now - back) as u64
            } else {
                0
            };
            self.without(
                stale_ids(self.calls, self.focus_hint, cutoff, self.calls.len() as int),
            )
        }
    }

    /// After a packet at `ts`: the clock moves on, and the packet counts in the
    /// current window of at least a second.
    pub open spec fn touched(self, ts: u64) -> RegView {
        let over = self.window_over(ts);
        RegView {
            start_us: if self.start_us is Some {
                self.start_us
            } else {
                Some(ts)
            },
            last_us: Some(ts),
            window_start_us: if self.window_start_us is None || over {
                Some(ts)
            } else {
                self.window_start_us
            },
            pkts_last_window: if over {
                1
            } else {
                (self.pkts_last_window + 1) as u64
            },
            ..self
        }
    }

    /// A second or more has passed since the window began.
    pub open spec fn window_over(self, ts: u64) -> bool {
        self.window_start_us matches Some(w) && ts - w >= 1_000_000
    }

    /// With a call of that ID.
    pub open spec fn with_call(self, id: Seq<char>) -> RegView {
        if call_index(self.calls, id, 0) is Some {
            self
        } else {
            RegView { calls: self.calls.push(CallView::fresh(id)), ..self }
        }
    }

    /// With one more event line; the oldest leave.
    pub open spec fn with_event(self, line: Seq<char>) -> RegView {
        RegView { events: last_n(self.events.push(line), MAX_EVENTS as int), ..self }
    }

    /// With an imported stream in place of its predecessor, or added where
    /// there is room.
    pub open spec fn with_import(self, s: SummaryView) -> RegView {
        RegView {
            imported_streams: match import_index(self.imported_streams, import_key(s), 0) {
                Some(i) => self.imported_streams.update(i, s),
                None => if self.imported_streams.len() >= self.max_streams {
                    self.imported_streams
                } else {
                    self.imported_streams.push(s)
                },
            },
            ..self
        }
    }
}

/// How much a counter has grown; none, if it went back.
pub open spec fn grown(now: u64, before: u64) -> u64 {
    if now >= before {
        (now - before) as u64
    } else {
        0
    }
}

/// The per-IP counters after a stream has grown by packets, lost packets and
/// bytes.
pub open spec fn grown_ips(
    m: Map<IpAddr, IpView>,
    ts: u64,
    flow: Option<Flow5Tuple>,
    by: (u64, u64, u64),
) -> Map<IpAddr, IpView> {
    match flow {
        None => m,
        Some(f) => {
            let counted = if by.0 > 0 || by.2 > 0 {
                ipstats::flow_packets(m, f, ts, by.0, by.2)
            } else {
                m
            };
            if by.1 > 0 {
                ipstats::flow_lost(counted, f, ts, by.1)
            } else {
                counted
            }
        },
    }
}

impl RegView {
    /// Packets, lost packets and bytes of a stream since it was last imported.
    pub open spec fn growth(self, s: SummaryView) -> (u64, u64, u64) {
        match import_index(self.imported_streams, import_key(s), 0) {
            Some(i) => (
                grown(s.packets, self.imported_streams[i].packets),
                grown(s.lost, self.imported_streams[i].lost),
                grown(s.bytes, self.imported_streams[i].bytes),
            ),
            None => (s.packets, s.lost, s.bytes),
        }
    }

    /// After a snapshot of a stream out of an event log: the newer summary, and
    /// what it has grown by for both ends.
    pub open spec fn with_snap(self, ts: u64, s: SummaryView) -> RegView {
        let last = match self.last_us {
            Some(l) => l,
            None => 0,
        };
        RegView {
            last_us: if ts > last {
                Some(ts)
            } else {
                self.last_us
            },
            ipstats: grown_ips(self.ipstats, ts, s.flow, self.growth(s)),
            ..self.with_import(s)
        }
    }
}

// ----------------------------- filter facts -----------------------------

pub proof fn lemma_filter_step<T>(s: Seq<T>, f: spec_fn(T) -> bool, i: int)
    requires
        0 <= i < s.len(),
    ensures
        s.take(i + 1).filter(f) == if f(s[i]) {
            s.take(i).filter(f).push(s[i])
        } else {
            s.take(i).filter(f)
        },
        s.take(i).filter(f).len() <= i,
{
    reveal(Seq::filter);
    assert(s.take(i + 1).drop_last() =~= s.take(i));
    lemma_filter_len(s.take(i), f);
}

proof fn lemma_filter_len<T>(s: Seq<T>, f: spec_fn(T) -> bool)
    ensures
        s.filter(f).len() <= s.len(),
    decreases s.len(),
{
    reveal(Seq::filter);
    if s.len() > 0 {
        lemma_filter_len(s.drop_last(), f);
    }
}

pub proof fn lemma_filter_shorter<T>(s: Seq<T>, f: spec_fn(T) -> bool, i: int)
    requires
        0 <= i < s.len(),
        !f(s[i]),
    ensures
        s.filter(f).len() < s.len(),
    decreases s.len(),
{
    reveal(Seq::filter);
    if i == s.len() - 1 {
        lemma_filter_len(s.drop_last(), f);
    } else {
        lemma_filter_shorter(s.drop_last(), f, i);
    }
}

/// Each element of the filtered list stands in the list, at an index of its
/// own that keeps the order.
pub proof fn lemma_filter_from<T>(s: Seq<T>, f: spec_fn(T) -> bool) -> (at: Seq<int>)
    ensures
        at.len() == s.filter(f).len(),
        forall|k: int|
            0 <= k < at.len() ==> 0 <= #[trigger] at[k] < s.len() && s.filter(f)[k] == s[at[k]]
                && f(s[at[k]]),
        forall|a: int, b: int| 0 <= a < b < at.len() ==> #[trigger] at[a] < #[trigger] at[b],
    decreases s.len(),
{
    reveal(Seq::filter);
    if s.len() == 0 {
        Seq::empty()
    } else {
        let before = lemma_filter_from(s.drop_last(), f);
        if f(s.last()) {
            before.push(s.len() - 1)
        } else {
            before
        }
    }
}

proof fn lemma_without_wf(r: RegView, ids: Seq<Seq<char>>)
    requires
        r.wf(),
    ensures
        r.without(ids).wf(),
{
    if ids.len() > 0 {
        let c = lemma_filter_from(r.calls, call_outside(ids));
        let s = lemma_filter_from(r.streams, stream_outside(ids));
        let e = lemma_filter_from(r.endpoint_call, endpoint_outside(ids));
        let w = r.without(ids);
        assert forall|i: int, j: int| 0 <= i < j < w.calls.len() implies (
        #[trigger] w.calls[i]).call_id != (#[trigger] w.calls[j]).call_id by {
            assert(c[i] < c[j]);
            assert(r.calls[c[i]].call_id != r.calls[c[j]].call_id);
        }
        assert forall|i: int, j: int| 0 <= i < j < w.streams.len() implies (
        #[trigger] w.streams[i]).flow != (#[trigger] w.streams[j]).flow || w.streams[i].ssrc
            != w.streams[j].ssrc by {
            assert(s[i] < s[j]);
            assert(r.streams[s[i]].flow != r.streams[s[j]].flow || r.streams[s[i]].ssrc
                != r.streams[s[j]].ssrc);
        }
        assert forall|i: int, j: int| 0 <= i < j < w.endpoint_call.len() implies (
        #[trigger] w.endpoint_call[i]).0 != (#[trigger] w.endpoint_call[j]).0 by {
            assert(e[i] < e[j]);
            assert(r.endpoint_call[e[i]].0 != r.endpoint_call[e[j]].0);
        }
    }
}

// ----------------------------- executable -----------------------------

/// Whether a text stands in a list.
pub fn has_text(v: &Vec<String>, t: &str) -> (r: bool)
    ensures
        r == text::texts(v@).contains(t@),
{
    let mut i: usize = 0;
    while i < v.len()
        invariant
            i <= v.len(),
            forall|k: int| 0 <= k < i ==> #[trigger] text::texts(v@)[k] != t@,
        decreases v.len() - i,
    {
        assert(text::texts(v@)[i as int] == v@[i as int]@);
        if str_eq(v[i].as_str(), t) {
            return true;
        }
        i += 1;
    }
    false
}

fn keep_calls(calls: &mut Vec<Call>, ids: &Vec<String>)
    ensures
        sip::call_views(final(calls)@) == sip::call_views(old(calls)@).filter(
            call_outside(text::texts(ids@)),
        ),
{
    let ghost f = call_outside(text::texts(ids@));
    let ghost all = sip::call_views(calls@);
    let ghost mut j: int = 0;
    let mut i: usize = 0;
    proof {
        reveal(Seq::filter);
        assert(all.take(0) =~= Seq::<CallView>::empty());
        assert(all.skip(0) =~= all);
        assert(Seq::<CallView>::empty() + all =~= all);
    }
    while i < calls.len()
        invariant
            f == call_outside(text::texts(ids@)),
            0 <= j <= all.len(),
            i <= calls.len(),
            i == all.take(j).filter(f).len(),
            sip::call_views(calls@) == all.take(j).filter(f) + all.skip(j),
        decreases calls.len() - i,
    {
        let ghost before = calls@;
        proof {
            lemma_filter_step(all, f, j);
            assert(sip::call_views(before)[i as int] == all.skip(j)[0]);
            assert(all[j] == before[i as int]@);
        }
        if has_text(ids, calls[i].call_id.as_str()) {
            let _gone = calls.remove(i);
            assert(sip::call_views(calls@) =~= sip::call_views(before).remove(i as int));
            assert(sip::call_views(calls@) =~= all.take(j + 1).filter(f) + all.skip(j + 1));
        } else {
            i += 1;
            assert(sip::call_views(calls@) =~= all.take(j + 1).filter(f) + all.skip(j + 1));
        }
        proof {
            j = j + 1;
        }
    }
    proof {
        assert(all.skip(j).len() == 0);
        assert(j == all.len());
        assert(all.take(j) =~= all);
        assert(sip::call_views(calls@) =~= all.filter(f));
    }
}

fn keep_streams(streams: &mut Vec<RtpStream>, ids: &Vec<String>)
    requires
        forall|k: int| 0 <= k < old(streams)@.len() ==> (#[trigger] old(streams)@[k]).wf(),
    ensures
        stream::stream_views(final(streams)@) == stream::stream_views(old(streams)@).filter(
            stream_outside(text::texts(ids@)),
        ),
        forall|k: int| 0 <= k < final(streams)@.len() ==> (#[trigger] final(streams)@[k]).wf(),
{
    let ghost f = stream_outside(text::texts(ids@));
    let ghost all = stream::stream_views(streams@);
    let ghost mut j: int = 0;
    let mut i: usize = 0;
    proof {
        reveal(Seq::filter);
        assert(all.take(0) =~= Seq::<StreamView>::empty());
        assert(all.skip(0) =~= all);
        assert(Seq::<StreamView>::empty() + all =~= all);
    }
    while i < streams.len()
        invariant
            f == stream_outside(text::texts(ids@)),
            0 <= j <= all.len(),
            i <= streams.len(),
            i == all.take(j).filter(f).len(),
            stream::stream_views(streams@) == all.take(j).filter(f) + all.skip(j),
            forall|k: int| 0 <= k < streams@.len() ==> (#[trigger] streams@[k]).wf(),
        decreases streams.len() - i,
    {
        let ghost before = streams@;
        proof {
            lemma_filter_step(all, f, j);
            assert(stream::stream_views(before)[i as int] == all.skip(j)[0]);
            assert(all[j] == before[i as int]@);
        }
        if has_text(ids, streams[i].call_id.as_str()) {
            let _gone = streams.remove(i);
            assert(stream::stream_views(streams@) =~= stream::stream_views(before).remove(i as int));
            assert(stream::stream_views(streams@) =~= all.take(j + 1).filter(f) + all.skip(j + 1));
        } else {
            i += 1;
            assert(stream::stream_views(streams@) =~= all.take(j + 1).filter(f) + all.skip(j + 1));
        }
        proof {
            j = j + 1;
        }
    }
    proof {
        assert(all.skip(j).len() == 0);
        assert(j == all.len());
        assert(all.take(j) =~= all);
        assert(stream::stream_views(streams@) =~= all.filter(f));
    }
}

fn keep_endpoints(eps: &mut Vec<(SocketAddr, String)>, ids: &Vec<String>)
    ensures
        endpoint_views(final(eps)@) == endpoint_views(old(eps)@).filter(
            endpoint_outside(text::texts(ids@)),
        ),
{
    let ghost f = endpoint_outside(text::texts(ids@));
    let ghost all = endpoint_views(eps@);
    let ghost mut j: int = 0;
    let mut i: usize = 0;
    proof {
        reveal(Seq::filter);
        assert(all.take(0) =~= Seq::<(SocketAddr, Seq<char>)>::empty());
        assert(all.skip(0) =~= all);
        assert(Seq::<(SocketAddr, Seq<char>)>::empty() + all =~= all);
    }
    while i < eps.len()
        invariant
            f == endpoint_outside(text::texts(ids@)),
            0 <= j <= all.len(),
            i <= eps.len(),
            i == all.take(j).filter(f).len(),
            endpoint_views(eps@) == all.take(j).filter(f) + all.skip(j),
        decreases eps.len() - i,
    {
        let ghost before = eps@;
        proof {
            lemma_filter_step(all, f, j);
            assert(endpoint_views(before)[i as int] == all.skip(j)[0]);
            assert(all[j] == (before[i as int].0, before[i as int].1@));
        }
        if has_text(ids, eps[i].1.as_str()) {
            let _gone = eps.remove(i);
            assert(endpoint_views(eps@) =~= endpoint_views(before).remove(i as int));
            assert(endpoint_views(eps@) =~= all.take(j + 1).filter(f) + all.skip(j + 1));
        } else {
            i += 1;
            assert(endpoint_views(eps@) =~= all.take(j + 1).filter(f) + all.skip(j + 1));
        }
        proof {
            j = j + 1;
        }
    }
    proof {
        assert(all.skip(j).len() == 0);
        assert(j == all.len());
        assert(all.take(j) =~= all);
        assert(endpoint_views(eps@) =~= all.filter(f));
    }
}

impl Registry {
    /// In good order.
    pub open spec fn wf(self) -> bool {
        &&& self@.wf()
        &&& self.ipstats.wf()
        &&& forall|k: int| 0 <= k < self.streams@.len() ==> (#[trigger] self.streams@[k]).wf()
    }

    pub fn with_source(source: String) -> (r: Registry)
        ensures
            r.wf(),
            r@ == RegView::fresh(source@),
    {
        let r = Registry {
            calls: Vec::new(),
            streams: Vec::new(),
            endpoint_call: Vec::new(),
            events: Vec::new(),
            source,
            start_us: None,
            last_us: None,
            pkts_total: 0,
            tz_offset_secs: None,
            pkts_dropped: 0,
            pkts_last_window: 0,
            window_start_us: None,
            completed: 0,
            failed: 0,
            diagnostics: Vec::new(),
            focus_hint: None,
            removed: Vec::new(),
            heatmap_retain_us: 86_400_000_000,
            ipstats: IpStatsStore::new(),
            imported_streams: Vec::new(),
            max_calls: 100_000,
            max_streams: 50_000,
            max_diagnostics: 50_000,
        };
        proof {
            assert(r@.calls =~= Seq::<CallView>::empty());
            assert(r@.streams =~= Seq::<StreamView>::empty());
            assert(r@.endpoint_call =~= Seq::<(SocketAddr, Seq<char>)>::empty());
            assert(r@.events =~= Seq::<Seq<char>>::empty());
            assert(r@.diagnostics =~= Seq::<DiagView>::empty());
            assert(r@.removed =~= Seq::<Seq<char>>::empty());
            assert(r@.imported_streams =~= Seq::<SummaryView>::empty());
        }
        r
    }

    pub fn set_caps(&mut self, max_calls: usize, max_streams: usize, max_diagnostics: usize)
        ensures
            final(self)@ == (RegView { max_calls, max_streams, max_diagnostics, ..old(self)@ }),
            old(self).wf() ==> final(self).wf(),
    {
        self.max_calls = max_calls;
        self.max_streams = max_streams;
        self.max_diagnostics = max_diagnostics;
    }

    /// Forgets calls, streams, diagnostics, events, per-IP stats and counters.
    pub fn clear(&mut self)
        ensures
            final(self).wf(),
            final(self)@ == old(self)@.cleared(),
    {
        self.calls = Vec::new();
        self.streams = Vec::new();
        self.endpoint_call = Vec::new();
        self.events = Vec::new();
        self.diagnostics = Vec::new();
        self.ipstats.clear();
        self.imported_streams = Vec::new();
        self.pkts_total = 0;
        self.pkts_last_window = 0;
        self.window_start_us = None;
        self.start_us = None;
        self.last_us = None;
        self.completed = 0;
        self.failed = 0;
        self.focus_hint = None;
        proof {
            assert(self@.calls =~= Seq::<CallView>::empty());
            assert(self@.streams =~= Seq::<StreamView>::empty());
            assert(self@.endpoint_call =~= Seq::<(SocketAddr, Seq<char>)>::empty());
            assert(self@.events =~= Seq::<Seq<char>>::empty());
            assert(self@.diagnostics =~= Seq::<DiagView>::empty());
            assert(self@.imported_streams =~= Seq::<SummaryView>::empty());
        }
    }

    /// Where a call stands.
    pub fn find_call(&self, call_id: &str) -> (r: Option<usize>)
        ensures
            match call_index(self@.calls, call_id@, 0) {
                Some(i) => r is Some && r->Some_0 == i && i < self.calls@.len(),
                None => r is None,
            },
    {
        let mut i: usize = 0;
        while i < self.calls.len()
            invariant
                i <= self.calls.len(),
                call_index(self@.calls, call_id@, 0) == call_index(
                    self@.calls,
                    call_id@,
                    i as int,
                ),
            decreases self.calls.len() - i,
        {
            assert(self@.calls[i as int] == self.calls@[i as int]@);
            if str_eq(self.calls[i].call_id.as_str(), call_id) {
                return Some(i);
            }
            i += 1;
        }
        None
    }

    /// The call of that ID.
    pub fn call(&self, call_id: &str) -> (r: Option<&Call>)
        ensures
            match call_index(self@.calls, call_id@, 0) {
                Some(i) => r is Some && r->Some_0@ == self@.calls[i],
                None => r is None,
            },
    {
        match self.find_call(call_id) {
            Some(i) => Some(&self.calls[i]),
            None => None,
        }
    }

    /// Where a stream stands.
    pub fn find_stream(&self, key: StreamKey) -> (r: Option<usize>)
        ensures
            match stream_index(self@.streams, key, 0) {
                Some(i) => r is Some && r->Some_0 == i && i < self.streams@.len(),
                None => r is None,
            },
    {
        let mut i: usize = 0;
        while i < self.streams.len()
            invariant
                i <= self.streams.len(),
                stream_index(self@.streams, key, 0) == stream_index(self@.streams, key, i as int),
            decreases self.streams.len() - i,
        {
            assert(self@.streams[i as int] == self.streams@[i as int]@);
            if self.streams[i].flow == key.flow && self.streams[i].ssrc == key.ssrc {
                return Some(i);
            }
            i += 1;
        }
        None
    }

    pub fn find_endpoint(&self, ep: SocketAddr) -> (r: Option<usize>)
        ensures
            match endpoint_index(self@.endpoint_call, ep, 0) {
                Some(i) => r is Some && r->Some_0 == i && i < self.endpoint_call@.len(),
                None => r is None,
            },
    {
        let mut i: usize = 0;
        while i < self.endpoint_call.len()
            invariant
                i <= self.endpoint_call.len(),
                endpoint_index(self@.endpoint_call, ep, 0) == endpoint_index(
                    self@.endpoint_call,
                    ep,
                    i as int,
                ),
            decreases self.endpoint_call.len() - i,
        {
            assert(self@.endpoint_call[i as int].0 == self.endpoint_call@[i as int].0);
            if self.endpoint_call[i].0 == ep {
                return Some(i);
            }
            i += 1;
        }
        None
    }

    fn find_import(&self, s: &StreamSummary) -> (r: Option<usize>)
        ensures
            match import_index(self@.imported_streams, import_key(s@), 0) {
                Some(i) => r is Some && r->Some_0 == i && i < self.imported_streams@.len(),
                None => r is None,
            },
    {
        let mut i: usize = 0;
        while i < self.imported_streams.len()
            invariant
                i <= self.imported_streams.len(),
                import_index(self@.imported_streams, import_key(s@), 0) == import_index(
                    self@.imported_streams,
                    import_key(s@),
                    i as int,
                ),
            decreases self.imported_streams.len() - i,
        {
            assert(self@.imported_streams[i as int] == self.imported_streams@[i as int]@);
            if same_import(&self.imported_streams[i], s) {
                return Some(i);
            }
            i += 1;
        }
        None
    }
}

fn same_flow(a: Option<Flow5Tuple>, b: Option<Flow5Tuple>) -> (r: bool)
    ensures
        r == (a == b),
{
    match (a, b) {
        (Some(x), Some(y)) => x == y,
        (None, None) => true,
        _ => false,
    }
}

fn same_import(a: &StreamSummary, b: &StreamSummary) -> (r: bool)
    ensures
        r == (import_key(a@) == import_key(b@)),
{
    let same_call: bool = match (&a.call_id, &b.call_id) {
        (Some(x), Some(y)) => str_eq(x.as_str(), y.as_str()),
        (Some(x), None) => str_eq(x.as_str(), ""),
        (None, Some(y)) => str_eq(y.as_str(), ""),
        (None, None) => true,
    };
    proof {
        reveal_strlit("");
        assert(""@ =~= Seq::<char>::empty());
    }
    same_call && a.ssrc == b.ssrc && same_flow(a.flow, b.flow)
}

impl Registry {
    /// The IDs removed since the last call.
    pub fn drain_removed(&mut self) -> (r: Vec<String>)
        ensures
            text::texts(r@) == old(self)@.removed,
            final(self)@ == (RegView { removed: Seq::empty(), ..old(self)@ }),
            old(self).wf() ==> final(self).wf(),
    {
        let mut none: Vec<String> = Vec::new();
        std::mem::swap(&mut none, &mut self.removed);
        assert(self@.removed =~= Seq::<Seq<char>>::empty());
        none
    }

    /// Before when heatmap buckets are too old to keep.
    pub fn heatmap_cutoff(&self) -> (r: Option<u64>)
        ensures
            r == match self@.last_us {
                Some(last) => Some(grown(last, self@.heatmap_retain_us)),
                None => None,
            },
    {
        match self.last_us {
            Some(last) => Some(last.saturating_sub(self.heatmap_retain_us)),
            None => None,
        }
    }

    fn remove_calls(&mut self, ids: Vec<String>)
        requires
            old(self).wf(),
        ensures
            final(self).wf(),
            final(self)@ == old(self)@.without(text::texts(ids@)),
    {
        if ids.len() == 0 {
            return;
        }
        keep_calls(&mut self.calls, &ids);
        keep_streams(&mut self.streams, &ids);
        keep_endpoints(&mut self.endpoint_call, &ids);
        let mut ids = ids;
        let ghost before = self.removed@;
        let ghost all = ids@;
        self.removed.append(&mut ids);
        proof {
            assert(self.removed@ =~= before + all);
            assert(text::texts(before + all) =~= text::texts(before) + text::texts(all));
            lemma_without_wf(old(self)@, text::texts(all));
        }
    }

    /// Removes a call with its streams and endpoints.
    pub fn remove_call(&mut self, call_id: &str)
        requires
            old(self).wf(),
        ensures
            final(self).wf(),
            final(self)@ == old(self)@.without(seq![call_id@]),
    {
        let mut ids: Vec<String> = Vec::new();
        ids.push(call_id.to_owned());
        assert(text::texts(ids@) =~= seq![call_id@]);
        self.remove_calls(ids);
    }

    fn find_oldest(&self, ended: bool) -> (r: Option<usize>)
        ensures
            match oldest_call(self@.calls, ended, self@.calls.len() as int) {
                Some(i) => r is Some && r->Some_0 == i && i < self.calls@.len(),
                None => r is None,
            },
    {
        let mut best: Option<usize> = None;
        let mut i: usize = 0;
        while i < self.calls.len()
            invariant
                i <= self.calls.len(),
                match oldest_call(self@.calls, ended, i as int) {
                    Some(b) => best is Some && best->Some_0 == b && b < i,
                    None => best is None,
                },
            decreases self.calls.len() - i,
        {
            let c = &self.calls[i];
            assert(self@.calls[i as int] == c@);
            if !ended || c.state.is_terminal() {
                match best {
                    Some(b) => {
                        assert(self@.calls[b as int] == self.calls@[b as int]@);
                        let then_us: u64 = match self.calls[b].invite_ts {
                            Some(t) => t,
                            None => u64::MAX,
                        };
                        let this_us: u64 = match c.invite_ts {
                            Some(t) => t,
                            None => u64::MAX,
                        };
                        if this_us < then_us {
                            best = Some(i);
                        }
                    },
                    None => {
                        best = Some(i);
                    },
                }
            }
            i += 1;
        }
        best
    }

    fn find_victim(&self) -> (r: Option<usize>)
        ensures
            match victim(self@.calls) {
                Some(i) => r is Some && r->Some_0 == i && i < self.calls@.len(),
                None => r is None,
            },
    {
        match self.find_oldest(true) {
            Some(i) => Some(i),
            None => self.find_oldest(false),
        }
    }

    fn evict_calls(&mut self)
        requires
            old(self).wf(),
        ensures
            final(self).wf(),
            final(self)@ == old(self)@.with_fewer_calls(),
    {
        while self.calls.len() > self.max_calls
            invariant
                self.wf(),
                self@.with_fewer_calls() == old(self)@.with_fewer_calls(),
            decreases self.calls@.len(),
        {
            let v: usize = match self.find_victim() {
                Some(v) => v,
                None => return,
            };
            let ghost before = self@;
            let id: String = self.calls[v].call_id.clone();
            assert(before.calls[v as int] == self.calls@[v as int]@);
            if str_eq(id.as_str(), "") {
                proof {
                    reveal_strlit("");
                }
                return;
            }
            proof {
                reveal_strlit("");
                if id@.len() == 0 {
                    assert(id@ =~= ""@);
                }
                assert(seq![id@][0] == id@);
                lemma_oldest(self@.calls, true, self@.calls.len() as int);
                lemma_oldest(self@.calls, false, self@.calls.len() as int);
                lemma_filter_shorter(self@.calls, call_outside(seq![id@]), v as int);
            }
            self.remove_call(id.as_str());
            assert(self@ == before.without(seq![id@]));
            assert(self@.calls.len() == self.calls@.len());
        }
    }

    fn find_oldest_stream(&self) -> (r: usize)
        requires
            self.streams@.len() > 0,
        ensures
            r == oldest_stream(self@.streams, self@.streams.len() as int),
            r < self.streams@.len(),
    {
        let mut best: usize = 0;
        let mut i: usize = 1;
        while i < self.streams.len()
            invariant
                1 <= i <= self.streams.len(),
                best < i,
                best == oldest_stream(self@.streams, i as int),
            decreases self.streams.len() - i,
        {
            assert(self@.streams[i as int] == self.streams@[i as int]@);
            assert(self@.streams[best as int] == self.streams@[best as int]@);
            let then_us: u64 = match self.streams[best].first_ts_us {
                Some(t) => t,
                None => u64::MAX,
            };
            let this_us: u64 = match self.streams[i].first_ts_us {
                Some(t) => t,
                None => u64::MAX,
            };
            if this_us < then_us {
                best = i;
            }
            i += 1;
        }
        best
    }

    fn evict_streams(&mut self)
        requires
            old(self).wf(),
        ensures
            final(self).wf(),
            final(self)@ == (RegView {
                streams: newest_streams(old(self)@.streams, old(self)@.max_streams as nat),
                ..old(self)@
            }),
    {
        while self.streams.len() > self.max_streams
            invariant
                self.wf(),
                self@ == (RegView { streams: self@.streams, ..old(self)@ }),
                newest_streams(self@.streams, self.max_streams as nat) == newest_streams(
                    old(self)@.streams,
                    old(self)@.max_streams as nat,
                ),
            decreases self.streams@.len(),
        {
            let ghost before = *self;
            let i: usize = self.find_oldest_stream();
            let _gone = self.streams.remove(i);
            proof {
                let b = before@.streams;
                assert(self@.streams =~= b.remove(i as int));
                assert(keys_distinct(self@.streams)) by {
                    assert forall|x: int, y: int| 0 <= x < y < self@.streams.len() implies (
                    #[trigger] self@.streams[x]).flow != (#[trigger] self@.streams[y]).flow
                        || self@.streams[x].ssrc != self@.streams[y].ssrc by {
                        let x2 = if x < i {
                            x
                        } else {
                            x + 1
                        };
                        let y2 = if y < i {
                            y
                        } else {
                            y + 1
                        };
                        assert(self@.streams[x] == b[x2]);
                        assert(self@.streams[y] == b[y2]);
                    }
                }
                assert forall|k: int| 0 <= k < self.streams@.len() implies (
                #[trigger] self.streams@[k]).wf() by {
                    assert(self.streams@[k] == before.streams@[if k < i {
                        k
                    } else {
                        k + 1
                    }]);
                }
            }
        }
    }

    /// Evicts the oldest ended calls while there are more than `max_calls`, and
    /// active ones only if none has ended; then the oldest streams beyond
    /// `max_streams`.
    pub fn evict_if_needed(&mut self)
        requires
            old(self).wf(),
        ensures
            final(self).wf(),
            final(self)@ == old(self)@.evicted(),
    {
        self.evict_calls();
        proof {
            lemma_fewer_calls_caps(old(self)@);
        }
        self.evict_streams();
    }

    /// Drops idle and terminated calls older than `ttl_secs` of capture time.
    pub fn evict_stale(&mut self, ttl_secs: u64, now_us: u64)
        requires
            old(self).wf(),
        ensures
            final(self).wf(),
            final(self)@ == old(self)@.without_stale(ttl_secs, now_us),
    {
        if ttl_secs == 0 || now_us == 0 {
            return;
        }
        let cutoff: u64 = if ttl_secs as u128 * 1_000_000 <= now_us as u128 {
            now_us - ttl_secs * 1_000_000
        } else {
            0
        };
        let mut ids: Vec<String> = Vec::new();
        let mut i: usize = 0;
        assert(text::texts(ids@) =~= Seq::<Seq<char>>::empty());
        while i < self.calls.len()
            invariant
                i <= self.calls.len(),
                *self == *old(self),
                text::texts(ids@) == stale_ids(self@.calls, self@.focus_hint, cutoff, i as int),
            decreases self.calls.len() - i,
        {
            let c = &self.calls[i];
            assert(self@.calls[i as int] == c@);
            let in_focus: bool = match &self.focus_hint {
                Some(f) => str_eq(f.as_str(), c.call_id.as_str()),
                None => false,
            };
            let t: u64 = if c.state.is_terminal() {
                match (c.end_ts, c.bye_ts) {
                    (Some(t), _) => t,
                    (None, Some(t)) => t,
                    (None, None) => c.last_ts_us,
                }
            } else {
                c.last_ts_us
            };
            if !in_focus && t != 0 && t < cutoff {
                let ghost before = ids@;
                let id = c.call_id.clone();
                ids.push(id);
                assert(text::texts(ids@) =~= text::texts(before).push(c.call_id@));
            }
            i += 1;
        }
        self.remove_calls(ids);
    }

    /// Moves the clock on and counts the packet. When a window of at least a
    /// second is over, its packets and its length are returned.
    pub fn touch_time(&mut self, ts_us: u64) -> (r: Option<(u64, u64)>)
        requires
            old(self)@.pkts_last_window < u64::MAX,
        ensures
            final(self)@ == old(self)@.touched(ts_us),
            r == match old(self)@.window_start_us {
                Some(w) => if old(self)@.window_over(ts_us) {
                    Some((old(self)@.pkts_last_window, (ts_us - w) as u64))
                } else {
                    None
                },
                None => None,
            },
            old(self).wf() ==> final(self).wf(),
    {
        if self.start_us.is_none() {
            self.start_us = Some(ts_us);
        }
        self.last_us = Some(ts_us);
        let mut over: Option<(u64, u64)> = None;
        match self.window_start_us {
            None => {
                self.window_start_us = Some(ts_us);
            },
            Some(w) => {
                if ts_us >= w && ts_us - w >= 1_000_000 {
                    over = Some((self.pkts_last_window, ts_us - w));
                    self.pkts_last_window = 0;
                    self.window_start_us = Some(ts_us);
                }
            },
        }
        self.pkts_last_window = self.pkts_last_window + 1;
        over
    }

    /// Records the session start if it is not known yet.
    pub fn ensure_start(&mut self, ts_us: u64)
        ensures
            final(self)@ == (RegView {
                start_us: if old(self)@.start_us is Some {
                    old(self)@.start_us
                } else {
                    Some(ts_us)
                },
                ..old(self)@
            }),
            old(self).wf() ==> final(self).wf(),
    {
        if self.start_us.is_none() {
            self.start_us = Some(ts_us);
        }
    }

    /// Where the call of that ID stands; it is added where there is none.
    pub fn call_slot(&mut self, call_id: &str) -> (r: usize)
        requires
            old(self).wf(),
        ensures
            final(self).wf(),
            final(self)@ == old(self)@.with_call(call_id@),
            r < final(self).calls@.len(),
            call_index(final(self)@.calls, call_id@, 0) == Some(r as int),
            final(self)@.calls[r as int].call_id == call_id@,
    {
        proof {
            lemma_call_index(self@.calls, call_id@, 0);
        }
        match self.find_call(call_id) {
            Some(i) => i,
            None => {
                let ghost before = self@.calls;
                let n: usize = self.calls.len();
                self.calls.push(Call::new(call_id.to_owned()));
                proof {
                    let fresh = CallView::fresh(call_id@);
                    assert(self@.calls =~= before.push(fresh));
                    lemma_call_index(self@.calls, call_id@, 0);
                    assert(self@.calls[n as int] == fresh);
                    let k = call_index(self@.calls, call_id@, 0)->Some_0;
                    if k < n {
                        assert(self@.calls[k] == before[k]);
                    }
                }
                n
            },
        }
    }

    /// The call of that ID; it is added where there is none.
    pub fn get_or_create_call(&mut self, call_id: &str) -> (r: &mut Call)
        requires
            old(self).wf(),
        ensures
            ({
                let before = old(self)@.with_call(call_id@);
                let i = call_index(before.calls, call_id@, 0)->Some_0;
                &&& call_index(before.calls, call_id@, 0) is Some
                &&& r@ == before.calls[i]
                &&& final(self)@ == (RegView { calls: before.calls.update(i, final(r)@), ..before })
            }),
    {
        let i: usize = self.call_slot(call_id);
        let ghost before = self.calls@;
        assert(self@.calls[i as int] == self.calls@[i as int]@);
        proof {
            assert forall|c: Call| #[trigger] sip::call_views(before.update(i as int, c))
                == sip::call_views(before).update(i as int, c@) by {
                assert(sip::call_views(before.update(i as int, c)) =~= sip::call_views(
                    before,
                ).update(i as int, c@));
            }
        }
        &mut self.calls[i]
    }

    /// Adds a line to the event list.
    pub fn push_event(&mut self, line: String)
        ensures
            final(self)@ == old(self)@.with_event(line@),
            old(self).wf() ==> final(self).wf(),
    {
        let ghost before = self.events@;
        self.events.push(line);
        let ghost all = text::texts(self.events@);
        assert(all =~= text::texts(before).push(line@));
        assert(all.skip(0) =~= all);
        while self.events.len() > MAX_EVENTS
            invariant
                self@ == (RegView { events: self@.events, ..old(self)@ }),
                self.streams == old(self).streams,
                self.ipstats == old(self).ipstats,
                self.events@.len() <= all.len(),
                self@.events == all.skip(all.len() - self.events@.len()),
                all.len() <= MAX_EVENTS ==> self.events@.len() == all.len(),
                all.len() > MAX_EVENTS ==> self.events@.len() >= MAX_EVENTS,
            decreases self.events@.len(),
        {
            let ghost prior = self.events@;
            let _oldest = self.events.remove(0);
            assert(self.events@ =~= prior.skip(1));
            assert(text::texts(self.events@) =~= text::texts(prior).skip(1));
            assert(text::texts(prior) == all.skip(all.len() - prior.len()));
            assert(text::texts(self.events@) =~= all.skip(all.len() - self.events@.len()));
        }
        assert(all.skip(0) =~= all);
    }

    /// Registers a stream summary out of an event log. A later one of the same
    /// stream takes the place of the earlier.
    pub fn add_imported_stream(&mut self, s: StreamSummary)
        requires
            old(self).wf(),
        ensures
            final(self).wf(),
            final(self)@ == old(self)@.with_import(s@),
    {
        let ghost before = self@.imported_streams;
        proof {
            lemma_import_index(before, import_key(s@), 0);
        }
        match self.find_import(&s) {
            Some(i) => {
                let ghost sv = s@;
                self.imported_streams.set(i, s);
                assert(self@.imported_streams =~= before.update(i as int, sv));
            },
            None => {
                if self.imported_streams.len() < self.max_streams {
                    let ghost sv = s@;
                    self.imported_streams.push(s);
                    assert(self@.imported_streams =~= before.push(sv));
                }
            },
        }
    }

    /// How much a stream has grown since it was last imported.
    fn import_growth(&self, s: &StreamSummary) -> (r: (u64, u64, u64))
        ensures
            r == self@.growth(s@),
    {
        match self.find_import(s) {
            Some(i) => {
                let p = &self.imported_streams[i];
                assert(self@.imported_streams[i as int] == p@);
                (
                    s.packets.saturating_sub(p.packets),
                    s.lost.saturating_sub(p.lost),
                    s.bytes.saturating_sub(p.bytes),
                )
            },
            None => (s.packets, s.lost, s.bytes),
        }
    }

    fn count_growth(&mut self, ts_us: u64, flow: Option<Flow5Tuple>, by: (u64, u64, u64))
        requires
            old(self).wf(),
            flow matches Some(f) ==> ipstats::flow_room(
                old(self)@.ipstats,
                f,
                by.0 as int,
                by.1 as int,
                by.2 as int,
            ),
        ensures
            final(self).wf(),
            final(self)@ == (RegView {
                ipstats: grown_ips(old(self)@.ipstats, ts_us, flow, by),
                ..old(self)@
            }),
    {
        let f = match flow {
            Some(f) => f,
            None => return,
        };
        if by.0 > 0 || by.2 > 0 {
            self.ipstats.observe_flow(f, ts_us, by.0, by.2);
        }
        if by.1 > 0 {
            assert(ipstats::entry_of(self@.ipstats, f.src.ip).lost_total + 2 * by.1 <= u64::MAX);
            assert(ipstats::entry_of(self@.ipstats, f.dst.ip).lost_total + 2 * by.1 <= u64::MAX);
            self.ipstats.observe_flow_lost(f, ts_us, by.1);
        }
    }

    /// Imports a stream snapshot out of an event log, and counts what has been
    /// added since the previous one for both ends.
    pub fn import_stream_snap(&mut self, ts_us: u64, s: StreamSummary)
        requires
            old(self).wf(),
            s.flow matches Some(f) ==> ipstats::flow_room(
                old(self)@.ipstats,
                f,
                s.packets as int,
                s.lost as int,
                s.bytes as int,
            ),
        ensures
            final(self).wf(),
            final(self)@ == old(self)@.with_snap(ts_us, s@),
    {
        let last: u64 = match self.last_us {
            Some(l) => l,
            None => 0,
        };
        if ts_us > last {
            self.last_us = Some(ts_us);
        }
        let by = self.import_growth(&s);
        let flow = s.flow;
        self.add_imported_stream(s);
        self.count_growth(ts_us, flow, by);
    }

    /// Whether the counters of both ends have room for an imported stream.
    pub fn has_import_room(&self, s: &StreamSummary) -> (r: bool)
        requires
            self.wf(),
        ensures
            r == (s.flow matches Some(f) ==> ipstats::flow_room(
                self@.ipstats,
                f,
                s.packets as int,
                s.lost as int,
                s.bytes as int,
            )),
    {
        match s.flow {
            Some(f) => self.ipstats.flow_has_room(f, s.packets, s.lost, s.bytes),
            None => true,
        }
    }

    /// The messages of a call.
    pub fn call_messages(&self, call_id: &str) -> (r: Option<&Vec<crate::model::sip::SipMsg>>)
        ensures
            match call_index(self@.calls, call_id@, 0) {
                Some(i) => r is Some && sip::msg_views(r->Some_0@) == self@.calls[i].messages,
                None => r is None,
            },
    {
        match self.find_call(call_id) {
            Some(i) => {
                assert(self@.calls[i as int] == self.calls@[i as int]@);
                Some(&self.calls[i].messages)
            },
            None => None,
        }
    }
}

/// Eviction changes nothing about the caps.
proof fn lemma_fewer_calls_caps(r: RegView)
    ensures
        r.with_fewer_calls().max_streams == r.max_streams,
    decreases r.calls.len(),
{
    if r.calls.len() > r.max_calls {
        if let Some(v) = victim(r.calls) {
            let id = r.calls[v].call_id;
            if id.len() > 0 {
                assert(seq![id][0] == id);
                lemma_oldest(r.calls, true, r.calls.len() as int);
                lemma_oldest(r.calls, false, r.calls.len() as int);
                lemma_filter_shorter(r.calls, call_outside(seq![id]), v);
                lemma_fewer_calls_caps(r.without(seq![id]));
            }
        }
    }
}

// ----------------------------- laws -----------------------------

/// Nothing is left of a removed call: not the call, none of its streams, none
/// of its endpoints.
pub proof fn law_removed_is_gone(r: RegView, ids: Seq<Seq<char>>)
    ensures
        forall|i: int|
            0 <= i < r.without(ids).calls.len() ==> !ids.contains(
                (#[trigger] r.without(ids).calls[i]).call_id,
            ),
        forall|i: int|
            0 <= i < r.without(ids).streams.len() ==> !ids.contains(
                (#[trigger] r.without(ids).streams[i]).call_id,
            ),
        forall|i: int|
            0 <= i < r.without(ids).endpoint_call.len() ==> !ids.contains(
                (#[trigger] r.without(ids).endpoint_call[i]).1,
            ),
{
    if ids.len() > 0 {
        let w = r.without(ids);
        let c = lemma_filter_from(r.calls, call_outside(ids));
        let s = lemma_filter_from(r.streams, stream_outside(ids));
        let e = lemma_filter_from(r.endpoint_call, endpoint_outside(ids));
        assert forall|i: int| 0 <= i < w.calls.len() implies !ids.contains(
            (#[trigger] w.calls[i]).call_id,
        ) by {
            assert(w.calls[i] == r.calls[c[i]]);
        }
        assert forall|i: int| 0 <= i < w.streams.len() implies !ids.contains(
            (#[trigger] w.streams[i]).call_id,
        ) by {
            assert(w.streams[i] == r.streams[s[i]]);
        }
        assert forall|i: int| 0 <= i < w.endpoint_call.len() implies !ids.contains(
            (#[trigger] w.endpoint_call[i]).1,
        ) by {
            assert(w.endpoint_call[i] == r.endpoint_call[e[i]]);
        }
    }
}

/// A call that has not ended is evicted only if none has ended.
pub proof fn law_ended_calls_go_first(calls: Seq<CallView>)
    requires
        exists|i: int| 0 <= i < calls.len() && (#[trigger] calls[i]).state.spec_terminal(),
    ensures
        victim(calls) matches Some(v) && 0 <= v < calls.len() && calls[v].state.spec_terminal(),
{
    let n = calls.len() as int;
    lemma_oldest(calls, true, n);
    let i = choose|i: int| 0 <= i < calls.len() && (#[trigger] calls[i]).state.spec_terminal();
    lemma_oldest_exists(calls, n, i);
}

proof fn lemma_oldest_exists(calls: Seq<CallView>, n: int, i: int)
    requires
        0 <= i < n <= calls.len(),
        calls[i].state.spec_terminal(),
    ensures
        oldest_call(calls, true, n) is Some,
    decreases n,
{
    if i < n - 1 {
        lemma_oldest_exists(calls, n - 1, i);
    }
}

/// After eviction the calls and the streams are within their caps, as long as
/// every call has an ID.
pub proof fn law_evicted_within_caps(r: RegView)
    requires
        forall|i: int| 0 <= i < r.calls.len() ==> (#[trigger] r.calls[i]).call_id.len() > 0,
    ensures
        r.evicted().calls.len() <= r.max_calls,
        r.evicted().streams.len() <= r.max_streams,
{
    lemma_fewer_calls_within(r);
    lemma_newest_within(r.with_fewer_calls().streams, r.max_streams as nat);
}

proof fn lemma_fewer_calls_within(r: RegView)
    requires
        forall|i: int| 0 <= i < r.calls.len() ==> (#[trigger] r.calls[i]).call_id.len() > 0,
    ensures
        r.with_fewer_calls().calls.len() <= r.max_calls,
    decreases r.calls.len(),
{
    if r.calls.len() > r.max_calls {
        let n = r.calls.len() as int;
        lemma_oldest(r.calls, true, n);
        lemma_oldest(r.calls, false, n);
        let v = victim(r.calls)->Some_0;
        let id = r.calls[v].call_id;
        assert(seq![id][0] == id);
        lemma_filter_shorter(r.calls, call_outside(seq![id]), v);
        let next = r.without(seq![id]);
        let at = lemma_filter_from(r.calls, call_outside(seq![id]));
        assert forall|i: int| 0 <= i < next.calls.len() implies (
        #[trigger] next.calls[i]).call_id.len() > 0 by {
            assert(next.calls[i] == r.calls[at[i]]);
        }
        lemma_fewer_calls_within(next);
    }
}

proof fn lemma_newest_within(streams: Seq<StreamView>, max: nat)
    ensures
        newest_streams(streams, max).len() <= max,
    decreases streams.len(),
{
    if streams.len() > max {
        lemma_oldest_stream(streams, streams.len() as int);
        lemma_newest_within(streams.remove(oldest_stream(streams, streams.len() as int)), max);
    }
}

/// An import of the same snapshot again adds nothing to the counters.
pub proof fn law_import_idempotent(r: RegView, ts: u64, s: SummaryView)
    requires
        r.imported_streams.len() < r.max_streams,
    ensures
        r.with_snap(ts, s).with_snap(ts, s) == r.with_snap(ts, s),
{
    let once = r.with_snap(ts, s);
    lemma_import_index(r.imported_streams, import_key(s), 0);
    lemma_import_index(once.imported_streams, import_key(s), 0);
    let i = match import_index(r.imported_streams, import_key(s), 0) {
        Some(i) => i,
        None => r.imported_streams.len() as int,
    };
    assert(once.imported_streams[i] == s);
    lemma_import_first(r, ts, s, i);
    assert(once.imported_streams.update(i, s) =~= once.imported_streams);
}

proof fn lemma_import_first(r: RegView, ts: u64, s: SummaryView, i: int)
    requires
        r.imported_streams.len() < r.max_streams,
        i == match import_index(r.imported_streams, import_key(s), 0) {
            Some(i) => i,
            None => r.imported_streams.len() as int,
        },
    ensures
        import_index(r.with_snap(ts, s).imported_streams, import_key(s), 0) == Some(i),
{
    let key = import_key(s);
    let old_v = r.imported_streams;
    let new_v = r.with_snap(ts, s).imported_streams;
    lemma_import_index(old_v, key, 0);
    lemma_import_skips(old_v, new_v, key, i, 0);
}

proof fn lemma_import_skips(
    a: Seq<SummaryView>,
    b: Seq<SummaryView>,
    key: (Seq<char>, u32, Option<Flow5Tuple>),
    i: int,
    from: int,
)
    requires
        0 <= from <= i < b.len(),
        i <= a.len(),
        forall|k: int| 0 <= k < i ==> #[trigger] a[k] == b[k],
        import_key(b[i]) == key,
        import_index(a, key, from) == if i < a.len() {
            Some(i)
        } else {
            None
        },
    ensures
        import_index(b, key, from) == Some(i),
    decreases i - from,
{
    lemma_import_index(a, key, from);
    if from < i {
        assert(a[from] == b[from]);
        if import_key(a[from]) == key {
            assert(import_index(a, key, from) == Some(from));
        }
        lemma_import_skips(a, b, key, i, from + 1);
    }
}

} // verus!
