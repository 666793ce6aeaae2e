//! Summary of an event log: reliability, traffic, and five-minute windows.
//!
//! The accumulator is fed event by event. Its counters wrap around, for a log
//! may claim any number of packets.
use crate::model::addr::IpAddr;
use crate::model::stats::Real64;
use crate::store::evlog;
use crate::store::evlog::{
    decode_payload, CallEvt, Event, EventView, EvlogReader, SipMsgEvt, StreamSnapEvt,
};
use crate::store::intern;
use crate::store::intern::Interner;
use crate::store::registry;
use crate::store::registry::StreamKey;
use crate::store::wire::{CallEvtKind, FieldVal};
use crate::text;
use crate::text::{chars_of, eq_ignore_case};
use std::collections::HashSet;
use vstd::prelude::*;

verus! {

broadcast use vstd::std_specs::hash::group_hash_axioms;

/// Width of a window: five minutes.
pub const WINDOW_US: u64 = 300_000_000;

/// IPs ranked by loss, unless told otherwise.
pub const DEFAULT_TOP_IPS: usize = 50;

// ----------------------------- counters -----------------------------

/// Packets, lost packets and bytes.
#[derive(Debug, Clone, Copy, PartialEq, Eq, Structural)]
pub struct Counters {
    pub pkts: u64,
    pub lost: u64,
    pub bytes: u64,
}

impl Counters {
    pub open spec fn none() -> Counters {
        Counters { pkts: 0, lost: 0, bytes: 0 }
    }

    pub open spec fn plus(self, pkts: u64, lost: u64, bytes: u64) -> Counters {
        Counters {
            pkts: self.pkts.wrapping_add(pkts),
            lost: self.lost.wrapping_add(lost),
            bytes: self.bytes.wrapping_add(bytes),
        }
    }

    pub fn add(&mut self, pkts: u64, lost: u64, bytes: u64)
        ensures
            *final(self) == old(self).plus(pkts, lost, bytes),
    {
        self.pkts = self.pkts.wrapping_add(pkts);
        self.lost = self.lost.wrapping_add(lost);
        self.bytes = self.bytes.wrapping_add(bytes);
    }
}

/// Why a call failed.
#[derive(Debug, Clone, Copy, PartialEq, Eq, Structural)]
pub enum FailKind {
    NotFound,
    Reject,
    Busy,
    Timeout,
    Fail,
}

/// The reason that a SIP status or a Q.850 cause gives.
pub open spec fn fail_kind(code: Option<u32>) -> FailKind {
    match code {
        Some(c) => if c == 404 || c == 410 || c == 484 || c == 485 || c == 604 || c == 1 {
            FailKind::NotFound
        } else if c == 486 || c == 600 || c == 17 {
            FailKind::Busy
        } else if c == 408 || c == 480 || c == 504 || c == 18 || c == 19 {
            FailKind::Timeout
        } else if c == 401 || c == 403 || c == 407 || c == 433 || c == 488 || c == 603 || c == 606
            || c == 607 || c == 21 {
            FailKind::Reject
        } else {
            FailKind::Fail
        },
        None => FailKind::Fail,
    }
}

/// Maps the final cause of an INVITE, SIP 4xx to 6xx or Q.850, to a reason.
pub fn classify_fail(code: Option<u32>) -> (r: FailKind)
    ensures
        r == fail_kind(code),
{
    match code {
        Some(404) | Some(410) | Some(484) | Some(485) | Some(604) | Some(1) => FailKind::NotFound,
        Some(486) | Some(600) | Some(17) => FailKind::Busy,
        Some(408) | Some(480) | Some(504) | Some(18) | Some(19) => FailKind::Timeout,
        Some(401) | Some(403) | Some(407) | Some(433) | Some(488) | Some(603) | Some(606) | Some(
            607,
        ) | Some(21) => FailKind::Reject,
        _ => FailKind::Fail,
    }
}

/// Failed calls by reason.
#[derive(Debug, Clone, Copy, PartialEq, Eq, Structural)]
pub struct FailSplit {
    pub notfound: u64,
    pub reject: u64,
    pub busy: u64,
    pub timeout: u64,
    pub fail: u64,
}

impl FailSplit {
    pub open spec fn none() -> FailSplit {
        FailSplit { notfound: 0, reject: 0, busy: 0, timeout: 0, fail: 0 }
    }

    pub open spec fn bumped(self, kind: FailKind) -> FailSplit {
        match kind {
            FailKind::NotFound => FailSplit { notfound: self.notfound.wrapping_add(1), ..self },
            FailKind::Reject => FailSplit { reject: self.reject.wrapping_add(1), ..self },
            FailKind::Busy => FailSplit { busy: self.busy.wrapping_add(1), ..self },
            FailKind::Timeout => FailSplit { timeout: self.timeout.wrapping_add(1), ..self },
            FailKind::Fail => FailSplit { fail: self.fail.wrapping_add(1), ..self },
        }
    }

    pub fn bump(&mut self, kind: FailKind)
        ensures
            *final(self) == old(self).bumped(kind),
    {
        match kind {
            FailKind::NotFound => {
                self.notfound = self.notfound.wrapping_add(1);
            },
            FailKind::Reject => {
                self.reject = self.reject.wrapping_add(1);
            },
            FailKind::Busy => {
                self.busy = self.busy.wrapping_add(1);
            },
            FailKind::Timeout => {
                self.timeout = self.timeout.wrapping_add(1);
            },
            FailKind::Fail => {
                self.fail = self.fail.wrapping_add(1);
            },
        }
    }
}

/// Events by type.
#[derive(Debug, Clone, Copy, PartialEq, Eq, Structural)]
pub struct EventCounts {
    pub sip: u64,
    pub txn: u64,
    pub call: u64,
    pub stream_snap: u64,
    pub rtcp_rtt: u64,
    pub health: u64,
    pub error: u64,
    pub diag: u64,
    /// Records whose payload could not be decoded.
    pub skipped: u64,
}

impl EventCounts {
    pub open spec fn none() -> EventCounts {
        EventCounts {
            sip: 0,
            txn: 0,
            call: 0,
            stream_snap: 0,
            rtcp_rtt: 0,
            health: 0,
            error: 0,
            diag: 0,
            skipped: 0,
        }
    }

    /// All events that were read, modulo 2^64.
    pub open spec fn spec_total(self) -> u64 {
        self.sip.wrapping_add(self.txn).wrapping_add(self.call).wrapping_add(
            self.stream_snap,
        ).wrapping_add(self.rtcp_rtt).wrapping_add(self.health).wrapping_add(
            self.error,
        ).wrapping_add(self.diag)
    }

    pub fn total(&self) -> (r: u64)
        ensures
            r == self.spec_total(),
    {
        self.sip.wrapping_add(self.txn).wrapping_add(self.call).wrapping_add(
            self.stream_snap,
        ).wrapping_add(self.rtcp_rtt).wrapping_add(self.health).wrapping_add(
            self.error,
        ).wrapping_add(self.diag)
    }
}

/// Requests and ends of calls.
#[derive(Debug, Clone, Copy, PartialEq, Eq, Structural)]
pub struct CallCounts {
    /// Different Call-IDs; counted when the report is sealed.
    pub unique: usize,
    pub invite: u64,
    pub bye: u64,
    pub cancel: u64,
    pub completed: u64,
    pub failed: u64,
    pub canceled: u64,
}

impl CallCounts {
    pub open spec fn none() -> CallCounts {
        CallCounts {
            unique: 0,
            invite: 0,
            bye: 0,
            cancel: 0,
            completed: 0,
            failed: 0,
            canceled: 0,
        }
    }
}

/// The latest snapshot of a stream.
#[derive(Debug, Clone, Copy, PartialEq, Eq, Structural)]
pub struct SnapEntry {
    pub key: StreamKey,
    pub packets: u64,
    pub lost: u64,
    pub bytes: u64,
    pub mos: Option<Real64>,
    pub jitter_ms: Option<Real64>,
    pub rtt_ms: Option<Real64>,
}

// ----------------------------- windows -----------------------------

/// What is counted in five minutes.
pub struct WindowAcc {
    pub start_ts_us: u64,
    pub loss: Counters,
    pub sip_msgs: u64,
    pub sip_bytes: u64,
    /// Numbers of the calls that sent an INVITE.
    pub invites: HashSet<usize>,
    pub teardowns: u64,
    pub answered: u64,
    pub completed: u64,
    pub canceled: u64,
    pub fail: FailSplit,
    /// Numbers of the calls with any event.
    pub calls: HashSet<usize>,
    /// Marks of the streams.
    pub streams: HashSet<u128>,
    pub rtts: Vec<Real64>,
}

pub struct WinView {
    pub start_ts_us: u64,
    pub loss: Counters,
    pub sip_msgs: u64,
    pub sip_bytes: u64,
    pub invites: Set<usize>,
    pub teardowns: u64,
    pub answered: u64,
    pub completed: u64,
    pub canceled: u64,
    pub fail: FailSplit,
    pub calls: Set<usize>,
    pub streams: Set<u128>,
    pub rtts: Seq<Real64>,
}

impl View for WindowAcc {
    type V = WinView;

    open spec fn view(&self) -> WinView {
        WinView {
            start_ts_us: self.start_ts_us,
            loss: self.loss,
            sip_msgs: self.sip_msgs,
            sip_bytes: self.sip_bytes,
            invites: self.invites@,
            teardowns: self.teardowns,
            answered: self.answered,
            completed: self.completed,
            canceled: self.canceled,
            fail: self.fail,
            calls: self.calls@,
            streams: self.streams@,
            rtts: self.rtts@,
        }
    }
}

pub open spec fn win_views(v: Seq<WindowAcc>) -> Seq<WinView> {
    v.map_values(|w: WindowAcc| w@)
}

impl WinView {
    pub open spec fn fresh(start_ts_us: u64) -> WinView {
        WinView {
            start_ts_us,
            loss: Counters::none(),
            sip_msgs: 0,
            sip_bytes: 0,
            invites: Set::empty(),
            teardowns: 0,
            answered: 0,
            completed: 0,
            canceled: 0,
            fail: FailSplit::none(),
            calls: Set::empty(),
            streams: Set::empty(),
            rtts: Seq::empty(),
        }
    }
}

/// A stream of a call within a window: call number and SSRC.
pub open spec fn stream_mark(call: usize, ssrc: u32) -> u128 {
    (call * 0x1_0000_0000 + ssrc) as u128
}

/// When the window of a time begins.
pub open spec fn window_start(ts: u64) -> u64 {
    (ts / WINDOW_US * WINDOW_US) as u64
}

/// Behind how many of the first `n` windows one that begins at `start` stands.
pub open spec fn win_slot(ws: Seq<WinView>, start: u64, n: int) -> int
    decreases n,
{
    if n > 0 && ws[n - 1].start_ts_us > start {
        win_slot(ws, start, n - 1)
    } else {
        n
    }
}

/// The windows with one that begins at `start`, and where it is.
pub open spec fn opened(ws: Seq<WinView>, start: u64) -> (Seq<WinView>, int) {
    let n = win_slot(ws, start, ws.len() as int);
    if n > 0 && ws[n - 1].start_ts_us == start {
        (ws, n - 1)
    } else {
        (ws.insert(n, WinView::fresh(start)), n)
    }
}

pub open spec fn ascending(ws: Seq<WinView>) -> bool {
    forall|i: int, j: int|
        0 <= i < j < ws.len() ==> (#[trigger] ws[i]).start_ts_us < (#[trigger] ws[j]).start_ts_us
}

pub proof fn lemma_win_slot(ws: Seq<WinView>, start: u64, n: int)
    requires
        0 <= n <= ws.len(),
    ensures
        0 <= win_slot(ws, start, n) <= n,
        win_slot(ws, start, n) > 0 ==> ws[win_slot(ws, start, n) - 1].start_ts_us <= start,
        forall|k: int|
            win_slot(ws, start, n) <= k < n ==> (#[trigger] ws[k]).start_ts_us > start,
    decreases n,
{
    if n > 0 && ws[n - 1].start_ts_us > start {
        lemma_win_slot(ws, start, n - 1);
    }
}

pub proof fn lemma_opened(ws: Seq<WinView>, start: u64)
    requires
        ascending(ws),
    ensures
        ascending(opened(ws, start).0),
        0 <= opened(ws, start).1 < opened(ws, start).0.len(),
        opened(ws, start).0[opened(ws, start).1].start_ts_us == start,
{
    let n = win_slot(ws, start, ws.len() as int);
    lemma_win_slot(ws, start, ws.len() as int);
    let (vs, i) = opened(ws, start);
    if !(n > 0 && ws[n - 1].start_ts_us == start) {
        assert forall|a: int, b: int| 0 <= a < b < vs.len() implies (
        #[trigger] vs[a]).start_ts_us < (#[trigger] vs[b]).start_ts_us by {
            let a2 = if a < n {
                a
            } else {
                a - 1
            };
            let b2 = if b < n {
                b
            } else {
                b - 1
            };
            if a == n {
                assert(ws[b2].start_ts_us > start);
            } else if b == n {
                assert(ws[a2].start_ts_us <= ws[n - 1].start_ts_us);
            }
        }
    }
}

proof fn lemma_ascending_update(ws: Seq<WinView>, i: int, w: WinView)
    requires
        ascending(ws),
        0 <= i < ws.len(),
        w.start_ts_us == ws[i].start_ts_us,
    ensures
        ascending(ws.update(i, w)),
{
}

// ----------------------------- the model -----------------------------

/// The accumulator by its contents. Calls are numbered as they come up.
pub struct StatsView {
    pub events: EventCounts,
    /// Call-IDs, each at its number.
    pub ids: Seq<Seq<char>>,
    /// Calls that sent an INVITE.
    pub seized: Set<usize>,
    pub calls: CallCounts,
    /// For each call, the latest snapshot of its streams.
    pub snaps: Seq<Seq<SnapEntry>>,
    pub windows: Seq<WinView>,
    pub ip_loss: Seq<(IpAddr, Counters)>,
    pub all: Counters,
    pub sip_bytes: u64,
    /// SIP responses by class: index 1 to 6.
    pub sip_class: Seq<u64>,
    pub hangup: Seq<(u32, u64)>,
    pub fail: FailSplit,
    pub pdds: Seq<u32>,
    pub setups: Seq<u32>,
    /// Talk times and call durations in microseconds.
    pub talks: Seq<u64>,
    pub durations: Seq<u64>,
    pub answered: u64,
    pub rtts: Seq<Real64>,
    pub start_ts_us: Option<u64>,
    pub end_ts_us: Option<u64>,
}

/// Where an IP stands, from `i` on; the length, if nowhere.
pub open spec fn ip_index(v: Seq<(IpAddr, Counters)>, ip: IpAddr, i: int) -> int
    decreases v.len() - i,
{
    if i >= v.len() || v[i].0 == ip {
        i
    } else {
        ip_index(v, ip, i + 1)
    }
}

/// The counters of an IP after some packets.
pub open spec fn ip_plus(
    v: Seq<(IpAddr, Counters)>,
    ip: IpAddr,
    pkts: u64,
    lost: u64,
    bytes: u64,
) -> Seq<(IpAddr, Counters)> {
    let i = ip_index(v, ip, 0);
    if i < v.len() {
        v.update(i, (ip, v[i].1.plus(pkts, lost, bytes)))
    } else {
        v.push((ip, Counters::none().plus(pkts, lost, bytes)))
    }
}

/// Where a code stands, from `i` on; the length, if nowhere.
pub open spec fn code_index(v: Seq<(u32, u64)>, code: u32, i: int) -> int
    decreases v.len() - i,
{
    if i >= v.len() || v[i].0 == code {
        i
    } else {
        code_index(v, code, i + 1)
    }
}

pub open spec fn code_plus(v: Seq<(u32, u64)>, code: u32) -> Seq<(u32, u64)> {
    let i = code_index(v, code, 0);
    if i < v.len() {
        v.update(i, (code, v[i].1.wrapping_add(1)))
    } else {
        v.push((code, 1))
    }
}

/// Where a stream stands, from `i` on; the length, if nowhere.
pub open spec fn snap_index(v: Seq<SnapEntry>, key: StreamKey, i: int) -> int
    decreases v.len() - i,
{
    if i >= v.len() || v[i].key == key {
        i
    } else {
        snap_index(v, key, i + 1)
    }
}

/// What a stream has grown by since its latest snapshot.
pub open spec fn snap_growth(v: Seq<SnapEntry>, s: SnapEntry) -> (u64, u64, u64) {
    let i = snap_index(v, s.key, 0);
    if i < v.len() {
        (
            registry::grown(s.packets, v[i].packets),
            registry::grown(s.lost, v[i].lost),
            registry::grown(s.bytes, v[i].bytes),
        )
    } else {
        (s.packets, s.lost, s.bytes)
    }
}

pub open spec fn snaps_with(v: Seq<SnapEntry>, s: SnapEntry) -> Seq<SnapEntry> {
    let i = snap_index(v, s.key, 0);
    if i < v.len() {
        v.update(i, s)
    } else {
        v.push(s)
    }
}

/// A message as the statistics read it.
pub struct SipFact {
    pub call_id: Seq<char>,
    pub is_request: bool,
    pub method: Option<Seq<char>>,
    pub status: Option<u16>,
    pub len: nat,
}

/// The end of a call as the statistics read it.
pub struct CallFact {
    pub call_id: Seq<char>,
    pub kind: CallEvtKind,
    pub state: u8,
    pub invite_ts: Option<u64>,
    pub answer_ts: Option<u64>,
    pub bye_ts: Option<u64>,
    pub end_ts: Option<u64>,
    pub pdd_ms: Option<u32>,
    pub setup_ms: Option<u32>,
    pub hangup_code: Option<u32>,
}

pub open spec fn sip_fact(f: Seq<FieldVal>) -> SipFact {
    SipFact {
        call_id: f[4]->Text_0,
        is_request: f[1]->Flag_0,
        method: f[2]->OptText_0,
        status: f[3]->OptU16_0,
        len: f[9]->Blob_0.len(),
    }
}

pub open spec fn call_fact(f: Seq<FieldVal>) -> CallFact {
    CallFact {
        call_id: f[0]->Text_0,
        kind: f[1]->CallKind_0,
        state: f[6]->Byte_0,
        invite_ts: f[8]->OptU64_0,
        answer_ts: f[11]->OptU64_0,
        bye_ts: f[12]->OptU64_0,
        end_ts: f[13]->OptU64_0,
        pdd_ms: f[14]->OptU32_0,
        setup_ms: f[15]->OptU32_0,
        hangup_code: f[16]->OptU32_0,
    }
}

pub open spec fn snap_fact(f: Seq<FieldVal>) -> SnapEntry {
    SnapEntry {
        key: StreamKey { flow: f[2]->Flow_0, ssrc: f[1]->U32Be_0 },
        packets: f[5]->Varint_0,
        lost: f[6]->Varint_0,
        bytes: f[12]->Varint_0,
        mos: f[10]->OptF64_0,
        jitter_ms: f[9]->OptF64_0,
        rtt_ms: f[16]->OptF64_0,
    }
}

/// From one time to another, if both are known and in order.
pub open spec fn span(a: Option<u64>, b: Option<u64>) -> Option<u64> {
    match (a, b) {
        (Some(x), Some(y)) => if y >= x {
            Some((y - x) as u64)
        } else {
            None
        },
        _ => None,
    }
}

pub open spec fn push_some<T>(v: Seq<T>, x: Option<T>) -> Seq<T> {
    match x {
        Some(x) => v.push(x),
        None => v,
    }
}

impl CallFact {
    pub open spec fn ended(self) -> Option<u64> {
        if self.end_ts is Some {
            self.end_ts
        } else {
            self.bye_ts
        }
    }
}

pub open spec fn is_method(m: Option<Seq<char>>, name: Seq<char>) -> bool {
    m matches Some(t) && text::same_word(t, name)
}

impl StatsView {
    pub open spec fn none() -> StatsView {
        StatsView {
            events: EventCounts::none(),
            ids: Seq::empty(),
            seized: Set::empty(),
            calls: CallCounts::none(),
            snaps: Seq::empty(),
            windows: Seq::empty(),
            ip_loss: Seq::empty(),
            all: Counters::none(),
            sip_bytes: 0,
            sip_class: seq![0u64, 0, 0, 0, 0, 0, 0],
            hangup: Seq::empty(),
            fail: FailSplit::none(),
            pdds: Seq::empty(),
            setups: Seq::empty(),
            talks: Seq::empty(),
            durations: Seq::empty(),
            answered: 0,
            rtts: Seq::empty(),
            start_ts_us: None,
            end_ts_us: None,
        }
    }

    pub open spec fn noted(self, ts: u64) -> StatsView {
        StatsView {
            start_ts_us: if self.start_ts_us is Some {
                self.start_ts_us
            } else {
                Some(ts)
            },
            end_ts_us: Some(ts),
            ..self
        }
    }

    /// The number of a call.
    pub open spec fn number(self, id: Seq<char>) -> usize {
        intern::text_index(self.ids, id, 0) as usize
    }

    /// With a number for the call.
    pub open spec fn with_id(self, id: Seq<char>) -> StatsView {
        if intern::text_index(self.ids, id, 0) < self.ids.len() {
            self
        } else {
            StatsView { ids: self.ids.push(id), snaps: self.snaps.push(Seq::empty()), ..self }
        }
    }

    /// With the window of a time.
    pub open spec fn with_window(self, ts: u64, w: spec_fn(WinView) -> WinView) -> StatsView {
        let (ws, i) = opened(self.windows, window_start(ts));
        StatsView { windows: ws.update(i, w(ws[i])), ..self }
    }

    pub open spec fn with_sip(self, ts: u64, m: SipFact) -> StatsView {
        let v = self.noted(ts).with_id(m.call_id);
        let n = self.number(m.call_id);
        let invite = m.is_request && is_method(m.method, "INVITE"@);
        let bye = m.is_request && !invite && is_method(m.method, "BYE"@);
        let cancel = m.is_request && !invite && !bye && is_method(m.method, "CANCEL"@);
        let class = match m.status {
            Some(s) => s as int / 100,
            None => 0,
        };
        StatsView {
            events: EventCounts { sip: v.events.sip.wrapping_add(1), ..v.events },
            sip_bytes: v.sip_bytes.wrapping_add(m.len as u64),
            seized: if invite {
                v.seized.insert(n)
            } else {
                v.seized
            },
            calls: CallCounts {
                invite: if invite {
                    v.calls.invite.wrapping_add(1)
                } else {
                    v.calls.invite
                },
                bye: if bye {
                    v.calls.bye.wrapping_add(1)
                } else {
                    v.calls.bye
                },
                cancel: if cancel {
                    v.calls.cancel.wrapping_add(1)
                } else {
                    v.calls.cancel
                },
                ..v.calls
            },
            sip_class: if !m.is_request && 1 <= class <= 6 {
                v.sip_class.update(class, v.sip_class[class].wrapping_add(1))
            } else {
                v.sip_class
            },
            ..v
        }.with_window(ts, win_with_sip(n, m.len as u64, invite))
    }

    pub open spec fn with_call(self, ts: u64, c: CallFact) -> StatsView {
        let v = self.noted(ts).with_id(c.call_id);
        let n = self.number(c.call_id);
        let w = StatsView {
            events: EventCounts { call: v.events.call.wrapping_add(1), ..v.events },
            ..v
        };
        if c.kind != CallEvtKind::Teardown {
            w
        } else {
            w.with_end(c).with_window(ts, win_with_end(n, c))
        }
    }

    /// The totals after the end of a call.
    pub open spec fn with_end(self, c: CallFact) -> StatsView {
        StatsView {
            calls: CallCounts {
                completed: if c.state == 3 {
                    self.calls.completed.wrapping_add(1)
                } else {
                    self.calls.completed
                },
                failed: if c.state == 4 {
                    self.calls.failed.wrapping_add(1)
                } else {
                    self.calls.failed
                },
                canceled: if c.state == 5 {
                    self.calls.canceled.wrapping_add(1)
                } else {
                    self.calls.canceled
                },
                ..self.calls
            },
            fail: if c.state == 4 {
                self.fail.bumped(fail_kind(c.hangup_code))
            } else {
                self.fail
            },
            answered: if c.answer_ts is Some {
                self.answered.wrapping_add(1)
            } else {
                self.answered
            },
            pdds: push_some(self.pdds, c.pdd_ms),
            setups: push_some(self.setups, c.setup_ms),
            talks: push_some(self.talks, span(c.answer_ts, c.ended())),
            durations: push_some(self.durations, span(c.invite_ts, c.ended())),
            hangup: match c.hangup_code {
                Some(code) => code_plus(self.hangup, code),
                None => self.hangup,
            },
            ..self
        }
    }

    pub open spec fn with_snap(self, ts: u64, id: Seq<char>, s: SnapEntry) -> StatsView {
        let v = self.noted(ts).with_id(id);
        let n = self.number(id);
        let by = snap_growth(v.snaps[n as int], s);
        StatsView {
            events: EventCounts { stream_snap: v.events.stream_snap.wrapping_add(1), ..v.events },
            snaps: v.snaps.update(n as int, snaps_with(v.snaps[n as int], s)),
            all: v.all.plus(by.0, by.1, by.2),
            ip_loss: if by.0 > 0 || by.1 > 0 || by.2 > 0 {
                ip_plus(
                    ip_plus(v.ip_loss, s.key.flow.src.ip, by.0, by.1, by.2),
                    s.key.flow.dst.ip,
                    by.0,
                    by.1,
                    by.2,
                )
            } else {
                v.ip_loss
            },
            ..v
        }.with_window(ts, win_with_snap(n, s.key.ssrc, by))
    }

    pub open spec fn with_rtt(self, ts: u64, rtt: Real64) -> StatsView {
        let v = self.noted(ts);
        StatsView {
            events: EventCounts { rtcp_rtt: v.events.rtcp_rtt.wrapping_add(1), ..v.events },
            rtts: v.rtts.push(rtt),
            ..v
        }.with_window(ts, win_with_rtt(rtt))
    }

    /// After an event that is only counted.
    pub open spec fn with_other(self, ts: u64, ty: u8) -> StatsView {
        let v = self.noted(ts);
        StatsView {
            events: if ty == 2 {
                EventCounts { txn: v.events.txn.wrapping_add(1), ..v.events }
            } else if ty == 6 {
                EventCounts { health: v.events.health.wrapping_add(1), ..v.events }
            } else if ty == 8 {
                EventCounts { diag: v.events.diag.wrapping_add(1), ..v.events }
            } else {
                EventCounts { error: v.events.error.wrapping_add(1), ..v.events }
            },
            ..v
        }
    }

    /// After an event.
    pub open spec fn with_event(self, e: EventView) -> StatsView {
        if e.ty == 1 {
            self.with_sip(e.ts_us, sip_fact(e.fields))
        } else if e.ty == 3 {
            self.with_call(e.ts_us, call_fact(e.fields))
        } else if e.ty == 4 {
            self.with_snap(e.ts_us, e.fields[0]->Text_0, snap_fact(e.fields))
        } else if e.ty == 5 {
            self.with_rtt(e.ts_us, e.fields[2]->F64_0)
        } else {
            self.with_other(e.ts_us, e.ty)
        }
    }

    pub open spec fn with_skipped(self) -> StatsView {
        StatsView {
            events: EventCounts { skipped: self.events.skipped.wrapping_add(1), ..self.events },
            ..self
        }
    }

    /// After a record of a log. Only records that matter are decoded; one that
    /// cannot be is skipped.
    pub open spec fn with_record(self, ty: u8, ts: u64, payload: Seq<u8>) -> StatsView {
        if ty == 1 || ty == 3 || ty == 4 || ty == 5 {
            match evlog::payload_read(ty, ts, payload) {
                Ok(e) => self.with_event(e),
                Err(_) => self.with_skipped(),
            }
        } else {
            self.with_other(ts, ty)
        }
    }

    /// After the rest of a log. What cannot be framed ends it.
    pub open spec fn with_log(self, b: Seq<u8>, pos: int, last: u64) -> StatsView
        decreases b.len() - pos,
    {
        let step = evlog::raw_read(b, pos, last);
        match step.res {
            Ok(Some((ty, ts, payload))) => {
                let v = self.with_record(ty, ts, payload);
                if pos < step.pos <= b.len() {
                    v.with_log(b, step.pos, step.last_ts)
                } else {
                    v
                }
            },
            Ok(None) => self,
            Err(_) => self.with_skipped(),
        }
    }
}

pub open spec fn win_with_sip(n: usize, len: u64, invite: bool) -> spec_fn(WinView) -> WinView {
    |w: WinView|
        WinView {
            calls: w.calls.insert(n),
            sip_msgs: w.sip_msgs.wrapping_add(1),
            sip_bytes: w.sip_bytes.wrapping_add(len),
            invites: if invite {
                w.invites.insert(n)
            } else {
                w.invites
            },
            ..w
        }
}

pub open spec fn win_with_end(n: usize, c: CallFact) -> spec_fn(WinView) -> WinView {
    |w: WinView|
        WinView {
            teardowns: w.teardowns.wrapping_add(1),
            calls: w.calls.insert(n),
            completed: if c.state == 3 {
                w.completed.wrapping_add(1)
            } else {
                w.completed
            },
            fail: if c.state == 4 {
                w.fail.bumped(fail_kind(c.hangup_code))
            } else {
                w.fail
            },
            canceled: if c.state == 5 {
                w.canceled.wrapping_add(1)
            } else {
                w.canceled
            },
            answered: if c.answer_ts is Some {
                w.answered.wrapping_add(1)
            } else {
                w.answered
            },
            ..w
        }
}

pub open spec fn win_with_snap(n: usize, ssrc: u32, by: (u64, u64, u64)) -> spec_fn(
    WinView,
) -> WinView {
    |w: WinView|
        WinView {
            loss: w.loss.plus(by.0, by.1, by.2),
            calls: w.calls.insert(n),
            streams: w.streams.insert(stream_mark(n, ssrc)),
            ..w
        }
}

pub open spec fn win_with_rtt(rtt: Real64) -> spec_fn(WinView) -> WinView {
    |w: WinView| WinView { rtts: w.rtts.push(rtt), ..w }
}

// ----------------------------- executable -----------------------------

/// Incremental accumulator, fed by an event log or by a live session.
pub struct StatsAcc {
    pub events: EventCounts,
    pub ids: Interner,
    pub seized: HashSet<usize>,
    pub calls: CallCounts,
    pub snaps: Vec<Vec<SnapEntry>>,
    pub windows: Vec<WindowAcc>,
    pub ip_loss: Vec<(IpAddr, Counters)>,
    pub all: Counters,
    pub sip_bytes: u64,
    pub sip_class: Vec<u64>,
    pub hangup: Vec<(u32, u64)>,
    pub fail: FailSplit,
    pub pdds: Vec<u32>,
    pub setups: Vec<u32>,
    pub talks: Vec<u64>,
    pub durations: Vec<u64>,
    pub answered: u64,
    pub rtts: Vec<Real64>,
    pub start_ts_us: Option<u64>,
    pub end_ts_us: Option<u64>,
}

pub open spec fn snap_lists(v: Seq<Vec<SnapEntry>>) -> Seq<Seq<SnapEntry>> {
    v.map_values(|l: Vec<SnapEntry>| l@)
}

impl View for StatsAcc {
    type V = StatsView;

    open spec fn view(&self) -> StatsView {
        StatsView {
            events: self.events,
            ids: self.ids@,
            seized: self.seized@,
            calls: self.calls,
            snaps: snap_lists(self.snaps@),
            windows: win_views(self.windows@),
            ip_loss: self.ip_loss@,
            all: self.all,
            sip_bytes: self.sip_bytes,
            sip_class: self.sip_class@,
            hangup: self.hangup@,
            fail: self.fail,
            pdds: self.pdds@,
            setups: self.setups@,
            talks: self.talks@,
            durations: self.durations@,
            answered: self.answered,
            rtts: self.rtts@,
            start_ts_us: self.start_ts_us,
            end_ts_us: self.end_ts_us,
        }
    }
}

fn fresh_window(start_ts_us: u64) -> (r: WindowAcc)
    ensures
        r@ == WinView::fresh(start_ts_us),
{
    WindowAcc {
        start_ts_us,
        loss: Counters { pkts: 0, lost: 0, bytes: 0 },
        sip_msgs: 0,
        sip_bytes: 0,
        invites: HashSet::new(),
        teardowns: 0,
        answered: 0,
        completed: 0,
        canceled: 0,
        fail: FailSplit { notfound: 0, reject: 0, busy: 0, timeout: 0, fail: 0 },
        calls: HashSet::new(),
        streams: HashSet::new(),
        rtts: Vec::new(),
    }
}

fn count_ip(v: &mut Vec<(IpAddr, Counters)>, ip: IpAddr, pkts: u64, lost: u64, bytes: u64)
    ensures
        final(v)@ == ip_plus(old(v)@, ip, pkts, lost, bytes),
{
    let mut i: usize = 0;
    while i < v.len() && v[i].0 != ip
        invariant
            i <= v.len(),
            *v == *old(v),
            ip_index(v@, ip, 0) == ip_index(v@, ip, i as int),
        decreases v.len() - i,
    {
        i += 1;
    }
    if i < v.len() {
        let mut c: Counters = v[i].1;
        c.add(pkts, lost, bytes);
        v.set(i, (ip, c));
    } else {
        let mut c = Counters { pkts: 0, lost: 0, bytes: 0 };
        c.add(pkts, lost, bytes);
        v.push((ip, c));
    }
}

fn count_code(v: &mut Vec<(u32, u64)>, code: u32)
    ensures
        final(v)@ == code_plus(old(v)@, code),
{
    let mut i: usize = 0;
    while i < v.len() && v[i].0 != code
        invariant
            i <= v.len(),
            *v == *old(v),
            code_index(v@, code, 0) == code_index(v@, code, i as int),
        decreases v.len() - i,
    {
        i += 1;
    }
    if i < v.len() {
        let n: u64 = v[i].1.wrapping_add(1);
        v.set(i, (code, n));
    } else {
        v.push((code, 1));
    }
}

/// Keeps the snapshot, and returns what the stream has grown by.
fn keep_snap(v: &mut Vec<SnapEntry>, s: SnapEntry) -> (r: (u64, u64, u64))
    ensures
        final(v)@ == snaps_with(old(v)@, s),
        r == snap_growth(old(v)@, s),
{
    let mut i: usize = 0;
    while i < v.len() && v[i].key != s.key
        invariant
            i <= v.len(),
            *v == *old(v),
            snap_index(v@, s.key, 0) == snap_index(v@, s.key, i as int),
        decreases v.len() - i,
    {
        i += 1;
    }
    if i < v.len() {
        let p: SnapEntry = v[i];
        v.set(i, s);
        (
            s.packets.saturating_sub(p.packets),
            s.lost.saturating_sub(p.lost),
            s.bytes.saturating_sub(p.bytes),
        )
    } else {
        v.push(s);
        (s.packets, s.lost, s.bytes)
    }
}

fn span_us(a: Option<u64>, b: Option<u64>) -> (r: Option<u64>)
    ensures
        r == span(a, b),
{
    match (a, b) {
        (Some(x), Some(y)) => if y >= x {
            Some(y - x)
        } else {
            None
        },
        _ => None,
    }
}

fn named(m: &Option<String>, name: &str) -> (r: bool)
    ensures
        r == is_method(text::opt_text(*m), name@),
{
    match m {
        Some(t) => {
            let c = chars_of(t.as_str());
            eq_ignore_case(c.as_slice(), name)
        },
        None => false,
    }
}

impl StatsAcc {
    /// Windows in order, and a list of streams for each call.
    pub open spec fn wf(self) -> bool {
        &&& self.ids.wf()
        &&& self.snaps@.len() == self.ids@.len()
        &&& self.sip_class@.len() == 7
        &&& ascending(self@.windows)
    }

    pub fn new() -> (r: StatsAcc)
        ensures
            r.wf(),
            r@ == StatsView::none(),
    {
        let mut sip_class: Vec<u64> = Vec::new();
        sip_class.push(0);
        sip_class.push(0);
        sip_class.push(0);
        sip_class.push(0);
        sip_class.push(0);
        sip_class.push(0);
        sip_class.push(0);
        let r = StatsAcc {
            events: EventCounts {
                sip: 0,
                txn: 0,
                call: 0,
                stream_snap: 0,
                rtcp_rtt: 0,
                health: 0,
                error: 0,
                diag: 0,
                skipped: 0,
            },
            ids: Interner::new(),
            seized: HashSet::new(),
            calls: CallCounts {
                unique: 0,
                invite: 0,
                bye: 0,
                cancel: 0,
                completed: 0,
                failed: 0,
                canceled: 0,
            },
            snaps: Vec::new(),
            windows: Vec::new(),
            ip_loss: Vec::new(),
            all: Counters { pkts: 0, lost: 0, bytes: 0 },
            sip_bytes: 0,
            sip_class,
            hangup: Vec::new(),
            fail: FailSplit { notfound: 0, reject: 0, busy: 0, timeout: 0, fail: 0 },
            pdds: Vec::new(),
            setups: Vec::new(),
            talks: Vec::new(),
            durations: Vec::new(),
            answered: 0,
            rtts: Vec::new(),
            start_ts_us: None,
            end_ts_us: None,
        };
        proof {
            assert(r@.sip_class =~= StatsView::none().sip_class);
            assert(r@.windows =~= Seq::<WinView>::empty());
            assert(r@.snaps =~= Seq::<Seq<SnapEntry>>::empty());
        }
        r
    }

    fn note_ts(&mut self, ts: u64)
        ensures
            final(self)@ == old(self)@.noted(ts),
            old(self).wf() ==> final(self).wf(),
    {
        if self.start_ts_us.is_none() {
            self.start_ts_us = Some(ts);
        }
        self.end_ts_us = Some(ts);
    }

    /// The number of a call.
    fn intern(&mut self, id: &str) -> (r: usize)
        requires
            old(self).wf(),
        ensures
            final(self).wf(),
            final(self)@ == old(self)@.with_id(id@),
            r == old(self)@.number(id@),
            r == intern::text_index(old(self)@.ids, id@, 0),
            r < final(self).snaps@.len(),
    {
        let ghost before = self@.snaps;
        let n: usize = self.ids.intern(id);
        proof {
            intern::lemma_text_index(old(self)@.ids, id@, 0);
        }
        if n == self.snaps.len() {
            self.snaps.push(Vec::new());
            assert(self@.snaps =~= before.push(Seq::empty()));
        }
        n
    }

    /// Where the window of a time is; it is opened if it has not been.
    fn window_at(&mut self, ts: u64) -> (r: usize)
        requires
            old(self).wf(),
        ensures
            final(self).wf(),
            r < final(self).windows@.len(),
            final(self)@ == (StatsView {
                windows: opened(old(self)@.windows, window_start(ts)).0,
                ..old(self)@
            }),
            r == opened(old(self)@.windows, window_start(ts)).1,
    {
        assert(ts / WINDOW_US * WINDOW_US <= ts) by (nonlinear_arith)
            requires
                WINDOW_US == 300_000_000,
        ;
        let start: u64 = ts / WINDOW_US * WINDOW_US;
        let ghost ws = self@.windows;
        let mut n: usize = self.windows.len();
        let mut going: bool = true;
        while going && n > 0
            invariant
                n <= self.windows.len(),
                *self == *old(self),
                ws == self@.windows,
                win_slot(ws, start, ws.len() as int) == win_slot(ws, start, n as int),
                !going ==> win_slot(ws, start, n as int) == n,
            decreases n + if going {
                1int
            } else {
                0int
            },
        {
            assert(ws[n - 1] == self.windows@[n - 1]@);
            if self.windows[n - 1].start_ts_us > start {
                n -= 1;
            } else {
                going = false;
            }
        }
        proof {
            lemma_opened(ws, start);
        }
        if n > 0 && self.windows[n - 1].start_ts_us == start {
            assert(ws[n - 1] == self.windows@[n - 1]@);
            return n - 1;
        }
        if n > 0 {
            assert(ws[n - 1] == self.windows@[n - 1]@);
        }
        let ghost before = self.windows@;
        let w = fresh_window(start);
        self.windows.insert(n, w);
        assert(win_views(self.windows@) =~= ws.insert(n as int, WinView::fresh(start)));
        n
    }

    proof fn lemma_window_set(before: Seq<WindowAcc>, after: Seq<WindowAcc>, i: int)
        requires
            0 <= i < before.len(),
            after == before.update(i, after[i]),
            after[i]@.start_ts_us == before[i]@.start_ts_us,
            ascending(win_views(before)),
        ensures
            win_views(after) == win_views(before).update(i, after[i]@),
            ascending(win_views(after)),
    {
        assert(win_views(after) =~= win_views(before).update(i, after[i]@));
        lemma_ascending_update(win_views(before), i, after[i]@);
    }

    fn ingest_sip(&mut self, e: &SipMsgEvt)
        requires
            old(self).wf(),
        ensures
            final(self).wf(),
            final(self)@ == old(self)@.with_sip(e.ts_us, sip_fact(e.fields())),
    {
        let ghost m = sip_fact(e.fields());
        assert(m.call_id == e.call_id@ && m.len == e.raw@.len() && m.status == e.status
            && m.is_request == e.is_request && m.method == text::opt_text(e.method));
        self.note_ts(e.ts_us);
        let n: usize = self.intern(e.call_id.as_str());
        let len: u64 = e.raw.len() as u64;
        self.events.sip = self.events.sip.wrapping_add(1);
        self.sip_bytes = self.sip_bytes.wrapping_add(len);
        let invite: bool = e.is_request && named(&e.method, "INVITE");
        let bye: bool = e.is_request && !invite && named(&e.method, "BYE");
        let cancel: bool = e.is_request && !invite && !bye && named(&e.method, "CANCEL");
        if invite {
            self.calls.invite = self.calls.invite.wrapping_add(1);
            let _new: bool = self.seized.insert(n);
        }
        if bye {
            self.calls.bye = self.calls.bye.wrapping_add(1);
        }
        if cancel {
            self.calls.cancel = self.calls.cancel.wrapping_add(1);
        }
        if !e.is_request {
            if let Some(status) = e.status {
                let class: usize = (status / 100) as usize;
                if class >= 1 && class <= 6 {
                    let c: u64 = self.sip_class[class].wrapping_add(1);
                    self.sip_class.set(class, c);
                }
            }
        }
        let i: usize = self.window_at(e.ts_us);
        let ghost before = self.windows@;
        let w = &mut self.windows[i];
        let _new: bool = w.calls.insert(n);
        w.sip_msgs = w.sip_msgs.wrapping_add(1);
        w.sip_bytes = w.sip_bytes.wrapping_add(len);
        if invite {
            let _new: bool = w.invites.insert(n);
        }
        proof {
            assert(self.windows@ =~= before.update(i as int, self.windows@[i as int]));
            Self::lemma_window_set(before, self.windows@, i as int);
            assert(win_views(before)[i as int] == before[i as int]@);
        }
    }

    fn end_totals(&mut self, e: &CallEvt)
        requires
            old(self).wf(),
        ensures
            final(self).wf(),
            final(self)@ == old(self)@.with_end(call_fact(e.fields())),
    {
        let ghost c = call_fact(e.fields());
        assert(c.state == e.state && c.answer_ts == e.answer_ts && c.invite_ts == e.invite_ts
            && c.end_ts == e.end_ts && c.bye_ts == e.bye_ts && c.pdd_ms == e.pdd_ms && c.setup_ms
            == e.setup_ms && c.hangup_code == e.hangup_code);
        if e.state == 3 {
            self.calls.completed = self.calls.completed.wrapping_add(1);
        } else if e.state == 4 {
            self.calls.failed = self.calls.failed.wrapping_add(1);
            self.fail.bump(classify_fail(e.hangup_code));
        } else if e.state == 5 {
            self.calls.canceled = self.calls.canceled.wrapping_add(1);
        }
        if e.answer_ts.is_some() {
            self.answered = self.answered.wrapping_add(1);
        }
        if let Some(p) = e.pdd_ms {
            self.pdds.push(p);
        }
        if let Some(s) = e.setup_ms {
            self.setups.push(s);
        }
        let ended: Option<u64> = match e.end_ts {
            Some(t) => Some(t),
            None => e.bye_ts,
        };
        if let Some(t) = span_us(e.answer_ts, ended) {
            self.talks.push(t);
        }
        if let Some(t) = span_us(e.invite_ts, ended) {
            self.durations.push(t);
        }
        if let Some(code) = e.hangup_code {
            count_code(&mut self.hangup, code);
        }
    }

    fn ingest_call(&mut self, e: &CallEvt)
        requires
            old(self).wf(),
        ensures
            final(self).wf(),
            final(self)@ == old(self)@.with_call(e.ts_us, call_fact(e.fields())),
    {
        let ghost c = call_fact(e.fields());
        assert(c.call_id == e.call_id@ && c.kind == e.kind && c.state == e.state && c.answer_ts
            == e.answer_ts && c.hangup_code == e.hangup_code);
        self.note_ts(e.ts_us);
        let n: usize = self.intern(e.call_id.as_str());
        self.events.call = self.events.call.wrapping_add(1);
        let teardown: bool = match e.kind {
            CallEvtKind::Teardown => true,
            _ => false,
        };
        if !teardown {
            return;
        }
        self.end_totals(e);
        let i: usize = self.window_at(e.ts_us);
        let ghost before = self.windows@;
        let w = &mut self.windows[i];
        w.teardowns = w.teardowns.wrapping_add(1);
        let _new: bool = w.calls.insert(n);
        if e.state == 3 {
            w.completed = w.completed.wrapping_add(1);
        } else if e.state == 4 {
            w.fail.bump(classify_fail(e.hangup_code));
        } else if e.state == 5 {
            w.canceled = w.canceled.wrapping_add(1);
        }
        if e.answer_ts.is_some() {
            w.answered = w.answered.wrapping_add(1);
        }
        proof {
            assert(self.windows@ =~= before.update(i as int, self.windows@[i as int]));
            Self::lemma_window_set(before, self.windows@, i as int);
            assert(win_views(before)[i as int] == before[i as int]@);
        }
    }

    fn ingest_stream_snap(&mut self, e: &StreamSnapEvt)
        requires
            old(self).wf(),
        ensures
            final(self).wf(),
            final(self)@ == old(self)@.with_snap(
                e.ts_us,
                e.call_id@,
                snap_fact(e.fields()),
            ),
    {
        let s = SnapEntry {
            key: StreamKey { flow: e.flow, ssrc: e.ssrc },
            packets: e.packets,
            lost: e.lost,
            bytes: e.bytes,
            mos: e.mos,
            jitter_ms: e.jitter_ms,
            rtt_ms: e.rtt_avg_ms,
        };
        assert(s == snap_fact(e.fields()));
        self.note_ts(e.ts_us);
        let n: usize = self.intern(e.call_id.as_str());
        self.events.stream_snap = self.events.stream_snap.wrapping_add(1);
        let ghost lists = self.snaps@;
        let ghost lv = self@.snaps;
        assert(lv[n as int] == lists[n as int]@);
        let list = &mut self.snaps[n];
        let by: (u64, u64, u64) = keep_snap(list, s);
        assert(self@.snaps =~= lv.update(n as int, snaps_with(lv[n as int], s)));
        self.all.add(by.0, by.1, by.2);
        if by.0 > 0 || by.1 > 0 || by.2 > 0 {
            count_ip(&mut self.ip_loss, e.flow.src.ip, by.0, by.1, by.2);
            count_ip(&mut self.ip_loss, e.flow.dst.ip, by.0, by.1, by.2);
        }
        let i: usize = self.window_at(e.ts_us);
        let ghost before = self.windows@;
        let mark: u128 = n as u128 * 0x1_0000_0000 + e.ssrc as u128;
        let w = &mut self.windows[i];
        w.loss.add(by.0, by.1, by.2);
        let _new: bool = w.calls.insert(n);
        let _seen: bool = w.streams.insert(mark);
        proof {
            assert(mark == stream_mark(n, e.ssrc));
            assert(self.windows@ =~= before.update(i as int, self.windows@[i as int]));
            Self::lemma_window_set(before, self.windows@, i as int);
            assert(win_views(before)[i as int] == before[i as int]@);
        }
    }

    fn ingest_rtcp_rtt(&mut self, ts: u64, rtt_ms: Real64)
        requires
            old(self).wf(),
        ensures
            final(self).wf(),
            final(self)@ == old(self)@.with_rtt(ts, rtt_ms),
    {
        self.note_ts(ts);
        self.events.rtcp_rtt = self.events.rtcp_rtt.wrapping_add(1);
        self.rtts.push(rtt_ms);
        let i: usize = self.window_at(ts);
        let ghost before = self.windows@;
        let w = &mut self.windows[i];
        w.rtts.push(rtt_ms);
        proof {
            assert(self.windows@ =~= before.update(i as int, self.windows@[i as int]));
            Self::lemma_window_set(before, self.windows@, i as int);
            assert(win_views(before)[i as int] == before[i as int]@);
        }
    }

    fn ingest_other(&mut self, ts: u64, ty: u8)
        requires
            old(self).wf(),
        ensures
            final(self).wf(),
            final(self)@ == old(self)@.with_other(ts, ty),
    {
        self.note_ts(ts);
        if ty == 2 {
            self.events.txn = self.events.txn.wrapping_add(1);
        } else if ty == 6 {
            self.events.health = self.events.health.wrapping_add(1);
        } else if ty == 8 {
            self.events.diag = self.events.diag.wrapping_add(1);
        } else {
            self.events.error = self.events.error.wrapping_add(1);
        }
    }

    /// Takes an event.
    pub fn ingest(&mut self, ev: &Event)
        requires
            old(self).wf(),
        ensures
            final(self).wf(),
            final(self)@ == old(self)@.with_event(ev@),
    {
        match ev {
            Event::SipMsg(e) => {
                self.ingest_sip(e);
            },
            Event::Txn(e) => {
                self.ingest_other(e.ts_us, 2);
            },
            Event::Call(e) => {
                self.ingest_call(e);
            },
            Event::StreamSnap(e) => {
                assert(ev@.fields[0] == FieldVal::Text(e.call_id@));
                self.ingest_stream_snap(e);
            },
            Event::RtcpRtt(e) => {
                assert(ev@.fields[2] == FieldVal::F64(e.rtt_ms));
                self.ingest_rtcp_rtt(e.ts_us, e.rtt_ms);
            },
            Event::HealthBucket(e) => {
                self.ingest_other(e.bucket_us, 6);
            },
            Event::Error(e) => {
                self.ingest_other(e.ts_us, 7);
            },
            Event::Diag(e) => {
                self.ingest_other(e.ts_us, 8);
            },
        }
    }

    /// Takes a record of a log.
    pub fn ingest_record(&mut self, ty: u8, ts: u64, payload: &[u8])
        requires
            old(self).wf(),
        ensures
            final(self).wf(),
            final(self)@ == old(self)@.with_record(ty, ts, payload@),
    {
        if ty == 1 || ty == 3 || ty == 4 || ty == 5 {
            match decode_payload(ty, ts, payload) {
                Ok(ev) => {
                    self.ingest(&ev);
                },
                Err(_) => {
                    self.events.skipped = self.events.skipped.wrapping_add(1);
                },
            }
        } else {
            self.ingest_other(ts, ty);
        }
    }

    /// Takes the rest of a log. A record that cannot be decoded is skipped; one
    /// that cannot be framed ends the log.
    pub fn ingest_log(&mut self, reader: &mut EvlogReader)
        requires
            old(self).wf(),
            old(reader).wf(),
        ensures
            final(self).wf(),
            final(reader).wf(),
            final(self)@ == old(self)@.with_log(
                old(reader).data(),
                old(reader).pos(),
                old(reader).spec_last_ts(),
            ),
    {
        let ghost b = reader.data();
        loop
            invariant
                self.wf(),
                reader.wf(),
                reader.data() == b,
                b == old(reader).data(),
                self@.with_log(b, reader.pos(), reader.spec_last_ts()) == old(self)@.with_log(
                    b,
                    old(reader).pos(),
                    old(reader).spec_last_ts(),
                ),
            decreases b.len() - reader.pos(),
        {
            proof {
                evlog::lemma_reader_pos(*reader);
            }
            match reader.next_raw() {
                Ok(Some((ty, ts, payload))) => {
                    self.ingest_record(ty, ts, payload.as_slice());
                    proof {
                        evlog::lemma_reader_pos(*reader);
                    }
                },
                Ok(None) => {
                    return;
                },
                Err(_) => {
                    self.events.skipped = self.events.skipped.wrapping_add(1);
                    return;
                },
            }
        }
    }
}

// ----------------------------- laws -----------------------------

/// All failed calls of a split, modulo 2^64.
pub open spec fn split_total(f: FailSplit) -> int {
    (f.notfound + f.reject + f.busy + f.timeout + f.fail) % 0x1_0000_0000_0000_0000
}

/// The reasons of the failed calls add up to the failed calls.
pub open spec fn reasons_add_up(s: StatsView) -> bool {
    s.calls.failed == split_total(s.fail)
}

proof fn lemma_bumped_total(f: FailSplit, n: u64, kind: FailKind)
    requires
        n == split_total(f),
    ensures
        n.wrapping_add(1) == split_total(f.bumped(kind)),
{
}

/// Every failed call is counted under exactly one reason, whatever the events.
pub proof fn law_reasons_add_up(s: StatsView, e: EventView)
    ensures
        reasons_add_up(StatsView::none()),
        reasons_add_up(s) ==> reasons_add_up(s.with_event(e)),
{
    if reasons_add_up(s) {
        lemma_bumped_total(s.fail, s.calls.failed, fail_kind(call_fact(e.fields).hangup_code));
    }
}

/// What is counted both in all and by window.
pub struct Tally {
    pub loss: Counters,
    pub sip_msgs: u64,
    pub answered: u64,
}

impl Tally {
    pub open spec fn none() -> Tally {
        Tally { loss: Counters::none(), sip_msgs: 0, answered: 0 }
    }

    pub open spec fn plus(self, t: Tally) -> Tally {
        Tally {
            loss: self.loss.plus(t.loss.pkts, t.loss.lost, t.loss.bytes),
            sip_msgs: self.sip_msgs.wrapping_add(t.sip_msgs),
            answered: self.answered.wrapping_add(t.answered),
        }
    }
}

impl WinView {
    pub open spec fn tally(self) -> Tally {
        Tally { loss: self.loss, sip_msgs: self.sip_msgs, answered: self.answered }
    }
}

impl StatsView {
    pub open spec fn tally(self) -> Tally {
        Tally { loss: self.all, sip_msgs: self.events.sip, answered: self.answered }
    }
}

/// The counts of the first `n` windows together.
pub open spec fn windows_tally(ws: Seq<WinView>, n: int) -> Tally
    decreases n,
{
    if n <= 0 {
        Tally::none()
    } else {
        windows_tally(ws, n - 1).plus(ws[n - 1].tally())
    }
}

/// Every window begins at a multiple of its width.
pub open spec fn aligned(ws: Seq<WinView>) -> bool {
    forall|i: int| 0 <= i < ws.len() ==> (#[trigger] ws[i]).start_ts_us % WINDOW_US == 0
}

/// The windows stand in order, each where a window begins, and what they count is what
/// is counted in all; and every failed call has one reason.
pub open spec fn adds_up(s: StatsView) -> bool {
    &&& ascending(s.windows)
    &&& aligned(s.windows)
    &&& windows_tally(s.windows, s.windows.len() as int) == s.tally()
    &&& reasons_add_up(s)
}

proof fn lemma_tally_update(ws: Seq<WinView>, i: int, w: WinView, by: Tally, n: int)
    requires
        0 <= i < ws.len(),
        0 <= n <= ws.len(),
        w.tally() == ws[i].tally().plus(by),
    ensures
        windows_tally(ws.update(i, w), n) == if i < n {
            windows_tally(ws, n).plus(by)
        } else {
            windows_tally(ws, n)
        },
    decreases n,
{
    if n > 0 {
        lemma_tally_update(ws, i, w, by, n - 1);
    }
}

proof fn lemma_tally_insert(ws: Seq<WinView>, i: int, start: u64, n: int)
    requires
        0 <= i <= ws.len(),
        0 <= n <= ws.len() + 1,
    ensures
        windows_tally(ws.insert(i, WinView::fresh(start)), n) == windows_tally(
            ws,
            if i < n {
                n - 1
            } else {
                n
            },
        ),
    decreases n,
{
    if n > 0 {
        lemma_tally_insert(ws, i, start, n - 1);
    }
}

proof fn lemma_window_tally(s: StatsView, ts: u64, w: spec_fn(WinView) -> WinView, by: Tally)
    requires
        ascending(s.windows),
        aligned(s.windows),
        forall|x: WinView| (#[trigger] w(x)).tally() == x.tally().plus(by),
        forall|x: WinView| (#[trigger] w(x)).start_ts_us == x.start_ts_us,
    ensures
        ascending(s.with_window(ts, w).windows),
        aligned(s.with_window(ts, w).windows),
        windows_tally(s.with_window(ts, w).windows, s.with_window(ts, w).windows.len() as int)
            == windows_tally(s.windows, s.windows.len() as int).plus(by),
{
    let start = window_start(ts);
    let n = win_slot(s.windows, start, s.windows.len() as int);
    lemma_win_slot(s.windows, start, s.windows.len() as int);
    lemma_opened(s.windows, start);
    let (ws, i) = opened(s.windows, start);
    assert(start % WINDOW_US == 0);
    if !(n > 0 && s.windows[n - 1].start_ts_us == start) {
        lemma_tally_insert(s.windows, n, start, ws.len() as int);
        assert forall|k: int| 0 <= k < ws.len() implies (#[trigger] ws[k]).start_ts_us % WINDOW_US
            == 0 by {
            if k < n {
                assert(ws[k] == s.windows[k]);
            } else if k > n {
                assert(ws[k] == s.windows[k - 1]);
            }
        }
    }
    lemma_tally_update(ws, i, w(ws[i]), by, ws.len() as int);
    lemma_ascending_update(ws, i, w(ws[i]));
}

/// Whatever the events: the windows stay in order, each begins at a multiple of five
/// minutes, what they count of packets, messages and answers is what is counted in
/// all, and every failed call has one reason.
pub proof fn law_windows_add_up(s: StatsView, e: EventView)
    requires
        adds_up(s),
    ensures
        adds_up(s.with_event(e)),
{
    let none = Tally::none();
    law_reasons_add_up(s, e);
    if e.ty == 1 {
        let m = sip_fact(e.fields);
        let n = s.number(m.call_id);
        let invite = m.is_request && is_method(m.method, "INVITE"@);
        let by = Tally { sip_msgs: 1, ..none };
        lemma_window_tally(s, e.ts_us, win_with_sip(n, m.len as u64, invite), by);
        assert(s.tally().plus(by) == s.with_event(e).tally());
    } else if e.ty == 3 {
        let c = call_fact(e.fields);
        let by = Tally {
            answered: if c.answer_ts is Some {
                1
            } else {
                0
            },
            ..none
        };
        lemma_window_tally(s, e.ts_us, win_with_end(s.number(c.call_id), c), by);
        assert(c.kind == CallEvtKind::Teardown ==> s.tally().plus(by) == s.with_event(e).tally());
    } else if e.ty == 4 {
        let id = e.fields[0]->Text_0;
        let f = snap_fact(e.fields);
        let n = s.number(id);
        let by = snap_growth(s.noted(e.ts_us).with_id(id).snaps[n as int], f);
        let c = Counters { pkts: by.0, lost: by.1, bytes: by.2 };
        lemma_window_tally(
            s,
            e.ts_us,
            win_with_snap(n, f.key.ssrc, by),
            Tally { loss: c, ..none },
        );
        assert(s.tally().plus(Tally { loss: c, ..none }) == s.with_event(e).tally());
    } else if e.ty == 5 {
        lemma_window_tally(s, e.ts_us, win_with_rtt(e.fields[2]->F64_0), none);
        assert(s.tally().plus(none) == s.with_event(e).tally());
    }
}

/// Statistics after the first `n` of some events.
pub open spec fn fed(s: StatsView, evs: Seq<EventView>, n: int) -> StatsView
    decreases n,
{
    if n <= 0 {
        s
    } else {
        fed(s, evs, n - 1).with_event(evs[n - 1])
    }
}

proof fn lemma_fed_prefix(s: StatsView, a: Seq<EventView>, b: Seq<EventView>, n: int)
    requires
        0 <= n <= a.len(),
        n <= b.len(),
        forall|i: int| 0 <= i < n ==> a[i] == b[i],
    ensures
        fed(s, a, n) == fed(s, b, n),
    decreases n,
{
    if n > 0 {
        lemma_fed_prefix(s, a, b, n - 1);
    }
}

/// It makes no difference at which times the events of a session are counted: in two
/// portions they give the same statistics as in one.
pub proof fn law_portions_count_alike(s: StatsView, a: Seq<EventView>, b: Seq<EventView>)
    ensures
        fed(fed(s, a, a.len() as int), b, b.len() as int) == fed(
            s,
            a + b,
            (a + b).len() as int,
        ),
    decreases b.len(),
{
    let all = a + b;
    if b.len() == 0 {
        assert(all =~= a);
    } else {
        let c = b.drop_last();
        law_portions_count_alike(s, a, c);
        lemma_fed_prefix(fed(s, a, a.len() as int), b, c, c.len() as int);
        lemma_fed_prefix(s, all, a + c, (a + c).len() as int);
        assert(all[all.len() - 1] == b[b.len() - 1]);
    }
}

/// The counts after the first `n` of some events, from the beginning.
pub open spec fn after_events(evs: Seq<EventView>, n: int) -> StatsView {
    fed(StatsView::none(), evs, n)
}

/// Whatever events come from the beginning on, the counts add up.
pub proof fn law_events_add_up(evs: Seq<EventView>, n: int)
    ensures
        adds_up(after_events(evs, n)),
    decreases n,
{
    if n > 0 {
        law_events_add_up(evs, n - 1);
        law_windows_add_up(after_events(evs, n - 1), evs[n - 1]);
    }
}

/// Whatever bytes a log holds, the counts that are read from it add up.
pub proof fn law_log_adds_up(s: StatsView, b: Seq<u8>, pos: int, last: u64)
    requires
        adds_up(s),
    ensures
        adds_up(s.with_log(b, pos, last)),
    decreases b.len() - pos,
{
    let step = evlog::raw_read(b, pos, last);
    if let Ok(Some((ty, ts, payload))) = step.res {
        let v = s.with_record(ty, ts, payload);
        if ty == 1 || ty == 3 || ty == 4 || ty == 5 {
            if let Ok(e) = evlog::payload_read(ty, ts, payload) {
                law_windows_add_up(s, e);
            }
        }
        assert(adds_up(v));
        if pos < step.pos <= b.len() {
            law_log_adds_up(v, b, step.pos, step.last_ts);
        }
    }
}

pub proof fn lemma_snap_index(v: Seq<SnapEntry>, key: StreamKey, i: int)
    requires
        0 <= i <= v.len(),
    ensures
        i <= snap_index(v, key, i) <= v.len(),
        snap_index(v, key, i) < v.len() ==> v[snap_index(v, key, i)].key == key,
        forall|k: int| i <= k < snap_index(v, key, i) ==> (#[trigger] v[k]).key != key,
    decreases v.len() - i,
{
    if i < v.len() && v[i].key != key {
        lemma_snap_index(v, key, i + 1);
    }
}

proof fn lemma_snap_at(v: Seq<SnapEntry>, key: StreamKey, i: int, at: int)
    requires
        0 <= i <= at < v.len(),
        v[at].key == key,
        forall|k: int| i <= k < at ==> (#[trigger] v[k]).key != key,
    ensures
        snap_index(v, key, i) == at,
    decreases at - i,
{
    if i < at {
        lemma_snap_at(v, key, i + 1, at);
    }
}

/// A snapshot that is repeated adds nothing: totals count what is new.
pub proof fn law_repeated_snap_counts_once(
    s: StatsView,
    ts: u64,
    again: u64,
    id: Seq<char>,
    e: SnapEntry,
)
    requires
        s.snaps.len() == s.ids.len() <= usize::MAX,
    ensures
        s.with_snap(ts, id, e).with_snap(again, id, e).all == s.with_snap(ts, id, e).all,
        s.with_snap(ts, id, e).with_snap(again, id, e).ip_loss == s.with_snap(ts, id, e).ip_loss,
{
    intern::lemma_text_index(s.ids, id, 0);
    let n = s.number(id) as int;
    let a = s.with_snap(ts, id, e);
    let v = s.noted(ts).with_id(id);
    intern::lemma_text_index(a.ids, id, 0);
    if n < s.ids.len() {
        assert(a.ids == s.ids);
    } else {
        assert(a.ids == s.ids.push(id));
        intern::lemma_text_at(a.ids, id, 0, n);
    }
    let old = v.snaps[n];
    let i = snap_index(old, e.key, 0);
    lemma_snap_index(old, e.key, 0);
    let new = snaps_with(old, e);
    lemma_snap_at(new, e.key, 0, i);
    assert(a.snaps[n] == new);
    assert(snap_growth(new, e) == (0u64, 0u64, 0u64));
    assert(a.all.plus(0, 0, 0) == a.all);
}

} // verus!
