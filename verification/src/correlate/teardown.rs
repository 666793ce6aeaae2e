//! The end of a call, and what is done every few seconds.
use crate::correlate::correlator;
use crate::correlate::correlator::{CorrView, Correlator};
use crate::correlate::route::{heat_entry, HeatEntry};
use crate::correlate::signaling;
use crate::correlate::stream::StreamView;
use crate::diagnostics;
use crate::diagnostics::rules::diag;
use crate::diagnostics::{DiagView, Diagnostic, Severity};
use crate::model::addr::IpAddr;
use crate::model::media;
use crate::model::media::{StreamSummary, SummaryView};
use crate::model::packet::Flow5Tuple;
use crate::model::sip::{Call, CallState, CallView, MsgView, Outcome, SipMsg};
use crate::store::evlog::{CallEvt, Event, EventView, StreamSnapEvt};
use crate::store::ipstats;
use crate::store::ipstats::{Dir, IpStatsStore, IpView};
use crate::store::registry;
use crate::store::registry::{has_text, RegView, Registry, StreamKey};
use crate::store::wire::{CallEvtKind, FieldVal};
use crate::text;
use crate::text::{clone_opt, push_dec, str_eq};
use vstd::prelude::*;

verus! {

/// Capture time between two flushes.
pub const FLUSH_US: u64 = 5_000_000;

// ----------------------------- codes -----------------------------

pub open spec fn code_of_state(s: CallState) -> u8 {
    match s {
        CallState::Dialing => 0,
        CallState::Ringing => 1,
        CallState::Active => 2,
        CallState::Completed => 3,
        CallState::Failed => 4,
        CallState::Canceled => 5,
    }
}

/// The number of a state in the event log.
pub fn state_code(s: CallState) -> (r: u8)
    ensures
        r == code_of_state(s),
{
    match s {
        CallState::Dialing => 0,
        CallState::Ringing => 1,
        CallState::Active => 2,
        CallState::Completed => 3,
        CallState::Failed => 4,
        CallState::Canceled => 5,
    }
}

pub open spec fn code_of_outcome(o: Outcome) -> u8 {
    match o {
        Outcome::InProgress => 0,
        Outcome::Answered => 1,
        Outcome::Rejected => 2,
        Outcome::NoAnswer => 3,
        Outcome::Canceled => 4,
        Outcome::Failed => 5,
    }
}

/// The number of an outcome in the event log.
pub fn outcome_code(o: Outcome) -> (r: u8)
    ensures
        r == code_of_outcome(o),
{
    match o {
        Outcome::InProgress => 0,
        Outcome::Answered => 1,
        Outcome::Rejected => 2,
        Outcome::NoAnswer => 3,
        Outcome::Canceled => 4,
        Outcome::Failed => 5,
    }
}

// ----------------------------- one-way media -----------------------------

/// The flows of a call's streams, among the first `n`.
pub open spec fn flows_of(streams: Seq<StreamView>, id: Seq<char>, n: int) -> Seq<Flow5Tuple>
    decreases n,
{
    if n <= 0 {
        Seq::empty()
    } else {
        let f = flows_of(streams, id, n - 1);
        if streams[n - 1].call_id == id {
            f.push(streams[n - 1].flow)
        } else {
            f
        }
    }
}

pub open spec fn last_time(r: RegView) -> u64 {
    match r.last_us {
        Some(t) => t,
        None => 0,
    }
}

/// Media went one way only: there is one stream, and it is not its own reverse.
pub open spec fn one_way_finding(r: RegView, id: Seq<char>) -> Option<DiagView> {
    let flows = flows_of(r.streams, id, r.streams.len() as int);
    if flows.len() == 1 && flows[0] != flows[0].spec_reverse() {
        Some(
            DiagView {
                ts_us: last_time(r),
                call_id: id,
                severity: Severity::Warn,
                code: diagnostics::ONE_WAY_MEDIA@,
                message: "only one RTP direction observed on "@ + flows[0].spec_text(),
            },
        )
    } else {
        None
    }
}

impl Registry {
    fn call_flows(&self, id: &str) -> (r: Vec<Flow5Tuple>)
        ensures
            r@ == flows_of(self@.streams, id@, self@.streams.len() as int),
    {
        let mut out: Vec<Flow5Tuple> = Vec::new();
        let mut i: usize = 0;
        while i < self.streams.len()
            invariant
                i <= self.streams.len(),
                out@ == flows_of(self@.streams, id@, i as int),
            decreases self.streams.len() - i,
        {
            assert(self@.streams[i as int] == self.streams@[i as int]@);
            if str_eq(self.streams[i].call_id.as_str(), id) {
                out.push(self.streams[i].flow);
            }
            i += 1;
        }
        out
    }

    /// One-way media of a call, as seen at its end.
    pub fn check_oneway(&self, id: &str) -> (r: Option<Diagnostic>)
        ensures
            diagnostics::rules::opt_diag(r) == one_way_finding(self@, id@),
    {
        let flows = self.call_flows(id);
        if flows.len() != 1 || flows[0] == flows[0].reverse() {
            return None;
        }
        let ts: u64 = match self.last_us {
            Some(t) => t,
            None => 0,
        };
        let mut s = "only one RTP direction observed on ".to_owned();
        let t = flows[0].text();
        s.push_str(t.as_str());
        Some(diag(ts, id, Severity::Warn, diagnostics::ONE_WAY_MEDIA, s))
    }
}

// ----------------------------- the end of a call -----------------------------

/// The first `n` IPs have one concurrent call less.
pub open spec fn released(m: Map<IpAddr, IpView>, ips: Seq<IpAddr>, n: int) -> Map<IpAddr, IpView>
    decreases n,
{
    if n <= 0 {
        m
    } else {
        signaling::ip_active(released(m, ips, n - 1), ips[n - 1], (-1) as i32)
    }
}

pub open spec fn code_text(code: Option<u32>) -> Seq<char> {
    match code {
        Some(c) => text::dec(c as nat),
        None => Seq::empty(),
    }
}

/// The line of a finished call in the event list.
pub open spec fn end_line(c: CallView) -> Seq<char> {
    "call "@ + c.call_id + " -> "@ + c.state.spec_label() + " ("@ + code_text(c.hangup.code) + ")"@
}

/// The log record of a finished call.
pub open spec fn end_event(c: CallView, ts: u64) -> EventView {
    EventView {
        ty: 3,
        ts_us: ts,
        fields: seq![
            FieldVal::Text(c.call_id),
            FieldVal::CallKind(CallEvtKind::Teardown),
            FieldVal::OptText(c.from_user),
            FieldVal::OptText(c.to_user),
            FieldVal::OptText(c.from_uri),
            FieldVal::OptText(c.to_uri),
            FieldVal::Byte(code_of_state(c.state)),
            FieldVal::Byte(code_of_outcome(c.outcome)),
            FieldVal::OptU64(c.invite_ts),
            FieldVal::OptU64(c.trying_ts),
            FieldVal::OptU64(c.ringing_ts),
            FieldVal::OptU64(c.answer_ts),
            FieldVal::OptU64(c.bye_ts),
            FieldVal::OptU64(c.end_ts),
            FieldVal::OptU32(c.pdd_ms),
            FieldVal::OptU32(c.setup_ms),
            FieldVal::OptU32(c.hangup.code),
            FieldVal::OptText(c.hangup.reason),
            FieldVal::Varint(c.pkts_sip),
            FieldVal::Varint(c.pkts_rtp),
            FieldVal::Varint(c.pkts_rtcp),
            FieldVal::Varint(c.bytes),
        ],
    }
}

pub open spec fn mark_outside(ids: Seq<Seq<char>>) -> spec_fn((Seq<char>, usize)) -> bool {
    |m: (Seq<char>, usize)| !ids.contains(m.0)
}

pub open spec fn text_outside(ids: Seq<Seq<char>>) -> spec_fn(Seq<char>) -> bool {
    |t: Seq<char>| !ids.contains(t)
}

impl CorrView {
    /// Without the bookkeeping of calls that have been removed.
    pub open spec fn pruned(self) -> CorrView {
        CorrView {
            invite_rr: self.invite_rr.filter(mark_outside(self.reg.removed)),
            terminal_done: self.terminal_done.filter(text_outside(self.reg.removed)),
            reg: RegView { removed: Seq::empty(), ..self.reg },
            ..self
        }
    }

    /// After what may be reported at the end of a call.
    pub open spec fn with_opt_diag(self, d: Option<DiagView>) -> CorrView {
        match d {
            Some(d) => self.with_diag(d),
            None => self,
        }
    }

    /// After the end of a call has been logged and counted.
    pub open spec fn with_logged_end(self, c: CallView) -> CorrView {
        let ts = match c.end_ts {
            Some(t) => t,
            None => last_time(self.reg),
        };
        CorrView {
            pending_events: self.pending_events.push(end_event(c, ts)),
            reg: RegView {
                completed: if c.state == CallState::Completed {
                    (self.reg.completed + 1) as u64
                } else {
                    self.reg.completed
                },
                failed: if c.state == CallState::Completed {
                    self.reg.failed
                } else {
                    (self.reg.failed + 1) as u64
                },
                ..self.reg.with_event(end_line(c))
            },
            ..self
        }
    }

    /// The call leaves if ended calls are not kept, and others if they are too
    /// many.
    pub open spec fn with_room_made(self, id: Seq<char>) -> CorrView {
        let reg = self.reg.evicted();
        CorrView {
            reg: if self.keep_terminated {
                reg
            } else {
                reg.without(seq![id])
            },
            ..self
        }
    }

    /// After the end of a call. `relay` is what is to be said of its relayed
    /// media.
    pub open spec fn with_end(self, id: Seq<char>, relay: Option<DiagView>) -> CorrView {
        let v = self.with_opt_diag(one_way_finding(self.reg, id)).with_opt_diag(relay);
        match registry::call_index(v.reg.calls, id, 0) {
            None => v.pruned(),
            Some(i) => {
                let c = v.reg.calls[i];
                let w = CorrView {
                    reg: RegView {
                        ipstats: released(v.reg.ipstats, c.active_ips, c.active_ips.len() as int),
                        ..v.reg
                    },
                    ..v
                };
                if c.state.spec_terminal() {
                    w.with_logged_end(c).with_room_made(id).pruned()
                } else {
                    w.pruned()
                }
            },
        }
    }
}

fn release(store: &mut IpStatsStore, ips: &Vec<IpAddr>)
    requires
        old(store).wf(),
    ensures
        final(store).wf(),
        final(store)@ == released(old(store)@, ips@, ips@.len() as int),
{
    let mut i: usize = 0;
    while i < ips.len()
        invariant
            i <= ips.len(),
            store.wf(),
            store@ == released(old(store)@, ips@, i as int),
        decreases ips.len() - i,
    {
        store.add_active(ips[i], -1);
        i += 1;
    }
}

fn end_text(c: &Call) -> (r: String)
    ensures
        r@ == end_line(c@),
{
    let mut s = "call ".to_owned();
    s.push_str(c.call_id.as_str());
    s.push_str(" -> ");
    s.push_str(c.state.label());
    s.push_str(" (");
    if let Some(code) = c.hangup.code {
        push_dec(&mut s, code as u64);
    }
    s.push_str(")");
    assert(s@ =~= end_line(c@));
    s
}

fn end_record(c: &Call, ts_us: u64) -> (r: Event)
    ensures
        r@ == end_event(c@, ts_us),
{
    let r = Event::Call(
        CallEvt {
            ts_us,
            call_id: c.call_id.clone(),
            kind: CallEvtKind::Teardown,
            from_user: clone_opt(&c.from_user),
            to_user: clone_opt(&c.to_user),
            from_uri: clone_opt(&c.from_uri),
            to_uri: clone_opt(&c.to_uri),
            state: state_code(c.state),
            outcome: outcome_code(c.outcome),
            invite_ts: c.invite_ts,
            trying_ts: c.trying_ts,
            ringing_ts: c.ringing_ts,
            answer_ts: c.answer_ts,
            bye_ts: c.bye_ts,
            end_ts: c.end_ts,
            pdd_ms: c.pdd_ms,
            setup_ms: c.setup_ms,
            hangup_code: c.hangup.code,
            hangup_reason: clone_opt(&c.hangup.reason),
            pkts_sip: c.pkts_sip,
            pkts_rtp: c.pkts_rtp,
            pkts_rtcp: c.pkts_rtcp,
            bytes: c.bytes,
        },
    );
    assert(r@.fields =~= end_event(c@, ts_us).fields);
    r
}

fn keep_marks(v: &mut Vec<(String, usize)>, ids: &Vec<String>)
    ensures
        correlator::mark_views(final(v)@) == correlator::mark_views(old(v)@).filter(
            mark_outside(text::texts(ids@)),
        ),
{
    let ghost f = mark_outside(text::texts(ids@));
    let ghost all = correlator::mark_views(v@);
    let ghost mut j: int = 0;
    let mut i: usize = 0;
    proof {
        reveal(Seq::filter);
        assert(all.take(0) =~= Seq::<(Seq<char>, usize)>::empty());
        assert(all.skip(0) =~= all);
        assert(Seq::<(Seq<char>, usize)>::empty() + all =~= all);
    }
    while i < v.len()
        invariant
            f == mark_outside(text::texts(ids@)),
            0 <= j <= all.len(),
            i <= v.len(),
            i == all.take(j).filter(f).len(),
            correlator::mark_views(v@) == all.take(j).filter(f) + all.skip(j),
        decreases v.len() - i,
    {
        let ghost before = v@;
        proof {
            registry::lemma_filter_step(all, f, j);
            assert(correlator::mark_views(before)[i as int] == all.skip(j)[0]);
            assert(all[j] == (before[i as int].0@, before[i as int].1));
        }
        if has_text(ids, v[i].0.as_str()) {
            let _gone = v.remove(i);
            assert(correlator::mark_views(v@) =~= correlator::mark_views(before).remove(i as int));
            assert(correlator::mark_views(v@) =~= all.take(j + 1).filter(f) + all.skip(j + 1));
        } else {
            i += 1;
            assert(correlator::mark_views(v@) =~= all.take(j + 1).filter(f) + all.skip(j + 1));
        }
        proof {
            j = j + 1;
        }
    }
    proof {
        assert(all.skip(j).len() == 0);
        assert(j == all.len());
        assert(all.take(j) =~= all);
        assert(correlator::mark_views(v@) =~= all.filter(f));
    }
}

fn keep_texts(v: &mut Vec<String>, ids: &Vec<String>)
    ensures
        text::texts(final(v)@) == text::texts(old(v)@).filter(text_outside(text::texts(ids@))),
{
    let ghost f = text_outside(text::texts(ids@));
    let ghost all = text::texts(v@);
    let ghost mut j: int = 0;
    let mut i: usize = 0;
    proof {
        reveal(Seq::filter);
        assert(all.take(0) =~= Seq::<Seq<char>>::empty());
        assert(all.skip(0) =~= all);
        assert(Seq::<Seq<char>>::empty() + all =~= all);
    }
    while i < v.len()
        invariant
            f == text_outside(text::texts(ids@)),
            0 <= j <= all.len(),
            i <= v.len(),
            i == all.take(j).filter(f).len(),
            text::texts(v@) == all.take(j).filter(f) + all.skip(j),
        decreases v.len() - i,
    {
        let ghost before = v@;
        proof {
            registry::lemma_filter_step(all, f, j);
            assert(text::texts(before)[i as int] == all.skip(j)[0]);
            assert(all[j] == before[i as int]@);
        }
        if has_text(ids, v[i].as_str()) {
            let _gone = v.remove(i);
            assert(text::texts(v@) =~= text::texts(before).remove(i as int));
            assert(text::texts(v@) =~= all.take(j + 1).filter(f) + all.skip(j + 1));
        } else {
            i += 1;
            assert(text::texts(v@) =~= all.take(j + 1).filter(f) + all.skip(j + 1));
        }
        proof {
            j = j + 1;
        }
    }
    proof {
        assert(all.skip(j).len() == 0);
        assert(j == all.len());
        assert(all.take(j) =~= all);
        assert(text::texts(v@) =~= all.filter(f));
    }
}

impl Correlator {
    fn prune(&mut self)
        requires
            old(self).wf(),
        ensures
            final(self).wf(),
            final(self)@ == old(self)@.pruned(),
    {
        let gone = self.reg.drain_removed();
        keep_marks(&mut self.invite_rr, &gone);
        keep_texts(&mut self.terminal_done, &gone);
    }

    fn log_end(&mut self, at: usize)
        requires
            old(self).wf(),
            at < old(self).reg.calls@.len(),
            old(self)@.reg.completed < u64::MAX,
            old(self)@.reg.failed < u64::MAX,
            old(self)@.reg.calls[at as int].state.spec_terminal(),
        ensures
            final(self).wf(),
            final(self)@ == old(self)@.with_logged_end(old(self)@.reg.calls[at as int]),
    {
        assert(self@.reg.calls[at as int] == self.reg.calls@[at as int]@);
        let c = &self.reg.calls[at];
        let ts: u64 = match (c.end_ts, self.reg.last_us) {
            (Some(t), _) => t,
            (None, Some(t)) => t,
            (None, None) => 0,
        };
        let line = end_text(c);
        let record = end_record(c, ts);
        let state = c.state;
        self.reg.push_event(line);
        self.push_pending(record);
        if state == CallState::Completed {
            self.reg.completed = self.reg.completed + 1;
        } else {
            self.reg.failed = self.reg.failed + 1;
        }
    }

    fn make_room(&mut self, id: &str)
        requires
            old(self).wf(),
        ensures
            final(self).wf(),
            final(self)@ == old(self)@.with_room_made(id@),
    {
        self.reg.evict_if_needed();
        if !self.keep_terminated {
            self.reg.remove_call(id);
        }
    }

    /// End-of-call housekeeping: diagnostics, the concurrent-call counters, the
    /// log record, totals and eviction. `relay` is a finding about the call's
    /// relayed media.
    pub fn on_call_terminal(&mut self, call_id: &str, relay: Option<Diagnostic>)
        requires
            old(self).wf(),
            old(self)@.diag_room(call_id@, 2),
            relay matches Some(d) ==> d.call_id@ == call_id@,
            old(self)@.reg.completed < u64::MAX,
            old(self)@.reg.failed < u64::MAX,
        ensures
            final(self).wf(),
            final(self)@ == old(self)@.with_end(
                call_id@,
                diagnostics::rules::opt_diag(relay),
            ),
    {
        let ghost one = one_way_finding(self@.reg, call_id@);
        if let Some(d) = self.reg.check_oneway(call_id) {
            proof {
                correlator::lemma_diag_keeps(self@, d@, call_id@);
                assert(self@.diag_room(call_id@, 1int + 1));
                assert(self@.with_diag(d@).diag_room(call_id@, 1));
            }
            self.add_diagnostic(d);
        }
        let ghost first = self@;
        assert(first == old(self)@.with_opt_diag(one));
        if let Some(d) = relay {
            proof {
                correlator::lemma_diag_keeps(self@, d@, call_id@);
            }
            self.add_diagnostic(d);
        }
        let ghost v = self@;
        assert(v == first.with_opt_diag(diagnostics::rules::opt_diag(relay)));
        proof {
            registry::lemma_call_index(v.reg.calls, call_id@, 0);
        }
        let at: usize = match self.reg.find_call(call_id) {
            Some(at) => at,
            None => {
                self.prune();
                return;
            },
        };
        assert(v.reg.calls[at as int] == self.reg.calls@[at as int]@);
        release(&mut self.reg.ipstats, &self.reg.calls[at].active_ips);
        if self.reg.calls[at].state.is_terminal() {
            self.log_end(at);
            self.make_room(call_id);
        }
        self.prune();
    }
}

impl CorrView {
    /// After a message and, where it ends its call, what follows the end. `relay` is
    /// what is to be said of the relayed media of the call.
    pub open spec fn after_sip(self, m: MsgView, relay: Option<DiagView>) -> CorrView {
        if self.ends_call(m) {
            self.with_sip(m).with_end(m.call_id, relay)
        } else {
            self.with_sip(m)
        }
    }
}

impl Correlator {
    /// Takes a SIP message and, where it ends its call for the first time, handles the
    /// end. `relay` is a finding about the relayed media of the call, for its end. What
    /// an ended call adds to the heatmap is given back.
    pub fn handle_sip(&mut self, msg: SipMsg, relay: Option<Diagnostic>) -> (r: Option<HeatEntry>)
        requires
            old(self).wf(),
            old(self)@.end_room(msg@),
            relay matches Some(d) ==> d.call_id@ == msg.call_id@,
        ensures
            final(self).wf(),
            final(self)@ == old(self)@.after_sip(msg@, diagnostics::rules::opt_diag(relay)),
            r is Some <==> old(self)@.ends_call(msg@),
            r matches Some(e) ==> e.stands_for(
                old(self)@.with_sip(msg@).call_or_fresh(msg@.call_id),
            ),
    {
        let ghost m = msg@;
        let id = msg.call_id.clone();
        if !self.ingest_sip(msg) {
            return None;
        }
        proof {
            registry::lemma_call_index(self@.reg.calls, id@, 0);
        }
        let entry = match self.reg.find_call(id.as_str()) {
            Some(i) => {
                assert(self@.reg.calls[i as int] == self.reg.calls@[i as int]@);
                heat_entry(&self.reg.calls[i])
            },
            None => None,
        };
        self.on_call_terminal(id.as_str(), relay);
        entry
    }
}

// ----------------------------- the periodic flush -----------------------------

/// Five seconds of capture time have passed since the latest flush.
pub open spec fn flush_due(v: CorrView, ts: u64) -> bool {
    v.last_flush_us matches Some(last) && ts - last >= FLUSH_US
}

/// Lost packets of a stream at the latest flush.
pub open spec fn lost_before(v: Seq<(StreamKey, u64)>, key: StreamKey, i: int) -> u64
    decreases v.len() - i,
{
    if i >= v.len() {
        0
    } else if v[i].0 == key {
        v[i].1
    } else {
        lost_before(v, key, i + 1)
    }
}

pub open spec fn key_of(s: StreamView) -> StreamKey {
    StreamKey { flow: s.flow, ssrc: s.ssrc }
}

/// The log record of a stream.
pub open spec fn snap_event(s: StreamView, sum: SummaryView, ts: u64) -> EventView {
    EventView {
        ty: 4,
        ts_us: ts,
        fields: seq![
            FieldVal::Text(s.call_id),
            FieldVal::U32Be(s.ssrc),
            FieldVal::Flow(s.flow),
            FieldVal::OptText(s.codec),
            FieldVal::OptU8(s.rest.1),
            FieldVal::Varint(sum.packets),
            FieldVal::Varint(sum.lost),
            FieldVal::Varint(sum.expected),
            FieldVal::F64(sum.loss_pct),
            FieldVal::OptF64(sum.jitter_ms),
            FieldVal::OptF64(sum.mos),
            FieldVal::OptText(sum.direction),
            FieldVal::Varint(s.bytes),
            FieldVal::OptU64(s.first_ts_us),
            FieldVal::OptU64(s.last_ts_us),
            FieldVal::OptF64(sum.rtt_min_ms),
            FieldVal::OptF64(sum.rtt_avg_ms),
            FieldVal::OptF64(sum.rtt_max_ms),
            FieldVal::OptF64(sum.oneway_ms),
            FieldVal::OptText(sum.leg),
            FieldVal::Flag(sum.via_turn),
        ],
    }
}

impl CorrView {
    /// After a look at the clock. The first one starts it; when a flush is due,
    /// stale calls leave.
    pub open spec fn with_tick(self, ts: u64) -> CorrView {
        if self.last_flush_us is None {
            CorrView { last_flush_us: Some(ts), ..self }
        } else if flush_due(self, ts) {
            CorrView {
                last_flush_us: Some(ts),
                reg: self.reg.without_stale(self.call_ttl_secs, ts),
                ..self
            }.pruned()
        } else {
            self
        }
    }

    /// What a stream has lost since the latest flush.
    pub open spec fn lost_since(self, i: int, sum: SummaryView) -> u64 {
        registry::grown(sum.lost, lost_before(self.last_lost, key_of(self.reg.streams[i]), 0))
    }

    /// After the first `n` streams have been logged: what each has lost since
    /// the latest flush counts for both ends.
    pub open spec fn with_snaps(self, ts: u64, sums: Seq<SummaryView>, n: int) -> CorrView
        decreases n,
    {
        if n <= 0 {
            self
        } else {
            let v = self.with_snaps(ts, sums, n - 1);
            let s = self.reg.streams[n - 1];
            let lost = self.lost_since(n - 1, sums[n - 1]);
            CorrView {
                reg: RegView {
                    ipstats: if lost > 0 {
                        ipstats::flow_lost(v.reg.ipstats, s.flow, ts, lost)
                    } else {
                        v.reg.ipstats
                    },
                    ..v.reg
                },
                pending_events: v.pending_events.push(snap_event(s, sums[n - 1], ts)),
                ..v
            }
        }
    }

    /// After the streams have been logged, and nothing is remembered of others.
    pub open spec fn with_all_snaps(self, ts: u64, sums: Seq<SummaryView>) -> CorrView {
        CorrView {
            last_lost: Seq::new(
                sums.len(),
                |i: int| (key_of(self.reg.streams[i]), sums[i].lost),
            ),
            ..self.with_snaps(ts, sums, sums.len() as int)
        }
    }

    /// The counters of both ends have room for what each stream has lost.
    pub open spec fn snap_room(self, ts: u64, sums: Seq<SummaryView>) -> bool {
        forall|i: int|
            #![trigger self.with_snaps(ts, sums, i)]
            0 <= i < sums.len() ==> {
                let m = self.with_snaps(ts, sums, i).reg.ipstats;
                let f = self.reg.streams[i].flow;
                let lost = self.lost_since(i, sums[i]);
                &&& ipstats::entry_of(m, f.src.ip).lost_total + 2 * lost <= u64::MAX
                &&& ipstats::entry_of(m, f.dst.ip).lost_total + 2 * lost <= u64::MAX
            }
    }
}

/// What the first `n` streams have lost since the latest flush.
pub open spec fn lost_in_all(v: CorrView, sums: Seq<SummaryView>, n: int) -> int
    decreases n,
{
    if n <= 0 {
        0
    } else {
        lost_in_all(v, sums, n - 1) + v.lost_since(n - 1, sums[n - 1])
    }
}

impl CorrView {
    /// Every IP has room for twice what all streams have lost.
    pub open spec fn snap_roomy(self, sums: Seq<SummaryView>) -> bool {
        let n = 2 * lost_in_all(self, sums, sums.len() as int);
        n <= u64::MAX && ipstats::loss_room(self.reg.ipstats, n)
    }
}

proof fn lemma_lost_grows(v: CorrView, sums: Seq<SummaryView>, a: int, b: int)
    requires
        0 <= a <= b,
    ensures
        0 <= lost_in_all(v, sums, a) <= lost_in_all(v, sums, b),
    decreases b,
{
    if a < b {
        lemma_lost_grows(v, sums, a, b - 1);
    } else if a > 0 {
        lemma_lost_grows(v, sums, a - 1, b - 1);
    }
}

/// No IP has lost more than twice what the streams have.
proof fn lemma_snaps_lost(v: CorrView, ts: u64, sums: Seq<SummaryView>, n: int, ip: IpAddr)
    requires
        v.snap_roomy(sums),
        0 <= n <= sums.len(),
    ensures
        ipstats::entry_of(v.with_snaps(ts, sums, n).reg.ipstats, ip).lost_total
            <= ipstats::entry_of(v.reg.ipstats, ip).lost_total + 2 * lost_in_all(v, sums, n),
        ipstats::entry_of(v.reg.ipstats, ip).lost_total + 2 * lost_in_all(
            v,
            sums,
            sums.len() as int,
        ) <= u64::MAX,
    decreases n,
{
    lemma_lost_grows(v, sums, n, sums.len() as int);
    assert(v.reg.ipstats.contains_key(ip) ==> v.reg.ipstats[ip].lost_total + 2 * lost_in_all(
        v,
        sums,
        sums.len() as int,
    ) <= u64::MAX);
    if n > 0 {
        lemma_snaps_lost(v, ts, sums, n - 1, ip);
        let m = v.with_snaps(ts, sums, n - 1).reg.ipstats;
        let f = v.reg.streams[n - 1].flow;
        let lost = v.lost_since(n - 1, sums[n - 1]);
        if lost > 0 {
            let a = ipstats::ip_lost(m, f.src.ip, ts, lost, Dir::Tx);
            assert(ipstats::entry_of(a, ip).lost_total <= ipstats::entry_of(m, ip).lost_total
                + lost);
        }
    }
}

proof fn lemma_snap_room(v: CorrView, ts: u64, sums: Seq<SummaryView>)
    requires
        v.snap_roomy(sums),
    ensures
        v.snap_room(ts, sums),
{
    assert forall|i: int| #![trigger v.with_snaps(ts, sums, i)] 0 <= i < sums.len() implies {
        let m = v.with_snaps(ts, sums, i).reg.ipstats;
        let f = v.reg.streams[i].flow;
        let lost = v.lost_since(i, sums[i]);
        &&& ipstats::entry_of(m, f.src.ip).lost_total + 2 * lost <= u64::MAX
        &&& ipstats::entry_of(m, f.dst.ip).lost_total + 2 * lost <= u64::MAX
    } by {
        let f = v.reg.streams[i].flow;
        lemma_snaps_lost(v, ts, sums, i, f.src.ip);
        lemma_snaps_lost(v, ts, sums, i, f.dst.ip);
        lemma_lost_grows(v, sums, i + 1, sums.len() as int);
    }
}

impl Correlator {
    /// True when a flush is due, about every five seconds of capture time:
    /// stale calls have then been dropped, and the streams are to be logged.
    pub fn maybe_periodic_flush(&mut self, ts_us: u64) -> (r: bool)
        requires
            old(self).wf(),
        ensures
            final(self).wf(),
            final(self)@ == old(self)@.with_tick(ts_us),
            r == flush_due(old(self)@, ts_us),
    {
        let last: u64 = match self.last_flush_us {
            None => {
                self.last_flush_us = Some(ts_us);
                return false;
            },
            Some(last) => last,
        };
        if ts_us < last || ts_us - last < FLUSH_US {
            return false;
        }
        self.last_flush_us = Some(ts_us);
        let ttl: u64 = self.call_ttl_secs;
        self.reg.evict_stale(ttl, ts_us);
        self.prune();
        true
    }

    fn known_lost(&self, key: StreamKey) -> (r: u64)
        ensures
            r == lost_before(self@.last_lost, key, 0),
    {
        let mut i: usize = 0;
        while i < self.last_lost.len()
            invariant
                i <= self.last_lost.len(),
                lost_before(self@.last_lost, key, 0) == lost_before(
                    self@.last_lost,
                    key,
                    i as int,
                ),
            decreases self.last_lost.len() - i,
        {
            if self.last_lost[i].0 == key {
                return self.last_lost[i].1;
            }
            i += 1;
        }
        0
    }

    fn snap_record(&self, i: usize, sum: &StreamSummary, ts_us: u64) -> (r: Event)
        requires
            i < self.reg.streams@.len(),
        ensures
            r@ == snap_event(self@.reg.streams[i as int], sum@, ts_us),
    {
        let s = &self.reg.streams[i];
        assert(self@.reg.streams[i as int] == s@);
        let r = Event::StreamSnap(
            StreamSnapEvt {
                ts_us,
                call_id: s.call_id.clone(),
                ssrc: s.ssrc,
                flow: s.flow,
                codec: clone_opt(&s.codec),
                payload_type: s.stats.payload_type,
                packets: sum.packets,
                lost: sum.lost,
                expected: sum.expected,
                loss_pct: sum.loss_pct,
                jitter_ms: sum.jitter_ms,
                mos: sum.mos,
                direction: clone_opt(&sum.direction),
                bytes: s.bytes,
                first_ts_us: s.first_ts_us,
                last_ts_us: s.last_ts_us,
                rtt_min_ms: sum.rtt_min_ms,
                rtt_avg_ms: sum.rtt_avg_ms,
                rtt_max_ms: sum.rtt_max_ms,
                oneway_ms: sum.oneway_ms,
                leg: clone_opt(&sum.leg),
                via_turn: sum.via_turn,
            },
        );
        assert(r@.fields =~= snap_event(s@, sum@, ts_us).fields);
        r
    }

    /// Whether the counters of all IPs have room for what the streams have lost.
    pub fn has_snap_room(&self, sums: &Vec<StreamSummary>) -> (r: bool)
        requires
            self.wf(),
            sums@.len() == self.reg.streams@.len(),
        ensures
            r == self@.snap_roomy(media::summary_views(sums@)),
            r ==> forall|ts: u64| self@.snap_room(ts, media::summary_views(sums@)),
    {
        let ghost sv = media::summary_views(sums@);
        let mut total: u64 = 0;
        let mut i: usize = 0;
        while i < sums.len()
            invariant
                i <= sums.len(),
                sv == media::summary_views(sums@),
                sums@.len() == self.reg.streams@.len(),
                total == lost_in_all(self@, sv, i as int),
            decreases sums.len() - i,
        {
            assert(sv[i as int] == sums@[i as int]@);
            assert(self@.reg.streams[i as int] == self.reg.streams@[i as int]@);
            let key = StreamKey {
                flow: self.reg.streams[i].flow,
                ssrc: self.reg.streams[i].ssrc,
            };
            let lost: u64 = sums[i].lost.saturating_sub(self.known_lost(key));
            if lost > u64::MAX - total {
                proof {
                    lemma_lost_grows(self@, sv, i + 1, sums@.len() as int);
                }
                return false;
            }
            total = total + lost;
            i += 1;
        }
        if total > u64::MAX / 2 {
            return false;
        }
        let r: bool = self.reg.ipstats.losses_fit(2 * total);
        proof {
            if r {
                assert forall|ts: u64| #[trigger] self@.snap_room(ts, sv) by {
                    lemma_snap_room(self@, ts, sv);
                }
            }
        }
        r
    }

    /// Logs the streams. `sums` holds the summary of each.
    pub fn snap_streams(&mut self, ts_us: u64, sums: &Vec<StreamSummary>)
        requires
            old(self).wf(),
            sums@.len() == old(self).reg.streams@.len(),
            old(self)@.snap_room(ts_us, media::summary_views(sums@)),
        ensures
            final(self).wf(),
            final(self)@ == old(self)@.with_all_snaps(ts_us, media::summary_views(sums@)),
    {
        let ghost sv = media::summary_views(sums@);
        let ghost v = self@;
        let mut known: Vec<(StreamKey, u64)> = Vec::new();
        let mut i: usize = 0;
        while i < sums.len()
            invariant
                i <= sums.len(),
                sv == media::summary_views(sums@),
                v == old(self)@,
                v.snap_room(ts_us, sv),
                sums@.len() == self.reg.streams@.len(),
                self.reg.streams == old(self).reg.streams,
                self.wf(),
                self@ == v.with_snaps(ts_us, sv, i as int),
                self@.last_lost == v.last_lost,
                known@ == Seq::new(
                    i as nat,
                    |k: int| (key_of(v.reg.streams[k]), sv[k].lost),
                ),
            decreases sums.len() - i,
        {
            assert(v.with_snaps(ts_us, sv, i as int) == self@);
            assert(sv[i as int] == sums@[i as int]@);
            assert(v.reg.streams[i as int] == self.reg.streams@[i as int]@);
            let flow = self.reg.streams[i].flow;
            let key = StreamKey { flow, ssrc: self.reg.streams[i].ssrc };
            let lost: u64 = sums[i].lost.saturating_sub(self.known_lost(key));
            let record = self.snap_record(i, &sums[i], ts_us);
            if lost > 0 {
                self.reg.ipstats.observe_flow_lost(flow, ts_us, lost);
            }
            self.push_pending(record);
            known.push((key, sums[i].lost));
            i += 1;
            assert(known@ =~= Seq::new(
                i as nat,
                |k: int| (key_of(v.reg.streams[k]), sv[k].lost),
            ));
        }
        self.last_lost = known;
    }
}

// ----------------------------- laws -----------------------------

/// A call counts for the two ends of its INVITE while it lasts: its end takes
/// back what its beginning added.
pub proof fn law_active_calls_released(m: Map<IpAddr, IpView>, a: IpAddr, b: IpAddr, ip: IpAddr)
    requires
        ipstats::entry_of(m, a).active_calls + 2 <= u32::MAX,
        ipstats::entry_of(m, b).active_calls + 2 <= u32::MAX,
    ensures
        ipstats::entry_of(
            released(signaling::ip_active(signaling::ip_active(m, a, 1), b, 1), seq![a, b], 2),
            ip,
        ).active_calls == ipstats::entry_of(m, ip).active_calls,
{
    reveal_with_fuel(released, 3);
}

/// Where ended calls are not kept, nothing is left of one after its end: not
/// the call, no stream, no endpoint, no bookkeeping.
pub proof fn law_ended_call_forgotten(v: CorrView, id: Seq<char>, relay: Option<DiagView>)
    requires
        !v.keep_terminated,
        v.reg.wf(),
        registry::call_index(v.reg.calls, id, 0) matches Some(i)
            && v.reg.calls[i].state.spec_terminal(),
    ensures
        ({
            let w = v.with_end(id, relay);
            &&& forall|i: int|
                0 <= i < w.reg.calls.len() ==> (#[trigger] w.reg.calls[i]).call_id != id
            &&& forall|i: int|
                0 <= i < w.reg.streams.len() ==> (#[trigger] w.reg.streams[i]).call_id != id
            &&& forall|i: int|
                0 <= i < w.reg.endpoint_call.len() ==> (#[trigger] w.reg.endpoint_call[i]).1 != id
            &&& forall|i: int|
                0 <= i < w.terminal_done.len() ==> #[trigger] w.terminal_done[i] != id
            &&& forall|i: int|
                0 <= i < w.invite_rr.len() ==> (#[trigger] w.invite_rr[i]).0 != id
        }),
{
    let one = one_way_finding(v.reg, id);
    if let Some(d) = one {
        correlator::lemma_diag_keeps(v, d, id);
    }
    let x = v.with_opt_diag(one);
    if let Some(d) = relay {
        correlator::lemma_diag_keeps(x, d, id);
    }
    let y = x.with_opt_diag(relay);
    let c = y.reg.calls[registry::call_index(y.reg.calls, id, 0)->Some_0];
    let z = CorrView {
        reg: RegView {
            ipstats: released(y.reg.ipstats, c.active_ips, c.active_ips.len() as int),
            ..y.reg
        },
        ..y
    }.with_logged_end(c);
    let ids = seq![id];
    assert(ids[0] == id);
    let reg = z.reg.evicted();
    registry::law_removed_is_gone(reg, ids);
    let w = v.with_end(id, relay);
    assert(w.reg.calls == reg.without(ids).calls);
    assert(w.reg.streams == reg.without(ids).streams);
    assert(w.reg.endpoint_call == reg.without(ids).endpoint_call);
    let gone = reg.without(ids).removed;
    assert(gone[gone.len() - 1] == id);
    let t = registry::lemma_filter_from(z.terminal_done, text_outside(gone));
    let k = registry::lemma_filter_from(z.invite_rr, mark_outside(gone));
    assert forall|i: int| 0 <= i < w.terminal_done.len() implies #[trigger] w.terminal_done[i]
        != id by {
        assert(w.terminal_done[i] == z.terminal_done[t[i]]);
    }
    assert forall|i: int| 0 <= i < w.invite_rr.len() implies (#[trigger] w.invite_rr[i]).0 != id by {
        assert(w.invite_rr[i] == z.invite_rr[k[i]]);
    }
}

/// A flush remembers the losses of exactly the streams that there are.
pub proof fn law_losses_tracked(v: CorrView, ts: u64, sums: Seq<SummaryView>)
    requires
        sums.len() == v.reg.streams.len(),
    ensures
        v.with_all_snaps(ts, sums).last_lost.len() == v.reg.streams.len(),
        forall|i: int|
            0 <= i < sums.len() ==> (#[trigger] v.with_all_snaps(ts, sums).last_lost[i]) == (
                key_of(v.reg.streams[i]),
                sums[i].lost,
            ),
{
}

} // verus!
