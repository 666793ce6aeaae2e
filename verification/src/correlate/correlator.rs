//! The correlator's state, and how diagnostics are recorded.
use crate::config::Config;
use crate::diagnostics;
use crate::diagnostics::{DiagView, Diagnostic, Severity};
use crate::model::sip;
use crate::model::sip::{Call, CallView};
use crate::store::evlog::{DiagEvt, Event, EventView};
use crate::store::evstats;
use crate::store::evstats::{StatsAcc, StatsView};
use crate::store::registry;
use crate::store::registry::{RegView, Registry, StreamKey};
use crate::store::wire::FieldVal;
use crate::text;
use vstd::prelude::*;

verus! {

/// From SIP messages and media packets to calls, streams, diagnostics and log
/// events.
pub struct Correlator {
    pub reg: Registry,
    /// Calls whose initial INVITE has been seen, and how many Record-Route headers it
    /// carried.
    pub invite_rr: Vec<(String, usize)>,
    /// Calls whose end has been handled.
    pub terminal_done: Vec<String>,
    /// Lost packets of each stream at the latest flush.
    pub last_lost: Vec<(StreamKey, u64)>,
    pub min_severity: Severity,
    pub raw_truncate: Option<usize>,
    pub no_media: bool,
    /// Idle or ended calls are dropped after so many seconds; never, if zero.
    pub call_ttl_secs: u64,
    /// Whether calls stay in memory when they have ended.
    pub keep_terminated: bool,
    /// Log events not yet taken by the writer.
    pub pending_events: Vec<Event>,
    pub last_flush_us: Option<u64>,
    /// Statistics over the events that were taken, where they are wanted.
    pub session: Option<StatsAcc>,
}

/// The correlator by its contents.
pub struct CorrView {
    pub reg: RegView,
    pub invite_rr: Seq<(Seq<char>, usize)>,
    pub terminal_done: Seq<Seq<char>>,
    pub last_lost: Seq<(StreamKey, u64)>,
    pub min_severity: Severity,
    pub raw_truncate: Option<usize>,
    pub no_media: bool,
    pub call_ttl_secs: u64,
    pub keep_terminated: bool,
    pub pending_events: Seq<EventView>,
    pub last_flush_us: Option<u64>,
    pub session: Option<StatsView>,
}

pub open spec fn opt_stats(o: Option<StatsAcc>) -> Option<StatsView> {
    match o {
        Some(a) => Some(a@),
        None => None,
    }
}

pub open spec fn event_views(v: Seq<Event>) -> Seq<EventView> {
    v.map_values(|e: Event| e@)
}

pub open spec fn mark_views(v: Seq<(String, usize)>) -> Seq<(Seq<char>, usize)> {
    v.map_values(|m: (String, usize)| (m.0@, m.1))
}

impl View for Correlator {
    type V = CorrView;

    open spec fn view(&self) -> CorrView {
        CorrView {
            reg: self.reg@,
            invite_rr: mark_views(self.invite_rr@),
            terminal_done: text::texts(self.terminal_done@),
            last_lost: self.last_lost@,
            min_severity: self.min_severity,
            raw_truncate: self.raw_truncate,
            no_media: self.no_media,
            call_ttl_secs: self.call_ttl_secs,
            keep_terminated: self.keep_terminated,
            pending_events: event_views(self.pending_events@),
            last_flush_us: self.last_flush_us,
            session: opt_stats(self.session),
        }
    }
}

// ----------------------------- diagnostics -----------------------------

/// A call after a diagnostic of that severity.
pub open spec fn call_with_diag(c: CallView, sev: Severity) -> CallView {
    match sev {
        Severity::Critical => CallView { critical_count: (c.critical_count + 1) as u32, ..c },
        Severity::Warn => CallView { warn_count: (c.warn_count + 1) as u32, ..c },
        Severity::Info => c,
    }
}

pub open spec fn calls_with_diag(calls: Seq<CallView>, id: Seq<char>, sev: Severity) -> Seq<
    CallView,
> {
    match registry::call_index(calls, id, 0) {
        Some(i) => calls.update(i, call_with_diag(calls[i], sev)),
        None => calls,
    }
}

/// The line of a diagnostic in the event list.
pub open spec fn diag_line(d: DiagView) -> Seq<char> {
    "["@ + d.severity.spec_label() + "] "@ + d.call_id + " "@ + d.code + " ("@ + d.message + ")"@
}

/// The log record of a diagnostic.
pub open spec fn diag_event(d: DiagView) -> EventView {
    EventView {
        ty: 8,
        ts_us: d.ts_us,
        fields: seq![
            FieldVal::Text(d.call_id),
            FieldVal::Byte(d.severity.spec_rank()),
            FieldVal::Text(d.code),
            FieldVal::Text(d.message),
        ],
    }
}

impl CorrView {
    /// After a diagnostic: it is logged, counted for its call, listed and kept,
    /// unless it is less severe than what is wanted.
    pub open spec fn with_diag(self, d: DiagView) -> CorrView {
        if d.severity.spec_rank() < self.min_severity.spec_rank() {
            self
        } else {
            CorrView {
                pending_events: self.pending_events.push(diag_event(d)),
                reg: RegView {
                    calls: calls_with_diag(self.reg.calls, d.call_id, d.severity),
                    diagnostics: registry::last_n(
                        self.reg.diagnostics.push(d),
                        self.reg.max_diagnostics as int,
                    ),
                    ..self.reg.with_event(diag_line(d))
                },
                ..self
            }
        }
    }

    /// After the first `n` of some diagnostics.
    pub open spec fn with_diags(self, ds: Seq<DiagView>, n: int) -> CorrView
        decreases n,
    {
        if n <= 0 {
            self
        } else {
            self.with_diags(ds, n - 1).with_diag(ds[n - 1])
        }
    }

    /// The session statistics with the buffered events counted.
    pub open spec fn session_now(self) -> Option<StatsView> {
        match self.session {
            Some(s) => Some(
                evstats::fed(s, self.pending_events, self.pending_events.len() as int),
            ),
            None => None,
        }
    }

    /// The call of that ID can count `n` more diagnostics.
    pub open spec fn diag_room(self, id: Seq<char>, n: int) -> bool {
        registry::call_index(self.reg.calls, id, 0) matches Some(i) ==> {
            &&& self.reg.calls[i].warn_count + n <= u32::MAX
            &&& self.reg.calls[i].critical_count + n <= u32::MAX
        }
    }
}

/// A change that leaves the ID of a call leaves where calls are found.
pub proof fn lemma_index_after_update(calls: Seq<CallView>, i: int, c: CallView, id: Seq<char>, k: int)
    requires
        0 <= i < calls.len(),
        c.call_id == calls[i].call_id,
        0 <= k,
    ensures
        registry::call_index(calls.update(i, c), id, k) == registry::call_index(calls, id, k),
    decreases calls.len() - k,
{
    if k < calls.len() {
        lemma_index_after_update(calls, i, c, id, k + 1);
    }
}

pub proof fn lemma_calls_update(v: Seq<Call>, i: int, c: Call)
    requires
        0 <= i < v.len(),
    ensures
        sip::call_views(v.update(i, c)) == sip::call_views(v).update(i, c@),
{
    assert(sip::call_views(v.update(i, c)) =~= sip::call_views(v).update(i, c@));
}

/// What a diagnostic leaves as it is.
pub proof fn lemma_diag_keeps(v: CorrView, d: DiagView, id: Seq<char>)
    requires
        v.reg.wf(),
    ensures
        v.with_diag(d).reg.wf(),
        v.with_diag(d).reg == (RegView {
            calls: v.with_diag(d).reg.calls,
            diagnostics: v.with_diag(d).reg.diagnostics,
            events: v.with_diag(d).reg.events,
            ..v.reg
        }),
        v.with_diag(d) == (CorrView {
            reg: v.with_diag(d).reg,
            pending_events: v.with_diag(d).pending_events,
            ..v
        }),
        v.with_diag(d).reg.calls.len() == v.reg.calls.len(),
        registry::call_index(v.with_diag(d).reg.calls, id, 0) == registry::call_index(
            v.reg.calls,
            id,
            0,
        ),
        forall|n: int| v.diag_room(id, n + 1) ==> #[trigger] v.with_diag(d).diag_room(id, n),
        registry::call_index(v.reg.calls, id, 0) matches Some(k) ==> 0 <= k < v.reg.calls.len()
            && v.with_diag(d).reg.calls[k] == (CallView {
            warn_count: v.with_diag(d).reg.calls[k].warn_count,
            critical_count: v.with_diag(d).reg.calls[k].critical_count,
            ..v.reg.calls[k]
        }),
{
    registry::lemma_call_index(v.reg.calls, d.call_id, 0);
    registry::lemma_call_index(v.reg.calls, id, 0);
    if let Some(i) = registry::call_index(v.reg.calls, d.call_id, 0) {
        lemma_index_after_update(v.reg.calls, i, call_with_diag(v.reg.calls[i], d.severity), id, 0);
    }
}

impl Registry {
    /// Counts a diagnostic for its call.
    fn count_diag(&mut self, id: &str, sev: Severity)
        requires
            old(self).wf(),
            registry::call_index(old(self)@.calls, id@, 0) matches Some(i) ==> old(
                self,
            )@.calls[i].warn_count < u32::MAX && old(self)@.calls[i].critical_count < u32::MAX,
        ensures
            final(self).wf(),
            final(self)@ == (RegView {
                calls: calls_with_diag(old(self)@.calls, id@, sev),
                ..old(self)@
            }),
    {
        proof {
            registry::lemma_call_index(self@.calls, id@, 0);
        }
        let i: usize = match self.find_call(id) {
            Some(i) => i,
            None => return,
        };
        let ghost before = self.calls@;
        assert(self@.calls[i as int] == before[i as int]@);
        let c = &mut self.calls[i];
        match sev {
            Severity::Critical => {
                c.critical_count = c.critical_count + 1;
            },
            Severity::Warn => {
                c.warn_count = c.warn_count + 1;
            },
            Severity::Info => {},
        }
        proof {
            lemma_calls_update(before, i as int, self.calls@[i as int]);
            assert(self.calls@ =~= before.update(i as int, self.calls@[i as int]));
        }
    }

    /// Keeps a diagnostic; the oldest leave.
    fn keep_diag(&mut self, d: Diagnostic)
        requires
            old(self).wf(),
        ensures
            final(self).wf(),
            final(self)@ == (RegView {
                diagnostics: registry::last_n(
                    old(self)@.diagnostics.push(d@),
                    old(self)@.max_diagnostics as int,
                ),
                ..old(self)@
            }),
    {
        let ghost before = self.diagnostics@;
        self.diagnostics.push(d);
        let ghost all = diagnostics::diag_views(self.diagnostics@);
        assert(all =~= diagnostics::diag_views(before).push(d@));
        assert(all.skip(0) =~= all);
        while self.diagnostics.len() > self.max_diagnostics
            invariant
                self@ == (RegView { diagnostics: self@.diagnostics, ..old(self)@ }),
                self.streams == old(self).streams,
                self.ipstats == old(self).ipstats,
                self.diagnostics@.len() <= all.len(),
                self@.diagnostics == all.skip(all.len() - self.diagnostics@.len()),
                all.len() <= self.max_diagnostics ==> self.diagnostics@.len() == all.len(),
                all.len() > self.max_diagnostics ==> self.diagnostics@.len()
                    >= self.max_diagnostics,
            decreases self.diagnostics@.len(),
        {
            let ghost prior = self.diagnostics@;
            let _oldest = self.diagnostics.remove(0);
            assert(self.diagnostics@ =~= prior.skip(1));
            assert(diagnostics::diag_views(self.diagnostics@) =~= diagnostics::diag_views(
                prior,
            ).skip(1));
            assert(diagnostics::diag_views(prior) == all.skip(all.len() - prior.len()));
        }
        assert(all.skip(0) =~= all);
    }
}

fn diag_record(d: &Diagnostic) -> (r: Event)
    ensures
        r@ == diag_event(d@),
{
    Event::Diag(
        DiagEvt {
            ts_us: d.ts_us,
            call_id: d.call_id.clone(),
            severity: d.severity.rank(),
            code: d.code.to_owned(),
            message: d.message.clone(),
        },
    )
}

fn diag_text(d: &Diagnostic) -> (r: String)
    ensures
        r@ == diag_line(d@),
{
    let mut s = "[".to_owned();
    s.push_str(d.severity.label());
    s.push_str("] ");
    s.push_str(d.call_id.as_str());
    s.push_str(" ");
    s.push_str(d.code);
    s.push_str(" (");
    s.push_str(d.message.as_str());
    s.push_str(")");
    assert(s@ =~= diag_line(d@));
    s
}

impl Correlator {
    pub open spec fn wf(self) -> bool {
        &&& self.reg.wf()
        &&& self.session matches Some(a) ==> a.wf()
    }

    pub fn new(config: &Config, source: String) -> (r: Correlator)
        requires
            config.ring_hours * 3_600_000_000 <= u64::MAX,
        ensures
            r.wf(),
            r@ == (CorrView {
                reg: RegView {
                    max_calls: config.max_calls,
                    max_streams: config.max_streams,
                    max_diagnostics: config.max_diagnostics,
                    heatmap_retain_us: (config.ring_hours * 3_600_000_000) as u64,
                    ..RegView::fresh(source@)
                },
                invite_rr: Seq::empty(),
                terminal_done: Seq::empty(),
                last_lost: Seq::empty(),
                min_severity: Severity::of_level(config.diag_level@),
                raw_truncate: config.raw_truncate,
                no_media: config.no_media,
                call_ttl_secs: config.call_ttl_secs,
                keep_terminated: config.keep_terminated,
                pending_events: Seq::empty(),
                last_flush_us: None,
                session: None,
            }),
    {
        let mut reg = Registry::with_source(source);
        reg.set_caps(config.max_calls, config.max_streams, config.max_diagnostics);
        reg.heatmap_retain_us = config.ring_hours * 3_600_000_000;
        let r = Correlator {
            reg,
            invite_rr: Vec::new(),
            terminal_done: Vec::new(),
            last_lost: Vec::new(),
            min_severity: Severity::from_level(config.diag_level.as_str()),
            raw_truncate: config.raw_truncate,
            no_media: config.no_media,
            call_ttl_secs: config.call_ttl_secs,
            keep_terminated: config.keep_terminated,
            pending_events: Vec::new(),
            last_flush_us: None,
            session: None,
        };
        proof {
            assert(r@.invite_rr =~= Seq::<(Seq<char>, usize)>::empty());
            assert(r@.terminal_done =~= Seq::<Seq<char>>::empty());
            assert(r@.pending_events =~= Seq::<EventView>::empty());
        }
        r
    }

    pub fn set_focus(&mut self, id: Option<String>)
        ensures
            final(self)@ == (CorrView {
                reg: RegView { focus_hint: text::opt_text(id), ..old(self)@.reg },
                ..old(self)@
            }),
            old(self).wf() ==> final(self).wf(),
    {
        self.reg.focus_hint = id;
    }

    /// Forgets everything but the settings. Session statistics begin anew.
    pub fn clear(&mut self)
        ensures
            final(self).wf(),
            final(self)@ == (CorrView {
                reg: old(self)@.reg.cleared(),
                invite_rr: Seq::empty(),
                terminal_done: Seq::empty(),
                last_lost: Seq::empty(),
                pending_events: Seq::empty(),
                last_flush_us: None,
                session: if old(self)@.session is Some {
                    Some(StatsView::none())
                } else {
                    None
                },
                ..old(self)@
            }),
    {
        self.reg.clear();
        if self.session.is_some() {
            self.session = Some(StatsAcc::new());
        }
        self.last_lost = Vec::new();
        self.invite_rr = Vec::new();
        self.terminal_done = Vec::new();
        self.pending_events = Vec::new();
        self.last_flush_us = None;
        proof {
            assert(self@.invite_rr =~= Seq::<(Seq<char>, usize)>::empty());
            assert(self@.terminal_done =~= Seq::<Seq<char>>::empty());
            assert(self@.pending_events =~= Seq::<EventView>::empty());
        }
    }

    /// Counts the buffered log events in the session statistics, where there are any.
    fn count_pending(&mut self)
        requires
            old(self).wf(),
        ensures
            final(self).wf(),
            final(self)@ == (CorrView { session: old(self)@.session_now(), ..old(self)@ }),
            final(self).pending_events == old(self).pending_events,
    {
        if let Some(acc) = &mut self.session {
            let ghost start = acc@;
            let ghost evs = event_views(self.pending_events@);
            let mut i: usize = 0;
            while i < self.pending_events.len()
                invariant
                    i <= self.pending_events.len(),
                    acc.wf(),
                    evs == event_views(self.pending_events@),
                    acc@ == evstats::fed(start, evs, i as int),
                decreases self.pending_events.len() - i,
            {
                assert(evs[i as int] == self.pending_events@[i as int]@);
                acc.ingest(&self.pending_events[i]);
                i += 1;
            }
        }
    }

    /// Takes the buffered log events.
    pub fn take_events(&mut self) -> (r: Vec<Event>)
        requires
            old(self).wf(),
        ensures
            final(self).wf(),
            event_views(r@) == old(self)@.pending_events,
            final(self)@ == (CorrView {
                pending_events: Seq::empty(),
                session: old(self)@.session_now(),
                ..old(self)@
            }),
    {
        self.count_pending();
        let mut taken: Vec<Event> = Vec::new();
        std::mem::swap(&mut taken, &mut self.pending_events);
        assert(self@.pending_events =~= Seq::<EventView>::empty());
        taken
    }

    /// Keeps statistics over the session from here on: over the events that are buffered
    /// or come later.
    pub fn enable_session_stats(&mut self)
        requires
            old(self).wf(),
        ensures
            final(self).wf(),
            final(self)@ == (CorrView { session: Some(StatsView::none()), ..old(self)@ }),
    {
        self.session = Some(StatsAcc::new());
    }

    /// Takes the statistics over the session, if they are kept: over all events since,
    /// whether they were taken or are buffered. They are kept no longer.
    pub fn take_session_stats(&mut self) -> (r: Option<StatsAcc>)
        requires
            old(self).wf(),
        ensures
            final(self).wf(),
            r matches Some(a) ==> a.wf(),
            opt_stats(r) == old(self)@.session_now(),
            final(self)@ == (CorrView { session: None, ..old(self)@ }),
    {
        self.count_pending();
        let mut taken: Option<StatsAcc> = None;
        std::mem::swap(&mut taken, &mut self.session);
        taken
    }

    pub(crate) fn push_pending(&mut self, e: Event)
        ensures
            final(self)@ == (CorrView {
                pending_events: old(self)@.pending_events.push(e@),
                ..old(self)@
            }),
            final(self).reg == old(self).reg,
            final(self).session == old(self).session,
    {
        let ghost before = self.pending_events@;
        self.pending_events.push(e);
        assert(event_views(self.pending_events@) =~= event_views(before).push(e@));
    }

    /// Whether the call of a diagnostic, if it is known, can count one more.
    pub fn has_diag_room(&self, d: &Diagnostic) -> (r: bool)
        ensures
            r == self@.diag_room(d.call_id@, 1),
    {
        match self.reg.find_call(d.call_id.as_str()) {
            Some(i) => {
                assert(self@.reg.calls[i as int] == self.reg.calls@[i as int]@);
                self.reg.calls[i].warn_count < u32::MAX && self.reg.calls[i].critical_count
                    < u32::MAX
            },
            None => true,
        }
    }

    /// Records a diagnostic.
    pub fn add_diagnostic(&mut self, d: Diagnostic)
        requires
            old(self).wf(),
            old(self)@.diag_room(d.call_id@, 1),
        ensures
            final(self).wf(),
            final(self)@ == old(self)@.with_diag(d@),
    {
        if d.severity.rank() < self.min_severity.rank() {
            return;
        }
        self.push_pending(diag_record(&d));
        self.reg.count_diag(d.call_id.as_str(), d.severity);
        self.reg.push_event(diag_text(&d));
        self.reg.keep_diag(d);
    }

    /// Records diagnostics of one call.
    pub fn add_diagnostics(&mut self, ds: Vec<Diagnostic>, id: &str)
        requires
            old(self).wf(),
            forall|k: int| 0 <= k < ds@.len() ==> (#[trigger] ds@[k])@.call_id == id@,
            old(self)@.diag_room(id@, ds@.len() as int),
        ensures
            final(self).wf(),
            final(self)@ == old(self)@.with_diags(diagnostics::diag_views(ds@), ds@.len() as int),
    {
        let ghost dv = diagnostics::diag_views(ds@);
        let n: usize = ds.len();
        let mut i: usize = 0;
        while i < n
            invariant
                i <= n,
                n == ds@.len(),
                dv == diagnostics::diag_views(ds@),
                self.wf(),
                forall|k: int| 0 <= k < ds@.len() ==> (#[trigger] ds@[k])@.call_id == id@,
                self@ == old(self)@.with_diags(dv, i as int),
                self@.diag_room(id@, n - i),
            decreases n - i,
        {
            assert(dv[i as int] == ds@[i as int]@);
            proof {
                lemma_diag_keeps(self@, dv[i as int], id@);
                assert(self@.diag_room(id@, (n - i - 1) + 1));
                assert(self@.with_diag(dv[i as int]).diag_room(id@, n - i - 1));
            }
            let d = ds[i].copy();
            self.add_diagnostic(d);
            i += 1;
        }
    }
}

} // verus!
