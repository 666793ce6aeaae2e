//! A recorded log taken up again: what a replay, an export and a query make of
//! its events.
use crate::decode::sip;
use crate::diagnostics;
use crate::diagnostics::{DiagView, Diagnostic};
use crate::export::import;
use crate::export::import::{evt_to_sipmsg, export_diag, export_stream, in_range};
use crate::export::tables;
use crate::export::tables::ssrc_string;
use crate::model::media;
use crate::model::media::{StreamSummary, SummaryView};
use crate::model::sip::{MsgView, SipMsg};
use crate::model::stats::HealthBucket;
use crate::store::evlog::{DiagEvt, Event, SipMsgEvt, StreamSnapEvt};
use crate::text;
use crate::text::{push_dec, str_eq};
use vstd::prelude::*;

verus! {

// ----------------------------- exports -----------------------------

/// What an export adds to the calls: streams, diagnostics and buckets.
pub struct Rebuilt {
    pub streams: Vec<StreamSummary>,
    pub diagnostics: Vec<Diagnostic>,
    pub buckets: Vec<HealthBucket>,
}

/// The message that a record is analysed as.
pub open spec fn replayed(e: SipMsgEvt) -> MsgView {
    match sip::sip_message(e.ts_us, e.flow, e.raw@, None) {
        Some(m) => m,
        None => import::recorded(e),
    }
}

/// The message to analyse, if an event is one in the range.
pub open spec fn to_analyse(ev: Event, from: Option<u64>, to: Option<u64>) -> Option<MsgView> {
    match ev {
        Event::SipMsg(e) => if import::within(e.ts_us, from, to) {
            Some(replayed(e))
        } else {
            None
        },
        _ => None,
    }
}

pub open spec fn streams_with(
    v: Seq<SummaryView>,
    ev: Event,
    from: Option<u64>,
    to: Option<u64>,
) -> Seq<SummaryView> {
    match ev {
        Event::StreamSnap(e) => if import::within(e.ts_us, from, to) {
            v.push(import::exported_stream(e))
        } else {
            v
        },
        _ => v,
    }
}

pub open spec fn diags_with(
    v: Seq<DiagView>,
    ev: Event,
    from: Option<u64>,
    to: Option<u64>,
) -> Seq<DiagView> {
    match ev {
        Event::Diag(e) => if import::within(e.ts_us, from, to) {
            v.push(import::exported_diag(e))
        } else {
            v
        },
        _ => v,
    }
}

/// A health bucket by its contents.
pub open spec fn same_bucket(a: HealthBucket, b: HealthBucket) -> bool {
    a.bucket_us == b.bucket_us && a.dim_key@ == b.dim_key@ && a.metrics == b.metrics
}

impl Rebuilt {
    pub fn new() -> (r: Rebuilt)
        ensures
            r.streams@.len() == 0,
            r.diagnostics@.len() == 0,
            r.buckets@.len() == 0,
    {
        Rebuilt { streams: Vec::new(), diagnostics: Vec::new(), buckets: Vec::new() }
    }

    /// Takes up an event: a stream, a diagnostic or a message in the range, or a
    /// bucket of any time. A message is handed out, to be analysed again.
    pub fn take(&mut self, ev: &Event, from: Option<u64>, to: Option<u64>) -> (r: Option<SipMsg>)
        ensures
            match to_analyse(*ev, from, to) {
                Some(m) => r is Some && r->Some_0@ == m,
                None => r is None,
            },
            media::summary_views(final(self).streams@) == streams_with(
                media::summary_views(old(self).streams@),
                *ev,
                from,
                to,
            ),
            diagnostics::diag_views(final(self).diagnostics@) == diags_with(
                diagnostics::diag_views(old(self).diagnostics@),
                *ev,
                from,
                to,
            ),
            ev matches Event::HealthBucket(b) ==> {
                &&& final(self).buckets@.len() == old(self).buckets@.len() + 1
                &&& final(self).buckets@.drop_last() == old(self).buckets@
                &&& same_bucket(final(self).buckets@.last(), *b)
            },
            !(ev is HealthBucket) ==> final(self).buckets@ == old(self).buckets@,
    {
        let ghost s0 = self.streams@;
        let ghost d0 = self.diagnostics@;
        let ghost b0 = self.buckets@;
        match ev {
            Event::SipMsg(e) => {
                if in_range(e.ts_us, from, to) {
                    return Some(evt_to_sipmsg(e));
                }
            },
            Event::StreamSnap(e) => {
                if in_range(e.ts_us, from, to) {
                    let s = export_stream(e);
                    self.streams.push(s);
                    assert(media::summary_views(self.streams@) =~= media::summary_views(s0).push(s@));
                }
            },
            Event::Diag(e) => {
                if in_range(e.ts_us, from, to) {
                    let d = export_diag(e);
                    self.diagnostics.push(d);
                    assert(diagnostics::diag_views(self.diagnostics@) =~= diagnostics::diag_views(
                        d0,
                    ).push(d@));
                }
            },
            Event::HealthBucket(e) => {
                self.buckets.push(
                    HealthBucket {
                        bucket_us: e.bucket_us,
                        dim_key: e.dim_key.clone(),
                        metrics: e.metrics,
                    },
                );
                assert(self.buckets@.drop_last() =~= b0);
            },
            _ => {},
        }
        None
    }
}

// ----------------------------- replays -----------------------------

/// The line that a replay lists for a diagnostic.
pub open spec fn diag_note_text(e: DiagEvt) -> Seq<char> {
    "["@ + text::dec(e.severity as nat) + "] "@ + e.code@ + " "@ + e.message@
}

pub fn diag_note(e: &DiagEvt) -> (r: String)
    ensures
        r@ == diag_note_text(*e),
{
    let mut s = String::new();
    s.push_str("[");
    push_dec(&mut s, e.severity as u64);
    s.push_str("] ");
    s.push_str(e.code.as_str());
    s.push_str(" ");
    s.push_str(e.message.as_str());
    assert(s@ =~= diag_note_text(*e));
    s
}

/// The line that a replay lists for a stream; `loss` is its share of lost packets
/// as text.
pub open spec fn stream_note_text(e: StreamSnapEvt, loss: Seq<char>) -> Seq<char> {
    "stream "@ + e.call_id@ + " ssrc="@ + tables::ssrc_text(e.ssrc) + " pkts="@ + text::dec(
        e.packets as nat,
    ) + " loss="@ + loss + "%"@
}

pub fn stream_note(e: &StreamSnapEvt, loss: &str) -> (r: String)
    ensures
        r@ == stream_note_text(*e, loss@),
{
    let mut s = String::new();
    s.push_str("stream ");
    s.push_str(e.call_id.as_str());
    s.push_str(" ssrc=");
    let n = ssrc_string(e.ssrc);
    s.push_str(n.as_str());
    s.push_str(" pkts=");
    push_dec(&mut s, e.packets);
    s.push_str(" loss=");
    s.push_str(loss);
    s.push_str("%");
    assert(s@ =~= stream_note_text(*e, loss@));
    s
}

// ----------------------------- queries -----------------------------

/// What of a call an event tells.
#[derive(Debug, Clone, Copy, PartialEq, Eq, Structural)]
pub enum Hit {
    Message,
    Stream,
    Rtt,
    Diagnostic,
}

/// What an event tells of a call, if it is of that call.
pub open spec fn hit_of(ev: Event, id: Seq<char>) -> Option<Hit> {
    match ev {
        Event::SipMsg(e) => if e.call_id@ == id {
            Some(Hit::Message)
        } else {
            None
        },
        Event::StreamSnap(e) => if e.call_id@ == id {
            Some(Hit::Stream)
        } else {
            None
        },
        Event::RtcpRtt(e) => if e.call_id@ == id {
            Some(Hit::Rtt)
        } else {
            None
        },
        Event::Diag(e) => if e.call_id@ == id {
            Some(Hit::Diagnostic)
        } else {
            None
        },
        _ => None,
    }
}

/// How many events of a call have been found.
#[derive(Debug, Clone, Copy, PartialEq, Eq, Structural)]
pub struct Found {
    pub messages: u64,
    pub streams: u64,
    pub rtts: u64,
}

impl Found {
    pub open spec fn with(self, h: Option<Hit>) -> Found {
        match h {
            Some(Hit::Message) => Found { messages: (self.messages + 1) as u64, ..self },
            Some(Hit::Stream) => Found { streams: (self.streams + 1) as u64, ..self },
            Some(Hit::Rtt) => Found { rtts: (self.rtts + 1) as u64, ..self },
            _ => self,
        }
    }

    pub fn none() -> (r: Found)
        ensures
            r == (Found { messages: 0, streams: 0, rtts: 0 }),
    {
        Found { messages: 0, streams: 0, rtts: 0 }
    }

    /// Looks at an event.
    pub fn see(&mut self, ev: &Event, id: &str) -> (r: Option<Hit>)
        requires
            old(self).messages < u64::MAX,
            old(self).streams < u64::MAX,
            old(self).rtts < u64::MAX,
        ensures
            r == hit_of(*ev, id@),
            *final(self) == old(self).with(hit_of(*ev, id@)),
    {
        match ev {
            Event::SipMsg(e) => if str_eq(e.call_id.as_str(), id) {
                self.messages = self.messages + 1;
                Some(Hit::Message)
            } else {
                None
            },
            Event::StreamSnap(e) => if str_eq(e.call_id.as_str(), id) {
                self.streams = self.streams + 1;
                Some(Hit::Stream)
            } else {
                None
            },
            Event::RtcpRtt(e) => if str_eq(e.call_id.as_str(), id) {
                self.rtts = self.rtts + 1;
                Some(Hit::Rtt)
            } else {
                None
            },
            Event::Diag(e) => if str_eq(e.call_id.as_str(), id) {
                Some(Hit::Diagnostic)
            } else {
                None
            },
            _ => None,
        }
    }

    pub open spec fn spec_summary(self, id: Seq<char>) -> Seq<char> {
        "query: "@ + text::dec(self.messages as nat) + " sip msgs, "@ + text::dec(
            self.streams as nat,
        ) + " stream snaps, "@ + text::dec(self.rtts as nat) + " rtt samples for "@ + id
    }

    /// The line that ends a query.
    pub fn summary(&self, id: &str) -> (r: String)
        ensures
            r@ == self.spec_summary(id@),
    {
        let mut s = String::new();
        s.push_str("query: ");
        push_dec(&mut s, self.messages);
        s.push_str(" sip msgs, ");
        push_dec(&mut s, self.streams);
        s.push_str(" stream snaps, ");
        push_dec(&mut s, self.rtts);
        s.push_str(" rtt samples for ");
        s.push_str(id);
        assert(s@ =~= self.spec_summary(id@));
        s
    }
}

/// What a message is called in a query: its method or its status.
pub open spec fn query_label_text(e: SipMsgEvt) -> Seq<char> {
    if e.is_request {
        match e.method {
            Some(m) => m@,
            None => Seq::empty(),
        }
    } else {
        match e.status {
            Some(s) => text::dec(s as nat),
            None => Seq::empty(),
        }
    }
}

pub fn query_label(e: &SipMsgEvt) -> (r: String)
    ensures
        r@ == query_label_text(*e),
{
    let mut s = String::new();
    if e.is_request {
        if let Some(m) = &e.method {
            s.push_str(m.as_str());
        }
    } else if let Some(n) = e.status {
        push_dec(&mut s, n as u64);
    }
    assert(s@ =~= query_label_text(*e));
    s
}

// ----------------------------- laws -----------------------------

/// Whatever the range, each event is taken up at most once: as a message, a stream
/// or a diagnostic.
pub proof fn law_taken_once(
    ev: Event,
    s: Seq<SummaryView>,
    d: Seq<DiagView>,
    from: Option<u64>,
    to: Option<u64>,
)
    ensures
        (if to_analyse(ev, from, to) is Some {
            1int
        } else {
            0
        }) + (streams_with(s, ev, from, to).len() - s.len()) + (diags_with(d, ev, from, to).len()
            - d.len()) <= 1,
{
}

/// Without a range nothing of a log is left out.
pub proof fn law_no_range_takes_all(ev: Event, s: Seq<SummaryView>, d: Seq<DiagView>)
    ensures
        ev is SipMsg ==> to_analyse(ev, None, None) is Some,
        ev is StreamSnap ==> streams_with(s, ev, None, None).len() == s.len() + 1,
        ev is Diag ==> diags_with(d, ev, None, None).len() == d.len() + 1,
{
}

} // verus!
