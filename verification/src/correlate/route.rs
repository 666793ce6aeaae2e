//! Which way a frame goes, and what is gathered of a call at its end.
use crate::correlate::correlator::{CorrView, Correlator};
use crate::correlate::stream::StreamView;
use crate::correlate::turn::Leg;
use crate::decode::rtp;
use crate::decode::rtp::{classify, MediaKind};
use crate::decode::sip;
use crate::decode::sip::looks_like_sip;
use crate::decode::stun;
use crate::decode::stun::{channel_data_payload, is_stun};
use crate::diagnostics;
use crate::diagnostics::rules::diag;
use crate::diagnostics::{DiagView, Diagnostic, Severity};
use crate::model::addr::IpAddr;
use crate::model::addr_text;
use crate::model::addr_text::ip_from_str;
use crate::model::sip::{Call, CallState, CallView, MsgView, SipMsg};
use crate::octets;
use crate::store::registry;
use crate::store::registry::{RegView, Registry};
use crate::store::sipstats::SipObs;
use crate::text;
use crate::text::{chars_of, clone_opt, eq_ignore_case, str_eq};
use vstd::prelude::*;

verus! {

/// Where a UDP payload goes.
#[derive(Debug, Clone, Copy, PartialEq, Eq, Structural)]
pub enum Route {
    Sip,
    Rtp,
    Rtcp,
    Stun,
    ChannelData,
    Ignore,
}

/// A TURN ChannelData message that is all there.
pub open spec fn whole_channel_data(b: Seq<u8>) -> bool {
    stun::looks_like_channel_data(b) && 4 + octets::be_value(b, 2, 2) <= b.len()
}

/// SIP comes first; media only where it is wanted; what is neither RTP nor RTCP
/// may be STUN or ChannelData.
pub open spec fn route_of(b: Seq<u8>, no_media: bool) -> Route {
    if sip::begins_as_sip(b) {
        Route::Sip
    } else if no_media {
        Route::Ignore
    } else {
        match rtp::kind_of(b) {
            MediaKind::Rtp => Route::Rtp,
            MediaKind::Rtcp => Route::Rtcp,
            MediaKind::Other => if stun::looks_like_stun(b) {
                Route::Stun
            } else if whole_channel_data(b) {
                Route::ChannelData
            } else {
                Route::Ignore
            },
        }
    }
}

impl Correlator {
    /// Where a UDP payload goes.
    pub fn route_udp(&self, payload: &[u8]) -> (r: Route)
        ensures
            r == route_of(payload@, self@.no_media),
    {
        if looks_like_sip(payload) {
            return Route::Sip;
        }
        if self.no_media {
            return Route::Ignore;
        }
        match classify(payload) {
            MediaKind::Rtp => Route::Rtp,
            MediaKind::Rtcp => Route::Rtcp,
            MediaKind::Other => if is_stun(payload) {
                Route::Stun
            } else if channel_data_payload(payload).is_some() {
                Route::ChannelData
            } else {
                Route::Ignore
            },
        }
    }
}

// ----------------------------- SIP statistics -----------------------------

/// A final response that accepts an INVITE.
pub open spec fn accepts_invite(m: MsgView) -> bool {
    !m.is_request && (m.status matches Some(s) && 200 <= s < 300) && (m.cseq_method matches Some(c)
        && text::same_word(c, "INVITE"@))
}

impl CorrView {
    /// The source of the INVITE that a message is the first to accept.
    pub open spec fn answered_ip(self, m: MsgView) -> Option<IpAddr> {
        match registry::call_index(self.reg.calls, m.call_id, 0) {
            Some(i) => if accepts_invite(m) && self.reg.calls[i].answer_ts is None {
                match self.reg.calls[i].invite_key {
                    Some(k) => addr_text::ip_of(k),
                    None => None,
                }
            } else {
                None
            },
            None => None,
        }
    }
}

fn is_acceptance(m: &SipMsg) -> (r: bool)
    ensures
        r == accepts_invite(m@),
{
    let ok: bool = match m.status {
        Some(s) => s >= 200 && s < 300,
        None => false,
    };
    let invite: bool = match &m.cseq_method {
        Some(c) => {
            let t = chars_of(c.as_str());
            eq_ignore_case(t.as_slice(), "INVITE")
        },
        None => false,
    };
    !m.is_request && ok && invite
}

impl Correlator {
    /// A message as the SIP statistics count it, before it is ingested.
    pub fn observation(&self, msg: &SipMsg) -> (r: SipObs)
        ensures
            r == (SipObs {
                ip: msg.flow.src.ip,
                ts_us: msg.ts_us,
                is_request: msg.is_request,
                method: msg.method,
                status: msg.status,
                answer_for_ip: self@.answered_ip(msg@),
                initial_invite: msg@.is_initial_invite(),
            }),
    {
        let answer_for_ip: Option<IpAddr> = match self.reg.find_call(msg.call_id.as_str()) {
            Some(i) => {
                let c = &self.reg.calls[i];
                assert(c@ == self@.reg.calls[i as int]);
                if is_acceptance(msg) && c.answer_ts.is_none() {
                    match &c.invite_key {
                        Some(k) => ip_from_str(k.as_str()),
                        None => None,
                    }
                } else {
                    None
                }
            },
            None => None,
        };
        SipObs {
            ip: msg.flow.src.ip,
            ts_us: msg.ts_us,
            is_request: msg.is_request,
            method: msg.method,
            status: msg.status,
            answer_for_ip,
            initial_invite: msg.is_initial_invite(),
        }
    }
}

// ----------------------------- the heatmap -----------------------------

/// A finished call as the heatmap counts it.
pub struct HeatEntry {
    pub ts_us: u64,
    /// Source IP of the first INVITE.
    pub key: String,
    pub answered: bool,
    pub failed: bool,
    pub pdd_ms: Option<u32>,
}

/// When a call counts: at its end, or else at the latest that is known of it.
pub open spec fn heat_time(c: CallView) -> u64 {
    if c.end_ts is Some {
        c.end_ts->Some_0
    } else if c.bye_ts is Some {
        c.bye_ts->Some_0
    } else if c.answer_ts is Some {
        c.answer_ts->Some_0
    } else if c.invite_ts is Some {
        c.invite_ts->Some_0
    } else {
        0
    }
}

impl HeatEntry {
    /// Whether this is what a call adds.
    pub open spec fn stands_for(self, c: CallView) -> bool {
        &&& self.ts_us == heat_time(c)
        &&& self.key@ == match c.invite_key {
            Some(k) => k,
            None => "?"@,
        }
        &&& self.answered == (c.answer_ts is Some)
        &&& self.failed == (c.state == CallState::Failed || c.state == CallState::Canceled)
        &&& self.pdd_ms == c.pdd_ms
    }
}

/// What a finished call adds to the heatmap; one that has not ended, nothing.
pub fn heat_entry(c: &Call) -> (r: Option<HeatEntry>)
    ensures
        r is Some <==> c@.state.spec_terminal(),
        r matches Some(e) ==> e.stands_for(c@),
{
    if !c.state.is_terminal() {
        return None;
    }
    let ts_us: u64 = match (c.end_ts, c.bye_ts, c.answer_ts, c.invite_ts) {
        (Some(t), _, _, _) => t,
        (None, Some(t), _, _) => t,
        (None, None, Some(t), _) => t,
        (None, None, None, Some(t)) => t,
        (None, None, None, None) => 0,
    };
    let key = match clone_opt(&c.invite_key) {
        Some(k) => k,
        None => "?".to_owned(),
    };
    Some(
        HeatEntry {
            ts_us,
            key,
            answered: c.answer_ts.is_some(),
            failed: c.state == CallState::Failed || c.state == CallState::Canceled,
            pdd_ms: c.pdd_ms,
        },
    )
}

// ----------------------------- relay legs -----------------------------

/// The streams of a call on one side of a relay, among the first `n`.
pub open spec fn leg_streams(streams: Seq<StreamView>, id: Seq<char>, leg: Leg, n: int) -> Seq<int>
    decreases n,
{
    if n <= 0 {
        Seq::empty()
    } else {
        let v = leg_streams(streams, id, leg, n - 1);
        let s = streams[n - 1];
        if s.call_id == id && s.via_turn && s.leg == Some(leg) {
            v.push(n - 1)
        } else {
            v
        }
    }
}

impl Registry {
    /// Where the streams of a call on one side of a relay stand.
    pub fn relay_streams(&self, id: &str, leg: Leg) -> (r: Vec<usize>)
        ensures
            r@.map_values(|i: usize| i as int) == leg_streams(
                self@.streams,
                id@,
                leg,
                self@.streams.len() as int,
            ),
            forall|k: int| 0 <= k < r@.len() ==> #[trigger] r@[k] < self.streams@.len(),
    {
        let mut out: Vec<usize> = Vec::new();
        let mut i: usize = 0;
        assert(out@.map_values(|i: usize| i as int) =~= Seq::<int>::empty());
        while i < self.streams.len()
            invariant
                i <= self.streams.len(),
                out@.map_values(|i: usize| i as int) == leg_streams(
                    self@.streams,
                    id@,
                    leg,
                    i as int,
                ),
                forall|k: int| 0 <= k < out@.len() ==> #[trigger] out@[k] < self.streams@.len(),
            decreases self.streams.len() - i,
        {
            assert(self@.streams[i as int] == self.streams@[i as int]@);
            let s = &self.streams[i];
            let on_leg: bool = match s.leg {
                Some(l) => l == leg,
                None => false,
            };
            if s.via_turn && on_leg && str_eq(s.call_id.as_str(), id) {
                let ghost before = out@;
                out.push(i);
                assert(out@.map_values(|i: usize| i as int) =~= before.map_values(
                    |i: usize| i as int,
                ).push(i as int));
            }
            i += 1;
        }
        out
    }
}

/// What is said of the losses on the two sides of a relay.
pub open spec fn imbalance_text(client: Seq<char>, peer: Seq<char>, client_worse: bool) -> Seq<
    char,
> {
    "TURN leg loss imbalance: client-leg "@ + client + "% vs peer-leg "@ + peer
        + "% (bottleneck on "@ + (if client_worse {
        "client<->relay"@
    } else {
        "relay<->peer"@
    }) + ")"@
}

/// The finding that one side of a relay loses clearly more than the other. The
/// two losses come as text.
pub fn leg_imbalance(
    ts_us: u64,
    call_id: &str,
    client_pct: &str,
    peer_pct: &str,
    client_worse: bool,
) -> (r: Diagnostic)
    ensures
        r@ == (DiagView {
            ts_us,
            call_id: call_id@,
            severity: Severity::Warn,
            code: diagnostics::TURN_LEG_IMBALANCE@,
            message: imbalance_text(client_pct@, peer_pct@, client_worse),
        }),
{
    let mut s = "TURN leg loss imbalance: client-leg ".to_owned();
    s.push_str(client_pct);
    s.push_str("% vs peer-leg ");
    s.push_str(peer_pct);
    s.push_str("% (bottleneck on ");
    s.push_str(
        if client_worse {
            "client<->relay"
        } else {
            "relay<->peer"
        },
    );
    s.push_str(")");
    diag(ts_us, call_id, Severity::Warn, diagnostics::TURN_LEG_IMBALANCE, s)
}

} // verus!
