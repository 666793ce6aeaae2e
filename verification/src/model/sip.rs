//! SIP messages and the calls that they make up.
use crate::model::addr::{IpAddr, SocketAddr};
use crate::model::media::{NegotiatedMedia, NegotiatedView};
use crate::model::packet::Flow5Tuple;
use crate::octets::to_vec;
use crate::text;
use crate::text::clone_opt;
use vstd::prelude::*;

verus! {

/// SIP request methods.
#[derive(Debug, Clone, Copy, PartialEq, Eq, Hash, Structural)]
pub enum Method {
    Invite,
    Ack,
    Bye,
    Cancel,
    Register,
    Options,
    Prack,
    Update,
    Subscribe,
    Notify,
    Publish,
    Info,
    Refer,
    Message,
    Other,
}

impl Method {
    pub open spec fn spec_name(self) -> Seq<char> {
        match self {
            Method::Invite => "INVITE"@,
            Method::Ack => "ACK"@,
            Method::Bye => "BYE"@,
            Method::Cancel => "CANCEL"@,
            Method::Register => "REGISTER"@,
            Method::Options => "OPTIONS"@,
            Method::Prack => "PRACK"@,
            Method::Update => "UPDATE"@,
            Method::Subscribe => "SUBSCRIBE"@,
            Method::Notify => "NOTIFY"@,
            Method::Publish => "PUBLISH"@,
            Method::Info => "INFO"@,
            Method::Refer => "REFER"@,
            Method::Message => "MESSAGE"@,
            Method::Other => "OTHER"@,
        }
    }

    /// The method as it stands in a request line.
    pub fn name(self) -> (r: &'static str)
        ensures
            r@ == self.spec_name(),
    {
        match self {
            Method::Invite => "INVITE",
            Method::Ack => "ACK",
            Method::Bye => "BYE",
            Method::Cancel => "CANCEL",
            Method::Register => "REGISTER",
            Method::Options => "OPTIONS",
            Method::Prack => "PRACK",
            Method::Update => "UPDATE",
            Method::Subscribe => "SUBSCRIBE",
            Method::Notify => "NOTIFY",
            Method::Publish => "PUBLISH",
            Method::Info => "INFO",
            Method::Refer => "REFER",
            Method::Message => "MESSAGE",
            Method::Other => "OTHER",
        }
    }
}

/// Where a call stands.
#[derive(Debug, Clone, Copy, PartialEq, Eq, Hash, Structural)]
pub enum CallState {
    Dialing,
    Ringing,
    Active,
    Completed,
    Failed,
    Canceled,
}

impl CallState {
    pub open spec fn spec_label(self) -> Seq<char> {
        match self {
            CallState::Dialing => "Dialing"@,
            CallState::Ringing => "Ringing"@,
            CallState::Active => "Active"@,
            CallState::Completed => "Completed"@,
            CallState::Failed => "Failed"@,
            CallState::Canceled => "Canceled"@,
        }
    }

    /// The name of the state.
    pub fn label(self) -> (r: &'static str)
        ensures
            r@ == self.spec_label(),
    {
        match self {
            CallState::Dialing => "Dialing",
            CallState::Ringing => "Ringing",
            CallState::Active => "Active",
            CallState::Completed => "Completed",
            CallState::Failed => "Failed",
            CallState::Canceled => "Canceled",
        }
    }
}

impl CallState {
    /// No further message changes the outcome.
    pub open spec fn spec_terminal(self) -> bool {
        self == CallState::Completed || self == CallState::Failed || self == CallState::Canceled
    }

    pub fn is_terminal(self) -> (r: bool)
        ensures
            r == self.spec_terminal(),
    {
        self == CallState::Completed || self == CallState::Failed || self == CallState::Canceled
    }
}

/// Which signaling event ended the call.
#[derive(Debug, Clone, Copy, PartialEq, Eq, Hash, Structural)]
pub enum HangupBy {
    /// Caller sent the BYE.
    Caller,
    /// Callee sent the BYE.
    Callee,
    /// Caller sent CANCEL (ringing phase cancel).
    Cancel,
    /// A non-2xx final response to the INVITE (callee side refused).
    Reject,
}

impl HangupBy {
    pub open spec fn spec_label(self) -> Seq<char> {
        match self {
            HangupBy::Caller => "BYE→"@,
            HangupBy::Callee => "←BYE"@,
            HangupBy::Cancel => "CANCEL"@,
            HangupBy::Reject => "REJ"@,
        }
    }

    /// The short form of the call list.
    pub fn label(self) -> (r: &'static str)
        ensures
            r@ == self.spec_label(),
    {
        match self {
            HangupBy::Caller => "BYE→",
            HangupBy::Callee => "←BYE",
            HangupBy::Cancel => "CANCEL",
            HangupBy::Reject => "REJ",
        }
    }
}

/// How a call ended.
#[derive(Debug, Clone, Copy, PartialEq, Eq, Hash, Structural)]
pub enum Outcome {
    /// Not yet terminated.
    InProgress,
    Answered,
    Rejected,
    NoAnswer,
    Canceled,
    Failed,
}

/// Cause code and text of the end of a call.
#[derive(Debug, Clone)]
pub struct HangupCause {
    pub code: Option<u32>,
    pub reason: Option<String>,
}

pub struct HangupView {
    pub code: Option<u32>,
    pub reason: Option<Seq<char>>,
}

impl View for HangupCause {
    type V = HangupView;

    open spec fn view(&self) -> HangupView {
        HangupView { code: self.code, reason: text::opt_text(self.reason) }
    }
}

/// A SIP leg within a call (a dialog direction).
#[derive(Debug, Clone)]
pub struct Leg {
    pub from_tag: Option<String>,
    pub to_tag: Option<String>,
    pub branch: Option<String>,
    pub remote: Option<SocketAddr>,
    pub local: Option<SocketAddr>,
}

/// B2BUA evidence for a call: two dialogs observed inside the same Call-ID,
/// distinguished by their From tags.
#[derive(Debug, Clone, Copy, PartialEq, Eq, Structural)]
pub struct B2buaInfo {
    /// The signaling endpoint whose IP both legs' flows share.
    pub addr: Option<IpAddr>,
    /// Number of dialogs (legs) observed in this call.
    pub legs: u8,
}

/// A decoded SIP message.
#[derive(Debug, Clone)]
pub struct SipMsg {
    pub ts_us: u64,
    pub flow: Flow5Tuple,
    pub is_request: bool,
    pub method: Option<Method>,
    pub status: Option<u16>,
    pub call_id: String,
    pub cseq: Option<u32>,
    pub cseq_method: Option<String>,
    pub branch: Option<String>,
    pub from_tag: Option<String>,
    pub to_tag: Option<String>,
    pub from_uri: Option<String>,
    pub to_uri: Option<String>,
    /// Raw message bytes (optionally truncated on capture).
    pub raw: Vec<u8>,
    pub contact_addr: Option<SocketAddr>,
    pub route_count: usize,
    pub record_route_count: usize,
    pub has_sdp: bool,
}

/// A SIP message by its contents.
pub struct MsgView {
    pub ts_us: u64,
    pub flow: Flow5Tuple,
    pub is_request: bool,
    pub method: Option<Method>,
    pub status: Option<u16>,
    pub call_id: Seq<char>,
    pub cseq: Option<u32>,
    pub cseq_method: Option<Seq<char>>,
    pub branch: Option<Seq<char>>,
    pub from_tag: Option<Seq<char>>,
    pub to_tag: Option<Seq<char>>,
    pub from_uri: Option<Seq<char>>,
    pub to_uri: Option<Seq<char>>,
    pub raw: Seq<u8>,
    pub contact_addr: Option<SocketAddr>,
    pub route_count: usize,
    pub record_route_count: usize,
    pub has_sdp: bool,
}

impl View for SipMsg {
    type V = MsgView;

    open spec fn view(&self) -> MsgView {
        MsgView {
            ts_us: self.ts_us,
            flow: self.flow,
            is_request: self.is_request,
            method: self.method,
            status: self.status,
            call_id: self.call_id@,
            cseq: self.cseq,
            cseq_method: text::opt_text(self.cseq_method),
            branch: text::opt_text(self.branch),
            from_tag: text::opt_text(self.from_tag),
            to_tag: text::opt_text(self.to_tag),
            from_uri: text::opt_text(self.from_uri),
            to_uri: text::opt_text(self.to_uri),
            raw: self.raw@,
            contact_addr: self.contact_addr,
            route_count: self.route_count,
            record_route_count: self.record_route_count,
            has_sdp: self.has_sdp,
        }
    }
}

pub open spec fn msg_views(v: Seq<SipMsg>) -> Seq<MsgView> {
    v.map_values(|m: SipMsg| m@)
}

impl MsgView {
    /// An INVITE that opens a dialog.
    pub open spec fn is_initial_invite(self) -> bool {
        self.method == Some(Method::Invite) && self.is_request && self.to_tag is None
    }
}

impl SipMsg {
    /// An INVITE that opens a dialog.
    pub fn is_initial_invite(&self) -> (r: bool)
        ensures
            r == self@.is_initial_invite(),
    {
        let invite: bool = match self.method {
            Some(m) => m == Method::Invite,
            None => false,
        };
        invite && self.is_request && self.to_tag.is_none()
    }

    /// A copy of the message.
    pub fn copy(&self) -> (r: SipMsg)
        ensures
            r@ == self@,
    {
        SipMsg {
            ts_us: self.ts_us,
            flow: self.flow,
            is_request: self.is_request,
            method: self.method,
            status: self.status,
            call_id: self.call_id.clone(),
            cseq: self.cseq,
            cseq_method: clone_opt(&self.cseq_method),
            branch: clone_opt(&self.branch),
            from_tag: clone_opt(&self.from_tag),
            to_tag: clone_opt(&self.to_tag),
            from_uri: clone_opt(&self.from_uri),
            to_uri: clone_opt(&self.to_uri),
            raw: to_vec(self.raw.as_slice()),
            contact_addr: self.contact_addr,
            route_count: self.route_count,
            record_route_count: self.record_route_count,
            has_sdp: self.has_sdp,
        }
    }
}

/// Aggregate per-call state.
#[derive(Debug, Clone)]
pub struct Call {
    pub call_id: String,
    pub from_uri: Option<String>,
    pub to_uri: Option<String>,
    pub from_user: Option<String>,
    pub to_user: Option<String>,
    pub state: CallState,
    pub outcome: Outcome,
    pub hangup: HangupCause,
    pub legs: Vec<Leg>,
    /// Ordered list of SIP messages observed for this call.
    pub messages: Vec<SipMsg>,
    pub invite_ts: Option<u64>,
    pub trying_ts: Option<u64>,
    pub ringing_ts: Option<u64>,
    pub answer_ts: Option<u64>,
    pub bye_ts: Option<u64>,
    pub end_ts: Option<u64>,
    pub pdd_ms: Option<u32>,
    pub setup_ms: Option<u32>,
    /// Ringing duration: ringing (180/183) to answer (200 OK).
    pub ring_ms: Option<u32>,
    /// Provisional code that started ringing: 180 or 183 (early media).
    pub ring_code: Option<u16>,
    /// True if early media was negotiated: a 183 carrying SDP.
    pub early_media: bool,
    /// Initiator of the hangup (BYE sender / cancel / reject).
    pub hangup_by: Option<HangupBy>,
    pub pkts_sip: u64,
    pub pkts_rtp: u64,
    pub pkts_rtcp: u64,
    pub bytes: u64,
    /// Negotiated media from SDP offer/answer.
    pub negotiated: NegotiatedMedia,
    /// Diagnostic counts (for the call-list column).
    pub warn_count: u32,
    pub critical_count: u32,
    /// True if any media stream traversed a learned TURN relay.
    pub via_turn: bool,
    /// Source IP of the first INVITE, kept so that it survives trimming of the message buffer.
    pub invite_key: Option<String>,
    /// Distinct IPs involved in this call (SIP endpoints and media flows).
    pub ips: Vec<IpAddr>,
    /// IPs that contributed to the per-IP active-call count.
    pub active_ips: Vec<IpAddr>,
    /// Last SIP/RTP/RTCP timestamp; used to evict idle dialogs.
    pub last_ts_us: u64,
}

/// A call by its contents.
pub struct CallView {
    pub call_id: Seq<char>,
    pub from_uri: Option<Seq<char>>,
    pub to_uri: Option<Seq<char>>,
    pub from_user: Option<Seq<char>>,
    pub to_user: Option<Seq<char>>,
    pub state: CallState,
    pub outcome: Outcome,
    pub hangup: HangupView,
    pub legs: Seq<Leg>,
    pub messages: Seq<MsgView>,
    pub invite_ts: Option<u64>,
    pub trying_ts: Option<u64>,
    pub ringing_ts: Option<u64>,
    pub answer_ts: Option<u64>,
    pub bye_ts: Option<u64>,
    pub end_ts: Option<u64>,
    pub pdd_ms: Option<u32>,
    pub setup_ms: Option<u32>,
    pub ring_ms: Option<u32>,
    pub ring_code: Option<u16>,
    pub early_media: bool,
    pub hangup_by: Option<HangupBy>,
    pub pkts_sip: u64,
    pub pkts_rtp: u64,
    pub pkts_rtcp: u64,
    pub bytes: u64,
    pub negotiated: NegotiatedView,
    pub warn_count: u32,
    pub critical_count: u32,
    pub via_turn: bool,
    pub invite_key: Option<Seq<char>>,
    pub ips: Seq<IpAddr>,
    pub active_ips: Seq<IpAddr>,
    pub last_ts_us: u64,
}

impl View for Call {
    type V = CallView;

    open spec fn view(&self) -> CallView {
        CallView {
            call_id: self.call_id@,
            from_uri: text::opt_text(self.from_uri),
            to_uri: text::opt_text(self.to_uri),
            from_user: text::opt_text(self.from_user),
            to_user: text::opt_text(self.to_user),
            state: self.state,
            outcome: self.outcome,
            hangup: self.hangup@,
            legs: self.legs@,
            messages: msg_views(self.messages@),
            invite_ts: self.invite_ts,
            trying_ts: self.trying_ts,
            ringing_ts: self.ringing_ts,
            answer_ts: self.answer_ts,
            bye_ts: self.bye_ts,
            end_ts: self.end_ts,
            pdd_ms: self.pdd_ms,
            setup_ms: self.setup_ms,
            ring_ms: self.ring_ms,
            ring_code: self.ring_code,
            early_media: self.early_media,
            hangup_by: self.hangup_by,
            pkts_sip: self.pkts_sip,
            pkts_rtp: self.pkts_rtp,
            pkts_rtcp: self.pkts_rtcp,
            bytes: self.bytes,
            negotiated: self.negotiated@,
            warn_count: self.warn_count,
            critical_count: self.critical_count,
            via_turn: self.via_turn,
            invite_key: text::opt_text(self.invite_key),
            ips: self.ips@,
            active_ips: self.active_ips@,
            last_ts_us: self.last_ts_us,
        }
    }
}

pub open spec fn call_views(v: Seq<Call>) -> Seq<CallView> {
    v.map_values(|c: Call| c@)
}

impl CallView {
    /// A call of which nothing is known but its ID.
    pub open spec fn fresh(call_id: Seq<char>) -> CallView {
        CallView {
            call_id: call_id,
            from_uri: None,
            to_uri: None,
            from_user: None,
            to_user: None,
            state: CallState::Dialing,
            outcome: Outcome::InProgress,
            hangup: HangupView { code: None, reason: None },
            legs: Seq::empty(),
            messages: Seq::empty(),
            invite_ts: None,
            trying_ts: None,
            ringing_ts: None,
            answer_ts: None,
            bye_ts: None,
            end_ts: None,
            pdd_ms: None,
            setup_ms: None,
            ring_ms: None,
            ring_code: None,
            early_media: false,
            hangup_by: None,
            pkts_sip: 0,
            pkts_rtp: 0,
            pkts_rtcp: 0,
            bytes: 0,
            negotiated: NegotiatedView::spec_empty(),
            warn_count: 0,
            critical_count: 0,
            via_turn: false,
            invite_key: None,
            ips: Seq::empty(),
            active_ips: Seq::empty(),
            last_ts_us: 0,
        }
    }

    /// When the call ended, or at least the BYE was sent.
    pub open spec fn ended(self) -> Option<u64> {
        if self.end_ts is Some {
            self.end_ts
        } else {
            self.bye_ts
        }
    }
}

/// Whole milliseconds between two times, if both are known and in order.
pub open spec fn ms_between(a: Option<u64>, b: Option<u64>) -> Option<u64> {
    match (a, b) {
        (Some(x), Some(y)) => if y >= x {
            Some(((y - x) / 1000) as u64)
        } else {
            None
        },
        _ => None,
    }
}

fn millis(a: Option<u64>, b: Option<u64>) -> (r: Option<u64>)
    ensures
        r == ms_between(a, b),
{
    match (a, b) {
        (Some(x), Some(y)) => if y >= x {
            Some((y - x) / 1000)
        } else {
            None
        },
        _ => None,
    }
}

impl Call {
    pub fn new(call_id: String) -> (r: Call)
        ensures
            r@ == CallView::fresh(call_id@),
    {
        let r = Call {
            call_id,
            from_uri: None,
            to_uri: None,
            from_user: None,
            to_user: None,
            state: CallState::Dialing,
            outcome: Outcome::InProgress,
            hangup: HangupCause { code: None, reason: None },
            legs: Vec::new(),
            messages: Vec::new(),
            invite_ts: None,
            trying_ts: None,
            ringing_ts: None,
            answer_ts: None,
            bye_ts: None,
            end_ts: None,
            pdd_ms: None,
            setup_ms: None,
            ring_ms: None,
            ring_code: None,
            early_media: false,
            hangup_by: None,
            pkts_sip: 0,
            pkts_rtp: 0,
            pkts_rtcp: 0,
            bytes: 0,
            negotiated: NegotiatedMedia::empty(),
            warn_count: 0,
            critical_count: 0,
            via_turn: false,
            invite_key: None,
            ips: Vec::new(),
            active_ips: Vec::new(),
            last_ts_us: 0,
        };
        assert(r@.messages =~= Seq::<MsgView>::empty());
        r
    }

    fn end_or_bye(&self) -> (r: Option<u64>)
        ensures
            r == self@.ended(),
    {
        match self.end_ts {
            Some(t) => Some(t),
            None => self.bye_ts,
        }
    }

    /// From the INVITE to the end of the call.
    pub fn duration_ms(&self) -> (r: Option<u64>)
        ensures
            r == ms_between(self.invite_ts, self@.ended()),
    {
        millis(self.invite_ts, self.end_or_bye())
    }

    /// From the answer to the end of the call.
    pub fn talk_ms(&self) -> (r: Option<u64>)
        ensures
            r == ms_between(self.answer_ts, self@.ended()),
    {
        millis(self.answer_ts, self.end_or_bye())
    }
}

} // verus!
