//! What a SIP message changes.
use crate::correlate::call;
use crate::correlate::call::apply_sip;
use crate::correlate::correlator;
use crate::correlate::correlator::{CorrView, Correlator};
use crate::decode::sdp;
use crate::decode::sdp::{SdpSession, SessionView};
use crate::decode::tcp_reasm;
use crate::decode::tcp_reasm::find_double_crlf;
use crate::diagnostics;
use crate::diagnostics::rules;
use crate::diagnostics::rules::{check_contact, check_record_route, check_sdp, is_public};
use crate::diagnostics::{DiagView, Diagnostic};
use crate::model::addr::{has_ip, IpAddr, SocketAddr};
use crate::model::media;
use crate::model::media::{NegotiatedMedia, NegotiatedView};
use crate::model::packet::Flow5Tuple;
use crate::model::sip;
use crate::model::sip::{Call, CallView, MsgView, SipMsg};
use crate::octets::{tail, to_vec};
use crate::store::evlog::{Event, EventView, SipMsgEvt};
use crate::store::ipstats;
use crate::store::ipstats::IpView;
use crate::store::registry;
use crate::store::registry::{has_text, RegView, Registry};
use crate::store::wire::FieldVal;
use crate::text;
use crate::text::{clone_opt, str_eq};
use vstd::prelude::*;
use vstd::utf8::*;

verus! {

/// Messages kept per call.
pub const MAX_MSGS_PER_CALL: usize = 2000;

// ----------------------------- media learned from SDP -----------------------------

/// What follows the first empty line of a message.
pub open spec fn body_after(raw: Seq<u8>) -> Seq<u8> {
    match tcp_reasm::blank_line_from(raw, 0) {
        Some(i) => raw.skip(i + 4),
        None => Seq::empty(),
    }
}

/// The body of a message.
pub fn body_of(raw: &[u8]) -> (r: Vec<u8>)
    ensures
        r@ == body_after(raw@),
{
    match find_double_crlf(raw) {
        Some(i) => {
            let n: usize = raw.len();
            assert(i + 4 <= n);
            let b = to_vec(tail(raw, i + 4));
            assert(b@ =~= raw@.skip(i + 4));
            b
        },
        None => {
            let b: Vec<u8> = Vec::new();
            assert(b@ =~= Seq::<u8>::empty());
            b
        },
    }
}

/// The session that a message describes.
pub open spec fn session_in(m: MsgView) -> Option<SessionView> {
    let body = body_after(m.raw);
    if m.has_sdp && valid_utf8(body) {
        Some(sdp::session_of(decode_utf8(body)))
    } else {
        None
    }
}

/// The name of a payload type; empty where it has none.
pub open spec fn name_or_empty(s: SessionView, pt: u8) -> Seq<char> {
    match sdp::codec_name(s, pt) {
        Some(c) => c,
        None => Seq::empty(),
    }
}

/// The media that a session offers: each payload type with its name and clock rate.
pub open spec fn offer_of(s: SessionView) -> NegotiatedView {
    let pts = sdp::offered_below(s, 256);
    NegotiatedView {
        endpoints: sdp::endpoints_of(s, s.media.len()),
        pts,
        codecs: pts.map_values(|pt: u8| name_or_empty(s, pt)),
        clock_rates: pts.map_values(|pt: u8| sdp::codec_rate(s, pt)),
    }
}

pub open spec fn offer_in(m: MsgView) -> Option<NegotiatedView> {
    match session_in(m) {
        Some(s) => Some(offer_of(s)),
        None => None,
    }
}

/// Negotiated media with the first `n` payload types of others, those that it lacks,
/// each with its name and clock rate.
pub open spec fn with_types(a: NegotiatedView, b: NegotiatedView, n: int) -> NegotiatedView
    decreases n,
{
    if n <= 0 {
        a
    } else {
        let c = with_types(a, b, n - 1);
        if c.pts.contains(b.pts[n - 1]) {
            c
        } else {
            NegotiatedView {
                pts: c.pts.push(b.pts[n - 1]),
                codecs: c.codecs.push(b.codecs[n - 1]),
                clock_rates: c.clock_rates.push(b.clock_rates[n - 1]),
                ..c
            }
        }
    }
}

/// An answer joined to the offer.
pub open spec fn joined(a: NegotiatedView, b: NegotiatedView) -> NegotiatedView {
    if a.pts.len() == 0 {
        b
    } else {
        NegotiatedView {
            endpoints: a.endpoints + b.endpoints,
            ..with_types(a, b, b.pts.len() as int)
        }
    }
}

fn read_session(msg: &SipMsg) -> (r: Option<SdpSession>)
    ensures
        match session_in(msg@) {
            Some(s) => r is Some && r->Some_0@ == s,
            None => r is None,
        },
{
    if !msg.has_sdp {
        return None;
    }
    let body = body_of(msg.raw.as_slice());
    sdp::parse(body.as_slice())
}

fn read_offer(s: &SdpSession) -> (r: NegotiatedMedia)
    ensures
        r@ == offer_of(s@),
{
    let endpoints = s.endpoints();
    let pts = s.payload_types();
    let mut codecs: Vec<String> = Vec::new();
    let mut clock_rates: Vec<u32> = Vec::new();
    let ghost names = pts@.map_values(|pt: u8| name_or_empty(s@, pt));
    let ghost rates = pts@.map_values(|pt: u8| sdp::codec_rate(s@, pt));
    let mut i: usize = 0;
    assert(text::texts(codecs@) =~= names.take(0));
    assert(clock_rates@ =~= rates.take(0));
    while i < pts.len()
        invariant
            i <= pts.len(),
            names == pts@.map_values(|pt: u8| name_or_empty(s@, pt)),
            rates == pts@.map_values(|pt: u8| sdp::codec_rate(s@, pt)),
            text::texts(codecs@) == names.take(i as int),
            clock_rates@ == rates.take(i as int),
        decreases pts.len() - i,
    {
        let name = match s.codec_name_for_pt(pts[i]) {
            Some(c) => c,
            None => String::new(),
        };
        let ghost before = codecs@;
        assert(name@ =~= names[i as int]);
        codecs.push(name);
        clock_rates.push(s.clock_rate_for_pt(pts[i]));
        i += 1;
        assert(text::texts(codecs@) =~= text::texts(before).push(names[i - 1]));
        assert(text::texts(codecs@) =~= names.take(i as int));
        assert(clock_rates@ =~= rates.take(i as int));
    }
    let r = NegotiatedMedia { endpoints, pts, codecs, clock_rates };
    assert(r@.codecs =~= names);
    assert(r@.clock_rates =~= rates);
    r
}

fn has_pt(v: &Vec<u8>, pt: u8) -> (r: bool)
    ensures
        r == v@.contains(pt),
{
    let mut i: usize = 0;
    while i < v.len()
        invariant
            i <= v.len(),
            forall|k: int| 0 <= k < i ==> v@[k] != pt,
        decreases v.len() - i,
    {
        if v[i] == pt {
            return true;
        }
        i += 1;
    }
    false
}

fn add_types(a: &mut NegotiatedMedia, b: &NegotiatedMedia)
    requires
        b@.aligned(),
    ensures
        final(a)@ == with_types(old(a)@, b@, b@.pts.len() as int),
        final(a).endpoints == old(a).endpoints,
{
    let mut i: usize = 0;
    while i < b.pts.len()
        invariant
            i <= b.pts.len(),
            b@.aligned(),
            a@ == with_types(old(a)@, b@, i as int),
            a.endpoints == old(a).endpoints,
        decreases b.pts.len() - i,
    {
        assert(b@.codecs[i as int] == b.codecs@[i as int]@);
        if !has_pt(&a.pts, b.pts[i]) {
            let ghost before = a.codecs@;
            let c = b.codecs[i].clone();
            a.pts.push(b.pts[i]);
            a.codecs.push(c);
            a.clock_rates.push(b.clock_rates[i]);
            assert(text::texts(a.codecs@) =~= text::texts(before).push(c@));
        }
        i += 1;
    }
}

fn add_endpoints(a: &mut Vec<SocketAddr>, b: &Vec<SocketAddr>)
    ensures
        final(a)@ == old(a)@ + b@,
{
    let mut i: usize = 0;
    while i < b.len()
        invariant
            i <= b.len(),
            a@ == old(a)@ + b@.take(i as int),
        decreases b.len() - i,
    {
        a.push(b[i]);
        i += 1;
        assert(a@ =~= old(a)@ + b@.take(i as int));
    }
    assert(b@.take(i as int) =~= b@);
}

fn copy_offer(n: &NegotiatedMedia) -> (r: NegotiatedMedia)
    ensures
        r@ == n@,
{
    let mut endpoints: Vec<SocketAddr> = Vec::new();
    add_endpoints(&mut endpoints, &n.endpoints);
    assert(endpoints@ =~= n.endpoints@);
    let pts = to_vec(n.pts.as_slice());
    let codecs = text::copy_texts(&n.codecs);
    let mut clock_rates: Vec<u32> = Vec::new();
    let mut i: usize = 0;
    while i < n.clock_rates.len()
        invariant
            i <= n.clock_rates.len(),
            clock_rates@ == n.clock_rates@.take(i as int),
        decreases n.clock_rates.len() - i,
    {
        clock_rates.push(n.clock_rates[i]);
        i += 1;
        assert(clock_rates@ =~= n.clock_rates@.take(i as int));
    }
    assert(clock_rates@ =~= n.clock_rates@);
    NegotiatedMedia { endpoints, pts, codecs, clock_rates }
}

fn join_offer(a: &mut NegotiatedMedia, b: &NegotiatedMedia)
    requires
        b@.aligned(),
    ensures
        final(a)@ == joined(old(a)@, b@),
{
    if a.pts.len() == 0 {
        *a = copy_offer(b);
        return;
    }
    add_types(a, b);
    add_endpoints(&mut a.endpoints, &b.endpoints);
}

// ----------------------------- the call -----------------------------

/// A list with an IP, which it then holds once.
pub open spec fn with_ip(v: Seq<IpAddr>, ip: IpAddr) -> Seq<IpAddr> {
    if v.contains(ip) {
        v
    } else {
        v.push(ip)
    }
}

/// A call after a message: the state machine, the messages kept, the media, the
/// IPs involved and those that count it as theirs, and the time.
pub open spec fn call_after(c: CallView, m: MsgView) -> CallView {
    let a = call::apply(c, m);
    CallView {
        messages: registry::last_n(a.messages, MAX_MSGS_PER_CALL as int),
        negotiated: match offer_in(m) {
            Some(n) => joined(a.negotiated, n),
            None => a.negotiated,
        },
        ips: with_ip(with_ip(a.ips, m.flow.src.ip), m.flow.dst.ip),
        active_ips: if m.is_initial_invite() {
            a.active_ips.push(m.flow.src.ip).push(m.flow.dst.ip)
        } else {
            a.active_ips
        },
        last_ts_us: m.ts_us,
        ..a
    }
}

fn note_ip(v: &mut Vec<IpAddr>, ip: IpAddr)
    ensures
        final(v)@ == with_ip(old(v)@, ip),
{
    if !has_ip(v, ip) {
        v.push(ip);
    }
}

/// Adds the ends of a flow to the IPs of a call.
pub fn note_flow(c: &mut Call, flow: &Flow5Tuple)
    ensures
        final(c)@ == (CallView {
            ips: with_ip(with_ip(old(c)@.ips, flow.src.ip), flow.dst.ip),
            ..old(c)@
        }),
{
    note_ip(&mut c.ips, flow.src.ip);
    note_ip(&mut c.ips, flow.dst.ip);
}

fn trim_messages(v: &mut Vec<SipMsg>)
    ensures
        sip::msg_views(final(v)@) == registry::last_n(
            sip::msg_views(old(v)@),
            MAX_MSGS_PER_CALL as int,
        ),
{
    let ghost all = sip::msg_views(v@);
    assert(all.skip(0) =~= all);
    while v.len() > MAX_MSGS_PER_CALL
        invariant
            v@.len() <= all.len(),
            sip::msg_views(v@) == all.skip(all.len() - v@.len()),
            all.len() <= MAX_MSGS_PER_CALL ==> v@.len() == all.len(),
            all.len() > MAX_MSGS_PER_CALL ==> v@.len() >= MAX_MSGS_PER_CALL,
        decreases v@.len(),
    {
        let ghost prior = v@;
        let _oldest = v.remove(0);
        assert(v@ =~= prior.skip(1));
        assert(sip::msg_views(v@) =~= sip::msg_views(prior).skip(1));
        assert(sip::msg_views(prior) == all.skip(all.len() - prior.len()));
    }
    assert(all.skip(0) =~= all);
}

/// Applies a message to a call, with the media that it offers.
pub fn absorb(c: &mut Call, msg: &SipMsg, offer: &Option<NegotiatedMedia>)
    requires
        call::can_apply(old(c)@, msg@),
        match offer_in(msg@) {
            Some(n) => offer is Some && offer->Some_0@ == n,
            None => offer is None,
        },
    ensures
        final(c)@ == call_after(old(c)@, msg@),
{
    apply_sip(c, msg);
    trim_messages(&mut c.messages);
    if let Some(n) = offer {
        join_offer(&mut c.negotiated, n);
    }
    note_flow(c, &msg.flow);
    if msg.is_initial_invite() {
        c.active_ips.push(msg.flow.src.ip);
        c.active_ips.push(msg.flow.dst.ip);
    }
    c.last_ts_us = msg.ts_us;
}

// ----------------------------- bookkeeping -----------------------------

/// Where the mark of a call stands, from `i` on.
pub open spec fn mark_index(v: Seq<(Seq<char>, usize)>, id: Seq<char>, i: int) -> Option<int>
    decreases v.len() - i,
{
    if i >= v.len() {
        None
    } else if v[i].0 == id {
        Some(i)
    } else {
        mark_index(v, id, i + 1)
    }
}

/// How many Record-Route headers the initial INVITE of a call carried.
pub open spec fn rr_depth(v: Seq<(Seq<char>, usize)>, id: Seq<char>) -> usize {
    match mark_index(v, id, 0) {
        Some(i) => v[i].1,
        None => 0,
    }
}

/// An endpoint belongs to the call that advertised it last.
pub open spec fn with_endpoint(
    eps: Seq<(SocketAddr, Seq<char>)>,
    ep: SocketAddr,
    id: Seq<char>,
) -> Seq<(SocketAddr, Seq<char>)> {
    match registry::endpoint_index(eps, ep, 0) {
        Some(i) => eps.update(i, (ep, id)),
        None => eps.push((ep, id)),
    }
}

/// After the first `n` endpoints of a call.
pub open spec fn with_endpoints(
    eps: Seq<(SocketAddr, Seq<char>)>,
    list: Seq<SocketAddr>,
    id: Seq<char>,
    n: int,
) -> Seq<(SocketAddr, Seq<char>)>
    decreases n,
{
    if n <= 0 {
        eps
    } else {
        with_endpoint(with_endpoints(eps, list, id, n - 1), list[n - 1], id)
    }
}

pub open spec fn ip_active(m: Map<IpAddr, IpView>, ip: IpAddr, delta: i32) -> Map<IpAddr, IpView> {
    m.insert(ip, ipstats::entry_of(m, ip).with_active(delta))
}

/// The log record of a message.
pub open spec fn sip_event(m: MsgView) -> EventView {
    EventView {
        ty: 1,
        ts_us: m.ts_us,
        fields: seq![
            FieldVal::Flow(m.flow),
            FieldVal::Flag(m.is_request),
            FieldVal::OptText(
                match m.method {
                    Some(k) => Some(k.spec_name()),
                    None => None,
                },
            ),
            FieldVal::OptU16(m.status),
            FieldVal::Text(m.call_id),
            FieldVal::OptU32(m.cseq),
            FieldVal::OptText(m.branch),
            FieldVal::OptText(m.from_tag),
            FieldVal::OptText(m.to_tag),
            FieldVal::Blob(m.raw),
        ],
    }
}

impl CorrView {
    /// After an initial INVITE: its mark, and the call counts for both ends.
    pub open spec fn with_invite(self, m: MsgView) -> CorrView {
        if m.is_initial_invite() {
            CorrView {
                invite_rr: if mark_index(self.invite_rr, m.call_id, 0) is Some {
                    self.invite_rr
                } else {
                    self.invite_rr.push((m.call_id, m.record_route_count))
                },
                reg: RegView {
                    ipstats: ip_active(
                        ip_active(self.reg.ipstats, m.flow.src.ip, 1),
                        m.flow.dst.ip,
                        1,
                    ),
                    ..self.reg
                },
                ..self
            }
        } else {
            self
        }
    }

    /// What a message gives cause to report.
    pub open spec fn findings(self, m: MsgView) -> Seq<DiagView> {
        let public = rules::public_ip(m.flow.src.ip) || rules::public_ip(m.flow.dst.ip);
        rules::contact_findings(m.ts_us, m.call_id, m, public) + rules::route_findings(
            m.ts_us,
            m.call_id,
            m,
            rr_depth(self.with_invite(m).invite_rr, m.call_id),
        ) + match session_in(m) {
            Some(s) => rules::sdp_findings(m.ts_us, m.call_id, s),
            None => Seq::empty(),
        }
    }

    /// The call of a message; a fresh one, if there is none yet.
    pub open spec fn call_or_fresh(self, id: Seq<char>) -> CallView {
        match registry::call_index(self.reg.calls, id, 0) {
            Some(i) => self.reg.calls[i],
            None => CallView::fresh(id),
        }
    }

    /// The counters have room for a message.
    pub open spec fn sip_room(self, m: MsgView) -> bool {
        let c = self.call_or_fresh(m.call_id);
        let n = self.findings(m).len();
        &&& call::can_apply(c, m)
        &&& c.warn_count + n <= u32::MAX
        &&& c.critical_count + n <= u32::MAX
    }

    /// The counters have room for a message and for the end of its call.
    pub open spec fn end_room(self, m: MsgView) -> bool {
        let c = self.call_or_fresh(m.call_id);
        let n = self.findings(m).len();
        &&& call::can_apply(c, m)
        &&& c.warn_count + n + 2 <= u32::MAX
        &&& c.critical_count + n + 2 <= u32::MAX
        &&& self.reg.completed < u64::MAX
        &&& self.reg.failed < u64::MAX
    }

    /// The counters are far from full.
    pub open spec fn roomy(self, m: MsgView) -> bool {
        let c = self.call_or_fresh(m.call_id);
        &&& c.pkts_sip < u64::MAX
        &&& c.bytes + m.raw.len() <= u64::MAX
        &&& c.warn_count <= u32::MAX - 6
        &&& c.critical_count <= u32::MAX - 6
        &&& self.reg.completed < u64::MAX
        &&& self.reg.failed < u64::MAX
    }

    /// The call with the message, its endpoints and its log record.
    pub open spec fn with_message(self, m: MsgView) -> CorrView {
        let reg = self.reg.with_call(m.call_id);
        let i = registry::call_index(reg.calls, m.call_id, 0)->Some_0;
        CorrView {
            reg: RegView {
                calls: reg.calls.update(i, call_after(reg.calls[i], m)),
                endpoint_call: match offer_in(m) {
                    Some(n) => with_endpoints(
                        reg.endpoint_call,
                        n.endpoints,
                        m.call_id,
                        n.endpoints.len() as int,
                    ),
                    None => reg.endpoint_call,
                },
                ..reg
            },
            pending_events: self.pending_events.push(sip_event(m)),
            ..self
        }
    }

    /// The call has ended, and its end has not been handled.
    pub open spec fn newly_ended(self, id: Seq<char>) -> bool {
        self.call_or_fresh(id).state.spec_terminal() && !self.terminal_done.contains(id)
    }

    /// After a message, but for what follows the end of a call.
    pub open spec fn with_sip(self, m: MsgView) -> CorrView {
        let ds = self.findings(m);
        let v = self.with_invite(m).with_message(m).with_diags(ds, ds.len() as int);
        if v.newly_ended(m.call_id) {
            CorrView { terminal_done: v.terminal_done.push(m.call_id), ..v }
        } else {
            v
        }
    }

    /// The message ends its call.
    pub open spec fn ends_call(self, m: MsgView) -> bool {
        let ds = self.findings(m);
        self.with_invite(m).with_message(m).with_diags(ds, ds.len() as int).newly_ended(m.call_id)
    }
}

impl Registry {
    fn set_endpoint(&mut self, ep: SocketAddr, id: &str)
        requires
            old(self).wf(),
        ensures
            final(self).wf(),
            final(self)@ == (RegView {
                endpoint_call: with_endpoint(old(self)@.endpoint_call, ep, id@),
                ..old(self)@
            }),
    {
        let ghost before = self@.endpoint_call;
        proof {
            registry::lemma_endpoint_index(before, ep, 0);
        }
        match self.find_endpoint(ep) {
            Some(i) => {
                self.endpoint_call.set(i, (ep, id.to_owned()));
                assert(self@.endpoint_call =~= before.update(i as int, (ep, id@)));
            },
            None => {
                self.endpoint_call.push((ep, id.to_owned()));
                assert(self@.endpoint_call =~= before.push((ep, id@)));
            },
        }
    }

    fn set_endpoints(&mut self, list: &Vec<SocketAddr>, id: &str)
        requires
            old(self).wf(),
        ensures
            final(self).wf(),
            final(self)@ == (RegView {
                endpoint_call: with_endpoints(
                    old(self)@.endpoint_call,
                    list@,
                    id@,
                    list@.len() as int,
                ),
                ..old(self)@
            }),
    {
        let mut i: usize = 0;
        while i < list.len()
            invariant
                i <= list.len(),
                self.wf(),
                self@ == (RegView {
                    endpoint_call: with_endpoints(
                        old(self)@.endpoint_call,
                        list@,
                        id@,
                        i as int,
                    ),
                    ..old(self)@
                }),
            decreases list.len() - i,
        {
            self.set_endpoint(list[i], id);
            i += 1;
        }
    }
}

fn sip_record(msg: &SipMsg) -> (r: Event)
    ensures
        r@ == sip_event(msg@),
{
    let method = match msg.method {
        Some(k) => Some(k.name().to_owned()),
        None => None,
    };
    let r = Event::SipMsg(
        SipMsgEvt {
            ts_us: msg.ts_us,
            flow: msg.flow,
            is_request: msg.is_request,
            method,
            status: msg.status,
            call_id: msg.call_id.clone(),
            cseq: msg.cseq,
            branch: clone_opt(&msg.branch),
            from_tag: clone_opt(&msg.from_tag),
            to_tag: clone_opt(&msg.to_tag),
            raw: to_vec(msg.raw.as_slice()),
        },
    );
    assert(r@.fields =~= sip_event(msg@).fields);
    r
}

fn append_diags(a: &mut Vec<Diagnostic>, b: Vec<Diagnostic>)
    ensures
        diagnostics::diag_views(final(a)@) == diagnostics::diag_views(old(a)@)
            + diagnostics::diag_views(b@),
{
    let ghost before = a@;
    let ghost more = b@;
    let mut b = b;
    a.append(&mut b);
    assert(diagnostics::diag_views(before + more) =~= diagnostics::diag_views(before)
        + diagnostics::diag_views(more));
}

/// A message gives cause to at most four diagnostics.
proof fn lemma_few_findings(v: CorrView, m: MsgView)
    ensures
        v.findings(m).len() <= 4,
{
}

impl Correlator {
    fn find_mark(&self, id: &str) -> (r: Option<usize>)
        ensures
            match mark_index(self@.invite_rr, id@, 0) {
                Some(i) => r is Some && r->Some_0 == i && i < self.invite_rr@.len(),
                None => r is None,
            },
    {
        let mut i: usize = 0;
        while i < self.invite_rr.len()
            invariant
                i <= self.invite_rr.len(),
                mark_index(self@.invite_rr, id@, 0) == mark_index(
                    self@.invite_rr,
                    id@,
                    i as int,
                ),
            decreases self.invite_rr.len() - i,
        {
            assert(self@.invite_rr[i as int].0 == self.invite_rr@[i as int].0@);
            if str_eq(self.invite_rr[i].0.as_str(), id) {
                return Some(i);
            }
            i += 1;
        }
        None
    }

    fn note_invite(&mut self, msg: &SipMsg)
        requires
            old(self).wf(),
        ensures
            final(self).wf(),
            final(self)@ == old(self)@.with_invite(msg@),
    {
        if !msg.is_initial_invite() {
            return;
        }
        if self.find_mark(msg.call_id.as_str()).is_none() {
            let ghost before = self.invite_rr@;
            self.invite_rr.push((msg.call_id.clone(), msg.record_route_count));
            assert(correlator::mark_views(self.invite_rr@) =~= correlator::mark_views(before).push(
                (msg.call_id@, msg.record_route_count),
            ));
        }
        self.reg.ipstats.add_active(msg.flow.src.ip, 1);
        self.reg.ipstats.add_active(msg.flow.dst.ip, 1);
    }

    fn check_message(&self, msg: &SipMsg, session: &Option<SdpSession>) -> (r: Vec<Diagnostic>)
        requires
            match session_in(msg@) {
                Some(s) => session is Some && session->Some_0@ == s,
                None => session is None,
            },
        ensures
            diagnostics::diag_views(r@) == {
                let public = rules::public_ip(msg.flow.src.ip) || rules::public_ip(
                    msg.flow.dst.ip,
                );
                rules::contact_findings(msg.ts_us, msg.call_id@, msg@, public)
                    + rules::route_findings(
                    msg.ts_us,
                    msg.call_id@,
                    msg@,
                    rr_depth(self@.invite_rr, msg.call_id@),
                ) + match session_in(msg@) {
                    Some(s) => rules::sdp_findings(msg.ts_us, msg.call_id@, s),
                    None => Seq::empty(),
                }
            },
    {
        let public: bool = is_public(msg.flow.src.ip) || is_public(msg.flow.dst.ip);
        let id = msg.call_id.as_str();
        let rr: usize = match self.find_mark(id) {
            Some(i) => {
                assert(self@.invite_rr[i as int].1 == self.invite_rr@[i as int].1);
                self.invite_rr[i].1
            },
            None => 0,
        };
        let mut out = check_contact(msg.ts_us, id, msg, public);
        append_diags(&mut out, check_record_route(msg.ts_us, id, msg, rr));
        match session {
            Some(s) => {
                append_diags(&mut out, check_sdp(msg.ts_us, id, s));
            },
            None => {
                assert(diagnostics::diag_views(out@) + Seq::<DiagView>::empty()
                    =~= diagnostics::diag_views(out@));
            },
        }
        out
    }

    fn take_message(&mut self, msg: &SipMsg, offer: &Option<NegotiatedMedia>)
        requires
            old(self).wf(),
            call::can_apply(old(self)@.call_or_fresh(msg.call_id@), msg@),
            match offer_in(msg@) {
                Some(n) => offer is Some && offer->Some_0@ == n,
                None => offer is None,
            },
        ensures
            final(self).wf(),
            final(self)@ == old(self)@.with_message(msg@),
    {
        let id = msg.call_id.as_str();
        let i: usize = self.reg.call_slot(id);
        let ghost before = self.reg.calls@;
        let ghost reg = self.reg@;
        proof {
            registry::lemma_call_index(old(self)@.reg.calls, msg.call_id@, 0);
            assert(reg.calls[i as int] == before[i as int]@);
            assert(reg.calls[i as int] == old(self)@.call_or_fresh(msg.call_id@));
        }
        let c = &mut self.reg.calls[i];
        absorb(c, msg, offer);
        proof {
            correlator::lemma_calls_update(before, i as int, self.reg.calls@[i as int]);
            assert(self.reg.calls@ =~= before.update(i as int, self.reg.calls@[i as int]));
            lemma_call_after_keeps(reg.calls[i as int], msg@);
        }
        if let Some(n) = offer {
            self.reg.set_endpoints(&n.endpoints, id);
        }
        self.push_pending(sip_record(msg));
    }

    /// Whether the counters have room for a message, with the diagnostics that it
    /// can give cause to.
    pub fn has_sip_room(&self, msg: &SipMsg) -> (r: bool)
        ensures
            r == self@.roomy(msg@),
            r ==> self@.sip_room(msg@),
            r ==> self@.end_room(msg@),
    {
        proof {
            lemma_few_findings(self@, msg@);
        }
        if self.reg.completed == u64::MAX || self.reg.failed == u64::MAX {
            return false;
        }
        match self.reg.find_call(msg.call_id.as_str()) {
            Some(i) => {
                let c = &self.reg.calls[i];
                assert(c@ == self@.reg.calls[i as int]);
                let bytes: u64 = msg.raw.len() as u64;
                c.pkts_sip < u64::MAX && c.bytes <= u64::MAX - bytes && c.warn_count <= u32::MAX - 6
                    && c.critical_count <= u32::MAX - 6
            },
            None => {
                let n: usize = msg.raw.len();
                assert(n <= u64::MAX);
                true
            },
        }
    }

    /// Takes a SIP message. True if it ends its call for the first time, in
    /// which case the end is to be handled next.
    pub fn ingest_sip(&mut self, msg: SipMsg) -> (r: bool)
        requires
            old(self).wf(),
            old(self)@.sip_room(msg@),
        ensures
            final(self).wf(),
            final(self)@ == old(self)@.with_sip(msg@),
            r == old(self)@.ends_call(msg@),
            old(self)@.end_room(msg@) ==> final(self)@.diag_room(msg@.call_id, 2)
                && final(self)@.reg.completed < u64::MAX && final(self)@.reg.failed < u64::MAX,
    {
        self.note_invite(&msg);
        let session = read_session(&msg);
        let ds = self.check_message(&msg, &session);
        let ghost dv = old(self)@.findings(msg@);
        assert(diagnostics::diag_views(ds@) == dv);
        let offer = match &session {
            Some(s) => Some(read_offer(s)),
            None => None,
        };
        self.take_message(&msg, &offer);
        let id = msg.call_id.as_str();
        proof {
            lemma_findings_ids(old(self)@, msg@);
            assert forall|k: int| 0 <= k < ds@.len() implies (#[trigger] ds@[k])@.call_id
                == msg.call_id@ by {
                assert(dv[k] == ds@[k]@);
            }
            lemma_message_room(old(self)@.with_invite(msg@), msg@);
            assert(dv.len() == ds@.len());
            if old(self)@.end_room(msg@) {
                assert(self@.diag_room(msg.call_id@, dv.len() as int + 2));
                lemma_diags_room(self@, dv, dv.len() as int, msg.call_id@, 2);
            }
        }
        self.add_diagnostics(ds, id);
        proof {
            registry::lemma_call_index(self@.reg.calls, msg.call_id@, 0);
        }
        let ended: bool = match self.reg.find_call(id) {
            Some(i) => {
                assert(self@.reg.calls[i as int] == self.reg.calls@[i as int]@);
                self.reg.calls[i].state.is_terminal()
            },
            None => false,
        };
        let done: bool = has_text(&self.terminal_done, id);
        if ended && !done {
            let ghost before = self.terminal_done@;
            self.terminal_done.push(msg.call_id.clone());
            assert(text::texts(self.terminal_done@) =~= text::texts(before).push(msg.call_id@));
            true
        } else {
            false
        }
    }
}

proof fn lemma_call_after_keeps(c: CallView, m: MsgView)
    ensures
        call_after(c, m).call_id == c.call_id,
        call_after(c, m).warn_count == c.warn_count,
        call_after(c, m).critical_count == c.critical_count,
{
}

/// Every finding is about the message's call.
proof fn lemma_findings_ids(v: CorrView, m: MsgView)
    ensures
        forall|k: int|
            0 <= k < v.findings(m).len() ==> (#[trigger] v.findings(m)[k]).call_id == m.call_id,
{
}

proof fn lemma_message_room(v: CorrView, m: MsgView)
    requires
        v.reg.wf(),
    ensures
        ({
            let c = v.call_or_fresh(m.call_id);
            let w = v.with_message(m);
            &&& forall|n: int|
                c.warn_count + n <= u32::MAX && c.critical_count + n <= u32::MAX
                    ==> #[trigger] w.diag_room(m.call_id, n)
        }),
{
    let reg = v.reg.with_call(m.call_id);
    registry::lemma_call_index(v.reg.calls, m.call_id, 0);
    registry::lemma_call_index(reg.calls, m.call_id, 0);
    if registry::call_index(v.reg.calls, m.call_id, 0) is None {
        assert(reg.calls[v.reg.calls.len() as int].call_id == m.call_id);
        let k = registry::call_index(reg.calls, m.call_id, 0)->Some_0;
        if k < v.reg.calls.len() {
            assert(reg.calls[k] == v.reg.calls[k]);
        }
    }
    let i = registry::call_index(reg.calls, m.call_id, 0)->Some_0;
    lemma_call_after_keeps(reg.calls[i], m);
    correlator::lemma_index_after_update(
        reg.calls,
        i,
        call_after(reg.calls[i], m),
        m.call_id,
        0,
    );
}

proof fn lemma_diags_room(v: CorrView, ds: Seq<DiagView>, n: int, id: Seq<char>, more: int)
    requires
        v.reg.wf(),
        0 <= n <= ds.len(),
        v.diag_room(id, n + more),
    ensures
        v.with_diags(ds, n).reg.wf(),
        v.with_diags(ds, n).diag_room(id, more),
        v.with_diags(ds, n).reg.completed == v.reg.completed,
        v.with_diags(ds, n).reg.failed == v.reg.failed,
    decreases n,
{
    if n > 0 {
        lemma_diags_room(v, ds, n - 1, id, more + 1);
        correlator::lemma_diag_keeps(v.with_diags(ds, n - 1), ds[n - 1], id);
        assert(v.with_diags(ds, n - 1).with_diag(ds[n - 1]).diag_room(id, more));
    }
}

// ----------------------------- laws -----------------------------

proof fn lemma_with_types(a: NegotiatedView, b: NegotiatedView, n: int)
    requires
        a.aligned(),
        b.aligned(),
        0 <= n <= b.pts.len(),
    ensures
        ({
            let c = with_types(a, b, n);
            &&& c.aligned()
            &&& c.pts.len() >= a.pts.len()
            &&& c.pts.take(a.pts.len() as int) == a.pts
            &&& c.codecs.take(a.pts.len() as int) == a.codecs
            &&& c.clock_rates.take(a.pts.len() as int) == a.clock_rates
        }),
    decreases n,
{
    let c = with_types(a, b, n);
    if n > 0 {
        lemma_with_types(a, b, n - 1);
        let d = with_types(a, b, n - 1);
        let k = a.pts.len() as int;
        assert(c.pts.take(k) =~= d.pts.take(k));
        assert(c.codecs.take(k) =~= d.codecs.take(k));
        assert(c.clock_rates.take(k) =~= d.clock_rates.take(k));
    } else {
        assert(c.pts.take(a.pts.len() as int) =~= a.pts);
        assert(c.codecs.take(a.pts.len() as int) =~= a.codecs);
        assert(c.clock_rates.take(a.pts.len() as int) =~= a.clock_rates);
    }
}

proof fn lemma_pt_index(pts: Seq<u8>, pt: u8, i: int)
    requires
        0 <= i <= pts.len(),
    ensures
        match media::pt_index(pts, pt, i) {
            Some(k) => i <= k < pts.len() && pts[k] == pt && forall|j: int|
                i <= j < k ==> pts[j] != pt,
            None => forall|j: int| i <= j < pts.len() ==> pts[j] != pt,
        },
    decreases pts.len() - i,
{
    if i < pts.len() && pts[i] != pt {
        lemma_pt_index(pts, pt, i + 1);
    }
}

/// A message keeps the names and clock rates of a call's media in line with its payload
/// types.
pub proof fn law_media_aligned(c: CallView, m: MsgView)
    requires
        c.negotiated.aligned(),
    ensures
        call_after(c, m).negotiated.aligned(),
{
    match offer_in(m) {
        Some(n) => {
            lemma_with_types(c.negotiated, n, n.pts.len() as int);
        },
        None => {},
    }
}

/// What was negotiated for a payload type stands: an answer gives it no other name and
/// no other clock.
pub proof fn law_negotiated_type_stands(a: NegotiatedView, b: NegotiatedView, pt: u8)
    requires
        a.aligned(),
        b.aligned(),
        a.pts.contains(pt),
    ensures
        joined(a, b).codec_for(pt) == a.codec_for(pt),
        joined(a, b).rate_for(pt) == a.rate_for(pt),
{
    let c = joined(a, b);
    lemma_with_types(a, b, b.pts.len() as int);
    lemma_pt_index(a.pts, pt, 0);
    lemma_pt_index(c.pts, pt, 0);
    let k = choose|k: int| 0 <= k < a.pts.len() && a.pts[k] == pt;
    let n = a.pts.len() as int;
    let i = media::pt_index(a.pts, pt, 0)->Some_0;
    let j = media::pt_index(c.pts, pt, 0)->Some_0;
    assert(a.pts[i] == c.pts.take(n)[i]);
    assert(c.pts[i] == pt);
    assert(j <= i);
    assert(a.pts[j] == c.pts.take(n)[j]);
    assert(i == j);
    assert(a.codecs[i] == c.codecs.take(n)[i]);
    assert(a.clock_rates[i] == c.clock_rates.take(n)[i]);
}

/// A payload type that a session maps goes by the name and, unless it is zero, by the
/// clock rate that the session gives it.
pub proof fn law_mapped_type_goes_by_session(s: SessionView, pt: u8)
    requires
        offer_of(s).pts.contains(pt),
    ensures
        sdp::codec_name(s, pt) matches Some(c) ==> c.len() > 0 ==> offer_of(s).codec_for(pt)
            == Some(c),
        sdp::codec_rate(s, pt) > 0 ==> offer_of(s).rate_for(pt) == sdp::codec_rate(s, pt),
{
    let o = offer_of(s);
    lemma_pt_index(o.pts, pt, 0);
}

} // verus!
