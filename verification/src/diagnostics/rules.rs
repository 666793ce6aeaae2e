//! The rules that diagnostics come from.
use crate::decode::sdp::{SdpDirection, SdpSession, SessionView};
use crate::diagnostics;
use crate::diagnostics::{DiagView, Diagnostic, Severity};
use crate::model::addr::{IpAddr, SocketAddr};
use crate::model::addr_text;
use crate::model::addr_text::{push_hex, push_ip, push_socket};
use crate::model::media::{NegotiatedMedia, NegotiatedView};
use crate::model::packet::Flow5Tuple;
use crate::model::sip::{Method, MsgView, SipMsg};
use crate::text;
use crate::text::push_dec;
use vstd::prelude::*;

verus! {

/// A diagnostic.
pub fn diag(ts_us: u64, call_id: &str, sev: Severity, code: &'static str, msg: String) -> (r:
    Diagnostic)
    ensures
        r@ == (DiagView { ts_us, call_id: call_id@, severity: sev, code: code@, message: msg@ }),
{
    Diagnostic { ts_us, call_id: call_id.to_owned(), severity: sev, code, message: msg }
}

// ----------------------------- address ranges -----------------------------

pub open spec fn zero_ip(ip: IpAddr) -> bool {
    ip == IpAddr::V4(0)
}

pub fn is_zero(ip: IpAddr) -> (r: bool)
    ensures
        r == zero_ip(ip),
{
    match ip {
        IpAddr::V4(v) => v == 0,
        IpAddr::V6(_) => false,
    }
}

pub open spec fn v4_link_local(v: u32) -> bool {
    v / 0x1_0000 == 0xa9fe
}

pub open spec fn v4_private(v: u32) -> bool {
    v / 0x100_0000 == 10 || v / 0x10_0000 == 0xac1 || v / 0x1_0000 == 0xc0a8
}

pub open spec fn v4_loopback(v: u32) -> bool {
    v / 0x100_0000 == 127
}

/// fe80::/10.
pub open spec fn v6_link_local(v: u128) -> bool {
    v / 0x40_0000_0000_0000_0000_0000_0000_0000 == 0x3fa
}

/// Multicast (224.0.0.0/4), link-local or broadcast; IPv4 only.
pub open spec fn reserved_ip(ip: IpAddr) -> bool {
    match ip {
        IpAddr::V4(v) => v / 0x1000_0000 == 14 || v4_link_local(v) || v == 0xffff_ffff,
        IpAddr::V6(_) => false,
    }
}

pub fn is_multicast(ip: IpAddr) -> (r: bool)
    ensures
        r == reserved_ip(ip),
{
    match ip {
        IpAddr::V4(v) => v / 0x1000_0000 == 14 || v / 0x1_0000 == 0xa9fe || v == 0xffff_ffff,
        IpAddr::V6(_) => false,
    }
}

/// Private, loopback or link-local.
pub open spec fn private_ip(ip: IpAddr) -> bool {
    match ip {
        IpAddr::V4(v) => v4_private(v) || v4_loopback(v) || v4_link_local(v),
        IpAddr::V6(v) => v == 1 || v6_link_local(v),
    }
}

pub fn is_private(ip: IpAddr) -> (r: bool)
    ensures
        r == private_ip(ip),
{
    match ip {
        IpAddr::V4(v) => v / 0x100_0000 == 10 || v / 0x10_0000 == 0xac1 || v / 0x1_0000 == 0xc0a8
            || v / 0x100_0000 == 127 || v / 0x1_0000 == 0xa9fe,
        IpAddr::V6(v) => v == 1 || v / 0x40_0000_0000_0000_0000_0000_0000_0000 == 0x3fa,
    }
}

/// Reachable from anywhere, as far as its range tells.
pub open spec fn public_ip(ip: IpAddr) -> bool {
    !private_ip(ip) && match ip {
        IpAddr::V4(v) => v != 0 && v != 0xffff_ffff,
        IpAddr::V6(_) => true,
    }
}

pub fn is_public(ip: IpAddr) -> (r: bool)
    ensures
        r == public_ip(ip),
{
    !is_private(ip) && match ip {
        IpAddr::V4(v) => v != 0 && v != 0xffff_ffff,
        IpAddr::V6(_) => true,
    }
}

// ----------------------------- Contact -----------------------------

pub open spec fn unreachable_text(a: SocketAddr) -> Seq<char> {
    "Contact "@ + addr_text::ip_text(a.ip) + seq![':'] + text::dec(a.port as nat)
        + " is unreachable"@
}

pub open spec fn reserved_text(ip: IpAddr) -> Seq<char> {
    "Contact "@ + addr_text::ip_text(ip) + " is in a reserved/multicast range"@
}

pub open spec fn nat_text(ip: IpAddr) -> Seq<char> {
    "Contact "@ + addr_text::ip_text(ip) + " is private but peer appears public (NAT?)"@
}

/// Findings about the Contact address of a message: none without one; one that
/// nobody can reach is critical and the only finding.
pub open spec fn contact_findings(ts_us: u64, call_id: Seq<char>, m: MsgView, peer_public: bool) -> Seq<
    DiagView,
> {
    match m.contact_addr {
        None => Seq::empty(),
        Some(a) => if zero_ip(a.ip) || a.port == 0 {
            seq![
                DiagView {
                    ts_us,
                    call_id,
                    severity: Severity::Critical,
                    code: diagnostics::CONTACT_UNREACHABLE@,
                    message: unreachable_text(a),
                },
            ]
        } else {
            (if reserved_ip(a.ip) {
                seq![
                    DiagView {
                        ts_us,
                        call_id,
                        severity: Severity::Warn,
                        code: diagnostics::CONTACT_MCAST@,
                        message: reserved_text(a.ip),
                    },
                ]
            } else {
                Seq::empty()
            }) + (if private_ip(a.ip) && peer_public {
                seq![
                    DiagView {
                        ts_us,
                        call_id,
                        severity: Severity::Warn,
                        code: diagnostics::CONTACT_PRIVATE_NAT@,
                        message: nat_text(a.ip),
                    },
                ]
            } else {
                Seq::empty()
            })
        },
    }
}

fn ip_message(head: &str, ip: IpAddr, rest: &str) -> (r: String)
    ensures
        r@ == head@ + addr_text::ip_text(ip) + rest@,
{
    let mut s = head.to_owned();
    push_ip(&mut s, ip);
    s.push_str(rest);
    s
}

/// Contact reachability and NAT diagnostics for a SIP message.
pub fn check_contact(ts_us: u64, call_id: &str, msg: &SipMsg, peer_public: bool) -> (r: Vec<
    Diagnostic,
>)
    ensures
        diagnostics::diag_views(r@) == contact_findings(ts_us, call_id@, msg@, peer_public),
{
    let mut out: Vec<Diagnostic> = Vec::new();
    let addr = match msg.contact_addr {
        Some(a) => a,
        None => {
            assert(diagnostics::diag_views(out@) =~= Seq::<DiagView>::empty());
            return out;
        },
    };
    let ip = addr.ip;
    if is_zero(ip) || addr.port == 0 {
        let mut s = "Contact ".to_owned();
        push_ip(&mut s, ip);
        s.push(':');
        push_dec(&mut s, addr.port as u64);
        s.push_str(" is unreachable");
        assert(s@ =~= unreachable_text(addr));
        out.push(
            diag(ts_us, call_id, Severity::Critical, diagnostics::CONTACT_UNREACHABLE, s),
        );
        assert(diagnostics::diag_views(out@) =~= contact_findings(
            ts_us,
            call_id@,
            msg@,
            peer_public,
        ));
        return out;
    }
    if is_multicast(ip) {
        let s = ip_message("Contact ", ip, " is in a reserved/multicast range");
        out.push(diag(ts_us, call_id, Severity::Warn, diagnostics::CONTACT_MCAST, s));
    }
    if is_private(ip) && peer_public {
        let s = ip_message("Contact ", ip, " is private but peer appears public (NAT?)");
        out.push(diag(ts_us, call_id, Severity::Warn, diagnostics::CONTACT_PRIVATE_NAT, s));
    }
    assert(diagnostics::diag_views(out@) =~= contact_findings(ts_us, call_id@, msg@, peer_public));
    out
}

// ----------------------------- Record-Route -----------------------------

/// A request inside a dialog that should follow the recorded route.
pub open spec fn routed_in_dialog(m: MsgView) -> bool {
    m.is_request && m.to_tag is Some && match m.method {
        Some(k) => k == Method::Bye || k == Method::Ack || k == Method::Invite || k == Method::Info
            || k == Method::Notify || k == Method::Refer || k == Method::Update,
        None => false,
    }
}

pub open spec fn route_text(k: Method) -> Seq<char> {
    "in-dialog "@ + k.spec_name() + " has no Route header but INVITE carried Record-Route"@
}

pub open spec fn depth_text(k: Method, routes: usize, recorded: usize) -> Seq<char> {
    "in-dialog "@ + k.spec_name() + " has "@ + text::dec(routes as nat)
        + " Route header(s) but INVITE carried "@ + text::dec(recorded as nat) + " Record-Route"@
}

/// A request inside a dialog follows no route where the INVITE recorded one, or one of
/// another depth.
pub open spec fn route_findings(ts_us: u64, call_id: Seq<char>, m: MsgView, recorded: usize) -> Seq<
    DiagView,
> {
    if !routed_in_dialog(m) || recorded == 0 || m.route_count == recorded {
        Seq::empty()
    } else if m.route_count == 0 {
        seq![
            DiagView {
                ts_us,
                call_id,
                severity: Severity::Warn,
                code: diagnostics::RR_NOT_HONORED@,
                message: route_text(m.method->Some_0),
            },
        ]
    } else {
        seq![
            DiagView {
                ts_us,
                call_id,
                severity: Severity::Warn,
                code: diagnostics::RR_DEPTH_MISMATCH@,
                message: depth_text(m.method->Some_0, m.route_count, recorded),
            },
        ]
    }
}

/// Record-Route honoring: in-dialog requests should carry as many Route headers as the
/// INVITE had Record-Route headers.
pub fn check_record_route(ts_us: u64, call_id: &str, msg: &SipMsg, recorded: usize) -> (r: Vec<
    Diagnostic,
>)
    ensures
        diagnostics::diag_views(r@) == route_findings(ts_us, call_id@, msg@, recorded),
{
    let mut out: Vec<Diagnostic> = Vec::new();
    if msg.is_request && msg.to_tag.is_some() && recorded > 0 && msg.route_count != recorded {
        if let Some(k) = msg.method {
            if k == Method::Bye || k == Method::Ack || k == Method::Invite || k == Method::Info || k
                == Method::Notify || k == Method::Refer || k == Method::Update {
                let mut s = "in-dialog ".to_owned();
                s.push_str(k.name());
                let code = if msg.route_count == 0 {
                    s.push_str(" has no Route header but INVITE carried Record-Route");
                    assert(s@ =~= route_text(k));
                    diagnostics::RR_NOT_HONORED
                } else {
                    s.push_str(" has ");
                    push_dec(&mut s, msg.route_count as u64);
                    s.push_str(" Route header(s) but INVITE carried ");
                    push_dec(&mut s, recorded as u64);
                    s.push_str(" Record-Route");
                    assert(s@ =~= depth_text(k, msg.route_count, recorded));
                    diagnostics::RR_DEPTH_MISMATCH
                };
                out.push(diag(ts_us, call_id, Severity::Warn, code, s));
            }
        }
    }
    assert(diagnostics::diag_views(out@) =~= route_findings(ts_us, call_id@, msg@, recorded));
    out
}

// ----------------------------- SDP and media -----------------------------

/// The session or one of its media lines has the address 0.0.0.0.
pub open spec fn zero_address(s: SessionView) -> bool {
    s.connection_ip == Some(IpAddr::V4(0)) || exists|i: int|
        0 <= i < s.media.len() && #[trigger] s.media[i].connection_ip == Some(IpAddr::V4(0))
}

/// A direction that puts the other side on hold.
pub open spec fn holds(d: Option<SdpDirection>) -> bool {
    d == Some(SdpDirection::SendOnly) || d == Some(SdpDirection::Inactive)
}

/// The session or one of its media lines is marked `sendonly` or `inactive`.
pub open spec fn held(s: SessionView) -> bool {
    holds(s.direction) || exists|i: int|
        0 <= i < s.media.len() && holds(#[trigger] s.media[i].direction)
}

/// The description puts the other side on hold, by an address or by a direction.
pub open spec fn on_hold(s: SessionView) -> bool {
    zero_address(s) || held(s)
}

pub open spec fn sdp_findings(ts_us: u64, call_id: Seq<char>, s: SessionView) -> Seq<DiagView> {
    if on_hold(s) {
        seq![
            DiagView {
                ts_us,
                call_id,
                severity: Severity::Info,
                code: diagnostics::SDP_HOLD@,
                message: if zero_address(s) {
                    "SDP advertises connection IP 0.0.0.0 (hold/misconfig)"@
                } else {
                    "SDP carries hold (sendonly/inactive)"@
                },
            },
        ]
    } else {
        Seq::empty()
    }
}

fn zero_opt(ip: Option<IpAddr>) -> (r: bool)
    ensures
        r == (ip == Some(IpAddr::V4(0))),
{
    match ip {
        Some(a) => is_zero(a),
        None => false,
    }
}

fn is_hold(d: Option<SdpDirection>) -> (r: bool)
    ensures
        r == holds(d),
{
    match d {
        Some(d) => d == SdpDirection::SendOnly || d == SdpDirection::Inactive,
        None => false,
    }
}

fn has_zero_address(sdp: &SdpSession) -> (r: bool)
    ensures
        r == zero_address(sdp@),
{
    if zero_opt(sdp.connection_ip) {
        return true;
    }
    let mut i: usize = 0;
    while i < sdp.media.len()
        invariant
            i <= sdp.media.len(),
            forall|k: int|
                0 <= k < i ==> #[trigger] sdp@.media[k].connection_ip != Some(IpAddr::V4(0)),
        decreases sdp.media.len() - i,
    {
        assert(sdp@.media[i as int] == sdp.media@[i as int]@);
        if zero_opt(sdp.media[i].connection_ip) {
            assert(sdp@.media[i as int].connection_ip == Some(IpAddr::V4(0)));
            return true;
        }
        i += 1;
    }
    false
}

fn has_hold(sdp: &SdpSession) -> (r: bool)
    ensures
        r == held(sdp@),
{
    if is_hold(sdp.direction) {
        return true;
    }
    let mut i: usize = 0;
    while i < sdp.media.len()
        invariant
            i <= sdp.media.len(),
            forall|k: int| 0 <= k < i ==> !holds(#[trigger] sdp@.media[k].direction),
        decreases sdp.media.len() - i,
    {
        assert(sdp@.media[i as int] == sdp.media@[i as int]@);
        if is_hold(sdp.media[i].direction) {
            assert(holds(sdp@.media[i as int].direction));
            return true;
        }
        i += 1;
    }
    false
}

/// SDP-level diagnostics (hold by direction, or by a 0.0.0.0 connection).
pub fn check_sdp(ts_us: u64, call_id: &str, sdp: &SdpSession) -> (r: Vec<Diagnostic>)
    ensures
        diagnostics::diag_views(r@) == sdp_findings(ts_us, call_id@, sdp@),
{
    let mut out: Vec<Diagnostic> = Vec::new();
    if has_zero_address(sdp) {
        let s = "SDP advertises connection IP 0.0.0.0 (hold/misconfig)".to_owned();
        out.push(diag(ts_us, call_id, Severity::Info, diagnostics::SDP_HOLD, s));
    } else if has_hold(sdp) {
        let s = "SDP carries hold (sendonly/inactive)".to_owned();
        out.push(diag(ts_us, call_id, Severity::Info, diagnostics::SDP_HOLD, s));
    }
    assert(diagnostics::diag_views(out@) =~= sdp_findings(ts_us, call_id@, sdp@));
    out
}

/// Those of the first `n` texts that are not empty, with commas between them.
pub open spec fn comma_joined(v: Seq<Seq<char>>, n: nat) -> Seq<char>
    decreases n,
{
    if n == 0 {
        Seq::empty()
    } else {
        let before = comma_joined(v, (n - 1) as nat);
        if v[n - 1].len() == 0 {
            before
        } else if before.len() == 0 {
            v[n - 1]
        } else {
            before + seq![','] + v[n - 1]
        }
    }
}

fn push_commas(s: &mut String, v: &Vec<String>)
    ensures
        final(s)@ == old(s)@ + comma_joined(text::texts(v@), v@.len()),
{
    let ghost start = s@;
    let ghost tv = text::texts(v@);
    let mut i: usize = 0;
    let mut first: bool = true;
    assert(s@ =~= start + comma_joined(tv, 0));
    while i < v.len()
        invariant
            i <= v.len(),
            tv == text::texts(v@),
            first == (comma_joined(tv, i as nat).len() == 0),
            s@ == start + comma_joined(tv, i as nat),
        decreases v.len() - i,
    {
        assert(tv[i as int] == v@[i as int]@);
        if v[i].as_str().unicode_len() > 0 {
            if !first {
                s.push(',');
            }
            s.push_str(v[i].as_str());
            first = false;
        }
        i += 1;
        assert(s@ =~= start + comma_joined(tv, i as nat));
    }
}

pub open spec fn pt_text(ssrc: u32, pt: u8, n: NegotiatedView) -> Seq<char> {
    "RTP ssrc=0x"@ + addr_text::hex(ssrc as nat) + " PT="@ + text::dec(pt as nat)
        + " not in negotiated codecs {"@ + comma_joined(n.codecs, n.codecs.len()) + seq!['}']
}

pub open spec fn pt_finding(ts_us: u64, call_id: Seq<char>, ssrc: u32, pt: u8, n: NegotiatedView) -> Option<
    DiagView,
> {
    if n.pts.len() == 0 || n.pts.contains(pt) {
        None
    } else {
        Some(
            DiagView {
                ts_us,
                call_id,
                severity: Severity::Warn,
                code: diagnostics::RTP_PT_MISMATCH@,
                message: pt_text(ssrc, pt, n),
            },
        )
    }
}

/// An optional diagnostic by its contents.
pub open spec fn opt_diag(o: Option<Diagnostic>) -> Option<DiagView> {
    match o {
        Some(d) => Some(d@),
        None => None,
    }
}

/// RTP payload type must be within the negotiated set, if there is one.
pub fn check_rtp_pt(ts_us: u64, call_id: &str, ssrc: u32, pt: u8, negotiated: &NegotiatedMedia) -> (r:
    Option<Diagnostic>)
    ensures
        opt_diag(r) == pt_finding(ts_us, call_id@, ssrc, pt, negotiated@),
{
    if negotiated.pts.len() == 0 {
        return None;
    }
    let mut i: usize = 0;
    while i < negotiated.pts.len()
        invariant
            i <= negotiated.pts.len(),
            forall|k: int| 0 <= k < i ==> negotiated.pts@[k] != pt,
        decreases negotiated.pts.len() - i,
    {
        if negotiated.pts[i] == pt {
            return None;
        }
        i += 1;
    }
    let mut s = "RTP ssrc=0x".to_owned();
    push_hex(&mut s, ssrc as u64);
    s.push_str(" PT=");
    push_dec(&mut s, pt as u64);
    s.push_str(" not in negotiated codecs {");
    push_commas(&mut s, &negotiated.codecs);
    s.push('}');
    assert(s@ =~= pt_text(ssrc, pt, negotiated@));
    Some(diag(ts_us, call_id, Severity::Warn, diagnostics::RTP_PT_MISMATCH, s))
}

pub open spec fn flow_text(f: Flow5Tuple) -> Seq<char> {
    "RTP flow "@ + addr_text::socket_text(f.src) + "->"@ + addr_text::socket_text(f.dst)
        + " does not match any SDP media endpoint"@
}

pub open spec fn flow_finding(ts_us: u64, call_id: Seq<char>, f: Flow5Tuple, n: NegotiatedView) -> Option<
    DiagView,
> {
    if n.endpoints.len() == 0 || n.endpoints.contains(f.src) || n.endpoints.contains(f.dst) {
        None
    } else {
        Some(
            DiagView {
                ts_us,
                call_id,
                severity: Severity::Warn,
                code: diagnostics::RTP_FLOW_UNEXPECTED@,
                message: flow_text(f),
            },
        )
    }
}

/// RTP flow endpoint must match an SDP-advertised media address, if there is
/// one.
pub fn check_rtp_flow(ts_us: u64, call_id: &str, flow: &Flow5Tuple, negotiated: &NegotiatedMedia) -> (r:
    Option<Diagnostic>)
    ensures
        opt_diag(r) == flow_finding(ts_us, call_id@, *flow, negotiated@),
{
    if negotiated.endpoints.len() == 0 {
        return None;
    }
    let mut i: usize = 0;
    while i < negotiated.endpoints.len()
        invariant
            i <= negotiated.endpoints.len(),
            forall|k: int|
                0 <= k < i ==> negotiated.endpoints@[k] != flow.src && negotiated.endpoints@[k]
                    != flow.dst,
        decreases negotiated.endpoints.len() - i,
    {
        if negotiated.endpoints[i] == flow.src || negotiated.endpoints[i] == flow.dst {
            return None;
        }
        i += 1;
    }
    let mut s = "RTP flow ".to_owned();
    push_socket(&mut s, flow.src);
    s.push_str("->");
    push_socket(&mut s, flow.dst);
    s.push_str(" does not match any SDP media endpoint");
    assert(s@ =~= flow_text(*flow));
    Some(diag(ts_us, call_id, Severity::Warn, diagnostics::RTP_FLOW_UNEXPECTED, s))
}

pub open spec fn pt_change_text(ssrc: u32, from: u8, to: u8) -> Seq<char> {
    "RTP ssrc=0x"@ + addr_text::hex(ssrc as nat) + " payload type changed "@ + text::dec(
        from as nat,
    ) + " -> "@ + text::dec(to as nat)
}

pub open spec fn pt_change_finding(
    ts_us: u64,
    call_id: Seq<char>,
    ssrc: u32,
    pt: u8,
    prev_pt: Option<u8>,
) -> Option<DiagView> {
    match prev_pt {
        Some(p) => if p != pt {
            Some(
                DiagView {
                    ts_us,
                    call_id,
                    severity: Severity::Info,
                    code: diagnostics::RTP_PT_CHANGED@,
                    message: pt_change_text(ssrc, p, pt),
                },
            )
        } else {
            None
        },
        None => None,
    }
}

/// Payload type changed mid-stream.
pub fn check_pt_change(ts_us: u64, call_id: &str, ssrc: u32, pt: u8, prev_pt: Option<u8>) -> (r:
    Option<Diagnostic>)
    ensures
        opt_diag(r) == pt_change_finding(ts_us, call_id@, ssrc, pt, prev_pt),
{
    match prev_pt {
        Some(p) => {
            if p == pt {
                return None;
            }
            let mut s = "RTP ssrc=0x".to_owned();
            push_hex(&mut s, ssrc as u64);
            s.push_str(" payload type changed ");
            push_dec(&mut s, p as u64);
            s.push_str(" -> ");
            push_dec(&mut s, pt as u64);
            assert(s@ =~= pt_change_text(ssrc, p, pt));
            Some(diag(ts_us, call_id, Severity::Info, diagnostics::RTP_PT_CHANGED, s))
        },
        None => None,
    }
}

} // verus!
