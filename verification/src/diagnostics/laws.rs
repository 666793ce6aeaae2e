//! When each finding is made, and what it says.
use crate::correlate::call_laws::{law_same_word, same_letters};
use crate::decode::sdp::{SdpDirection, SessionView};
use crate::diagnostics::rules;
use crate::diagnostics::rules::{
    contact_findings, flow_finding, on_hold, private_ip, pt_change_finding, pt_finding, public_ip,
    reserved_ip, route_findings, sdp_findings, zero_ip,
};
use crate::diagnostics::{DiagView, Severity};
use crate::model::addr::{IpAddr, SocketAddr};
use crate::model::addr_text;
use crate::model::media::NegotiatedView;
use crate::model::packet::Flow5Tuple;
use crate::model::sip::{Method, MsgView};
use crate::text;
use vstd::prelude::*;

verus! {

// ----------------------------- address ranges -----------------------------

/// The IPv4 address a.b.c.d.
pub open spec fn dotted(a: u8, b: u8, c: u8, d: u8) -> IpAddr {
    IpAddr::V4((0x100_0000 * a + 0x1_0000 * b + 0x100 * c + d) as u32)
}

/// Private are 10/8, 172.16/12, 192.168/16, the loopback 127/8 and the link-local 169.254/16; reserved
/// are the multicast range 224/4, link-local and broadcast. Public is what is not private, zero
/// or broadcast.
pub proof fn law_v4_ranges(a: u8, b: u8, c: u8, d: u8)
    ensures
        private_ip(dotted(a, b, c, d)) <==> (a == 10 || a == 172 && 16 <= b <= 31 || a == 192 && b
            == 168 || a == 127 || a == 169 && b == 254),
        reserved_ip(dotted(a, b, c, d)) <==> (224 <= a <= 239 || a == 169 && b == 254 || a == 255 && b
            == 255 && c == 255 && d == 255),
        zero_ip(dotted(a, b, c, d)) <==> (a == 0 && b == 0 && c == 0 && d == 0),
        public_ip(dotted(a, b, c, d)) <==> !private_ip(dotted(a, b, c, d)) && !(a == 0 && b == 0 && c
            == 0 && d == 0) && !(a == 255 && b == 255 && c == 255 && d == 255),
{
    let v = (0x100_0000 * a + 0x1_0000 * b + 0x100 * c + d) as u32;
    assert(v / 0x100_0000 == a);
    assert(v / 0x1_0000 == 256 * a + b);
    assert(v / 0x10_0000 == 16 * a + b / 16);
    assert(v / 0x1000_0000 == a / 16);
}

/// Of IPv6, the loopback and fe80::/10 are private, and everything else is public; nothing is
/// reserved or zero.
pub proof fn law_v6_ranges(v: u128)
    ensures
        private_ip(IpAddr::V6(v)) <==> (v == 1 || 0xfe80 <= v / 0x1_0000_0000_0000_0000_0000_0000_0000
            <= 0xfebf),
        public_ip(IpAddr::V6(v)) <==> !private_ip(IpAddr::V6(v)),
        !reserved_ip(IpAddr::V6(v)),
        !zero_ip(IpAddr::V6(v)),
{
}

// ----------------------------- Contact -----------------------------

/// What a finding is about.
pub open spec fn finding(d: DiagView, ts: u64, id: Seq<char>, sev: Severity, code: Seq<char>) -> bool {
    d.ts_us == ts && d.call_id == id && d.severity == sev && d.code == code
}

/// A Contact with the address 0.0.0.0 or the port 0 is unreachable, critically, and nothing else is
/// said of it.
pub proof fn law_contact_unreachable(ts: u64, id: Seq<char>, m: MsgView, peer_public: bool)
    ensures
        m.contact_addr is None ==> contact_findings(ts, id, m, peer_public).len() == 0,
        m.contact_addr matches Some(a) ==> (a.ip == IpAddr::V4(0) || a.port == 0) ==> {
            let ds = contact_findings(ts, id, m, peer_public);
            &&& ds.len() == 1
            &&& finding(ds[0], ts, id, Severity::Critical, "CONTACT_UNREACHABLE"@)
            &&& ds[0].message == "Contact "@ + addr_text::ip_text(a.ip) + ":"@ + text::dec(
                a.port as nat,
            ) + " is unreachable"@
        },
{
    reveal_strlit(":");
    assert(":"@ =~= seq![':']);
}

/// A reserved address is a warning, a private one is a warning where the peer is public, and both
/// may be said of one address, in this order.
pub proof fn law_contact_ranges(ts: u64, id: Seq<char>, m: MsgView, peer_public: bool, a: SocketAddr)
    requires
        m.contact_addr == Some(a),
        a.ip != IpAddr::V4(0),
        a.port != 0,
    ensures
        ({
            let ds = contact_findings(ts, id, m, peer_public);
            let r = reserved_ip(a.ip);
            let p = private_ip(a.ip) && peer_public;
            &&& ds.len() == (if r {
                1int
            } else {
                0int
            }) + (if p {
                1int
            } else {
                0int
            })
            &&& r ==> finding(ds[0], ts, id, Severity::Warn, "CONTACT_MCAST"@) && ds[0].message
                == "Contact "@ + addr_text::ip_text(a.ip) + " is in a reserved/multicast range"@
            &&& p ==> finding(ds.last(), ts, id, Severity::Warn, "CONTACT_PRIVATE_NAT"@)
                && ds.last().message == "Contact "@ + addr_text::ip_text(a.ip)
                + " is private but peer appears public (NAT?)"@
        }),
{
}

// ----------------------------- Record-Route -----------------------------

/// A request within a dialog that has no Route header, or another number of them than the INVITE
/// recorded, is a warning; a request outside a dialog, a response, and a call whose INVITE recorded
/// no route give none.
pub proof fn law_route(ts: u64, id: Seq<char>, m: MsgView, recorded: usize, k: Method)
    requires
        m.method == Some(k),
    ensures
        ({
            let ds = route_findings(ts, id, m, recorded);
            let due = m.is_request && m.to_tag is Some && recorded > 0 && (k == Method::Bye || k
                == Method::Ack || k == Method::Invite || k == Method::Info || k == Method::Notify || k
                == Method::Refer || k == Method::Update);
            &&& !due || m.route_count == recorded ==> ds.len() == 0
            &&& due && m.route_count == 0 ==> ds.len() == 1 && finding(
                ds[0],
                ts,
                id,
                Severity::Warn,
                "RR_NOT_HONORED"@,
            ) && ds[0].message == "in-dialog "@ + k.spec_name()
                + " has no Route header but INVITE carried Record-Route"@
            &&& due && m.route_count != 0 && m.route_count != recorded ==> ds.len() == 1 && finding(
                ds[0],
                ts,
                id,
                Severity::Warn,
                "RR_DEPTH_MISMATCH"@,
            ) && ds[0].message == "in-dialog "@ + k.spec_name() + " has "@ + text::dec(
                m.route_count as nat,
            ) + " Route header(s) but INVITE carried "@ + text::dec(recorded as nat)
                + " Record-Route"@
        }),
{
}

/// Without a method nothing is said of the route.
pub proof fn law_route_needs_method(ts: u64, id: Seq<char>, m: MsgView, recorded: usize)
    requires
        m.method is None,
    ensures
        route_findings(ts, id, m, recorded).len() == 0,
{
}

// ----------------------------- media -----------------------------

/// The address 0.0.0.0, in the session or in one of its media lines, is a hold, and so is `sendonly`
/// or `inactive`; nothing else is. The address is named first.
pub proof fn law_hold(ts: u64, id: Seq<char>, s: SessionView)
    ensures
        ({
            let ds = sdp_findings(ts, id, s);
            let zero = s.connection_ip == Some(IpAddr::V4(0)) || exists|i: int|
                0 <= i < s.media.len() && #[trigger] s.media[i].connection_ip == Some(
                    IpAddr::V4(0),
                );
            let marked = |d: Option<SdpDirection>|
                d == Some(SdpDirection::SendOnly) || d == Some(SdpDirection::Inactive);
            let held = marked(s.direction) || exists|i: int|
                0 <= i < s.media.len() && marked((#[trigger] s.media[i]).direction);
            &&& on_hold(s) <==> zero || held
            &&& !zero && !held ==> ds.len() == 0
            &&& zero || held ==> ds.len() == 1 && finding(
                ds[0],
                ts,
                id,
                Severity::Info,
                "SDP_HOLD"@,
            )
            &&& zero ==> ds[0].message == "SDP advertises connection IP 0.0.0.0 (hold/misconfig)"@
            &&& held && !zero ==> ds[0].message == "SDP carries hold (sendonly/inactive)"@
        }),
{
    let marked = |d: Option<SdpDirection>|
        d == Some(SdpDirection::SendOnly) || d == Some(SdpDirection::Inactive);
    assert forall|i: int| 0 <= i < s.media.len() implies crate::diagnostics::rules::holds(
        #[trigger] s.media[i].direction,
    ) == marked(s.media[i].direction) by {
    }
    if exists|i: int| 0 <= i < s.media.len() && marked((#[trigger] s.media[i]).direction) {
        let i = choose|i: int|
            0 <= i < s.media.len() && marked((#[trigger] s.media[i]).direction);
        assert(crate::diagnostics::rules::holds(s.media[i].direction));
    }
}

/// A payload type that was not negotiated is a warning, where any was negotiated.
pub proof fn law_payload_type(ts: u64, id: Seq<char>, ssrc: u32, pt: u8, n: NegotiatedView)
    ensures
        pt_finding(ts, id, ssrc, pt, n) is Some <==> n.pts.len() > 0 && (forall|i: int|
            0 <= i < n.pts.len() ==> #[trigger] n.pts[i] != pt),
        pt_finding(ts, id, ssrc, pt, n) matches Some(d) ==> finding(
            d,
            ts,
            id,
            Severity::Warn,
            "RTP_PT_MISMATCH"@,
        ),
{
}

/// A flow with neither end among the advertised endpoints is a warning, where any was advertised.
pub proof fn law_flow(ts: u64, id: Seq<char>, f: Flow5Tuple, n: NegotiatedView)
    ensures
        flow_finding(ts, id, f, n) is Some <==> n.endpoints.len() > 0 && (forall|i: int|
            0 <= i < n.endpoints.len() ==> #[trigger] n.endpoints[i] != f.src && n.endpoints[i]
                != f.dst),
        flow_finding(ts, id, f, n) matches Some(d) ==> finding(
            d,
            ts,
            id,
            Severity::Warn,
            "RTP_FLOW_UNEXPECTED"@,
        ) && d.message == "RTP flow "@ + addr_text::socket_text(f.src) + "->"@
            + addr_text::socket_text(f.dst) + " does not match any SDP media endpoint"@,
{
    if flow_finding(ts, id, f, n) is Some {
        assert forall|i: int| 0 <= i < n.endpoints.len() implies #[trigger] n.endpoints[i] != f.src
            && n.endpoints[i] != f.dst by {
            assert(n.endpoints.contains(n.endpoints[i]));
        }
    }
}

/// A payload type other than that of the packet before is noted; the first packet changes nothing.
pub proof fn law_payload_type_changed(ts: u64, id: Seq<char>, ssrc: u32, pt: u8, prev: Option<u8>)
    ensures
        pt_change_finding(ts, id, ssrc, pt, prev) is Some <==> prev is Some && prev->Some_0 != pt,
        pt_change_finding(ts, id, ssrc, pt, prev) matches Some(d) ==> finding(
            d,
            ts,
            id,
            Severity::Info,
            "RTP_PT_CHANGED"@,
        ) && d.message == "RTP ssrc=0x"@ + addr_text::hex(ssrc as nat) + " payload type changed "@
            + text::dec(prev->Some_0 as nat) + " -> "@ + text::dec(pt as nat),
{
}

// ----------------------------- severity -----------------------------

/// The severities rank from information over warnings to critical findings; a level names one in any
/// case of letters, and an unknown one means warnings.
pub proof fn law_severity(t: Seq<char>)
    ensures
        Severity::Info.spec_rank() < Severity::Warn.spec_rank() < Severity::Critical.spec_rank(),
        same_letters(t, "critical"@) || same_letters(t, "crit"@) ==> Severity::of_level(t)
            == Severity::Critical,
        same_letters(t, "info"@) ==> Severity::of_level(t) == Severity::Info,
        !same_letters(t, "critical"@) && !same_letters(t, "crit"@) && !same_letters(t, "info"@)
            ==> Severity::of_level(t) == Severity::Warn,
{
    law_same_word(t, "critical"@);
    law_same_word(t, "crit"@);
    law_same_word(t, "info"@);
    reveal_strlit("critical");
    reveal_strlit("crit");
    reveal_strlit("info");
    if same_letters(t, "info"@) && same_letters(t, "crit"@) {
        assert(crate::correlate::call_laws::alike(t[0], 'i'));
        assert(crate::correlate::call_laws::alike(t[0], 'c'));
    }
}

/// What the findings say.
pub proof fn law_finding_texts(
    a: SocketAddr,
    k: Method,
    routes: usize,
    recorded: usize,
    ssrc: u32,
    p: u8,
    q: u8,
    f: Flow5Tuple,
)
    ensures
        rules::unreachable_text(a) == "Contact "@ + addr_text::ip_text(a.ip) + seq![':']
            + text::dec(a.port as nat) + " is unreachable"@,
        rules::route_text(k) == "in-dialog "@ + k.spec_name()
            + " has no Route header but INVITE carried Record-Route"@,
        rules::depth_text(k, routes, recorded) == "in-dialog "@ + k.spec_name() + " has "@
            + text::dec(routes as nat) + " Route header(s) but INVITE carried "@ + text::dec(
            recorded as nat,
        ) + " Record-Route"@,
        rules::pt_change_text(ssrc, p, q) == "RTP ssrc=0x"@ + addr_text::hex(ssrc as nat)
            + " payload type changed "@ + text::dec(p as nat) + " -> "@ + text::dec(q as nat),
        rules::flow_text(f) == "RTP flow "@ + addr_text::socket_text(f.src) + "->"@
            + addr_text::socket_text(f.dst) + " does not match any SDP media endpoint"@,
{
}

} // verus!
