//! What a SIP message leaves in the registry: its call, the endpoints that it advertises, its record.
use crate::correlate::call::apply;
use crate::correlate::correlator;
use crate::correlate::correlator::CorrView;
use crate::correlate::media_laws::advertises;
use crate::correlate::signaling;
use crate::correlate::signaling::{
    call_after, joined, mark_index, offer_in, rr_depth, with_endpoint, with_endpoints, with_ip,
    with_types,
};
use crate::diagnostics::rules;
use crate::diagnostics::DiagView;
use crate::model::addr::{IpAddr, SocketAddr};
use crate::model::media::NegotiatedView;
use crate::model::sip::{CallState, CallView, Method, MsgView};
use crate::store::ipstats;
use crate::store::registry;
use crate::store::wire::FieldVal;
use crate::correlate::signaling::body_after;
use crate::correlate::traffic_laws::law_blank_line;
use crate::decode::tcp_reasm::blank_line_at;
use vstd::prelude::*;

verus! {

// ----------------------------- endpoints -----------------------------

proof fn lemma_endpoint_kept(eps: Seq<(SocketAddr, Seq<char>)>, ep: SocketAddr, id: Seq<char>)
    requires
        registry::endpoints_distinct(eps),
    ensures
        registry::endpoints_distinct(with_endpoint(eps, ep, id)),
        with_endpoint(eps, ep, id).contains((ep, id)),
        forall|k: int|
            0 <= k < eps.len() && (#[trigger] eps[k]).0 != ep ==> with_endpoint(
                eps,
                ep,
                id,
            ).contains(eps[k]),
        forall|k: int|
            0 <= k < with_endpoint(eps, ep, id).len() ==> (#[trigger] with_endpoint(
                eps,
                ep,
                id,
            )[k]).0 == ep && with_endpoint(eps, ep, id)[k].1 == id || eps.contains(
                with_endpoint(eps, ep, id)[k],
            ),
{
    registry::lemma_endpoint_index(eps, ep, 0);
    let w = with_endpoint(eps, ep, id);
    let at = match registry::endpoint_index(eps, ep, 0) {
        Some(i) => i,
        None => eps.len() as int,
    };
    assert(w[at] == (ep, id));
    assert forall|k: int| 0 <= k < eps.len() && (#[trigger] eps[k]).0 != ep implies w.contains(
        eps[k],
    ) by {
        assert(w[k] == eps[k]);
    }
}

/// After the endpoints of an offer, each of them belongs to the call that offered it, whoever had it
/// before, and every other endpoint to the call that it belonged to.
pub proof fn law_endpoints_advertised(
    eps: Seq<(SocketAddr, Seq<char>)>,
    list: Seq<SocketAddr>,
    id: Seq<char>,
    n: int,
)
    requires
        registry::endpoints_distinct(eps),
        0 <= n <= list.len(),
    ensures
        registry::endpoints_distinct(with_endpoints(eps, list, id, n)),
        forall|k: int|
            0 <= k < n ==> with_endpoints(eps, list, id, n).contains((#[trigger] list[k], id)),
        forall|k: int|
            0 <= k < eps.len() && !list.take(n).contains((#[trigger] eps[k]).0) ==> with_endpoints(
                eps,
                list,
                id,
                n,
            ).contains(eps[k]),
        forall|k: int|
            0 <= k < with_endpoints(eps, list, id, n).len() ==> {
                let e = #[trigger] with_endpoints(eps, list, id, n)[k];
                list.take(n).contains(e.0) && e.1 == id || eps.contains(e)
            },
    decreases n,
{
    if n > 0 {
        law_endpoints_advertised(eps, list, id, n - 1);
        let v = with_endpoints(eps, list, id, n - 1);
        let w = with_endpoints(eps, list, id, n);
        let ep = list[n - 1];
        lemma_endpoint_kept(v, ep, id);
        let short = list.take(n - 1);
        let long = list.take(n);
        assert(long[n - 1] == ep);
        assert forall|x: SocketAddr| #[trigger] short.contains(x) implies long.contains(x) by {
            let j = choose|j: int| 0 <= j < short.len() && short[j] == x;
            assert(long[j] == x);
        }
        assert forall|k: int| 0 <= k < n implies w.contains((#[trigger] list[k], id)) by {
            if k < n - 1 && list[k] != ep {
                let j = choose|j: int| 0 <= j < v.len() && v[j] == (list[k], id);
                assert(v[j].0 != ep);
            }
        }
        assert forall|k: int|
            0 <= k < eps.len() && !long.contains((#[trigger] eps[k]).0) implies w.contains(
            eps[k],
        ) by {
            assert(!short.contains(eps[k].0));
            let j = choose|j: int| 0 <= j < v.len() && v[j] == eps[k];
            assert(v[j].0 != ep);
        }
        assert forall|k: int| 0 <= k < w.len() implies {
            let e = #[trigger] w[k];
            long.contains(e.0) && e.1 == id || eps.contains(e)
        } by {
            if v.contains(w[k]) {
                let j = choose|j: int| 0 <= j < v.len() && v[j] == w[k];
                assert(v[j] == w[k]);
            }
        }
    } else {
        assert forall|k: int| 0 <= k < eps.len() implies with_endpoints(eps, list, id, n).contains(
            #[trigger] eps[k],
        ) by {
        }
    }
}

/// What a message with an offer leaves: the registry then holds each endpoint of the offer for its
/// call, so that a packet to or from it is counted there.
pub proof fn law_offer_leads_media(v: CorrView, m: MsgView, n: NegotiatedView, k: int)
    requires
        v.reg.wf(),
        offer_in(m) == Some(n),
        0 <= k < n.endpoints.len(),
    ensures
        v.with_message(m).reg.endpoint_call.contains((n.endpoints[k], m.call_id)),
{
    let reg = v.reg.with_call(m.call_id);
    law_endpoints_advertised(
        reg.endpoint_call,
        n.endpoints,
        m.call_id,
        n.endpoints.len() as int,
    );
}

// ----------------------------- offers and answers -----------------------------

proof fn lemma_types_union(a: NegotiatedView, b: NegotiatedView, n: int, pt: u8)
    requires
        0 <= n <= b.pts.len(),
    ensures
        with_types(a, b, n).pts.contains(pt) <==> a.pts.contains(pt) || b.pts.take(n).contains(pt),
    decreases n,
{
    if n > 0 {
        lemma_types_union(a, b, n - 1, pt);
        lemma_types_union(a, b, n - 1, b.pts[n - 1]);
        let c = with_types(a, b, n - 1);
        let x = b.pts[n - 1];
        let long = b.pts.take(n);
        let short = b.pts.take(n - 1);
        assert(long =~= short.push(x));
        assert(long.contains(pt) <==> short.contains(pt) || pt == x) by {
            if short.contains(pt) {
                let j = choose|j: int| 0 <= j < short.len() && short[j] == pt;
                assert(long[j] == pt);
            }
            assert(long[n - 1] == x);
            if long.contains(pt) && pt != x {
                let j = choose|j: int| 0 <= j < long.len() && long[j] == pt;
                assert(short[j] == pt);
            }
        }
        let p = c.pts.push(x);
        assert(p.contains(pt) <==> c.pts.contains(pt) || pt == x) by {
            if c.pts.contains(pt) {
                let j = choose|j: int| 0 <= j < c.pts.len() && c.pts[j] == pt;
                assert(p[j] == pt);
            }
            assert(p[c.pts.len() as int] == x);
            if p.contains(pt) && pt != x {
                let j = choose|j: int| 0 <= j < p.len() && p[j] == pt;
                assert(c.pts[j] == pt);
            }
        }
    } else {
        assert(b.pts.take(0).len() == 0);
    }
}

/// Negotiated are the types of the offer and those of the answer, and the endpoints of both, those of
/// the first first; the first description is taken as it is.
pub proof fn law_answer_joined(a: NegotiatedView, b: NegotiatedView, pt: u8)
    ensures
        a.pts.len() == 0 ==> joined(a, b) == b,
        a.pts.len() > 0 ==> joined(a, b).endpoints == a.endpoints + b.endpoints,
        joined(a, b).pts.contains(pt) <==> a.pts.contains(pt) || b.pts.contains(pt),
{
    lemma_types_union(a, b, b.pts.len() as int, pt);
    assert(b.pts.take(b.pts.len() as int) =~= b.pts);
}

// ----------------------------- the call -----------------------------

/// A message makes of its call what the state machine says; it also leaves the addresses at both ends,
/// its time and the media that it offers. The latest two thousand messages are kept.
pub proof fn law_call_after(c: CallView, m: MsgView)
    ensures
        ({
            let a = apply(c, m);
            let d = call_after(c, m);
            &&& d.state == a.state
            &&& d.outcome == a.outcome
            &&& d.hangup == a.hangup
            &&& d.hangup_by == a.hangup_by
            &&& d.invite_ts == a.invite_ts
            &&& d.trying_ts == a.trying_ts
            &&& d.ringing_ts == a.ringing_ts
            &&& d.answer_ts == a.answer_ts
            &&& d.bye_ts == a.bye_ts
            &&& d.end_ts == a.end_ts
            &&& d.pkts_sip == a.pkts_sip
            &&& d.last_ts_us == m.ts_us
            &&& d.ips.contains(m.flow.src.ip)
            &&& d.ips.contains(m.flow.dst.ip)
            &&& forall|ip: IpAddr| #[trigger] c.ips.contains(ip) ==> d.ips.contains(ip)
            &&& d.messages.len() <= 2000
            &&& d.messages.len() > 0 && d.messages.last() == m
            &&& c.messages.len() < 2000 ==> d.messages == c.messages.push(m)
            &&& offer_in(m) is None ==> d.negotiated == c.negotiated
            &&& (m.is_request && m.method == Some(Method::Invite) && m.to_tag is None)
                ==> d.active_ips == c.active_ips + seq![m.flow.src.ip, m.flow.dst.ip]
            &&& !(m.is_request && m.method == Some(Method::Invite) && m.to_tag is None)
                ==> d.active_ips == c.active_ips
        }),
{
    let x = with_ip(c.ips, m.flow.src.ip);
    lemma_ip_noted(c.ips, m.flow.src.ip);
    lemma_ip_noted(x, m.flow.dst.ip);
    assert(call_after(c, m).ips == with_ip(x, m.flow.dst.ip));
    assert(c.active_ips.push(m.flow.src.ip).push(m.flow.dst.ip) =~= c.active_ips + seq![
        m.flow.src.ip,
        m.flow.dst.ip,
    ]);
    let all = c.messages.push(m);
    assert(apply(c, m).messages == all);
    if all.len() > 2000 {
        assert(all.skip(all.len() - 2000).last() == m);
    }
}

proof fn lemma_ip_noted(v: Seq<IpAddr>, ip: IpAddr)
    ensures
        with_ip(v, ip).contains(ip),
        forall|x: IpAddr| #[trigger] v.contains(x) ==> with_ip(v, ip).contains(x),
{
    let w = v.push(ip);
    assert(w[v.len() as int] == ip);
    assert forall|x: IpAddr| #[trigger] v.contains(x) implies w.contains(x) by {
        let i = choose|i: int| 0 <= i < v.len() && v[i] == x;
        assert(w[i] == x);
    }
}

/// A message changes the call that its Call-ID names, which is new if there was none, and no other;
/// it is logged, and so are its findings.
pub proof fn law_message_to_its_call(v: CorrView, m: MsgView, i: int)
    requires
        v.reg.wf(),
        0 <= i < v.reg.calls.len(),
    ensures
        v.reg.calls[i].call_id != m.call_id ==> v.with_message(m).reg.calls[i] == v.reg.calls[i],
        v.reg.calls[i].call_id == m.call_id ==> v.with_message(m).reg.calls[i] == call_after(
            v.reg.calls[i],
            m,
        ) && v.with_message(m).reg.calls.len() == v.reg.calls.len(),
        v.with_message(m).reg.streams == v.reg.streams,
{
    registry::lemma_call_index(v.reg.calls, m.call_id, 0);
    let reg = v.reg.with_call(m.call_id);
    registry::lemma_call_index(reg.calls, m.call_id, 0);
    if registry::call_index(v.reg.calls, m.call_id, 0) is None {
        let last = v.reg.calls.len() as int;
        assert(reg.calls[last].call_id == m.call_id);
        let j = registry::call_index(reg.calls, m.call_id, 0)->Some_0;
        if j < last {
            assert(v.reg.calls[j].call_id == m.call_id);
        }
    }
}

/// A message of an unknown call opens one.
pub proof fn law_message_opens_call(v: CorrView, m: MsgView)
    requires
        forall|i: int| 0 <= i < v.reg.calls.len() ==> (#[trigger] v.reg.calls[i]).call_id
            != m.call_id,
    ensures
        v.with_message(m).reg.calls.len() == v.reg.calls.len() + 1,
        v.with_message(m).reg.calls.last() == call_after(CallView::fresh(m.call_id), m),
        v.with_message(m).reg.calls.last().call_id == m.call_id,
{
    registry::lemma_call_index(v.reg.calls, m.call_id, 0);
    let reg = v.reg.with_call(m.call_id);
    registry::lemma_call_index(reg.calls, m.call_id, 0);
    let last = v.reg.calls.len() as int;
    assert(reg.calls[last].call_id == m.call_id);
    let j = registry::call_index(reg.calls, m.call_id, 0)->Some_0;
    if j < last {
        assert(v.reg.calls[j].call_id == m.call_id);
    }
}

/// The log keeps of a message its flow, its request or response line, its dialog and its bytes.
pub proof fn law_message_logged(v: CorrView, m: MsgView)
    ensures
        ({
            let e = v.with_message(m).pending_events;
            &&& e.len() == v.pending_events.len() + 1
            &&& e.drop_last() == v.pending_events
            &&& e.last().ty == 1
            &&& e.last().ts_us == m.ts_us
            &&& e.last().fields.len() == 10
            &&& e.last().fields[0] == FieldVal::Flow(m.flow)
            &&& e.last().fields[1] == FieldVal::Flag(m.is_request)
            &&& m.method is None ==> e.last().fields[2] == FieldVal::OptText(None)
            &&& m.method matches Some(k) ==> e.last().fields[2] == FieldVal::OptText(
                Some(k.spec_name()),
            )
            &&& e.last().fields[3] == FieldVal::OptU16(m.status)
            &&& e.last().fields[4] == FieldVal::Text(m.call_id)
            &&& e.last().fields[5] == FieldVal::OptU32(m.cseq)
            &&& e.last().fields[6] == FieldVal::OptText(m.branch)
            &&& e.last().fields[7] == FieldVal::OptText(m.from_tag)
            &&& e.last().fields[8] == FieldVal::OptText(m.to_tag)
            &&& e.last().fields[9] == FieldVal::Blob(m.raw)
        }),
{
    assert(v.with_message(m).pending_events.drop_last() =~= v.pending_events);
}

// ----------------------------- the INVITE -----------------------------

proof fn lemma_mark(v: Seq<(Seq<char>, usize)>, id: Seq<char>, i: int)
    requires
        0 <= i <= v.len(),
    ensures
        match mark_index(v, id, i) {
            Some(k) => i <= k < v.len() && v[k].0 == id && forall|j: int|
                i <= j < k ==> (#[trigger] v[j]).0 != id,
            None => forall|j: int| i <= j < v.len() ==> (#[trigger] v[j]).0 != id,
        },
    decreases v.len() - i,
{
    if i < v.len() && v[i].0 != id {
        lemma_mark(v, id, i + 1);
    }
}

/// The depth of a route is what the first initial INVITE of the call recorded; a later one does not
/// change it, and no other message does. A call without one has none.
pub proof fn law_route_depth(v: CorrView, m: MsgView, id: Seq<char>)
    ensures
        (forall|k: int| 0 <= k < v.invite_rr.len() ==> (#[trigger] v.invite_rr[k]).0 != id)
            ==> rr_depth(v.invite_rr, id) == 0,
        (forall|k: int| 0 <= k < v.invite_rr.len() ==> (#[trigger] v.invite_rr[k]).0 != m.call_id)
            && m.is_request && m.method == Some(Method::Invite) && m.to_tag is None ==> rr_depth(
            v.with_invite(m).invite_rr,
            m.call_id,
        ) == m.record_route_count,
        (exists|k: int| 0 <= k < v.invite_rr.len() && (#[trigger] v.invite_rr[k]).0 == m.call_id)
            ==> v.with_invite(m).invite_rr == v.invite_rr,
        !(m.is_request && m.method == Some(Method::Invite) && m.to_tag is None) ==> v.with_invite(m)
            == v,
{
    lemma_mark(v.invite_rr, id, 0);
    lemma_mark(v.invite_rr, m.call_id, 0);
    let w = v.with_invite(m).invite_rr;
    lemma_mark(w, m.call_id, 0);
    if mark_index(v.invite_rr, m.call_id, 0) is None && m.is_initial_invite() {
        let last = v.invite_rr.len() as int;
        assert(w[last].0 == m.call_id);
        let j = mark_index(w, m.call_id, 0)->Some_0;
        if j < last {
            assert(v.invite_rr[j].0 == m.call_id);
        }
    }
}

/// An initial INVITE counts as one more concurrent call for each end of its flow, and for no one else.
pub proof fn law_invite_counts_for_both_ends(v: CorrView, m: MsgView, ip: IpAddr)
    requires
        m.is_request,
        m.method == Some(Method::Invite),
        m.to_tag is None,
        m.flow.src.ip != m.flow.dst.ip,
        ipstats::entry_of(v.reg.ipstats, ip).active_calls < u32::MAX,
    ensures
        ({
            let a = ipstats::entry_of(v.reg.ipstats, ip);
            let b = ipstats::entry_of(v.with_invite(m).reg.ipstats, ip);
            &&& ip == m.flow.src.ip || ip == m.flow.dst.ip ==> b.active_calls == a.active_calls + 1
            &&& ip != m.flow.src.ip && ip != m.flow.dst.ip ==> b == a
        }),
{
}

// ----------------------------- findings and the end -----------------------------

/// The peer counts as public where either end of the flow is; the route is held against what the
/// INVITE of the call recorded, this message included.
pub proof fn law_message_findings(v: CorrView, m: MsgView)
    ensures
        signaling::session_in(m) is None ==> v.findings(m) == rules::contact_findings(
            m.ts_us,
            m.call_id,
            m,
            rules::public_ip(m.flow.src.ip) || rules::public_ip(m.flow.dst.ip),
        ) + rules::route_findings(
            m.ts_us,
            m.call_id,
            m,
            rr_depth(v.with_invite(m).invite_rr, m.call_id),
        ),
        signaling::session_in(m) matches Some(s) ==> v.findings(m) == rules::contact_findings(
            m.ts_us,
            m.call_id,
            m,
            rules::public_ip(m.flow.src.ip) || rules::public_ip(m.flow.dst.ip),
        ) + rules::route_findings(
            m.ts_us,
            m.call_id,
            m,
            rr_depth(v.with_invite(m).invite_rr, m.call_id),
        ) + rules::sdp_findings(m.ts_us, m.call_id, s),
{
}

proof fn lemma_diags_done(v: CorrView, ds: Seq<DiagView>, n: int, id: Seq<char>)
    requires
        v.reg.wf(),
        0 <= n <= ds.len(),
    ensures
        v.with_diags(ds, n).reg.wf(),
        v.with_diags(ds, n).terminal_done == v.terminal_done,
        v.with_diags(ds, n).call_or_fresh(id).state == v.call_or_fresh(id).state,
    decreases n,
{
    if n > 0 {
        lemma_diags_done(v, ds, n - 1, id);
        let w = v.with_diags(ds, n - 1);
        correlator::lemma_diag_keeps(w, ds[n - 1], id);
        registry::lemma_call_index(w.reg.calls, id, 0);
    }
}

proof fn lemma_message_wf(v: CorrView, m: MsgView)
    requires
        v.reg.wf(),
    ensures
        v.with_invite(m).with_message(m).reg.wf(),
        v.with_invite(m).with_message(m).terminal_done == v.terminal_done,
        v.with_invite(m).with_message(m).call_or_fresh(m.call_id).state == apply(
            v.call_or_fresh(m.call_id),
            m,
        ).state,
{
    let w = v.with_invite(m);
    assert(w.reg.calls == v.reg.calls);
    registry::lemma_call_index(w.reg.calls, m.call_id, 0);
    let reg = w.reg.with_call(m.call_id);
    registry::lemma_call_index(reg.calls, m.call_id, 0);
    let last = w.reg.calls.len() as int;
    if registry::call_index(w.reg.calls, m.call_id, 0) is None {
        assert(reg.calls[last].call_id == m.call_id);
    }
    let i = registry::call_index(reg.calls, m.call_id, 0)->Some_0;
    if registry::call_index(w.reg.calls, m.call_id, 0) is None && i < last {
        assert(w.reg.calls[i].call_id == m.call_id);
    }
    let c = call_after(reg.calls[i], m);
    assert(c.call_id == m.call_id);
    correlator::lemma_index_after_update(reg.calls, i, c, m.call_id, 0);
    if let Some(n) = offer_in(m) {
        law_endpoints_advertised(
            reg.endpoint_call,
            n.endpoints,
            m.call_id,
            n.endpoints.len() as int,
        );
    }
    assert(registry::ids_distinct(reg.calls));
    assert(registry::ids_distinct(reg.calls.update(i, c)));
}

/// A message ends its call where it leaves it completed, failed or canceled and the end of the call
/// has not been handled; then it has been, and no further message of the call ends it again.
pub proof fn law_call_ends_once(v: CorrView, m: MsgView, next: MsgView)
    requires
        v.reg.wf(),
    ensures
        v.ends_call(m) <==> ({
            let s = apply(v.call_or_fresh(m.call_id), m).state;
            (s == CallState::Completed || s == CallState::Failed || s == CallState::Canceled)
                && !v.terminal_done.contains(m.call_id)
        }),
        v.ends_call(m) && next.call_id == m.call_id ==> !v.with_sip(m).ends_call(next),
{
    let ds = v.findings(m);
    let w = v.with_invite(m).with_message(m);
    lemma_message_wf(v, m);
    lemma_diags_done(w, ds, ds.len() as int, m.call_id);
    if v.ends_call(m) && next.call_id == m.call_id {
        let x = v.with_sip(m);
        assert(x.terminal_done == v.terminal_done.push(m.call_id));
        assert(x.terminal_done[v.terminal_done.len() as int] == m.call_id);
        lemma_message_wf(x, next);
        let es = x.findings(next);
        lemma_diags_done(x.with_invite(next).with_message(next), es, es.len() as int, m.call_id);
    }
}

/// The body of a message is what stands behind its first empty line; without one it has none.
pub proof fn law_body(raw: Seq<u8>, k: int)
    ensures
        0 <= k && k + 4 <= raw.len() && raw[k] == 13 && raw[k + 1] == 10 && raw[k + 2] == 13 && raw[k
            + 3] == 10 && (forall|x: int| 0 <= x < k ==> !#[trigger] blank_line_at(raw, x))
            ==> body_after(raw) == raw.subrange(k + 4, raw.len() as int),
        (forall|x: int| 0 <= x ==> !#[trigger] blank_line_at(raw, x)) ==> body_after(raw).len() == 0,
{
    law_blank_line(raw, 0, k);
    if 0 <= k && k + 4 <= raw.len() {
        assert(raw.skip(k + 4) =~= raw.subrange(k + 4, raw.len() as int));
    }
}

} // verus!
