//! Where a datagram goes, what is learned of relays, and what a finished call adds.
use crate::correlate::call_laws::{law_same_word, same_letters};
use crate::correlate::correlator::CorrView;
use crate::correlate::frames::{media_work, parts_work, pieces_work, stun_work, udp_work, WorkView};
use crate::correlate::history::HistoryView;
use crate::correlate::route::{accepts_invite, leg_streams, route_of, HeatEntry};
use crate::correlate::stream::StreamView;
use crate::correlate::turn;
use crate::correlate::turn::{alloc_index, Allocation, Encap, Leg, TurnView};
use crate::decode::rtcp;
use crate::decode::rtp;
use crate::decode::rtp::MediaKind;
use crate::decode::sip;
use crate::decode::stun;
use crate::decode::stun::{StunClass, StunView};
use crate::decode::tcp_reasm;
use crate::decode::tcp_reasm::{
    blank_line_at, blank_line_from, content_length, frames, length_in, TcpReassembler,
};
use crate::diagnostics::Severity;
use crate::model::addr::SocketAddr;
use crate::model::addr_laws::lacks;
use crate::model::addr_text;
use crate::model::media::SummaryView;
use crate::model::packet::{Flow5Tuple, Proto};
use crate::model::sip::{CallState, CallView, MsgView};
use crate::octets;
use crate::store::registry;
use crate::text;
use crate::text_laws::{law_cut, law_number};
use crate::correlate::route::imbalance_text;
use vstd::prelude::*;

verus! {

// ----------------------------- routing -----------------------------

/// SIP goes first, whatever else the bytes could be; where media is not wanted nothing else counts. RTP and
/// RTCP come before STUN, and STUN before ChannelData, which counts where it is all there.
pub proof fn law_route(b: Seq<u8>, no_media: bool)
    ensures
        route_of(b, no_media) is Sip <==> sip::begins_as_sip(b),
        no_media && !sip::begins_as_sip(b) ==> route_of(b, no_media) is Ignore,
        !no_media && !sip::begins_as_sip(b) ==> {
            &&& route_of(b, no_media) is Rtp <==> rtp::kind_of(b) == MediaKind::Rtp
            &&& route_of(b, no_media) is Rtcp <==> rtp::kind_of(b) == MediaKind::Rtcp
            &&& route_of(b, no_media) is Stun <==> rtp::kind_of(b) == MediaKind::Other
                && stun::looks_like_stun(b)
            &&& route_of(b, no_media) is ChannelData <==> rtp::kind_of(b) == MediaKind::Other
                && !stun::looks_like_stun(b) && b.len() >= 4 && 0x40 <= b[0] <= 0x7f && 4 + 256 * b[2]
                + b[3] <= b.len()
        },
{
    reveal_with_fuel(octets::be_value, 3);
}

/// An RTP packet is one piece of work, with its header and its whole length; the members of an RTCP packet
/// are one each, in order; other bytes are none.
pub proof fn law_media_work(
    ts: u64,
    flow: Flow5Tuple,
    b: Seq<u8>,
    encap: Encap,
    leg: Option<Leg>,
    k: int,
)
    requires
        b.len() <= usize::MAX,
    ensures
        rtp::kind_of(b) == MediaKind::Rtp ==> {
            let w = media_work(ts, flow, b, encap, leg);
            &&& w.len() == 1
            &&& w[0] matches WorkView::Rtp(p) && p.ts_us == ts && p.flow == flow && Some(p.header)
                == rtp::header_of(b) && p.len == b.len() && p.encap == encap && p.leg == leg
        },
        rtp::kind_of(b) == MediaKind::Rtcp ==> {
            let w = media_work(ts, flow, b, encap, leg);
            let m = rtcp::members_from(b, 0);
            &&& w.len() == m.len()
            &&& 0 <= k < m.len() ==> w[k] == WorkView::Rtcp(m[k])
        },
        rtp::kind_of(b) == MediaKind::Other ==> media_work(ts, flow, b, encap, leg).len() == 0,
{
}

/// How media was carried is what it was found in: alone, in ChannelData, or in a STUN message.
pub proof fn law_media_carried(c: CorrView, t: TurnView, ts: u64, flow: Flow5Tuple, b: Seq<u8>)
    requires
        !c.no_media,
        !sip::begins_as_sip(b),
    ensures
        rtp::kind_of(b) != MediaKind::Other ==> udp_work(c, t, ts, flow, b) == media_work(
            ts,
            flow,
            b,
            Encap::Direct,
            t.leg(flow),
        ),
        rtp::kind_of(b) == MediaKind::Other && !stun::looks_like_stun(b) && stun::channel_payload(b)
            is Some ==> udp_work(c, t, ts, flow, b) == media_work(
            ts,
            flow,
            stun::channel_payload(b)->Some_0,
            Encap::ChannelData,
            t.leg(flow),
        ),
        rtp::kind_of(b) == MediaKind::Other && !stun::looks_like_stun(b) && stun::channel_payload(b)
            is None ==> udp_work(c, t, ts, flow, b).len() == 0,
{
}

/// A STUN message gives what it says of an allocation, and then the media in its first DATA attribute.
pub proof fn law_stun_work(t: TurnView, ts: u64, flow: Flow5Tuple, m: StunView, k: int)
    ensures
        0 <= k < m.attrs.len() && m.attrs[k].typ == 0x13 && (forall|x: int|
            0 <= x < k ==> (#[trigger] m.attrs[x]).typ != 0x13) ==> {
            let media = media_work(
                ts,
                flow,
                m.attrs[k].value,
                Encap::SendIndication,
                t.after(flow, m).leg(flow),
            );
            &&& turn::finding(ts, flow, m) matches Some(d) ==> stun_work(t, ts, flow, m) == seq![
                WorkView::Finding(d),
            ] + media
            &&& turn::finding(ts, flow, m) is None ==> stun_work(t, ts, flow, m) == media
        },
        (forall|x: int| 0 <= x < m.attrs.len() ==> (#[trigger] m.attrs[x]).typ != 0x13) ==> stun_work(
            t,
            ts,
            flow,
            m,
        ).len() == (if turn::finding(ts, flow, m) is Some {
            1int
        } else {
            0int
        }),
{
    crate::decode::stun_laws::law_first_attribute(m.attrs, 0x13, 0, k);
    if 0 <= k < m.attrs.len() && m.attrs[k].typ == 0x13 && (forall|x: int|
        0 <= x < k ==> (#[trigger] m.attrs[x]).typ != 0x13) {
        let media = media_work(
            ts,
            flow,
            m.attrs[k].value,
            Encap::SendIndication,
            t.after(flow, m).leg(flow),
        );
        assert(Seq::<WorkView>::empty() + media =~= media);
    }
}

/// The bytes of TCP are taken by what they complete; each piece that is a message is one.
pub proof fn law_tcp_work(
    c: CorrView,
    tcp: TcpReassembler,
    t: TurnView,
    ts: u64,
    flow: Flow5Tuple,
    b: Seq<u8>,
)
    ensures
        flow.proto == Proto::Udp ==> parts_work(c, tcp, t, ts, Some((flow, b))) == udp_work(
            c,
            t,
            ts,
            flow,
            b,
        ),
        flow.proto == Proto::Tcp ==> parts_work(c, tcp, t, ts, Some((flow, b))) == pieces_work(
            tcp.completed(flow, b),
            tcp.completed(flow, b).len() as int,
            ts,
            flow,
            c.raw_truncate,
        ),
{
}

/// A piece that is a message adds it behind those before; any other adds none.
pub proof fn law_pieces(v: Seq<Seq<u8>>, n: int, ts: u64, flow: Flow5Tuple, limit: Option<usize>)
    requires
        0 <= n < v.len(),
    ensures
        sip::sip_message(ts, flow, v[n], limit) matches Some(m) ==> pieces_work(v, n + 1, ts, flow, limit)
            == pieces_work(v, n, ts, flow, limit).push(WorkView::Sip(m)),
        sip::sip_message(ts, flow, v[n], limit) is None ==> pieces_work(v, n + 1, ts, flow, limit)
            == pieces_work(v, n, ts, flow, limit),
        pieces_work(v, 0, ts, flow, limit).len() == 0,
{
    let a = pieces_work(v, n, ts, flow, limit);
    if let Some(m) = sip::sip_message(ts, flow, v[n], limit) {
        assert(a + seq![WorkView::Sip(m)] =~= a.push(WorkView::Sip(m)));
    } else {
        assert(a + Seq::<WorkView>::empty() =~= a);
    }
}

/// Every frame counts, and moves the clock.
pub proof fn law_frame_counted(v: CorrView, ts: u64)
    requires
        v.reg.pkts_total < u64::MAX,
    ensures
        v.with_frame(ts).reg.pkts_total == v.reg.pkts_total + 1,
        v.with_frame(ts).reg.last_us == Some(ts),
        v.with_frame(ts).reg.calls == v.reg.calls,
        v.with_frame(ts).reg.streams == v.reg.streams,
        v.with_frame(ts).pending_events == v.pending_events,
{
}

// ----------------------------- TCP framing -----------------------------

/// The first empty line is the first place with two carriage returns and line feeds.
pub proof fn law_blank_line(b: Seq<u8>, i: int, k: int)
    requires
        0 <= i,
    ensures
        i <= k && k + 4 <= b.len() && b[k] == 13 && b[k + 1] == 10 && b[k + 2] == 13 && b[k + 3] == 10 && (
        forall|x: int| i <= x < k ==> !#[trigger] blank_line_at(b, x)) ==> blank_line_from(b, i) == Some(k),
        (forall|x: int| i <= x ==> !#[trigger] blank_line_at(b, x)) ==> blank_line_from(b, i) is None,
        i <= k && k + 4 <= b.len() ==> (blank_line_at(b, k) <==> b[k] == 13 && b[k + 1] == 10 && b[k + 2]
            == 13 && b[k + 3] == 10),
    decreases b.len() - i,
{
    if i + 4 <= b.len() {
        if !blank_line_at(b, i) {
            law_blank_line(b, i + 1, k);
        } else if i < k && (forall|x: int| i <= x < k ==> !#[trigger] blank_line_at(b, x)) {
            assert(!blank_line_at(b, i));
        }
    }
}

/// The length of a body is what the first Content-Length header says, under its long or its short name;
/// without one, or where it is no number, it is zero.
pub proof fn law_content_length(name: Seq<char>, value: Seq<char>, ls: Seq<Seq<char>>, i: int, n: nat)
    requires
        0 <= i < ls.len(),
        lacks(name, ':'),
        ls[i] == name + seq![':'] + value,
        n <= usize::MAX,
    ensures
        (same_letters(text::trimmed(name), "content-length"@) || same_letters(
            text::trimmed(name),
            "l"@,
        )) && text::trimmed(value) == text::dec(n) ==> length_in(ls, i) == n,
        !same_letters(text::trimmed(name), "content-length"@) && !same_letters(
            text::trimmed(name),
            "l"@,
        ) ==> length_in(ls, i) == length_in(ls, i + 1),
        length_in(ls, ls.len() as int) == 0,
{
    law_cut(name, ':', value);
    law_same_word(text::trimmed(name), "content-length"@);
    law_same_word(text::trimmed(name), "l"@);
    law_number(n, usize::MAX as nat);
}

/// A message is its headers, the empty line and a body of the announced length; the next one follows. What is
/// not all there waits.
pub proof fn law_stream_frames(b: Seq<u8>, sep: int)
    requires
        blank_line_from(b, 0) == Some(sep),
    ensures
        ({
            let n = sep + 4 + content_length(b.take(sep));
            &&& n <= b.len() ==> frames(b).0 == seq![b.take(n)] + frames(b.skip(n)).0 && frames(b).1
                == frames(b.skip(n)).1
            &&& n > b.len() ==> frames(b).0.len() == 0 && frames(b).1 == b
        }),
{
    tcp_reasm::lemma_blank_bound(b, 0);
}

/// Bytes without an empty line wait.
pub proof fn law_stream_waits(b: Seq<u8>)
    requires
        blank_line_from(b, 0) is None,
    ensures
        frames(b).0.len() == 0,
        frames(b).1 == b,
{
}

/// New bytes follow those that wait; a flow with more than a mebibyte is given up.
pub proof fn law_stream_joined(r: TcpReassembler, flow: Flow5Tuple, data: Seq<u8>)
    ensures
        r.buffered(flow) is None ==> r.joined(flow, data) == data,
        r.buffered(flow) matches Some(p) ==> r.joined(flow, data) == p.0 + data,
        r.joined(flow, data).len() <= 1_048_576 ==> r.completed(flow, data) == frames(
            r.joined(flow, data),
        ).0,
        r.joined(flow, data).len() > 1_048_576 ==> r.completed(flow, data).len() == 0,
{
    assert(Seq::<u8>::empty() + data =~= data);
}

// ----------------------------- relays -----------------------------

/// Media with an end at an address that a relay gave out runs on the peer's side; else, with an end at a
/// server, on the client's; else on neither.
pub proof fn law_leg(t: TurnView, flow: Flow5Tuple)
    ensures
        t.leg(flow) == Some(Leg::Peer) <==> exists|i: int|
            0 <= i < t.allocs.len() && ((#[trigger] t.allocs[i]).relay == Some(flow.src)
                || t.allocs[i].relay == Some(flow.dst)),
        t.leg(flow) is None <==> !(exists|i: int|
            0 <= i < t.allocs.len() && ((#[trigger] t.allocs[i]).relay == Some(flow.src)
                || t.allocs[i].relay == Some(flow.dst))) && !t.servers.contains(flow.src.ip)
            && !t.servers.contains(flow.dst.ip),
{
}

/// An Allocate request (method 3) names its sender as the client and its receiver as the server; a success
/// the other way round, with the relayed address (attribute 0x16). Other messages teach nothing.
pub proof fn law_relay_learning(t: TurnView, flow: Flow5Tuple, m: StunView)
    ensures
        m.method != 3 ==> t.after(flow, m) == t,
        m.class == StunClass::Error || m.class == StunClass::Indication ==> t.after(flow, m) == t,
        m.method == 3 && m.class == StunClass::Request ==> t.after(flow, m) == t.with_alloc(
            flow.src,
            flow.dst,
            None,
        ),
        m.method == 3 && m.class == StunClass::Success && m.address_of(0x16) is Some ==> t.after(flow, m)
            == t.with_alloc(flow.dst, flow.src, m.address_of(0x16)),
        m.method == 3 && m.class == StunClass::Success && m.address_of(0x16) is None ==> t.after(flow, m)
            == t,
{
}

/// An allocation is kept once for its client and server, and takes the relayed address once it is known; a
/// new one comes last. The server is learned with it.
pub proof fn law_allocation_kept(
    t: TurnView,
    client: SocketAddr,
    server: SocketAddr,
    relay: Option<SocketAddr>,
    k: int,
)
    ensures
        ({
            let w = t.with_alloc(client, server, relay);
            &&& (forall|i: int|
                0 <= i < t.allocs.len() ==> (#[trigger] t.allocs[i]).client != client || t.allocs[i].server
                    != server) && t.allocs.len() < 8192 ==> w.allocs == t.allocs.push(
                Allocation { client, server, relay },
            )
            &&& 0 <= k < t.allocs.len() && t.allocs[k].client == client && t.allocs[k].server == server && (
            forall|i: int|
                0 <= i < k ==> (#[trigger] t.allocs[i]).client != client || t.allocs[i].server != server)
                ==> (relay is Some ==> w.allocs == t.allocs.update(
                k,
                Allocation { client, server, relay },
            )) && (relay is None ==> w.allocs == t.allocs)
            &&& !t.servers.contains(server.ip) && t.servers.len() < 512 ==> w.servers == t.servers.push(
                server.ip,
            )
            &&& t.servers.contains(server.ip) || t.servers.len() >= 512 ==> w.servers == t.servers
        }),
{
    lemma_alloc_index(t.allocs, client, server, 0);
}

proof fn lemma_alloc_index(v: Seq<Allocation>, client: SocketAddr, server: SocketAddr, i: int)
    requires
        0 <= i <= v.len(),
    ensures
        match alloc_index(v, client, server, i) {
            Some(k) => i <= k < v.len() && v[k].client == client && v[k].server == server && forall|x: int|
                i <= x < k ==> (#[trigger] v[x]).client != client || v[x].server != server,
            None => forall|x: int|
                i <= x < v.len() ==> (#[trigger] v[x]).client != client || v[x].server != server,
        },
    decreases v.len() - i,
{
    if i < v.len() && !v[i].is_of(client, server) {
        lemma_alloc_index(v, client, server, i + 1);
    }
}

/// What is said of a relay: an allocation that was made, or one that failed, or a refresh that did (method 4).
/// Nothing else is.
pub proof fn law_relay_findings(ts: u64, flow: Flow5Tuple, m: StunView)
    ensures
        ({
            let d = turn::finding(ts, flow, m);
            &&& m.method == 3 && m.class == StunClass::Success && m.address_of(0x16) is Some ==> d is Some
                && d->Some_0.code == "TURN_ALLOC_OK"@ && d->Some_0.severity == Severity::Info
                && d->Some_0.message == "TURN allocation of "@ + (addr_text::socket_text(flow.dst) + " on "@
                + addr_text::socket_text(flow.src)) + ": relay "@ + addr_text::socket_text(
                m.address_of(0x16)->Some_0,
            )
            &&& m.method == 3 && m.class == StunClass::Error ==> d is Some && d->Some_0.code
                == "TURN_ALLOC_FAILED"@ && d->Some_0.severity == Severity::Warn
            &&& m.method == 4 && m.class == StunClass::Error ==> d is Some && d->Some_0.code
                == "TURN_REFRESH_FAILED"@ && d->Some_0.severity == Severity::Warn
            &&& m.method != 3 && m.method != 4 ==> d is None
            &&& m.class == StunClass::Request || m.class == StunClass::Indication ==> d is None
            &&& m.method == 4 && m.class == StunClass::Success ==> d is None
            &&& d matches Some(x) ==> x.ts_us == ts && x.call_id == ""@
        }),
{
}

/// The streams of a call on one side of a relay are those that are relayed there.
pub proof fn law_leg_streams(streams: Seq<StreamView>, id: Seq<char>, leg: Leg, n: int)
    requires
        0 <= n < streams.len(),
    ensures
        leg_streams(streams, id, leg, 0).len() == 0,
        streams[n].call_id == id && streams[n].via_turn && streams[n].leg == Some(leg) ==> leg_streams(
            streams,
            id,
            leg,
            n + 1,
        ) == leg_streams(streams, id, leg, n).push(n),
        streams[n].call_id != id || !streams[n].via_turn || streams[n].leg != Some(leg) ==> leg_streams(
            streams,
            id,
            leg,
            n + 1,
        ) == leg_streams(streams, id, leg, n),
{
}

// ----------------------------- answers and the heatmap -----------------------------

/// An INVITE is accepted by a success response whose CSeq names it.
pub proof fn law_acceptance(m: MsgView)
    ensures
        accepts_invite(m) <==> !m.is_request && m.status is Some && m.status->Some_0 / 100 == 2
            && m.cseq_method is Some && same_letters(m.cseq_method->Some_0, "INVITE"@),
{
    if let Some(c) = m.cseq_method {
        law_same_word(c, "INVITE"@);
    }
}

/// The answer is credited to the address that the INVITE of the call came from, once: the call must not have
/// been answered before.
pub proof fn law_answer_credited(v: CorrView, m: MsgView, i: int)
    requires
        v.reg.wf(),
        0 <= i < v.reg.calls.len(),
        v.reg.calls[i].call_id == m.call_id,
    ensures
        accepts_invite(m) && v.reg.calls[i].answer_ts is None && v.reg.calls[i].invite_key is Some
            ==> v.answered_ip(m) == addr_text::ip_of(v.reg.calls[i].invite_key->Some_0),
        !accepts_invite(m) || v.reg.calls[i].answer_ts is Some || v.reg.calls[i].invite_key is None
            ==> v.answered_ip(m) is None,
{
    registry::lemma_call_index(v.reg.calls, m.call_id, 0);
}

/// A finished call counts at its end, or else at its BYE, its answer or its INVITE, under the address that its
/// INVITE came from; it was answered where it has an answer time, and it failed where it failed or was
/// canceled.
pub proof fn law_heat_entry(e: HeatEntry, c: CallView)
    ensures
        e.stands_for(c) ==> {
            &&& c.end_ts matches Some(t) ==> e.ts_us == t
            &&& c.end_ts is None && c.bye_ts is Some ==> e.ts_us == c.bye_ts->Some_0
            &&& c.end_ts is None && c.bye_ts is None && c.answer_ts is Some ==> e.ts_us
                == c.answer_ts->Some_0
            &&& c.end_ts is None && c.bye_ts is None && c.answer_ts is None && c.invite_ts is Some
                ==> e.ts_us == c.invite_ts->Some_0
            &&& c.invite_key matches Some(k) ==> e.key@ == k
            &&& c.invite_key is None ==> e.key@ == "?"@
            &&& e.answered <==> c.answer_ts is Some
            &&& e.failed <==> (c.state == CallState::Failed || c.state == CallState::Canceled)
            &&& e.pdd_ms == c.pdd_ms
        },
{
}

// ----------------------------- history -----------------------------

/// A sample holds what a stream carried since the one before: all of it, where its counters began anew; and its
/// quality as it stands.
pub proof fn law_sample(h: HistoryView, ts: u64, sum: SummaryView)
    ensures
        ({
            let p = h.point(ts, sum);
            &&& p.ts_us == ts
            &&& sum.bytes >= h.bytes ==> p.bytes == sum.bytes - h.bytes
            &&& sum.bytes < h.bytes ==> p.bytes == sum.bytes
            &&& sum.packets >= h.packets ==> p.packets == sum.packets - h.packets
            &&& sum.packets < h.packets ==> p.packets == sum.packets
            &&& p.loss_pct == sum.loss_pct
            &&& p.jitter_ms == sum.jitter_ms
            &&& p.mos == sum.mos
            &&& h.sampled(ts, sum).bytes == sum.bytes
            &&& h.sampled(ts, sum).packets == sum.packets
        }),
{
}

/// The losses on both sides of a relay are told, and the worse side is named as the bottleneck.
pub proof fn law_imbalance_text(client: Seq<char>, peer: Seq<char>)
    ensures
        imbalance_text(client, peer, true) == "TURN leg loss imbalance: client-leg "@ + client
            + "% vs peer-leg "@ + peer + "% (bottleneck on "@ + "client<->relay"@ + ")"@,
        imbalance_text(client, peer, false) == "TURN leg loss imbalance: client-leg "@ + client
            + "% vs peer-leg "@ + peer + "% (bottleneck on "@ + "relay<->peer"@ + ")"@,
{
}

} // verus!
