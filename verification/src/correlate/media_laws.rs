//! Which call, and which stream, a media packet or report counts for.
use crate::correlate::correlator;
use crate::correlate::correlator::CorrView;
use crate::correlate::media;
use crate::correlate::media::{RtcpSample, RtpPacket};
use crate::correlate::stream::StreamView;
use crate::correlate::turn::Encap;
use crate::decode::rtcp::{ReportBlock, RtcpView};
use crate::diagnostics::{DiagView, Severity};
use crate::model::packet::Flow5Tuple;
use crate::model::sip::CallView;
use crate::model::stats::Real64;
use crate::store::registry;
use crate::store::registry::{RegView, StreamKey};
use crate::store::wire::FieldVal;
use vstd::prelude::*;

verus! {

// ----------------------------- diagnostics -----------------------------

/// A diagnostic counts, by its severity, for the call that it names, and for no
/// other; it changes nothing else of any call, and no stream.
pub proof fn law_diag_counts(v: CorrView, d: DiagView, i: int)
    requires
        v.reg.wf(),
        0 <= i < v.reg.calls.len(),
        v.reg.calls[i].warn_count < u32::MAX,
        v.reg.calls[i].critical_count < u32::MAX,
    ensures
        v.with_diag(d).reg.streams == v.reg.streams,
        v.with_diag(d).reg.endpoint_call == v.reg.endpoint_call,
        v.with_diag(d).reg.calls.len() == v.reg.calls.len(),
        v.reg.calls[i].call_id != d.call_id ==> v.with_diag(d).reg.calls[i] == v.reg.calls[i],
        v.with_diag(d).reg.calls[i] == (CallView {
            warn_count: v.with_diag(d).reg.calls[i].warn_count,
            critical_count: v.with_diag(d).reg.calls[i].critical_count,
            ..v.reg.calls[i]
        }),
        v.reg.calls[i].call_id == d.call_id && v.min_severity == Severity::Info ==> {
            &&& v.with_diag(d).reg.calls[i].warn_count == v.reg.calls[i].warn_count + (if d.severity
                == Severity::Warn {
                1int
            } else {
                0int
            })
            &&& v.with_diag(d).reg.calls[i].critical_count == v.reg.calls[i].critical_count + (
            if d.severity == Severity::Critical {
                1int
            } else {
                0int
            })
        },
{
    lemma_diag_elsewhere(v, d, i);
    registry::lemma_call_index(v.reg.calls, d.call_id, 0);
}

/// A diagnostic is dropped exactly where it is less severe than what is wanted;
/// otherwise it is the last of those kept, and logged.
pub proof fn law_diag_kept(v: CorrView, d: DiagView)
    ensures
        v.min_severity == Severity::Critical && d.severity != Severity::Critical ==> v.with_diag(d)
            == v,
        v.min_severity == Severity::Warn && d.severity == Severity::Info ==> v.with_diag(d) == v,
        (v.min_severity == Severity::Info || d.severity == Severity::Critical || d.severity
            == v.min_severity) ==> {
            let w = v.with_diag(d);
            &&& v.reg.max_diagnostics > 0 ==> w.reg.diagnostics.len() > 0
                && w.reg.diagnostics.last() == d
            &&& w.reg.diagnostics.len() <= v.reg.max_diagnostics
            &&& v.reg.diagnostics.len() < v.reg.max_diagnostics ==> w.reg.diagnostics
                == v.reg.diagnostics.push(d)
            &&& w.pending_events.len() == v.pending_events.len() + 1
            &&& w.pending_events.last().ty == 8
            &&& w.pending_events.last().ts_us == d.ts_us
            &&& w.pending_events.last().fields[0] == FieldVal::Text(d.call_id)
            &&& w.pending_events.last().fields[1] == FieldVal::Byte(
                match d.severity {
                    Severity::Info => 0u8,
                    Severity::Warn => 1u8,
                    Severity::Critical => 2u8,
                },
            )
            &&& w.pending_events.last().fields[2] == FieldVal::Text(d.code)
            &&& w.pending_events.last().fields[3] == FieldVal::Text(d.message)
        },
{
}

proof fn lemma_diag_elsewhere(v: CorrView, d: DiagView, i: int)
    requires
        v.reg.wf(),
        0 <= i < v.reg.calls.len(),
    ensures
        v.with_diag(d).reg.wf(),
        v.with_diag(d).reg.streams == v.reg.streams,
        v.with_diag(d).reg.endpoint_call == v.reg.endpoint_call,
        v.with_diag(d).reg.calls.len() == v.reg.calls.len(),
        v.reg.calls[i].call_id != d.call_id ==> v.with_diag(d).reg.calls[i] == v.reg.calls[i],
        v.with_diag(d).reg.calls[i] == (CallView {
            warn_count: v.with_diag(d).reg.calls[i].warn_count,
            critical_count: v.with_diag(d).reg.calls[i].critical_count,
            ..v.reg.calls[i]
        }),
{
    registry::lemma_call_index(v.reg.calls, d.call_id, 0);
    correlator::lemma_diag_keeps(v, d, d.call_id);
}

proof fn lemma_diags_elsewhere(v: CorrView, ds: Seq<DiagView>, n: int, id: Seq<char>, i: int)
    requires
        v.reg.wf(),
        0 <= n <= ds.len(),
        0 <= i < v.reg.calls.len(),
        forall|k: int| 0 <= k < ds.len() ==> (#[trigger] ds[k]).call_id == id,
    ensures
        v.with_diags(ds, n).reg.wf(),
        v.with_diags(ds, n).reg.streams == v.reg.streams,
        v.with_diags(ds, n).reg.calls.len() == v.reg.calls.len(),
        v.reg.calls[i].call_id != id ==> v.with_diags(ds, n).reg.calls[i] == v.reg.calls[i],
        v.with_diags(ds, n).reg.calls[i] == (CallView {
            warn_count: v.with_diags(ds, n).reg.calls[i].warn_count,
            critical_count: v.with_diags(ds, n).reg.calls[i].critical_count,
            ..v.reg.calls[i]
        }),
    decreases n,
{
    if n > 0 {
        lemma_diags_elsewhere(v, ds, n - 1, id, i);
        lemma_diag_elsewhere(v.with_diags(ds, n - 1), ds[n - 1], i);
    }
}

proof fn lemma_diags_streams(v: CorrView, ds: Seq<DiagView>, n: int)
    requires
        0 <= n,
    ensures
        v.with_diags(ds, n).reg.streams == v.reg.streams,
        v.with_diags(ds, n).reg.calls.len() == v.reg.calls.len(),
    decreases n,
{
    if n > 0 {
        lemma_diags_streams(v, ds, n - 1);
        let w = v.with_diags(ds, n - 1);
        registry::lemma_call_index(w.reg.calls, ds[n - 1].call_id, 0);
    }
}

// ----------------------------- the owner -----------------------------

/// The entry advertises an end of the flow, and none advertises its source
/// if the entry does not.
pub open spec fn advertises(r: RegView, k: int, flow: Flow5Tuple) -> bool {
    &&& 0 <= k < r.endpoint_call.len()
    &&& r.endpoint_call[k].0 == flow.src || r.endpoint_call[k].0 == flow.dst && forall|j: int|
        0 <= j < r.endpoint_call.len() ==> (#[trigger] r.endpoint_call[j]).0 != flow.src
}

/// Neither end of the flow was advertised.
pub open spec fn unadvertised(r: RegView, flow: Flow5Tuple) -> bool {
    forall|j: int|
        0 <= j < r.endpoint_call.len() ==> (#[trigger] r.endpoint_call[j]).0 != flow.src
            && r.endpoint_call[j].0 != flow.dst
}

/// A flow belongs to a call exactly where one of its ends was advertised; the call is
/// the one that advertised the source or, where none did, the destination.
pub proof fn law_owner(r: RegView, flow: Flow5Tuple, k: int)
    requires
        registry::endpoints_distinct(r.endpoint_call),
    ensures
        unadvertised(r, flow) <==> media::owner(r, flow) is None,
        advertises(r, k, flow) ==> media::owner(r, flow) == Some(r.endpoint_call[k].1),
        media::owner(r, flow) matches Some(id) ==> exists|j: int|
            #[trigger]
            advertises(r, j, flow) && r.endpoint_call[j].1 == id,
{
    let e = r.endpoint_call;
    registry::lemma_endpoint_index(e, flow.src, 0);
    registry::lemma_endpoint_index(e, flow.dst, 0);
    if let Some(i) = registry::endpoint_index(e, flow.src, 0) {
        assert(advertises(r, i, flow));
        assert(e[i].0 == flow.src);
    } else if let Some(i) = registry::endpoint_index(e, flow.dst, 0) {
        assert(advertises(r, i, flow));
    }
}

/// The packet is of the stream: same flow, same SSRC.
pub open spec fn of_stream(s: StreamView, p: RtpPacket) -> bool {
    s.flow == p.flow && s.ssrc == p.header.ssrc
}

/// A packet with an advertised end begins a stream, or is counted in the one of its
/// flow and SSRC. A new stream is that of the call that advertised the end.
pub proof fn law_packet_counted(v: CorrView, p: RtpPacket, k: int)
    requires
        v.reg.wf(),
        v.rtp_room(p),
        advertises(v.reg, k, p.flow),
    ensures
        (forall|i: int| 0 <= i < v.reg.streams.len() ==> !of_stream(#[trigger] v.reg.streams[i], p))
            ==> {
            let w = v.with_rtp(p).reg.streams;
            &&& w.len() == v.reg.streams.len() + 1
            &&& of_stream(w.last(), p)
            &&& w.last().call_id == v.reg.endpoint_call[k].1
            &&& w.last().rest.0 == 1
            &&& w.last().rest.1 == Some(p.header.payload_type)
            &&& w.last().last_pt == Some(p.header.payload_type)
            &&& w.last().bytes == p.len
            &&& w.last().first_ts_us == Some(p.ts_us)
            &&& w.last().last_ts_us == Some(p.ts_us)
            &&& w.last().leg == p.leg
            &&& w.last().via_turn == (p.leg is Some || p.encap != Encap::Direct)
            &&& w.last().seq.lost == 0
        },
        forall|i: int|
            0 <= i < v.reg.streams.len() && of_stream(#[trigger] v.reg.streams[i], p) ==> {
                let w = v.with_rtp(p).reg.streams;
                &&& w.len() == v.reg.streams.len()
                &&& of_stream(w[i], p)
                &&& w[i].call_id == v.reg.streams[i].call_id
                &&& w[i].rest.0 == v.reg.streams[i].rest.0 + 1
                &&& w[i].bytes == v.reg.streams[i].bytes + p.len
                &&& w[i].last_pt == Some(p.header.payload_type)
                &&& w[i].last_ts_us == Some(p.ts_us)
                &&& v.reg.streams[i].first_ts_us is Some ==> w[i].first_ts_us
                    == v.reg.streams[i].first_ts_us
                &&& w[i].codec == v.reg.streams[i].codec
            },
{
    law_owner(v.reg, p.flow, k);
    let id = v.reg.endpoint_call[k].1;
    let t = v.with_traffic(p);
    assert(media::owner(t.reg, p.flow) == Some(id));
    lemma_streams_of_packet(t, id, p);
    registry::lemma_stream_index(v.reg.streams, p.spec_key(), 0);
    lemma_reverse_elsewhere(v.reg, id, p);
}

proof fn lemma_streams_of_packet(v: CorrView, id: Seq<char>, p: RtpPacket)
    ensures
        v.with_media(id, p).reg.streams == v.reg.streams_after(id, p),
{
    let ds = media::packet_findings(v.reg, id, p);
    let w = CorrView {
        reg: RegView {
            streams: v.reg.streams_after(id, p),
            calls: v.reg.calls_after(id, p),
            ..v.reg
        },
        ..v
    };
    lemma_diags_streams(w, ds, ds.len() as int);
}

/// The note that media runs both ways changes nothing else of a stream.
proof fn lemma_reverse_elsewhere(r: RegView, id: Seq<char>, p: RtpPacket)
    requires
        registry::keys_distinct(r.streams),
    ensures
        r.streams_after(id, p).len() == r.streams_with(id, p).len(),
        forall|i: int|
            0 <= i < r.streams_with(id, p).len() ==> (#[trigger] r.streams_after(id, p)[i]) == (
            StreamView {
                reverse_seen: r.streams_after(id, p)[i].reverse_seen,
                ..r.streams_with(id, p)[i]
            }),
{
    let s = r.streams_with(id, p);
    let other = StreamKey { flow: p.flow.spec_reverse(), ssrc: p.header.ssrc };
    registry::lemma_stream_index(s, other, 0);
}

/// No packet changes a stream of another flow or SSRC, but for the note that media
/// runs both ways.
pub proof fn law_other_streams_stay(v: CorrView, p: RtpPacket, i: int)
    requires
        v.reg.wf(),
        0 <= i < v.reg.streams.len(),
        !of_stream(v.reg.streams[i], p),
    ensures
        v.with_rtp(p).reg.streams[i] == (StreamView {
            reverse_seen: v.with_rtp(p).reg.streams[i].reverse_seen,
            ..v.reg.streams[i]
        }),
        v.reg.streams[i].reverse_seen ==> v.with_rtp(p).reg.streams[i].reverse_seen,
        v.reg.streams[i].flow != p.flow.spec_reverse() ==> v.with_rtp(p).reg.streams[i]
            == v.reg.streams[i],
{
    if let Some(id) = media::owner(v.reg, p.flow) {
        let t = v.with_traffic(p);
        assert(media::owner(t.reg, p.flow) == Some(id));
        lemma_streams_of_packet(t, id, p);
        registry::lemma_stream_index(v.reg.streams, p.spec_key(), 0);
        lemma_reverse_elsewhere(t.reg, id, p);
        let s = t.reg.streams_with(id, p);
        let other = StreamKey { flow: p.flow.spec_reverse(), ssrc: p.header.ssrc };
        registry::lemma_stream_index(s, other, 0);
    }
}

/// Media is known to run both ways once the call has had a stream on the flow and one
/// on its reverse.
pub proof fn law_both_ways(v: CorrView, p: RtpPacket, k: int, j: int)
    requires
        v.reg.wf(),
        v.rtp_room(p),
        advertises(v.reg, k, p.flow),
        0 <= j < v.reg.streams.len(),
        v.reg.streams[j].call_id == v.reg.endpoint_call[k].1,
        v.reg.streams[j].flow.src == p.flow.dst,
        v.reg.streams[j].flow.dst == p.flow.src,
        v.reg.streams[j].flow.proto == p.flow.proto,
    ensures
        forall|i: int|
            0 <= i < v.with_rtp(p).reg.streams.len() && of_stream(
                #[trigger] v.with_rtp(p).reg.streams[i],
                p,
            ) ==> v.with_rtp(p).reg.streams[i].reverse_seen,
        v.reg.streams[j].ssrc == p.header.ssrc ==> v.with_rtp(p).reg.streams[j].reverse_seen,
{
    law_owner(v.reg, p.flow, k);
    let id = v.reg.endpoint_call[k].1;
    let t = v.with_traffic(p);
    assert(media::owner(t.reg, p.flow) == Some(id));
    lemma_streams_of_packet(t, id, p);
    let rev = p.flow.spec_reverse();
    assert(v.reg.streams[j].flow == rev);
    assert(media::runs_on(t.reg.streams, id, rev));
    registry::lemma_stream_index(v.reg.streams, p.spec_key(), 0);
    let s = t.reg.streams_with(id, p);
    let other = StreamKey { flow: rev, ssrc: p.header.ssrc };
    registry::lemma_stream_index(s, other, 0);
    lemma_reverse_elsewhere(t.reg, id, p);
    assert forall|i: int|
        0 <= i < v.with_rtp(p).reg.streams.len() && of_stream(
            #[trigger] v.with_rtp(p).reg.streams[i],
            p,
        ) implies v.with_rtp(p).reg.streams[i].reverse_seen by {
        if i < v.reg.streams.len() {
            assert(of_stream(v.reg.streams[i], p));
        }
    }
    if v.reg.streams[j].ssrc == p.header.ssrc {
        assert(s[j].flow == rev && s[j].ssrc == p.header.ssrc);
    }
}

/// A packet of a call counts for that call, at its time, and for no other.
pub proof fn law_call_counts_packet(v: CorrView, p: RtpPacket, k: int, i: int)
    requires
        v.reg.wf(),
        v.rtp_room(p),
        advertises(v.reg, k, p.flow),
        0 <= i < v.reg.calls.len(),
    ensures
        v.with_rtp(p).reg.calls.len() == v.reg.calls.len(),
        v.reg.calls[i].call_id != v.reg.endpoint_call[k].1 ==> v.with_rtp(p).reg.calls[i]
            == v.reg.calls[i],
        v.reg.calls[i].call_id == v.reg.endpoint_call[k].1 ==> {
            let d = v.with_rtp(p).reg.calls[i];
            let fresh = forall|x: int|
                0 <= x < v.reg.streams.len() ==> !of_stream(#[trigger] v.reg.streams[x], p);
            &&& d.pkts_rtp == v.reg.calls[i].pkts_rtp + 1
            &&& d.last_ts_us == p.ts_us
            &&& fresh ==> d.ips.contains(p.flow.src.ip) && d.ips.contains(p.flow.dst.ip)
            &&& fresh ==> d.via_turn == (v.reg.calls[i].via_turn || p.leg is Some || p.encap
                != Encap::Direct)
            &&& !fresh ==> d.ips == v.reg.calls[i].ips && d.via_turn == v.reg.calls[i].via_turn
            &&& d.state == v.reg.calls[i].state
            &&& d.pkts_sip == v.reg.calls[i].pkts_sip
            &&& d.pkts_rtcp == v.reg.calls[i].pkts_rtcp
            &&& d.messages == v.reg.calls[i].messages
        },
{
    law_owner(v.reg, p.flow, k);
    let id = v.reg.endpoint_call[k].1;
    let t = v.with_traffic(p);
    assert(media::owner(t.reg, p.flow) == Some(id));
    let ds = media::packet_findings(t.reg, id, p);
    let w = CorrView {
        reg: RegView {
            streams: t.reg.streams_after(id, p),
            calls: t.reg.calls_after(id, p),
            ..t.reg
        },
        ..t
    };
    registry::lemma_call_index(v.reg.calls, id, 0);
    registry::lemma_stream_index(v.reg.streams, p.spec_key(), 0);
    lemma_reverse_elsewhere(t.reg, id, p);
    assert(w.reg.wf()) by {
        lemma_counted_distinct(t.reg, id, p);
    }
    lemma_diags_elsewhere(w, ds, ds.len() as int, id, i);
    let x = w.with_diags(ds, ds.len() as int);
    registry::lemma_call_index(x.reg.calls, id, 0);
    if let Some(j) = registry::call_index(v.reg.calls, id, 0) {
        lemma_diags_elsewhere(w, ds, ds.len() as int, id, j);
        if let Some(y) = registry::call_index(x.reg.calls, id, 0) {
            lemma_diags_elsewhere(w, ds, ds.len() as int, id, y);
        }
        let a = v.reg.calls[j].ips;
        let b = crate::correlate::signaling::with_ip(a, p.flow.src.ip);
        lemma_ip_noted(a, p.flow.src.ip);
        lemma_ip_noted(b, p.flow.dst.ip);
    } else if let Some(y) = registry::call_index(x.reg.calls, id, 0) {
        lemma_diags_elsewhere(w, ds, ds.len() as int, id, y);
    }
}

proof fn lemma_ip_noted(v: Seq<crate::model::addr::IpAddr>, ip: crate::model::addr::IpAddr)
    ensures
        crate::correlate::signaling::with_ip(v, ip).contains(ip),
        forall|x: crate::model::addr::IpAddr| #[trigger]
            v.contains(x) ==> crate::correlate::signaling::with_ip(v, ip).contains(x),
{
    let w = v.push(ip);
    assert(w[v.len() as int] == ip);
    assert forall|x: crate::model::addr::IpAddr| #[trigger] v.contains(x) implies w.contains(
        x,
    ) by {
        let i = choose|i: int| 0 <= i < v.len() && v[i] == x;
        assert(w[i] == x);
    }
}

proof fn lemma_counted_distinct(r: RegView, id: Seq<char>, p: RtpPacket)
    requires
        registry::keys_distinct(r.streams),
    ensures
        registry::keys_distinct(r.streams_after(id, p)),
{
    registry::lemma_stream_index(r.streams, p.spec_key(), 0);
    lemma_reverse_elsewhere(r, id, p);
    let s = r.streams_with(id, p);
    let t = r.streams_after(id, p);
    assert forall|i: int, j: int| 0 <= i < j < t.len() implies (#[trigger] t[i]).flow != (
    #[trigger] t[j]).flow || t[i].ssrc != t[j].ssrc by {
        assert(t[i].flow == s[i].flow && t[j].flow == s[j].flow);
        if j < r.streams.len() {
            assert(s[i].flow == r.streams[i].flow && s[j].flow == r.streams[j].flow);
            assert(s[i].ssrc == r.streams[i].ssrc && s[j].ssrc == r.streams[j].ssrc);
        }
    }
}

/// A packet is a stray only if neither end of its flow was advertised: it changes no
/// call, no stream and no diagnostic.
pub proof fn law_unadvertised_is_stray(v: CorrView, p: RtpPacket)
    requires
        registry::endpoints_distinct(v.reg.endpoint_call),
        unadvertised(v.reg, p.flow),
    ensures
        v.with_rtp(p).reg.calls == v.reg.calls,
        v.with_rtp(p).reg.streams == v.reg.streams,
        v.with_rtp(p).reg.diagnostics == v.reg.diagnostics,
        v.with_rtp(p).pending_events == v.pending_events,
{
    law_owner(v.reg, p.flow, 0);
    assert(media::owner(v.with_traffic(p).reg, p.flow) is None);
}

/// A new stream takes its codec name and its clock from the negotiation of its call,
/// by the payload type of its first packet; a call that the registry does not hold
/// gives no codec.
pub proof fn law_new_stream_codec(v: CorrView, p: RtpPacket, k: int, i: int, n: int)
    requires
        v.reg.wf(),
        v.rtp_room(p),
        advertises(v.reg, k, p.flow),
        forall|x: int| 0 <= x < v.reg.streams.len() ==> !of_stream(#[trigger] v.reg.streams[x], p),
        0 <= i < v.reg.calls.len(),
        v.reg.calls[i].call_id == v.reg.endpoint_call[k].1,
        0 <= n < v.reg.calls[i].negotiated.pts.len(),
        v.reg.calls[i].negotiated.pts[n] == p.header.payload_type,
        forall|x: int|
            0 <= x < n ==> #[trigger] v.reg.calls[i].negotiated.pts[x] != p.header.payload_type,
        n < v.reg.calls[i].negotiated.codecs.len(),
        n < v.reg.calls[i].negotiated.clock_rates.len(),
    ensures
        v.reg.calls[i].negotiated.codecs[n].len() > 0 ==> v.with_rtp(p).reg.streams.last().codec
            == Some(v.reg.calls[i].negotiated.codecs[n]),
        v.reg.calls[i].negotiated.codecs[n].len() == 0 ==> v.with_rtp(p).reg.streams.last().codec
            is None,
        v.reg.calls[i].negotiated.clock_rates[n] > 0 ==> v.with_rtp(p).reg.streams.last().rest.2
            == Some(v.reg.calls[i].negotiated.clock_rates[n]),
{
    law_owner(v.reg, p.flow, k);
    let id = v.reg.endpoint_call[k].1;
    let t = v.with_traffic(p);
    assert(media::owner(t.reg, p.flow) == Some(id));
    lemma_streams_of_packet(t, id, p);
    registry::lemma_stream_index(v.reg.streams, p.spec_key(), 0);
    lemma_reverse_elsewhere(t.reg, id, p);
    registry::lemma_call_index(v.reg.calls, id, 0);
    lemma_first_pt(v.reg.calls[i].negotiated.pts, p.header.payload_type, 0, n);
}

proof fn lemma_first_pt(pts: Seq<u8>, pt: u8, i: int, n: int)
    requires
        0 <= i <= n < pts.len(),
        pts[n] == pt,
        forall|x: int| i <= x < n ==> #[trigger] pts[x] != pt,
    ensures
        crate::model::media::pt_index(pts, pt, i) == Some(n),
    decreases n - i,
{
    if i < n {
        assert(pts[i] != pt);
        lemma_first_pt(pts, pt, i + 1, n);
    }
}

// ----------------------------- reports -----------------------------

proof fn lemma_sampled(streams: Seq<StreamView>, s: RtcpSample, n: int)
    requires
        0 <= n <= streams.len(),
    ensures
        media::streams_sampled(streams, s, n).len() == streams.len(),
        forall|i: int|
            0 <= i < streams.len() ==> (#[trigger] media::streams_sampled(streams, s, n)[i]) == (
            if i < n && streams[i].ssrc == s.ssrc {
                streams[i].sampled(s.rtt_ms, s.oneway_ms)
            } else {
                streams[i]
            }),
    decreases n,
{
    if n > 0 {
        lemma_sampled(streams, s, n - 1);
    }
}

/// A sample is kept by every stream of its SSRC, as the latest, and by no other; the
/// oldest leaves once there are enough.
pub proof fn law_sample_kept(v: CorrView, ts: u64, s: RtcpSample, i: int)
    requires
        0 <= i < v.reg.streams.len(),
    ensures
        v.with_sample(ts, s).reg.streams.len() == v.reg.streams.len(),
        v.reg.streams[i].ssrc != s.ssrc ==> v.with_sample(ts, s).reg.streams[i]
            == v.reg.streams[i],
        v.reg.streams[i].ssrc == s.ssrc ==> {
            let a = v.reg.streams[i];
            let b = v.with_sample(ts, s).reg.streams[i];
            &&& b == StreamView {
                rtt_samples: b.rtt_samples,
                oneway_samples: b.oneway_samples,
                ..a
            }
            &&& s.rtt_ms is None ==> b.rtt_samples == a.rtt_samples
            &&& s.oneway_ms is None ==> b.oneway_samples == a.oneway_samples
            &&& s.rtt_ms is Some ==> b.rtt_samples.len() > 0 && b.rtt_samples.last()
                == s.rtt_ms->Some_0
            &&& s.rtt_ms is Some && a.rtt_samples.len() < 256 ==> b.rtt_samples
                == a.rtt_samples.push(s.rtt_ms->Some_0)
            &&& s.oneway_ms is Some ==> b.oneway_samples.len() > 0 && b.oneway_samples.last()
                == s.oneway_ms->Some_0
            &&& s.oneway_ms is Some && a.oneway_samples.len() < 256 ==> b.oneway_samples
                == a.oneway_samples.push(s.oneway_ms->Some_0)
        },
{
    lemma_sampled(v.reg.streams, s, v.reg.streams.len() as int);
}

proof fn lemma_last_of_ssrc(streams: Seq<StreamView>, ssrc: u32, n: int)
    requires
        0 <= n <= streams.len(),
    ensures
        match media::call_of_ssrc(streams, ssrc, n) {
            Some(id) => exists|k: int|
                0 <= k < n && (#[trigger] streams[k]).ssrc == ssrc && streams[k].call_id == id,
            None => forall|k: int| 0 <= k < n ==> (#[trigger] streams[k]).ssrc != ssrc,
        },
    decreases n,
{
    if n > 0 {
        lemma_last_of_ssrc(streams, ssrc, n - 1);
    }
}

/// A round trip is logged once where some stream has its SSRC, under the ID of that
/// stream's call; a sample without a round trip, or without a stream, is not.
pub proof fn law_round_trip_logged(v: CorrView, ts: u64, s: RtcpSample)
    ensures
        s.rtt_ms is None || (forall|k: int|
            0 <= k < v.reg.streams.len() ==> (#[trigger] v.reg.streams[k]).ssrc != s.ssrc)
            ==> v.with_sample(ts, s).pending_events == v.pending_events,
        s.rtt_ms is Some && (exists|k: int|
            0 <= k < v.reg.streams.len() && (#[trigger] v.reg.streams[k]).ssrc == s.ssrc) ==> {
            let e = v.with_sample(ts, s).pending_events;
            &&& e.len() == v.pending_events.len() + 1
            &&& e.drop_last() == v.pending_events
            &&& e.last().ty == 5
            &&& e.last().ts_us == ts
            &&& e.last().fields.len() == 4
            &&& exists|k: int|
                0 <= k < v.reg.streams.len() && (#[trigger] v.reg.streams[k]).ssrc == s.ssrc
                    && e.last().fields[0] == FieldVal::Text(v.reg.streams[k].call_id)
            &&& e.last().fields[1] == FieldVal::U32Be(s.ssrc)
            &&& e.last().fields[2] == FieldVal::F64(s.rtt_ms->Some_0)
            &&& e.last().fields[3] == FieldVal::OptF64(s.oneway_ms)
        },
{
    lemma_last_of_ssrc(v.reg.streams, s.ssrc, v.reg.streams.len() as int);
    if s.rtt_ms is Some && (exists|k: int|
        0 <= k < v.reg.streams.len() && (#[trigger] v.reg.streams[k]).ssrc == s.ssrc) {
        let id = media::call_of_ssrc(
            v.reg.streams,
            s.ssrc,
            v.reg.streams.len() as int,
        )->Some_0;
        assert(v.with_sample(ts, s).pending_events == v.pending_events.push(
            media::rtt_event(ts, id, s),
        ));
        assert(v.with_sample(ts, s).pending_events.drop_last() =~= v.pending_events);
    }
}

proof fn lemma_rtts(blocks: Seq<ReportBlock>, rtts: Seq<Option<Real64>>, n: int)
    requires
        0 <= n <= blocks.len(),
        blocks.len() == rtts.len(),
    ensures
        forall|k: int|
            0 <= k < n && (#[trigger] rtts[k]) is Some ==> media::rtt_samples(
                blocks,
                rtts,
                n,
            ).contains(RtcpSample { ssrc: blocks[k].ssrc, rtt_ms: rtts[k], oneway_ms: None }),
        forall|j: int|
            0 <= j < media::rtt_samples(blocks, rtts, n).len() ==> {
                let s = #[trigger] media::rtt_samples(blocks, rtts, n)[j];
                s.oneway_ms is None && s.rtt_ms is Some && exists|k: int|
                    0 <= k < n && (#[trigger] rtts[k]) == s.rtt_ms && blocks[k].ssrc == s.ssrc
            },
    decreases n,
{
    if n > 0 {
        lemma_rtts(blocks, rtts, n - 1);
        let a = media::rtt_samples(blocks, rtts, n - 1);
        let b = media::rtt_samples(blocks, rtts, n);
        assert forall|k: int| 0 <= k < n && (#[trigger] rtts[k]) is Some implies b.contains(
            RtcpSample { ssrc: blocks[k].ssrc, rtt_ms: rtts[k], oneway_ms: None },
        ) by {
            let x = RtcpSample { ssrc: blocks[k].ssrc, rtt_ms: rtts[k], oneway_ms: None };
            if k < n - 1 {
                let j = choose|j: int| 0 <= j < a.len() && a[j] == x;
                assert(b[j] == x);
            } else {
                assert(b[b.len() - 1] == x);
            }
        }
        assert forall|j: int| 0 <= j < b.len() implies {
            let s = #[trigger] b[j];
            s.oneway_ms is None && s.rtt_ms is Some && exists|k: int|
                0 <= k < n && (#[trigger] rtts[k]) == s.rtt_ms && blocks[k].ssrc == s.ssrc
        } by {
            if j < a.len() {
                assert(b[j] == a[j]);
            } else {
                assert(rtts[n - 1] == b[j].rtt_ms);
            }
        }
    }
}

/// Every report block with a round trip gives a sample for the SSRC that the block is
/// about, and no other block gives one. A sender report alone gives a one-way time, for
/// its own SSRC, and gives it first.
pub proof fn law_samples_of_report(
    sender: u32,
    m: RtcpView,
    blocks: Seq<ReportBlock>,
    rtts: Seq<Option<Real64>>,
    oneway: Option<Real64>,
    k: int,
)
    requires
        m matches RtcpView::Rr(s, b) ==> s == sender && b == blocks,
        m matches RtcpView::Sr(s, _, b) ==> s == sender && b == blocks,
        m !is Other,
        rtts.len() == blocks.len(),
        0 <= k < blocks.len(),
    ensures
        rtts[k] is Some ==> media::samples_of(m, rtts, oneway).contains(
            RtcpSample { ssrc: blocks[k].ssrc, rtt_ms: rtts[k], oneway_ms: None },
        ),
        forall|j: int|
            0 <= j < media::samples_of(m, rtts, oneway).len() ==> {
                let s = #[trigger] media::samples_of(m, rtts, oneway)[j];
                ||| j == 0 && m is Sr && oneway is Some && s == RtcpSample {
                    ssrc: sender,
                    rtt_ms: None,
                    oneway_ms: oneway,
                }
                ||| s.oneway_ms is None && s.rtt_ms is Some && exists|x: int|
                    0 <= x < blocks.len() && (#[trigger] rtts[x]) == s.rtt_ms && blocks[x].ssrc
                        == s.ssrc
            },
        m is Sr && oneway is Some ==> media::samples_of(m, rtts, oneway).len() > 0
            && media::samples_of(m, rtts, oneway)[0].oneway_ms == oneway,
{
    lemma_rtts(blocks, rtts, blocks.len() as int);
    let a = media::rtt_samples(blocks, rtts, blocks.len() as int);
    let b = media::samples_of(m, rtts, oneway);
    let shift: int = if m is Sr && oneway is Some {
        1
    } else {
        0
    };
    assert(b.len() == a.len() + shift);
    assert(forall|j: int| 0 <= j < a.len() ==> b[j + shift] == #[trigger] a[j]);
    if rtts[k] is Some {
        let x = RtcpSample { ssrc: blocks[k].ssrc, rtt_ms: rtts[k], oneway_ms: None };
        assert(a.contains(x));
        let j = choose|j: int| 0 <= j < a.len() && a[j] == x;
        assert(b[j + shift] == x);
    }
    assert forall|j: int| 0 <= j < b.len() implies {
        let s = #[trigger] b[j];
        ||| j == 0 && m is Sr && oneway is Some && s == RtcpSample {
            ssrc: sender,
            rtt_ms: None,
            oneway_ms: oneway,
        }
        ||| s.oneway_ms is None && s.rtt_ms is Some && exists|x: int|
            0 <= x < blocks.len() && (#[trigger] rtts[x]) == s.rtt_ms && blocks[x].ssrc == s.ssrc
    } by {
        if j >= shift {
            assert(b[j] == a[j - shift]);
        }
    }
}

proof fn lemma_first_of_ssrc(streams: Seq<StreamView>, ssrc: u32, i: int, k: int)
    requires
        0 <= i <= k < streams.len(),
        streams[k].ssrc == ssrc,
        forall|x: int| i <= x < k ==> (#[trigger] streams[x]).ssrc != ssrc,
    ensures
        media::first_call_of_ssrc(streams, ssrc, i) == Some(streams[k].call_id),
    decreases k - i,
{
    if i < k {
        assert(streams[i].ssrc != ssrc);
        lemma_first_of_ssrc(streams, ssrc, i + 1, k);
    }
}

proof fn lemma_none_of_ssrc(streams: Seq<StreamView>, ssrc: u32, i: int)
    requires
        0 <= i,
        forall|x: int| i <= x < streams.len() ==> (#[trigger] streams[x]).ssrc != ssrc,
    ensures
        media::first_call_of_ssrc(streams, ssrc, i) is None,
    decreases streams.len() - i,
{
    if i < streams.len() {
        lemma_none_of_ssrc(streams, ssrc, i + 1);
    }
}

/// A report counts for the call of the first stream with its sender's SSRC, at
/// its time, and for no other call; one without such a stream counts for none.
pub proof fn law_report_counted(v: CorrView, ssrc: u32, ts: u64, k: int, i: int)
    requires
        v.reg.wf(),
        ssrc != 0,
        0 <= i < v.reg.calls.len(),
        v.reg.calls[i].pkts_rtcp < u64::MAX,
    ensures
        (forall|x: int| 0 <= x < v.reg.streams.len() ==> (#[trigger] v.reg.streams[x]).ssrc != ssrc)
            ==> v.with_report(ssrc, ts) == v,
        0 <= k < v.reg.streams.len() && v.reg.streams[k].ssrc == ssrc && (forall|x: int|
            0 <= x < k ==> (#[trigger] v.reg.streams[x]).ssrc != ssrc) ==> {
            let d = v.with_report(ssrc, ts).reg.calls[i];
            &&& v.reg.streams[k].call_id == v.reg.calls[i].call_id ==> d == CallView {
                pkts_rtcp: d.pkts_rtcp,
                last_ts_us: ts,
                ..v.reg.calls[i]
            } && d.pkts_rtcp == v.reg.calls[i].pkts_rtcp + 1
            &&& v.reg.streams[k].call_id != v.reg.calls[i].call_id ==> d == v.reg.calls[i]
        },
        v.with_report(ssrc, ts).reg.streams == v.reg.streams,
        v.with_report(0, ts) == v,
{
    if forall|x: int| 0 <= x < v.reg.streams.len() ==> (#[trigger] v.reg.streams[x]).ssrc != ssrc {
        lemma_none_of_ssrc(v.reg.streams, ssrc, 0);
    }
    if 0 <= k < v.reg.streams.len() && v.reg.streams[k].ssrc == ssrc && (forall|x: int|
        0 <= x < k ==> (#[trigger] v.reg.streams[x]).ssrc != ssrc) {
        lemma_first_of_ssrc(v.reg.streams, ssrc, 0, k);
        registry::lemma_call_index(v.reg.calls, v.reg.streams[k].call_id, 0);
    }
}

/// What the sender of a report is: that of a receiver or a sender report, and
/// none otherwise. The whole of a report is its count and then its samples, in order.
pub proof fn law_report_whole(
    v: CorrView,
    ts: u64,
    m: RtcpView,
    rtts: Seq<Option<Real64>>,
    oneway: Option<Real64>,
)
    ensures
        m matches RtcpView::Other(_) ==> v.with_rtcp(ts, m, rtts, oneway) == v,
        m matches RtcpView::Rr(s, _) ==> v.with_rtcp(ts, m, rtts, oneway) == v.with_report(
            s,
            ts,
        ).with_samples(
            ts,
            media::samples_of(m, rtts, oneway),
            media::samples_of(m, rtts, oneway).len() as int,
        ),
        m matches RtcpView::Sr(s, _, _) ==> v.with_rtcp(ts, m, rtts, oneway) == v.with_report(
            s,
            ts,
        ).with_samples(
            ts,
            media::samples_of(m, rtts, oneway),
            media::samples_of(m, rtts, oneway).len() as int,
        ),
{
    reveal_with_fuel(media::rtt_samples, 2);
}

} // verus!
