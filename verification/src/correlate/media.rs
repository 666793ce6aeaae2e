//! What RTP and RTCP packets change.
use crate::analyze::media_stats::JitterStep;
use crate::correlate::correlator;
use crate::correlate::correlator::{CorrView, Correlator};
use crate::correlate::signaling;
use crate::correlate::signaling::note_flow;
use crate::correlate::stream;
use crate::correlate::stream::{RtpStream, StreamView};
use crate::correlate::turn::{Encap, Leg};
use crate::decode::rtcp::{ReportBlock, RtcpMessage, RtcpView};
use crate::decode::rtp::RtpHeader;
use crate::diagnostics;
use crate::diagnostics::rules;
use crate::diagnostics::rules::{check_pt_change, check_rtp_flow, check_rtp_pt, diag};
use crate::diagnostics::{DiagView, Diagnostic, Severity};
use crate::model::addr_text;
use crate::model::addr_text::push_hex;
use crate::model::media::NegotiatedView;
use crate::model::packet::Flow5Tuple;
use crate::model::sip::CallView;
use crate::model::stats::Real64;
use crate::store::evlog::{Event, EventView, RtcpRttEvt};
use crate::store::ipstats;
use crate::store::registry;
use crate::store::registry::{RegView, Registry, StreamKey};
use crate::store::wire::FieldVal;
use crate::text;
use crate::text::str_eq;
use vstd::prelude::*;

verus! {

/// An RTP packet and how it was carried.
#[derive(Debug, Clone, Copy)]
pub struct RtpPacket {
    pub ts_us: u64,
    pub flow: Flow5Tuple,
    pub header: RtpHeader,
    /// Bytes of the packet.
    pub len: usize,
    pub encap: Encap,
    /// The side of a TURN relay on which the flow runs.
    pub leg: Option<Leg>,
}

impl RtpPacket {
    pub open spec fn spec_key(self) -> StreamKey {
        StreamKey { flow: self.flow, ssrc: self.header.ssrc }
    }

    pub open spec fn spec_relayed(self) -> bool {
        self.leg is Some || self.encap != Encap::Direct
    }

    fn key(&self) -> (r: StreamKey)
        ensures
            r == self.spec_key(),
    {
        StreamKey { flow: self.flow, ssrc: self.header.ssrc }
    }

    fn relayed(&self) -> (r: bool)
        ensures
            r == self.spec_relayed(),
    {
        self.leg.is_some() || self.encap != Encap::Direct
    }
}

// ----------------------------- the stream -----------------------------

/// The call that advertised an end of the flow.
pub open spec fn owner(r: RegView, flow: Flow5Tuple) -> Option<Seq<char>> {
    match registry::endpoint_index(r.endpoint_call, flow.src, 0) {
        Some(i) => Some(r.endpoint_call[i].1),
        None => match registry::endpoint_index(r.endpoint_call, flow.dst, 0) {
            Some(i) => Some(r.endpoint_call[i].1),
            None => None,
        },
    }
}

/// A call has a stream on the flow.
pub open spec fn runs_on(streams: Seq<StreamView>, id: Seq<char>, flow: Flow5Tuple) -> bool {
    exists|i: int|
        0 <= i < streams.len() && (#[trigger] streams[i]).call_id == id && streams[i].flow == flow
}

/// The media negotiated for a call, if there is one of that ID.
pub open spec fn negotiated_for(r: RegView, id: Seq<char>) -> Option<NegotiatedView> {
    match registry::call_index(r.calls, id, 0) {
        Some(i) => Some(r.calls[i].negotiated),
        None => None,
    }
}

/// A stream before its first packet: its codec and its clock are those negotiated for
/// the payload type of that packet.
pub open spec fn opened(id: Seq<char>, p: RtpPacket, n: Option<NegotiatedView>) -> StreamView {
    StreamView {
        codec: match n {
            Some(n) => n.codec_for(p.header.payload_type),
            None => None,
        },
        via_turn: p.spec_relayed(),
        leg: p.leg,
        rest: (
            0,
            None,
            match n {
                Some(n) => Some(n.rate_for(p.header.payload_type)),
                None => None,
            },
            None,
            None,
        ),
        ..StreamView::fresh(p.flow, p.header.ssrc, id)
    }
}

impl RegView {
    /// The stream of a packet before it.
    pub open spec fn stream_before(self, id: Seq<char>, p: RtpPacket) -> StreamView {
        match registry::stream_index(self.streams, p.spec_key(), 0) {
            Some(i) => self.streams[i],
            None => opened(id, p, negotiated_for(self, id)),
        }
    }

    /// The streams with the packet counted in its own.
    pub open spec fn streams_with(self, id: Seq<char>, p: RtpPacket) -> Seq<StreamView> {
        let s = self.stream_before(id, p).observed(p.ts_us, p.header, p.len);
        let t = if runs_on(self.streams, id, p.flow.spec_reverse()) {
            StreamView { reverse_seen: true, ..s }
        } else {
            s
        };
        match registry::stream_index(self.streams, p.spec_key(), 0) {
            Some(i) => self.streams.update(i, t),
            None => self.streams.push(t),
        }
    }

    /// Where media runs both ways, the other stream knows it too.
    pub open spec fn streams_after(self, id: Seq<char>, p: RtpPacket) -> Seq<StreamView> {
        let s = self.streams_with(id, p);
        let other = StreamKey { flow: p.flow.spec_reverse(), ssrc: p.header.ssrc };
        if runs_on(self.streams, id, p.flow.spec_reverse()) {
            match registry::stream_index(s, other, 0) {
                Some(i) => s.update(i, StreamView { reverse_seen: true, ..s[i] }),
                None => s,
            }
        } else {
            s
        }
    }

    /// The calls after a packet; the owner takes note of a new stream.
    pub open spec fn calls_after(self, id: Seq<char>, p: RtpPacket) -> Seq<CallView> {
        if registry::stream_index(self.streams, p.spec_key(), 0) is None {
            calls_noting(self.calls, id, p)
        } else {
            self.calls
        }
    }
}

/// The calls when a stream has begun: its owner knows its IPs, and that its
/// media is relayed.
pub open spec fn calls_noting(calls: Seq<CallView>, id: Seq<char>, p: RtpPacket) -> Seq<CallView> {
    match registry::call_index(calls, id, 0) {
        Some(i) => calls.update(
            i,
            CallView {
                ips: signaling::with_ip(
                    signaling::with_ip(calls[i].ips, p.flow.src.ip),
                    p.flow.dst.ip,
                ),
                via_turn: calls[i].via_turn || p.spec_relayed(),
                ..calls[i]
            },
        ),
        None => calls,
    }
}

// ----------------------------- findings -----------------------------

pub open spec fn listed(o: Option<DiagView>) -> Seq<DiagView> {
    match o {
        Some(d) => seq![d],
        None => Seq::empty(),
    }
}

pub open spec fn info(ts: u64, id: Seq<char>, code: Seq<char>, message: Seq<char>) -> DiagView {
    DiagView { ts_us: ts, call_id: id, severity: Severity::Info, code, message }
}

/// Relayed media of a new stream.
pub open spec fn relay_findings(id: Seq<char>, p: RtpPacket) -> Seq<DiagView> {
    let ssrc = "RTP ssrc=0x"@ + addr_text::hex(p.header.ssrc as nat);
    let carried = match p.encap {
        Encap::Direct => None,
        Encap::ChannelData => Some(
            info(
                p.ts_us,
                id,
                diagnostics::TURN_CHANNEL_MEDIA@,
                ssrc + " carried in TURN ChannelData on "@ + p.flow.spec_text(),
            ),
        ),
        Encap::SendIndication => Some(
            info(
                p.ts_us,
                id,
                diagnostics::TURN_SEND_IND_MEDIA@,
                ssrc + " carried in TURN Send/Data indication on "@ + p.flow.spec_text(),
            ),
        ),
    };
    let relayed = match p.leg {
        Some(l) => Some(
            info(
                p.ts_us,
                id,
                diagnostics::TURN_RELAY_MEDIA@,
                "media relayed via TURN ("@ + l.spec_label() + "-leg) on "@ + p.flow.spec_text(),
            ),
        ),
        None => None,
    };
    listed(carried) + listed(relayed)
}

/// What a packet gives cause to report.
pub open spec fn packet_findings(r: RegView, id: Seq<char>, p: RtpPacket) -> Seq<DiagView> {
    let changed = listed(
        rules::pt_change_finding(
            p.ts_us,
            id,
            p.header.ssrc,
            p.header.payload_type,
            r.stream_before(id, p).last_pt,
        ),
    );
    if registry::stream_index(r.streams, p.spec_key(), 0) is Some {
        changed
    } else {
        let media = match negotiated_for(r, id) {
            Some(n) => listed(
                rules::pt_finding(p.ts_us, id, p.header.ssrc, p.header.payload_type, n),
            ) + listed(rules::flow_finding(p.ts_us, id, p.flow, n)),
            None => Seq::empty(),
        };
        changed + media + relay_findings(id, p)
    }
}

impl CorrView {
    /// A packet counts for both ends of its flow.
    pub open spec fn with_traffic(self, p: RtpPacket) -> CorrView {
        CorrView {
            reg: RegView {
                ipstats: ipstats::flow_packets(
                    self.reg.ipstats,
                    p.flow,
                    p.ts_us,
                    1,
                    p.len as u64,
                ),
                ..self.reg
            },
            ..self
        }
    }

    /// A packet counts for its call.
    pub open spec fn with_call_packet(self, id: Seq<char>, ts: u64) -> CorrView {
        match registry::call_index(self.reg.calls, id, 0) {
            Some(i) => CorrView {
                reg: RegView {
                    calls: self.reg.calls.update(
                        i,
                        CallView {
                            pkts_rtp: (self.reg.calls[i].pkts_rtp + 1) as u64,
                            last_ts_us: ts,
                            ..self.reg.calls[i]
                        },
                    ),
                    ..self.reg
                },
                ..self
            },
            None => self,
        }
    }

    /// After a packet of a call.
    pub open spec fn with_media(self, id: Seq<char>, p: RtpPacket) -> CorrView {
        let ds = packet_findings(self.reg, id, p);
        CorrView {
            reg: RegView {
                streams: self.reg.streams_after(id, p),
                calls: self.reg.calls_after(id, p),
                ..self.reg
            },
            ..self
        }.with_diags(ds, ds.len() as int).with_call_packet(id, p.ts_us)
    }

    /// After an RTP packet. One that belongs to no call only counts for the
    /// ends of its flow.
    pub open spec fn with_rtp(self, p: RtpPacket) -> CorrView {
        let v = self.with_traffic(p);
        match owner(v.reg, p.flow) {
            Some(id) => v.with_media(id, p),
            None => v,
        }
    }

    /// The counters have room for a packet.
    pub open spec fn rtp_room(self, p: RtpPacket) -> bool {
        &&& ipstats::flow_room(self.reg.ipstats, p.flow, 1, 0, p.len as int)
        &&& owner(self.reg, p.flow) matches Some(id) ==> self.media_room(id, p)
    }

    /// So do those of its call and its stream.
    pub open spec fn media_room(self, id: Seq<char>, p: RtpPacket) -> bool {
        let n = packet_findings(self.reg, id, p).len();
        &&& self.reg.stream_before(id, p).room(p.len)
        &&& self.diag_room(id, n as int)
        &&& registry::call_index(self.reg.calls, id, 0) matches Some(i)
            ==> self.reg.calls[i].pkts_rtp < u64::MAX
    }
}

impl CorrView {
    /// The counters have room for a packet, with the diagnostics that it can give cause
    /// to.
    pub open spec fn rtp_roomy(self, p: RtpPacket) -> bool {
        &&& ipstats::flow_room(self.reg.ipstats, p.flow, 1, 0, p.len as int)
        &&& owner(self.reg, p.flow) matches Some(id) ==> {
            &&& self.reg.stream_before(id, p).room(p.len)
            &&& self.diag_room(id, 5)
            &&& registry::call_index(self.reg.calls, id, 0) matches Some(i)
                ==> self.reg.calls[i].pkts_rtp < u64::MAX
        }
    }
}

/// A packet gives cause to at most five diagnostics.
proof fn lemma_few_findings(r: RegView, id: Seq<char>, p: RtpPacket)
    ensures
        packet_findings(r, id, p).len() <= 5,
{
}

// ----------------------------- executable -----------------------------

fn push_opt(v: &mut Vec<Diagnostic>, d: Option<Diagnostic>)
    ensures
        diagnostics::diag_views(final(v)@) == diagnostics::diag_views(old(v)@) + listed(
            rules::opt_diag(d),
        ),
{
    match d {
        Some(d) => {
            let ghost before = v@;
            v.push(d);
            assert(diagnostics::diag_views(v@) =~= diagnostics::diag_views(before) + seq![d@]);
        },
        None => {
            assert(diagnostics::diag_views(v@) + Seq::<DiagView>::empty()
                =~= diagnostics::diag_views(v@));
        },
    }
}

fn check_carried(id: &str, p: &RtpPacket) -> (r: Option<Diagnostic>)
    ensures
        listed(rules::opt_diag(r)) + listed(
            match p.leg {
                Some(l) => Some(
                    info(
                        p.ts_us,
                        id@,
                        diagnostics::TURN_RELAY_MEDIA@,
                        "media relayed via TURN ("@ + l.spec_label() + "-leg) on "@
                            + p.flow.spec_text(),
                    ),
                ),
                None => None,
            },
        ) == relay_findings(id@, *p),
{
    let flow = p.flow.text();
    let mut s = "RTP ssrc=0x".to_owned();
    push_hex(&mut s, p.header.ssrc as u64);
    match p.encap {
        Encap::Direct => None,
        Encap::ChannelData => {
            s.push_str(" carried in TURN ChannelData on ");
            s.push_str(flow.as_str());
            Some(diag(p.ts_us, id, Severity::Info, diagnostics::TURN_CHANNEL_MEDIA, s))
        },
        Encap::SendIndication => {
            s.push_str(" carried in TURN Send/Data indication on ");
            s.push_str(flow.as_str());
            Some(diag(p.ts_us, id, Severity::Info, diagnostics::TURN_SEND_IND_MEDIA, s))
        },
    }
}

fn check_leg(id: &str, p: &RtpPacket) -> (r: Option<Diagnostic>)
    ensures
        rules::opt_diag(r) == match p.leg {
            Some(l) => Some(
                info(
                    p.ts_us,
                    id@,
                    diagnostics::TURN_RELAY_MEDIA@,
                    "media relayed via TURN ("@ + l.spec_label() + "-leg) on "@
                        + p.flow.spec_text(),
                ),
            ),
            None => None,
        },
{
    match p.leg {
        Some(l) => {
            let flow = p.flow.text();
            let mut s = "media relayed via TURN (".to_owned();
            s.push_str(l.label());
            s.push_str("-leg) on ");
            s.push_str(flow.as_str());
            Some(diag(p.ts_us, id, Severity::Info, diagnostics::TURN_RELAY_MEDIA, s))
        },
        None => None,
    }
}

impl Registry {
    fn owner_of(&self, flow: &Flow5Tuple) -> (r: Option<String>)
        ensures
            text::opt_text(r) == owner(self@, *flow),
    {
        match self.find_endpoint(flow.src) {
            Some(i) => {
                assert(self@.endpoint_call[i as int].1 == self.endpoint_call@[i as int].1@);
                Some(self.endpoint_call[i].1.clone())
            },
            None => match self.find_endpoint(flow.dst) {
                Some(i) => {
                    assert(self@.endpoint_call[i as int].1 == self.endpoint_call@[i as int].1@);
                    Some(self.endpoint_call[i].1.clone())
                },
                None => None,
            },
        }
    }

    fn has_flow(&self, id: &str, flow: Flow5Tuple) -> (r: bool)
        ensures
            r == runs_on(self@.streams, id@, flow),
    {
        let mut i: usize = 0;
        while i < self.streams.len()
            invariant
                i <= self.streams.len(),
                forall|k: int|
                    0 <= k < i ==> (#[trigger] self@.streams[k]).call_id != id@
                        || self@.streams[k].flow != flow,
            decreases self.streams.len() - i,
        {
            assert(self@.streams[i as int] == self.streams@[i as int]@);
            if self.streams[i].flow == flow && str_eq(self.streams[i].call_id.as_str(), id) {
                return true;
            }
            i += 1;
        }
        false
    }

    fn check_packet(&self, id: &str, p: &RtpPacket) -> (r: Vec<Diagnostic>)
        ensures
            diagnostics::diag_views(r@) == packet_findings(self@, id@, *p),
    {
        let h = p.header;
        let mut out: Vec<Diagnostic> = Vec::new();
        assert(diagnostics::diag_views(out@) =~= Seq::<DiagView>::empty());
        let prev: Option<u8> = match self.find_stream(p.key()) {
            Some(i) => {
                assert(self@.streams[i as int] == self.streams@[i as int]@);
                self.streams[i].last_pt
            },
            None => None,
        };
        push_opt(&mut out, check_pt_change(p.ts_us, id, h.ssrc, h.payload_type, prev));
        let ghost changed = diagnostics::diag_views(out@);
        assert(changed =~= listed(
            rules::pt_change_finding(p.ts_us, id@, h.ssrc, h.payload_type, prev),
        ));
        if self.find_stream(p.key()).is_some() {
            return out;
        }
        let ghost mut media: Seq<DiagView> = Seq::empty();
        match self.find_call(id) {
            Some(i) => {
                assert(self@.calls[i as int] == self.calls@[i as int]@);
                let n = &self.calls[i].negotiated;
                push_opt(&mut out, check_rtp_pt(p.ts_us, id, h.ssrc, h.payload_type, n));
                push_opt(&mut out, check_rtp_flow(p.ts_us, id, &p.flow, n));
                proof {
                    media = listed(
                        rules::pt_finding(p.ts_us, id@, h.ssrc, h.payload_type, n@),
                    ) + listed(rules::flow_finding(p.ts_us, id@, p.flow, n@));
                    assert(diagnostics::diag_views(out@) =~= changed + media);
                }
            },
            None => {
                assert(changed + media =~= changed);
            },
        }
        let ghost so_far = diagnostics::diag_views(out@);
        push_opt(&mut out, check_carried(id, p));
        push_opt(&mut out, check_leg(id, p));
        assert(diagnostics::diag_views(out@) =~= so_far + relay_findings(id@, *p));
        out
    }

    fn open_stream(&self, id: &str, p: &RtpPacket) -> (r: RtpStream)
        ensures
            r.wf(),
            r@ == opened(id@, *p, negotiated_for(self@, id@)),
    {
        let mut s = RtpStream::new(p.flow, p.header.ssrc, id.to_owned());
        match self.find_call(id) {
            Some(i) => {
                assert(self@.calls[i as int] == self.calls@[i as int]@);
                let n = &self.calls[i].negotiated;
                s.codec = n.codec_for_pt(p.header.payload_type);
                s.stats.clock_rate = Some(n.clock_rate_for_pt(p.header.payload_type));
            },
            None => {},
        }
        s.via_turn = p.relayed();
        s.leg = p.leg;
        s
    }

    /// Counts the packet in its stream, which is begun if there is none.
    fn count_packet(&mut self, id: &str, p: &RtpPacket, reverse: bool) -> (r: Option<JitterStep>)
        requires
            old(self).wf(),
            old(self)@.stream_before(id@, *p).room(p.len),
            reverse == runs_on(old(self)@.streams, id@, p.flow.spec_reverse()),
        ensures
            final(self).wf(),
            final(self)@ == (RegView {
                streams: old(self)@.streams_with(id@, *p),
                ..old(self)@
            }),
            r == old(self)@.stream_before(id@, *p).jitter(p.ts_us, p.header),
    {
        let ghost before = self.streams@;
        let ghost bv = self@.streams;
        proof {
            registry::lemma_stream_index(bv, p.spec_key(), 0);
        }
        match self.find_stream(p.key()) {
            Some(i) => {
                assert(bv[i as int] == before[i as int]@);
                let s = &mut self.streams[i];
                let step = s.observe(p.ts_us, p.header, p.len);
                if reverse {
                    s.reverse_seen = true;
                }
                proof {
                    assert(self.streams@ =~= before.update(i as int, self.streams@[i as int]));
                    assert(self@.streams =~= bv.update(i as int, self.streams@[i as int]@));
                }
                step
            },
            None => {
                let mut s = self.open_stream(id, p);
                let step = s.observe(p.ts_us, p.header, p.len);
                if reverse {
                    s.reverse_seen = true;
                }
                let ghost sv = s@;
                self.streams.push(s);
                proof {
                    assert(self@.streams =~= bv.push(sv));
                    lemma_push_distinct(bv, sv, p.spec_key());
                }
                step
            },
        }
    }

    fn mark_reverse(&mut self, key: StreamKey)
        requires
            old(self).wf(),
        ensures
            final(self).wf(),
            final(self)@ == (RegView {
                streams: match registry::stream_index(old(self)@.streams, key, 0) {
                    Some(i) => old(self)@.streams.update(
                        i,
                        StreamView { reverse_seen: true, ..old(self)@.streams[i] },
                    ),
                    None => old(self)@.streams,
                },
                ..old(self)@
            }),
    {
        let ghost before = self.streams@;
        let ghost bv = self@.streams;
        proof {
            registry::lemma_stream_index(bv, key, 0);
        }
        if let Some(i) = self.find_stream(key) {
            assert(bv[i as int] == before[i as int]@);
            let s = &mut self.streams[i];
            s.reverse_seen = true;
            proof {
                assert(self.streams@ =~= before.update(i as int, self.streams@[i as int]));
                assert(self@.streams =~= bv.update(i as int, self.streams@[i as int]@));
            }
        }
    }

    fn note_new_stream(&mut self, id: &str, p: &RtpPacket)
        requires
            old(self).wf(),
        ensures
            final(self).wf(),
            final(self)@ == (RegView {
                calls: calls_noting(old(self)@.calls, id@, *p),
                ..old(self)@
            }),
    {
        proof {
            registry::lemma_call_index(self@.calls, id@, 0);
        }
        if let Some(i) = self.find_call(id) {
            let ghost before = self.calls@;
            let ghost bv = self@.calls;
            assert(bv[i as int] == before[i as int]@);
            let c = &mut self.calls[i];
            note_flow(c, &p.flow);
            if p.relayed() {
                c.via_turn = true;
            }
            proof {
                correlator::lemma_calls_update(before, i as int, self.calls@[i as int]);
                assert(self.calls@ =~= before.update(i as int, self.calls@[i as int]));
            }
        }
    }

    fn count_call_packet(&mut self, id: &str, ts: u64)
        requires
            old(self).wf(),
            registry::call_index(old(self)@.calls, id@, 0) matches Some(i) ==> old(
                self,
            )@.calls[i].pkts_rtp < u64::MAX,
        ensures
            final(self).wf(),
            final(self)@ == (RegView {
                calls: match registry::call_index(old(self)@.calls, id@, 0) {
                    Some(i) => old(self)@.calls.update(
                        i,
                        CallView {
                            pkts_rtp: (old(self)@.calls[i].pkts_rtp + 1) as u64,
                            last_ts_us: ts,
                            ..old(self)@.calls[i]
                        },
                    ),
                    None => old(self)@.calls,
                },
                ..old(self)@
            }),
    {
        proof {
            registry::lemma_call_index(self@.calls, id@, 0);
        }
        if let Some(i) = self.find_call(id) {
            let ghost before = self.calls@;
            let ghost bv = self@.calls;
            assert(bv[i as int] == before[i as int]@);
            let c = &mut self.calls[i];
            c.pkts_rtp = c.pkts_rtp + 1;
            c.last_ts_us = ts;
            proof {
                correlator::lemma_calls_update(before, i as int, self.calls@[i as int]);
                assert(self.calls@ =~= before.update(i as int, self.calls@[i as int]));
            }
        }
    }
}

proof fn lemma_push_distinct(s: Seq<StreamView>, t: StreamView, key: StreamKey)
    requires
        registry::keys_distinct(s),
        registry::stream_index(s, key, 0) is None,
        t.flow == key.flow,
        t.ssrc == key.ssrc,
    ensures
        registry::keys_distinct(s.push(t)),
{
    registry::lemma_stream_index(s, key, 0);
}

/// Every finding is about the packet's call.
proof fn lemma_packet_findings_ids(r: RegView, id: Seq<char>, p: RtpPacket)
    ensures
        forall|k: int|
            0 <= k < packet_findings(r, id, p).len() ==> (#[trigger] packet_findings(
                r,
                id,
                p,
            )[k]).call_id == id,
{
}

/// A new stream leaves the counters of its call.
proof fn lemma_noting_keeps(v: CorrView, id: Seq<char>, p: RtpPacket)
    ensures
        ({
            let w = CorrView {
                reg: RegView {
                    streams: v.reg.streams_after(id, p),
                    calls: v.reg.calls_after(id, p),
                    ..v.reg
                },
                ..v
            };
            &&& registry::call_index(w.reg.calls, id, 0) == registry::call_index(
                v.reg.calls,
                id,
                0,
            )
            &&& forall|n: int| v.diag_room(id, n) ==> #[trigger] w.diag_room(id, n)
            &&& registry::call_index(v.reg.calls, id, 0) matches Some(i)
                ==> w.reg.calls[i].pkts_rtp == v.reg.calls[i].pkts_rtp
        }),
{
    registry::lemma_call_index(v.reg.calls, id, 0);
    if let Some(i) = registry::call_index(v.reg.calls, id, 0) {
        let c = calls_noting(v.reg.calls, id, p)[i];
        correlator::lemma_index_after_update(v.reg.calls, i, c, id, 0);
    }
}

/// Diagnostics leave the packet counters.
proof fn lemma_diags_keep(v: CorrView, ds: Seq<DiagView>, n: int, id: Seq<char>)
    requires
        v.reg.wf(),
        0 <= n,
    ensures
        v.with_diags(ds, n).reg.wf(),
        registry::call_index(v.with_diags(ds, n).reg.calls, id, 0) == registry::call_index(
            v.reg.calls,
            id,
            0,
        ),
        registry::call_index(v.reg.calls, id, 0) matches Some(i) ==> v.with_diags(
            ds,
            n,
        ).reg.calls[i].pkts_rtp == v.reg.calls[i].pkts_rtp,
    decreases n,
{
    if n > 0 {
        lemma_diags_keep(v, ds, n - 1, id);
        correlator::lemma_diag_keeps(v.with_diags(ds, n - 1), ds[n - 1], id);
    }
}

impl Registry {
    /// Counts the packet in the streams, and notes a new one at its call.
    fn take_packet(&mut self, id: &str, p: &RtpPacket) -> (r: Option<JitterStep>)
        requires
            old(self).wf(),
            old(self)@.stream_before(id@, *p).room(p.len),
        ensures
            final(self).wf(),
            final(self)@ == (RegView {
                streams: old(self)@.streams_after(id@, *p),
                calls: old(self)@.calls_after(id@, *p),
                ..old(self)@
            }),
            r == old(self)@.stream_before(id@, *p).jitter(p.ts_us, p.header),
    {
        let is_new: bool = self.find_stream(p.key()).is_none();
        let reverse_flow = p.flow.reverse();
        let reverse: bool = self.has_flow(id, reverse_flow);
        let step = self.count_packet(id, p, reverse);
        if reverse {
            self.mark_reverse(StreamKey { flow: reverse_flow, ssrc: p.header.ssrc });
        }
        if is_new {
            self.note_new_stream(id, p);
        }
        step
    }
}

impl Correlator {
    fn take_media(&mut self, id: &str, p: &RtpPacket) -> (r: Option<JitterStep>)
        requires
            old(self).wf(),
            old(self)@.media_room(id@, *p),
        ensures
            final(self).wf(),
            final(self)@ == old(self)@.with_media(id@, *p),
            r == old(self)@.reg.stream_before(id@, *p).jitter(p.ts_us, p.header),
    {
        let ghost v = self@;
        let ds = self.reg.check_packet(id, p);
        let step = self.reg.take_packet(id, p);
        let ghost w = self@;
        let ghost dv = packet_findings(v.reg, id@, *p);
        proof {
            lemma_packet_findings_ids(v.reg, id@, *p);
            assert forall|k: int| 0 <= k < ds@.len() implies (#[trigger] ds@[k])@.call_id
                == id@ by {
                assert(dv[k] == ds@[k]@);
            }
            lemma_noting_keeps(v, id@, *p);
            assert(dv.len() == ds@.len());
            assert(v.diag_room(id@, dv.len() as int));
            assert(w.diag_room(id@, dv.len() as int));
            lemma_diags_keep(w, dv, dv.len() as int, id@);
        }
        self.add_diagnostics(ds, id);
        self.reg.count_call_packet(id, p.ts_us);
        step
    }

    /// Takes an RTP packet, and returns what it contributes to the jitter of
    /// its stream.
    pub fn ingest_rtp(&mut self, p: RtpPacket) -> (r: Option<JitterStep>)
        requires
            old(self).wf(),
            old(self)@.rtp_room(p),
        ensures
            final(self).wf(),
            final(self)@ == old(self)@.with_rtp(p),
            r == match owner(old(self)@.reg, p.flow) {
                Some(id) => old(self)@.reg.stream_before(id, p).jitter(p.ts_us, p.header),
                None => None,
            },
    {
        self.reg.ipstats.observe_flow(p.flow, p.ts_us, 1, p.len as u64);
        let ghost v = self@;
        assert(v == old(self)@.with_traffic(p));
        match self.reg.owner_of(&p.flow) {
            Some(id) => {
                proof {
                    lemma_traffic_keeps(old(self)@, id@, p);
                }
                self.take_media(id.as_str(), &p)
            },
            None => None,
        }
    }
}

impl Correlator {
    /// Whether the counters have room for a packet, with the diagnostics that it can
    /// give cause to.
    pub fn has_rtp_room(&self, p: &RtpPacket) -> (r: bool)
        requires
            self.wf(),
        ensures
            r == self@.rtp_roomy(*p),
            r ==> self@.rtp_room(*p),
    {
        if !self.reg.ipstats.flow_has_room(p.flow, 1, 0, p.len as u64) {
            return false;
        }
        let id = match self.reg.owner_of(&p.flow) {
            Some(id) => id,
            None => return true,
        };
        proof {
            lemma_few_findings(self@.reg, id@, *p);
            registry::lemma_call_index(self@.reg.calls, id@, 0);
            registry::lemma_stream_index(self@.reg.streams, p.spec_key(), 0);
        }
        let stream_room: bool = match self.reg.find_stream(p.key()) {
            Some(i) => {
                assert(self@.reg.streams[i as int] == self.reg.streams@[i as int]@);
                self.reg.streams[i].has_room(p.len)
            },
            None => true,
        };
        let call_room: bool = match self.reg.find_call(id.as_str()) {
            Some(i) => {
                let c = &self.reg.calls[i];
                assert(c@ == self@.reg.calls[i as int]);
                c.pkts_rtp < u64::MAX && c.warn_count <= u32::MAX - 5 && c.critical_count <= u32::MAX
                    - 5
            },
            None => true,
        };
        stream_room && call_room
    }
}

/// The counters of the ends of a flow have no part in what a packet does to its
/// call.
proof fn lemma_traffic_keeps(v: CorrView, id: Seq<char>, p: RtpPacket)
    ensures
        owner(v.with_traffic(p).reg, p.flow) == owner(v.reg, p.flow),
        v.with_traffic(p).reg.stream_before(id, p) == v.reg.stream_before(id, p),
        v.with_traffic(p).media_room(id, p) == v.media_room(id, p),
{
}

// ----------------------------- RTCP -----------------------------

/// A round-trip or one-way time for the streams of an SSRC.
#[derive(Debug, Clone, Copy)]
pub struct RtcpSample {
    pub ssrc: u32,
    pub rtt_ms: Option<Real64>,
    pub oneway_ms: Option<Real64>,
}

/// The round trips of the first `n` report blocks, those that have one.
pub open spec fn rtt_samples(blocks: Seq<ReportBlock>, rtts: Seq<Option<Real64>>, n: int) -> Seq<
    RtcpSample,
>
    decreases n,
{
    if n <= 0 {
        Seq::empty()
    } else {
        let s = rtt_samples(blocks, rtts, n - 1);
        match rtts[n - 1] {
            Some(_) => s.push(
                RtcpSample {
                    ssrc: blocks[n - 1].ssrc,
                    rtt_ms: rtts[n - 1],
                    oneway_ms: None,
                },
            ),
            None => s,
        }
    }
}

pub open spec fn blocks_of(m: RtcpView) -> Seq<ReportBlock> {
    match m {
        RtcpView::Rr(_, b) => b,
        RtcpView::Sr(_, _, b) => b,
        RtcpView::Other(_) => Seq::empty(),
    }
}

/// The sender of a report; zero stands for none.
pub open spec fn sender_of(m: RtcpView) -> u32 {
    match m {
        RtcpView::Rr(s, _) => s,
        RtcpView::Sr(s, _, _) => s,
        RtcpView::Other(_) => 0,
    }
}

/// The samples of a report: the one-way time of a sender report first, then
/// the round trips of its blocks.
pub open spec fn samples_of(m: RtcpView, rtts: Seq<Option<Real64>>, oneway: Option<Real64>) -> Seq<
    RtcpSample,
> {
    let blocks = rtt_samples(blocks_of(m), rtts, blocks_of(m).len() as int);
    match m {
        RtcpView::Sr(s, _, _) => match oneway {
            Some(_) => seq![RtcpSample { ssrc: s, rtt_ms: None, oneway_ms: oneway }] + blocks,
            None => blocks,
        },
        _ => blocks,
    }
}

/// The first `n` streams with a sample, those of its SSRC.
pub open spec fn streams_sampled(streams: Seq<StreamView>, s: RtcpSample, n: int) -> Seq<StreamView>
    decreases n,
{
    if n <= 0 {
        streams
    } else {
        let v = streams_sampled(streams, s, n - 1);
        if streams[n - 1].ssrc == s.ssrc {
            v.update(n - 1, streams[n - 1].sampled(s.rtt_ms, s.oneway_ms))
        } else {
            v
        }
    }
}

/// The call of the last of the first `n` streams with that SSRC.
pub open spec fn call_of_ssrc(streams: Seq<StreamView>, ssrc: u32, n: int) -> Option<Seq<char>>
    decreases n,
{
    if n <= 0 {
        None
    } else if streams[n - 1].ssrc == ssrc {
        Some(streams[n - 1].call_id)
    } else {
        call_of_ssrc(streams, ssrc, n - 1)
    }
}

/// The call of the first stream from `i` on with that SSRC.
pub open spec fn first_call_of_ssrc(streams: Seq<StreamView>, ssrc: u32, i: int) -> Option<Seq<char>>
    decreases streams.len() - i,
{
    if i >= streams.len() {
        None
    } else if streams[i].ssrc == ssrc {
        Some(streams[i].call_id)
    } else {
        first_call_of_ssrc(streams, ssrc, i + 1)
    }
}

/// The log record of a round trip.
pub open spec fn rtt_event(ts: u64, id: Seq<char>, s: RtcpSample) -> EventView {
    EventView {
        ty: 5,
        ts_us: ts,
        fields: seq![
            FieldVal::Text(id),
            FieldVal::U32Be(s.ssrc),
            FieldVal::F64(s.rtt_ms->Some_0),
            FieldVal::OptF64(s.oneway_ms),
        ],
    }
}

impl CorrView {
    /// A report counts for the call of its sender.
    pub open spec fn with_report(self, ssrc: u32, ts: u64) -> CorrView {
        match first_call_of_ssrc(self.reg.streams, ssrc, 0) {
            Some(id) => match registry::call_index(self.reg.calls, id, 0) {
                Some(i) => if ssrc == 0 {
                    self
                } else {
                    CorrView {
                        reg: RegView {
                            calls: self.reg.calls.update(
                                i,
                                CallView {
                                    pkts_rtcp: (self.reg.calls[i].pkts_rtcp + 1) as u64,
                                    last_ts_us: ts,
                                    ..self.reg.calls[i]
                                },
                            ),
                            ..self.reg
                        },
                        ..self
                    }
                },
                None => self,
            },
            None => self,
        }
    }

    /// After a sample: its streams keep it, and a round trip is logged.
    pub open spec fn with_sample(self, ts: u64, s: RtcpSample) -> CorrView {
        let n = self.reg.streams.len() as int;
        let v = CorrView {
            reg: RegView { streams: streams_sampled(self.reg.streams, s, n), ..self.reg },
            ..self
        };
        match call_of_ssrc(self.reg.streams, s.ssrc, n) {
            Some(id) => if s.rtt_ms is Some {
                CorrView { pending_events: v.pending_events.push(rtt_event(ts, id, s)), ..v }
            } else {
                v
            },
            None => v,
        }
    }

    /// After the first `n` samples.
    pub open spec fn with_samples(self, ts: u64, ss: Seq<RtcpSample>, n: int) -> CorrView
        decreases n,
    {
        if n <= 0 {
            self
        } else {
            self.with_samples(ts, ss, n - 1).with_sample(ts, ss[n - 1])
        }
    }

    /// After a report with its samples.
    pub open spec fn with_rtcp(
        self,
        ts: u64,
        m: RtcpView,
        rtts: Seq<Option<Real64>>,
        oneway: Option<Real64>,
    ) -> CorrView {
        let ss = samples_of(m, rtts, oneway);
        self.with_report(sender_of(m), ts).with_samples(ts, ss, ss.len() as int)
    }

    /// The counter of the sender's call has room.
    pub open spec fn rtcp_room(self, m: RtcpView) -> bool {
        first_call_of_ssrc(self.reg.streams, sender_of(m), 0) matches Some(id)
            ==> registry::call_index(self.reg.calls, id, 0) matches Some(i)
            ==> self.reg.calls[i].pkts_rtcp < u64::MAX
    }
}

fn collect_rtts(blocks: &Vec<ReportBlock>, rtts: &Vec<Option<Real64>>, out: &mut Vec<RtcpSample>)
    requires
        rtts@.len() == blocks@.len(),
    ensures
        final(out)@ == old(out)@ + rtt_samples(blocks@, rtts@, blocks@.len() as int),
{
    let ghost before = out@;
    let mut i: usize = 0;
    assert(before + rtt_samples(blocks@, rtts@, 0) =~= before);
    while i < blocks.len()
        invariant
            i <= blocks.len(),
            rtts@.len() == blocks@.len(),
            out@ == before + rtt_samples(blocks@, rtts@, i as int),
        decreases blocks.len() - i,
    {
        if rtts[i].is_some() {
            let s = RtcpSample { ssrc: blocks[i].ssrc, rtt_ms: rtts[i], oneway_ms: None };
            out.push(s);
            assert(out@ =~= before + rtt_samples(blocks@, rtts@, i as int).push(s));
        }
        i += 1;
    }
}

fn collect_samples(
    msg: &RtcpMessage,
    rtts: &Vec<Option<Real64>>,
    oneway: Option<Real64>,
) -> (r: Vec<RtcpSample>)
    requires
        rtts@.len() == blocks_of(msg@).len(),
    ensures
        r@ == samples_of(msg@, rtts@, oneway),
{
    let mut out: Vec<RtcpSample> = Vec::new();
    match msg {
        RtcpMessage::Rr(rr) => {
            collect_rtts(&rr.reports, rtts, &mut out);
        },
        RtcpMessage::Sr(sr) => {
            if oneway.is_some() {
                out.push(RtcpSample { ssrc: sr.ssrc, rtt_ms: None, oneway_ms: oneway });
            }
            collect_rtts(&sr.reports, rtts, &mut out);
        },
        RtcpMessage::Other(_) => {},
    }
    assert(out@ =~= samples_of(msg@, rtts@, oneway));
    out
}

impl Correlator {
    fn count_report(&mut self, ssrc: u32, ts: u64)
        requires
            old(self).wf(),
            first_call_of_ssrc(old(self)@.reg.streams, ssrc, 0) matches Some(id)
                ==> registry::call_index(old(self)@.reg.calls, id, 0) matches Some(i) ==> old(
                self,
            )@.reg.calls[i].pkts_rtcp < u64::MAX,
        ensures
            final(self).wf(),
            final(self)@ == old(self)@.with_report(ssrc, ts),
    {
        if ssrc == 0 {
            return;
        }
        let mut i: usize = 0;
        while i < self.reg.streams.len() && self.reg.streams[i].ssrc != ssrc
            invariant
                i <= self.reg.streams.len(),
                *self == *old(self),
                first_call_of_ssrc(self@.reg.streams, ssrc, 0) == first_call_of_ssrc(
                    self@.reg.streams,
                    ssrc,
                    i as int,
                ),
            decreases self.reg.streams.len() - i,
        {
            assert(self@.reg.streams[i as int] == self.reg.streams@[i as int]@);
            i += 1;
        }
        if i == self.reg.streams.len() {
            return;
        }
        assert(self@.reg.streams[i as int] == self.reg.streams@[i as int]@);
        let id: String = self.reg.streams[i].call_id.clone();
        proof {
            registry::lemma_call_index(self@.reg.calls, id@, 0);
        }
        if let Some(k) = self.reg.find_call(id.as_str()) {
            let ghost before = self.reg.calls@;
            let ghost bv = self@.reg.calls;
            assert(bv[k as int] == before[k as int]@);
            let c = &mut self.reg.calls[k];
            c.pkts_rtcp = c.pkts_rtcp + 1;
            c.last_ts_us = ts;
            proof {
                correlator::lemma_calls_update(before, k as int, self.reg.calls@[k as int]);
                assert(self.reg.calls@ =~= before.update(k as int, self.reg.calls@[k as int]));
            }
        }
    }

    fn take_sample(&mut self, ts: u64, s: RtcpSample)
        requires
            old(self).wf(),
        ensures
            final(self).wf(),
            final(self)@ == old(self)@.with_sample(ts, s),
    {
        let ghost sv = self@.reg.streams;
        let mut id: Option<String> = None;
        let n: usize = self.reg.streams.len();
        let mut i: usize = 0;
        while i < n
            invariant
                i <= n,
                n == sv.len(),
                n == self.reg.streams@.len(),
                sv == old(self)@.reg.streams,
                self.wf(),
                self@ == (CorrView {
                    reg: RegView {
                        streams: streams_sampled(sv, s, i as int),
                        ..old(self)@.reg
                    },
                    ..old(self)@
                }),
                forall|k: int| i <= k < n ==> #[trigger] streams_sampled(sv, s, i as int)[k]
                    == sv[k],
                text::opt_text(id) == call_of_ssrc(sv, s.ssrc, i as int),
            decreases n - i,
        {
            let ghost before = self.reg.streams@;
            let ghost bv = self@.reg.streams;
            assert(bv[i as int] == before[i as int]@);
            assert(bv[i as int] == sv[i as int]);
            if self.reg.streams[i].ssrc == s.ssrc {
                id = Some(self.reg.streams[i].call_id.clone());
                let t = &mut self.reg.streams[i];
                t.sample(s.rtt_ms, s.oneway_ms);
                proof {
                    let new_s = self.reg.streams@[i as int];
                    assert(self.reg.streams@ =~= before.update(i as int, new_s));
                    assert(self@.reg.streams =~= bv.update(i as int, new_s@));
                }
            }
            i += 1;
        }
        if let Some(id) = id {
            if let Some(rtt) = s.rtt_ms {
                let r = Event::RtcpRtt(
                    RtcpRttEvt {
                        ts_us: ts,
                        call_id: id,
                        ssrc: s.ssrc,
                        rtt_ms: rtt,
                        oneway_ms: s.oneway_ms,
                    },
                );
                assert(r@.fields =~= rtt_event(ts, id@, s).fields);
                self.push_pending(r);
            }
        }
    }

    /// Takes an RTCP report. `rtts` holds the round trip of each of its report
    /// blocks, `oneway` the one-way time of a sender report.
    pub fn ingest_rtcp(
        &mut self,
        ts: u64,
        msg: &RtcpMessage,
        rtts: &Vec<Option<Real64>>,
        oneway: Option<Real64>,
    )
        requires
            old(self).wf(),
            rtts@.len() == blocks_of(msg@).len(),
            old(self)@.rtcp_room(msg@),
        ensures
            final(self).wf(),
            final(self)@ == old(self)@.with_rtcp(ts, msg@, rtts@, oneway),
    {
        let ssrc: u32 = match msg {
            RtcpMessage::Rr(rr) => rr.ssrc,
            RtcpMessage::Sr(sr) => sr.ssrc,
            RtcpMessage::Other(_) => 0,
        };
        self.count_report(ssrc, ts);
        let ghost v = self@;
        let samples = collect_samples(msg, rtts, oneway);
        let mut i: usize = 0;
        while i < samples.len()
            invariant
                i <= samples.len(),
                self.wf(),
                self@ == v.with_samples(ts, samples@, i as int),
            decreases samples.len() - i,
        {
            self.take_sample(ts, samples[i]);
            i += 1;
        }
    }
}

impl Correlator {
    /// Whether the counter of the call of a report's sender has room.
    pub fn has_rtcp_room(&self, msg: &RtcpMessage) -> (r: bool)
        requires
            self.wf(),
        ensures
            r == self@.rtcp_room(msg@),
    {
        let ssrc: u32 = match msg {
            RtcpMessage::Rr(rr) => rr.ssrc,
            RtcpMessage::Sr(sr) => sr.ssrc,
            RtcpMessage::Other(_) => 0,
        };
        let mut i: usize = 0;
        while i < self.reg.streams.len() && self.reg.streams[i].ssrc != ssrc
            invariant
                i <= self.reg.streams.len(),
                first_call_of_ssrc(self@.reg.streams, ssrc, 0) == first_call_of_ssrc(
                    self@.reg.streams,
                    ssrc,
                    i as int,
                ),
            decreases self.reg.streams.len() - i,
        {
            assert(self@.reg.streams[i as int] == self.reg.streams@[i as int]@);
            i += 1;
        }
        if i == self.reg.streams.len() {
            return true;
        }
        assert(self@.reg.streams[i as int] == self.reg.streams@[i as int]@);
        match self.reg.find_call(self.reg.streams[i].call_id.as_str()) {
            Some(k) => {
                assert(self@.reg.calls[k as int] == self.reg.calls@[k as int]@);
                self.reg.calls[k].pkts_rtcp < u64::MAX
            },
            None => true,
        }
    }
}

// ----------------------------- laws -----------------------------

/// A stream keeps no more than the latest samples.
pub proof fn law_samples_bounded(s: StreamView, rtt: Option<Real64>, oneway: Option<Real64>)
    requires
        s.rtt_samples.len() <= stream::MAX_SAMPLES,
        s.oneway_samples.len() <= stream::MAX_SAMPLES,
    ensures
        s.sampled(rtt, oneway).rtt_samples.len() <= stream::MAX_SAMPLES,
        s.sampled(rtt, oneway).oneway_samples.len() <= stream::MAX_SAMPLES,
{
}

/// A packet that belongs to no call changes nothing but the counters of the two
/// ends of its flow.
pub proof fn law_stray_packet(v: CorrView, p: RtpPacket)
    requires
        owner(v.reg, p.flow) is None,
    ensures
        v.with_rtp(p) == (CorrView {
            reg: RegView { ipstats: v.with_rtp(p).reg.ipstats, ..v.reg },
            ..v
        }),
{
}

} // verus!
