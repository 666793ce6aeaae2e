//! What a captured frame holds for the analysis.
use crate::correlate::correlator::{CorrView, Correlator};
use crate::correlate::media::RtpPacket;
use crate::correlate::route;
use crate::correlate::route::Route;
use crate::correlate::turn;
use crate::correlate::turn::{Encap, Leg, TurnTracker, TurnView};
use crate::decode::frame;
use crate::decode::frame::{Decoded, Walk, L4};
use crate::decode::rtcp;
use crate::decode::rtcp::{RtcpMessage, RtcpView};
use crate::decode::rtp;
use crate::decode::rtp::{classify, parse_rtp_header, MediaKind};
use crate::decode::sip;
use crate::decode::sip::parse_sip;
use crate::decode::stun;
use crate::decode::stun::{channel_data_payload, StunMessage, StunView};
use crate::decode::tcp_reasm;
use crate::decode::tcp_reasm::TcpReassembler;
use crate::diagnostics::{DiagView, Diagnostic};
use crate::model::packet::{Flow5Tuple, Proto};
use crate::model::sip::{MsgView, SipMsg};
use crate::octets;
use crate::store::registry::RegView;
use vstd::prelude::*;

verus! {

/// One thing to analyse.
pub enum Work {
    Sip(SipMsg),
    Rtp(RtpPacket),
    Rtcp(RtcpMessage),
    /// What a TURN response says of an allocation.
    Finding(Diagnostic),
}

/// One thing to analyse, by its contents.
pub enum WorkView {
    Sip(MsgView),
    Rtp(RtpPacket),
    Rtcp(RtcpView),
    Finding(DiagView),
}

impl View for Work {
    type V = WorkView;

    open spec fn view(&self) -> WorkView {
        match self {
            Work::Sip(m) => WorkView::Sip(m@),
            Work::Rtp(p) => WorkView::Rtp(*p),
            Work::Rtcp(m) => WorkView::Rtcp(m@),
            Work::Finding(d) => WorkView::Finding(d@),
        }
    }
}

pub open spec fn work_views(v: Seq<Work>) -> Seq<WorkView> {
    v.map_values(|w: Work| w@)
}

// ----------------------------- media -----------------------------

pub open spec fn rtcp_work(v: Seq<RtcpView>) -> Seq<WorkView> {
    v.map_values(|m: RtcpView| WorkView::Rtcp(m))
}

/// What media bytes hold: an RTP packet, or the members of an RTCP packet.
pub open spec fn media_work(
    ts: u64,
    flow: Flow5Tuple,
    b: Seq<u8>,
    encap: Encap,
    leg: Option<Leg>,
) -> Seq<WorkView> {
    match rtp::kind_of(b) {
        MediaKind::Rtp => match rtp::header_of(b) {
            Some(header) => seq![
                WorkView::Rtp(
                    RtpPacket { ts_us: ts, flow, header, len: b.len() as usize, encap, leg },
                ),
            ],
            None => Seq::empty(),
        },
        MediaKind::Rtcp => rtcp_work(rtcp::members_from(b, 0)),
        MediaKind::Other => Seq::empty(),
    }
}

fn rtcp_members(v: Vec<RtcpMessage>) -> (r: Vec<Work>)
    ensures
        work_views(r@) == rtcp_work(rtcp::views(v@)),
{
    let ghost all = v@;
    let mut rest = v;
    let mut back: Vec<Work> = Vec::new();
    let mut out: Vec<Work> = Vec::new();
    while rest.len() > 0
        invariant
            rest@.len() + back@.len() == all.len(),
            rest@ == all.take(rest@.len() as int),
            forall|i: int|
                0 <= i < back@.len() ==> (#[trigger] back@[i])@ == WorkView::Rtcp(
                    all[all.len() - 1 - i]@,
                ),
        decreases rest.len(),
    {
        let ghost n = rest@.len();
        if let Some(m) = rest.pop() {
            assert(m == all[n - 1]);
            assert(rest@ =~= all.take(n - 1));
            back.push(Work::Rtcp(m));
        }
    }
    while back.len() > 0
        invariant
            out@.len() + back@.len() == all.len(),
            forall|i: int|
                0 <= i < back@.len() ==> (#[trigger] back@[i])@ == WorkView::Rtcp(
                    all[all.len() - 1 - i]@,
                ),
            forall|i: int| 0 <= i < out@.len() ==> (#[trigger] out@[i])@ == WorkView::Rtcp(all[i]@),
        decreases back.len(),
    {
        let ghost n = back@.len();
        if let Some(w) = back.pop() {
            assert(w@ == WorkView::Rtcp(all[all.len() - n]@));
            out.push(w);
        }
    }
    assert(work_views(out@) =~= rtcp_work(rtcp::views(all)));
    out
}

/// What media bytes hold, carried in a given way on a given side of a relay.
pub fn dispatch_media(
    ts: u64,
    flow: Flow5Tuple,
    bytes: &[u8],
    encap: Encap,
    leg: Option<Leg>,
) -> (r: Vec<Work>)
    ensures
        work_views(r@) == media_work(ts, flow, bytes@, encap, leg),
{
    let mut out: Vec<Work> = Vec::new();
    match classify(bytes) {
        MediaKind::Rtp => {
            if let Some(header) = parse_rtp_header(bytes) {
                let len: usize = bytes.len();
                out.push(Work::Rtp(RtpPacket { ts_us: ts, flow, header, len, encap, leg }));
            }
        },
        MediaKind::Rtcp => {
            return rtcp_members(rtcp::parse_all(bytes));
        },
        MediaKind::Other => {},
    }
    assert(work_views(out@) =~= media_work(ts, flow, bytes@, encap, leg));
    out
}

// ----------------------------- datagrams -----------------------------

/// The data that a STUN message carries.
pub open spec fn stun_data(m: StunView) -> Option<Seq<u8>> {
    match stun::first_of(m.attrs, stun::ATTR_DATA, 0) {
        Some(i) => Some(m.attrs[i].value),
        None => None,
    }
}

pub open spec fn finding_work(d: Option<DiagView>) -> Seq<WorkView> {
    match d {
        Some(d) => seq![WorkView::Finding(d)],
        None => Seq::empty(),
    }
}

/// What a STUN message holds: what it says of an allocation, and the media in it.
pub open spec fn stun_work(t: TurnView, ts: u64, flow: Flow5Tuple, m: StunView) -> Seq<WorkView> {
    let media = match stun_data(m) {
        Some(inner) => media_work(
            ts,
            flow,
            inner,
            Encap::SendIndication,
            t.after(flow, m).leg(flow),
        ),
        None => Seq::empty(),
    };
    finding_work(turn::finding(ts, flow, m)) + media
}

pub open spec fn sip_work(m: Option<MsgView>) -> Seq<WorkView> {
    match m {
        Some(m) => seq![WorkView::Sip(m)],
        None => Seq::empty(),
    }
}

/// What a UDP payload holds. Media may be wrapped by a TURN client or relay.
pub open spec fn udp_work(
    c: CorrView,
    t: TurnView,
    ts: u64,
    flow: Flow5Tuple,
    b: Seq<u8>,
) -> Seq<WorkView> {
    match route::route_of(b, c.no_media) {
        Route::Sip => sip_work(sip::sip_message(ts, flow, b, c.raw_truncate)),
        Route::Rtp | Route::Rtcp => media_work(ts, flow, b, Encap::Direct, t.leg(flow)),
        Route::Stun => match stun::stun_view(b) {
            Some(m) => stun_work(t, ts, flow, m),
            None => Seq::empty(),
        },
        Route::ChannelData => media_work(
            ts,
            flow,
            b.subrange(4, 4 + octets::be_value(b, 2, 2) as int),
            Encap::ChannelData,
            t.leg(flow),
        ),
        Route::Ignore => Seq::empty(),
    }
}

/// The relays that are known after a UDP payload: STUN messages tell of them.
pub open spec fn relays_after_udp(
    c: CorrView,
    t: TurnView,
    flow: Flow5Tuple,
    b: Seq<u8>,
) -> TurnView {
    if route::route_of(b, c.no_media) is Stun {
        match stun::stun_view(b) {
            Some(m) => t.after(flow, m),
            None => t,
        }
    } else {
        t
    }
}

fn handle_stun(turn: &mut TurnTracker, ts: u64, flow: Flow5Tuple, m: &StunMessage) -> (r: Vec<Work>)
    requires
        old(turn).wf(),
    ensures
        final(turn).wf(),
        final(turn)@ == old(turn)@.after(flow, m@),
        work_views(r@) == stun_work(old(turn)@, ts, flow, m@),
{
    let found = turn.ingest(ts, &flow, m);
    let ghost first = finding_work(turn::finding(ts, flow, m@));
    let mut out: Vec<Work> = Vec::new();
    if let Some(d) = found {
        out.push(Work::Finding(d));
    }
    assert(work_views(out@) =~= first);
    if let Some(inner) = m.data_payload() {
        let mut media = dispatch_media(
            ts,
            flow,
            inner,
            Encap::SendIndication,
            turn.leg_of(&flow),
        );
        let ghost before = out@;
        let ghost more = media@;
        out.append(&mut media);
        assert(work_views(out@) =~= work_views(before) + work_views(more));
    }
    assert(work_views(out@) =~= stun_work(old(turn)@, ts, flow, m@));
    out
}

impl Correlator {
    /// What a UDP payload holds. Relays are learned on the way.
    pub fn handle_udp(
        &self,
        turn: &mut TurnTracker,
        ts: u64,
        flow: Flow5Tuple,
        payload: &[u8],
    ) -> (r: Vec<Work>)
        requires
            old(turn).wf(),
        ensures
            final(turn).wf(),
            final(turn)@ == relays_after_udp(self@, old(turn)@, flow, payload@),
            work_views(r@) == udp_work(self@, old(turn)@, ts, flow, payload@),
    {
        let ghost known = turn@;
        let mut out: Vec<Work> = Vec::new();
        match self.route_udp(payload) {
            Route::Sip => {
                if let Some(m) = parse_sip(ts, flow, payload, self.raw_truncate) {
                    out.push(Work::Sip(m));
                }
            },
            Route::Rtp | Route::Rtcp => {
                return dispatch_media(ts, flow, payload, Encap::Direct, turn.leg_of(&flow));
            },
            Route::Stun => {
                if let Some(m) = stun::parse(payload) {
                    return handle_stun(turn, ts, flow, &m);
                }
            },
            Route::ChannelData => {
                if let Some(inner) = channel_data_payload(payload) {
                    return dispatch_media(
                        ts,
                        flow,
                        inner,
                        Encap::ChannelData,
                        turn.leg_of(&flow),
                    );
                }
            },
            Route::Ignore => {},
        }
        assert(work_views(out@) =~= udp_work(self@, known, ts, flow, payload@));
        out
    }
}

// ----------------------------- streams -----------------------------

/// The messages among the first `n` pieces of a stream.
pub open spec fn pieces_work(
    v: Seq<Seq<u8>>,
    n: int,
    ts: u64,
    flow: Flow5Tuple,
    limit: Option<usize>,
) -> Seq<WorkView>
    decreases n,
{
    if n <= 0 {
        Seq::empty()
    } else {
        pieces_work(v, n - 1, ts, flow, limit) + sip_work(
            sip::sip_message(ts, flow, v[n - 1], limit),
        )
    }
}

fn parse_pieces(v: &Vec<Vec<u8>>, ts: u64, flow: Flow5Tuple, limit: Option<usize>) -> (r: Vec<Work>)
    ensures
        work_views(r@) == pieces_work(
            tcp_reasm::byte_views(v@),
            v@.len() as int,
            ts,
            flow,
            limit,
        ),
{
    let ghost all = tcp_reasm::byte_views(v@);
    let mut out: Vec<Work> = Vec::new();
    let mut i: usize = 0;
    assert(work_views(out@) =~= Seq::<WorkView>::empty());
    while i < v.len()
        invariant
            i <= v.len(),
            all == tcp_reasm::byte_views(v@),
            work_views(out@) == pieces_work(all, i as int, ts, flow, limit),
        decreases v.len() - i,
    {
        let ghost before = out@;
        assert(all[i as int] == v@[i as int]@);
        if let Some(m) = parse_sip(ts, flow, v[i].as_slice(), limit) {
            out.push(Work::Sip(m));
        }
        i += 1;
        assert(work_views(out@) =~= work_views(before) + sip_work(
            sip::sip_message(ts, flow, all[i - 1], limit),
        ));
    }
    out
}

// ----------------------------- frames -----------------------------

/// The flow and the payload in a frame.
pub open spec fn frame_parts(linktype: u32, data: Seq<u8>) -> Option<(Flow5Tuple, Seq<u8>)> {
    match frame::frame_walk(linktype, data) {
        Walk::Hit(p) => Some(p),
        Walk::Miss => None,
        Walk::Fallback => frame::full_parse(linktype, data),
    }
}

/// What a decoded frame holds: a datagram, or what its bytes complete in a TCP
/// stream.
pub open spec fn parts_work(
    c: CorrView,
    tcp: TcpReassembler,
    t: TurnView,
    ts: u64,
    parts: Option<(Flow5Tuple, Seq<u8>)>,
) -> Seq<WorkView> {
    match parts {
        Some((flow, b)) => match flow.proto {
            Proto::Udp => udp_work(c, t, ts, flow, b),
            Proto::Tcp => {
                let pieces = tcp.completed(flow, b);
                pieces_work(pieces, pieces.len() as int, ts, flow, c.raw_truncate)
            },
        },
        None => Seq::empty(),
    }
}

/// What becomes of the TCP streams: only bytes of TCP change them.
pub open spec fn streams_after(
    before: TcpReassembler,
    after: TcpReassembler,
    ts: u64,
    parts: Option<(Flow5Tuple, Seq<u8>)>,
) -> bool {
    match parts {
        Some((flow, b)) => match flow.proto {
            Proto::Udp => after == before,
            Proto::Tcp => before.fed(after, flow, b, ts),
        },
        None => after == before,
    }
}

/// The relays that are known after a decoded frame.
pub open spec fn relays_after(
    c: CorrView,
    t: TurnView,
    parts: Option<(Flow5Tuple, Seq<u8>)>,
) -> TurnView {
    match parts {
        Some((flow, b)) => match flow.proto {
            Proto::Udp => relays_after_udp(c, t, flow, b),
            Proto::Tcp => t,
        },
        None => t,
    }
}

pub open spec fn opt_parts(d: Option<Decoded>) -> Option<(Flow5Tuple, Seq<u8>)> {
    match d {
        Some(d) => Some(d.parts()),
        None => None,
    }
}

impl CorrView {
    /// After a frame, whatever it holds.
    pub open spec fn with_frame(self, ts: u64) -> CorrView {
        CorrView {
            reg: RegView {
                pkts_total: (self.reg.pkts_total + 1) as u64,
                ..self.reg.touched(ts)
            },
            ..self
        }
    }
}

impl Correlator {
    /// What a decoded frame holds, with what it completes in its TCP stream.
    pub fn handle_frame(
        &self,
        tcp: &mut TcpReassembler,
        turn: &mut TurnTracker,
        ts: u64,
        d: Option<Decoded>,
    ) -> (r: Vec<Work>)
        requires
            old(tcp).wf(),
            old(turn).wf(),
            d matches Some(d) ==> d.wf(),
        ensures
            final(tcp).wf(),
            final(turn).wf(),
            streams_after(*old(tcp), *final(tcp), ts, opt_parts(d)),
            final(turn)@ == relays_after(self@, old(turn)@, opt_parts(d)),
            work_views(r@) == parts_work(self@, *old(tcp), old(turn)@, ts, opt_parts(d)),
    {
        match d {
            Some(d) => match d.l4 {
                L4::Udp(p) => self.handle_udp(turn, ts, d.flow, p),
                L4::Tcp(p) => {
                    let v = tcp.feed(d.flow, p, ts);
                    parse_pieces(&v, ts, d.flow, self.raw_truncate)
                },
            },
            None => {
                let out: Vec<Work> = Vec::new();
                assert(work_views(out@) =~= Seq::<WorkView>::empty());
                out
            },
        }
    }

    /// Counts a frame, and returns what it holds. When a window of at least a
    /// second is over, its packets and its length come with it.
    pub fn ingest_frame(
        &mut self,
        tcp: &mut TcpReassembler,
        turn: &mut TurnTracker,
        ts_us: u64,
        linktype: u32,
        data: &[u8],
    ) -> (r: (Vec<Work>, Option<(u64, u64)>))
        requires
            old(self).wf(),
            old(tcp).wf(),
            old(turn).wf(),
            old(self)@.reg.pkts_total < u64::MAX,
            old(self)@.reg.pkts_last_window < u64::MAX,
        ensures
            final(self).wf(),
            final(tcp).wf(),
            final(turn).wf(),
            final(self)@ == old(self)@.with_frame(ts_us),
            streams_after(*old(tcp), *final(tcp), ts_us, frame_parts(linktype, data@)),
            final(turn)@ == relays_after(
                old(self)@,
                old(turn)@,
                frame_parts(linktype, data@),
            ),
            work_views(r.0@) == parts_work(
                old(self)@,
                *old(tcp),
                old(turn)@,
                ts_us,
                frame_parts(linktype, data@),
            ),
            r.1 == match old(self)@.reg.window_start_us {
                Some(w) => if old(self)@.reg.window_over(ts_us) {
                    Some((old(self)@.reg.pkts_last_window, (ts_us - w) as u64))
                } else {
                    None
                },
                None => None,
            },
    {
        self.reg.pkts_total = self.reg.pkts_total + 1;
        let window = self.reg.touch_time(ts_us);
        let d = frame::decode(linktype, data);
        assert(opt_parts(d) == frame_parts(linktype, data@));
        let work = self.handle_frame(tcp, turn, ts_us, d);
        (work, window)
    }
}

// ----------------------------- laws -----------------------------

/// Where media is not wanted, a datagram gives SIP messages only, and nothing is
/// learned of relays.
pub proof fn law_no_media(c: CorrView, t: TurnView, ts: u64, flow: Flow5Tuple, b: Seq<u8>)
    requires
        c.no_media,
    ensures
        forall|i: int|
            0 <= i < udp_work(c, t, ts, flow, b).len() ==> (#[trigger] udp_work(
                c,
                t,
                ts,
                flow,
                b,
            )[i]) is Sip,
        relays_after_udp(c, t, flow, b) == t,
{
}

/// A datagram that begins as a SIP message is never taken for media.
pub proof fn law_sip_is_no_media(c: CorrView, t: TurnView, ts: u64, flow: Flow5Tuple, b: Seq<u8>)
    requires
        sip::begins_as_sip(b),
    ensures
        udp_work(c, t, ts, flow, b) == sip_work(sip::sip_message(ts, flow, b, c.raw_truncate)),
        relays_after_udp(c, t, flow, b) == t,
{
}

/// A frame that is neither UDP nor TCP over IP holds nothing, and leaves the streams
/// and the relays as they were.
pub proof fn law_other_frames_hold_nothing(c: CorrView, tcp: TcpReassembler, t: TurnView, ts: u64)
    ensures
        parts_work(c, tcp, t, ts, None).len() == 0,
        streams_after(tcp, tcp, ts, None),
        relays_after(c, t, None) == t,
{
}

} // verus!
