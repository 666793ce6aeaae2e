//! Media negotiated between the parties of a call, and media streams.
use crate::decode::rtp;
use crate::model::addr::SocketAddr;
use crate::model::packet::Flow5Tuple;
use crate::model::stats::Real64;
use crate::text;
use crate::text::clone_opt;
use vstd::prelude::*;

verus! {

/// One RTT sample derived from an RTCP RR (LSR/DLSR) or SR exchange.
#[derive(Debug, Clone, Copy, PartialEq, Eq, Structural)]
pub struct RtcpRtt {
    pub ts_us: u64,
    pub ssrc: u32,
    pub rtt_ms: Real64,
    pub oneway_ms: Option<Real64>,
}

/// Negotiated media for a call, derived from SDP offer/answer.
#[derive(Debug, Clone)]
pub struct NegotiatedMedia {
    /// SDP-advertised RTP endpoints (ip:port) for this call.
    pub endpoints: Vec<SocketAddr>,
    /// Negotiated payload types.
    pub pts: Vec<u8>,
    /// Codec names, parallel to `pts`; empty where a type has none.
    pub codecs: Vec<String>,
    /// RTP clock rates from `a=rtpmap`, parallel to `pts`; zero where there is none.
    pub clock_rates: Vec<u32>,
}

/// Negotiated media by its contents.
pub struct NegotiatedView {
    pub endpoints: Seq<SocketAddr>,
    pub pts: Seq<u8>,
    pub codecs: Seq<Seq<char>>,
    pub clock_rates: Seq<u32>,
}

impl View for NegotiatedMedia {
    type V = NegotiatedView;

    open spec fn view(&self) -> NegotiatedView {
        NegotiatedView {
            endpoints: self.endpoints@,
            pts: self.pts@,
            codecs: text::texts(self.codecs@),
            clock_rates: self.clock_rates@,
        }
    }
}

/// The first index of a payload type from `i` on.
pub open spec fn pt_index(pts: Seq<u8>, pt: u8, i: int) -> Option<int>
    decreases pts.len() - i,
{
    if i >= pts.len() {
        None
    } else if pts[i] == pt {
        Some(i)
    } else {
        pt_index(pts, pt, i + 1)
    }
}

impl NegotiatedView {
    pub open spec fn spec_empty() -> NegotiatedView {
        NegotiatedView {
            endpoints: Seq::empty(),
            pts: Seq::empty(),
            codecs: Seq::empty(),
            clock_rates: Seq::empty(),
        }
    }

    /// There is one name and one clock rate for each payload type.
    pub open spec fn aligned(self) -> bool {
        self.codecs.len() == self.pts.len() && self.clock_rates.len() == self.pts.len()
    }

    /// The clock rate that SDP gave for a payload type; zero counts as none.
    pub open spec fn clock_for(self, pt: u8) -> Option<u32> {
        match pt_index(self.pts, pt, 0) {
            Some(i) => if i < self.clock_rates.len() && self.clock_rates[i] > 0 {
                Some(self.clock_rates[i])
            } else {
                None
            },
            None => None,
        }
    }

    /// The clock that a payload type runs by: the one that SDP gave, or else its own.
    pub open spec fn rate_for(self, pt: u8) -> u32 {
        match self.clock_for(pt) {
            Some(c) => c,
            None => rtp::static_clock_rate(pt),
        }
    }

    /// The codec that was negotiated for a payload type, if it has a name.
    pub open spec fn codec_for(self, pt: u8) -> Option<Seq<char>> {
        match pt_index(self.pts, pt, 0) {
            Some(i) => if i < self.codecs.len() && self.codecs[i].len() > 0 {
                Some(self.codecs[i])
            } else {
                None
            },
            None => None,
        }
    }
}

/// The first index of a payload type.
pub fn find_pt(pts: &Vec<u8>, pt: u8) -> (r: Option<usize>)
    ensures
        match pt_index(pts@, pt, 0) {
            Some(i) => r is Some && r->Some_0 == i && i < pts@.len(),
            None => r is None,
        },
{
    let mut i: usize = 0;
    while i < pts.len()
        invariant
            i <= pts.len(),
            pt_index(pts@, pt, 0) == pt_index(pts@, pt, i as int),
        decreases pts.len() - i,
    {
        if pts[i] == pt {
            return Some(i);
        }
        i += 1;
    }
    None
}

impl NegotiatedMedia {
    /// Nothing negotiated.
    pub fn empty() -> (r: NegotiatedMedia)
        ensures
            r@ == NegotiatedView::spec_empty(),
    {
        let r = NegotiatedMedia {
            endpoints: Vec::new(),
            pts: Vec::new(),
            codecs: Vec::new(),
            clock_rates: Vec::new(),
        };
        assert(r@.codecs =~= Seq::<Seq<char>>::empty());
        r
    }

    /// SDP clock rate for `pt`, else the payload type's own default.
    pub fn clock_rate_for_pt(&self, pt: u8) -> (r: u32)
        ensures
            r == self@.rate_for(pt),
    {
        match find_pt(&self.pts, pt) {
            Some(i) => if i < self.clock_rates.len() && self.clock_rates[i] > 0 {
                self.clock_rates[i]
            } else {
                rtp::rtp_clock_rate_for_payload_type(pt)
            },
            None => rtp::rtp_clock_rate_for_payload_type(pt),
        }
    }

    /// The negotiated codec name for `pt`.
    pub fn codec_for_pt(&self, pt: u8) -> (r: Option<String>)
        ensures
            text::opt_text(r) == self@.codec_for(pt),
    {
        match find_pt(&self.pts, pt) {
            Some(i) => if i < self.codecs.len() {
                assert(self@.codecs[i as int] == self.codecs@[i as int]@);
                let c = self.codecs[i].clone();
                if c.as_str().unicode_len() == 0 {
                    None
                } else {
                    Some(c)
                }
            } else {
                None
            },
            None => None,
        }
    }
}

/// One periodic (5s) throughput/quality sample for a stream.
#[derive(Debug, Clone, Copy, PartialEq, Eq, Structural)]
pub struct RatePoint {
    /// End of the sample window (unix microseconds).
    pub ts_us: u64,
    /// Bytes of RTP observed within the window.
    pub bytes: u64,
    /// Packets observed within the window.
    pub packets: u64,
    /// Cumulative loss % at this point.
    pub loss_pct: Real64,
    /// Cumulative jitter at this point.
    pub jitter_ms: Option<Real64>,
    /// Cumulative MOS estimate at this point.
    pub mos: Option<Real64>,
}

/// Final summary for a single RTP stream, computed at snapshot/teardown.
#[derive(Debug, Clone)]
pub struct StreamSummary {
    /// Owning call (if known at snapshot time).
    pub call_id: Option<String>,
    pub ssrc: u32,
    pub flow: Option<Flow5Tuple>,
    pub codec: Option<String>,
    pub payload_type: Option<u8>,
    pub packets: u64,
    pub lost: u64,
    pub expected: u64,
    pub loss_pct: Real64,
    pub jitter_ms: Option<Real64>,
    pub first_ts_us: Option<u64>,
    pub last_ts_us: Option<u64>,
    pub rtt_min_ms: Option<Real64>,
    pub rtt_avg_ms: Option<Real64>,
    pub rtt_max_ms: Option<Real64>,
    pub oneway_ms: Option<Real64>,
    pub mos: Option<Real64>,
    pub direction: Option<String>,
    /// Relay leg label for TURN-relayed media: "client" | "peer" | None.
    pub leg: Option<String>,
    /// True if this stream traversed a learned TURN relay.
    pub via_turn: bool,
    /// Cumulative RTP bytes observed.
    pub bytes: u64,
    /// Periodic 5s throughput/quality samples (oldest first, capped).
    pub history: Vec<RatePoint>,
}

/// A stream summary by its contents.
pub struct SummaryView {
    pub call_id: Option<Seq<char>>,
    pub ssrc: u32,
    pub flow: Option<Flow5Tuple>,
    pub codec: Option<Seq<char>>,
    pub payload_type: Option<u8>,
    pub packets: u64,
    pub lost: u64,
    pub expected: u64,
    pub loss_pct: Real64,
    pub jitter_ms: Option<Real64>,
    pub first_ts_us: Option<u64>,
    pub last_ts_us: Option<u64>,
    pub rtt_min_ms: Option<Real64>,
    pub rtt_avg_ms: Option<Real64>,
    pub rtt_max_ms: Option<Real64>,
    pub oneway_ms: Option<Real64>,
    pub mos: Option<Real64>,
    pub direction: Option<Seq<char>>,
    pub leg: Option<Seq<char>>,
    pub via_turn: bool,
    pub bytes: u64,
    pub history: Seq<RatePoint>,
}

impl View for StreamSummary {
    type V = SummaryView;

    open spec fn view(&self) -> SummaryView {
        SummaryView {
            call_id: text::opt_text(self.call_id),
            ssrc: self.ssrc,
            flow: self.flow,
            codec: text::opt_text(self.codec),
            payload_type: self.payload_type,
            packets: self.packets,
            lost: self.lost,
            expected: self.expected,
            loss_pct: self.loss_pct,
            jitter_ms: self.jitter_ms,
            first_ts_us: self.first_ts_us,
            last_ts_us: self.last_ts_us,
            rtt_min_ms: self.rtt_min_ms,
            rtt_avg_ms: self.rtt_avg_ms,
            rtt_max_ms: self.rtt_max_ms,
            oneway_ms: self.oneway_ms,
            mos: self.mos,
            direction: text::opt_text(self.direction),
            leg: text::opt_text(self.leg),
            via_turn: self.via_turn,
            bytes: self.bytes,
            history: self.history@,
        }
    }
}

pub open spec fn summary_views(v: Seq<StreamSummary>) -> Seq<SummaryView> {
    v.map_values(|s: StreamSummary| s@)
}

impl SummaryView {
    /// Nothing known.
    pub open spec fn blank() -> SummaryView {
        SummaryView {
            call_id: None,
            ssrc: 0,
            flow: None,
            codec: None,
            payload_type: None,
            packets: 0,
            lost: 0,
            expected: 0,
            loss_pct: Real64 { bits: 0 },
            jitter_ms: None,
            first_ts_us: None,
            last_ts_us: None,
            rtt_min_ms: None,
            rtt_avg_ms: None,
            rtt_max_ms: None,
            oneway_ms: None,
            mos: None,
            direction: None,
            leg: None,
            via_turn: false,
            bytes: 0,
            history: Seq::empty(),
        }
    }
}

impl Default for StreamSummary {
    fn default() -> (r: StreamSummary)
        ensures
            r@ == SummaryView::blank(),
    {
        StreamSummary {
            call_id: None,
            ssrc: 0,
            flow: None,
            codec: None,
            payload_type: None,
            packets: 0,
            lost: 0,
            expected: 0,
            loss_pct: Real64 { bits: 0 },
            jitter_ms: None,
            first_ts_us: None,
            last_ts_us: None,
            rtt_min_ms: None,
            rtt_avg_ms: None,
            rtt_max_ms: None,
            oneway_ms: None,
            mos: None,
            direction: None,
            leg: None,
            via_turn: false,
            bytes: 0,
            history: Vec::new(),
        }
    }
}

fn copy_history(h: &Vec<RatePoint>) -> (r: Vec<RatePoint>)
    ensures
        r@ == h@,
{
    let mut out: Vec<RatePoint> = Vec::new();
    let mut i: usize = 0;
    while i < h.len()
        invariant
            i <= h.len(),
            out@ == h@.take(i as int),
        decreases h.len() - i,
    {
        out.push(h[i]);
        i += 1;
        assert(out@ =~= h@.take(i as int));
    }
    assert(out@ =~= h@);
    out
}

impl StreamSummary {
    /// A copy of the summary.
    pub fn copy(&self) -> (r: StreamSummary)
        ensures
            r@ == self@,
    {
        StreamSummary {
            call_id: clone_opt(&self.call_id),
            ssrc: self.ssrc,
            flow: self.flow,
            codec: clone_opt(&self.codec),
            payload_type: self.payload_type,
            packets: self.packets,
            lost: self.lost,
            expected: self.expected,
            loss_pct: self.loss_pct,
            jitter_ms: self.jitter_ms,
            first_ts_us: self.first_ts_us,
            last_ts_us: self.last_ts_us,
            rtt_min_ms: self.rtt_min_ms,
            rtt_avg_ms: self.rtt_avg_ms,
            rtt_max_ms: self.rtt_max_ms,
            oneway_ms: self.oneway_ms,
            mos: self.mos,
            direction: clone_opt(&self.direction),
            leg: clone_opt(&self.leg),
            via_turn: self.via_turn,
            bytes: self.bytes,
            history: copy_history(&self.history),
        }
    }
}

} // verus!
