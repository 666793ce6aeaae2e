//! RTP streams: what is counted and learned per flow and SSRC.
use crate::analyze::media_stats;
use crate::analyze::media_stats::{JitterStep, MediaStatsAccumulator, RtpStatsHeader, SeqState};
use crate::correlate::turn::Leg;
use crate::decode::rtp;
use crate::decode::rtp::RtpHeader;
use crate::model::packet::Flow5Tuple;
use crate::model::stats::Real64;
use crate::text;
use vstd::prelude::*;

verus! {

/// Round-trip and one-way samples kept per stream.
pub const MAX_SAMPLES: usize = 256;

/// One RTP stream.
pub struct RtpStream {
    pub flow: Flow5Tuple,
    pub ssrc: u32,
    pub call_id: String,
    pub codec: Option<String>,
    /// Payload type of the latest packet.
    pub last_pt: Option<u8>,
    /// True if the stream traverses a TURN relay.
    pub via_turn: bool,
    pub leg: Option<Leg>,
    /// True once media has been seen in the other direction too.
    pub reverse_seen: bool,
    pub first_ts_us: Option<u64>,
    pub last_ts_us: Option<u64>,
    /// Cumulative RTP bytes.
    pub bytes: u64,
    pub stats: MediaStatsAccumulator,
    pub rtt_samples: Vec<Real64>,
    pub oneway_samples: Vec<Real64>,
}

/// A stream by its contents.
pub struct StreamView {
    pub flow: Flow5Tuple,
    pub ssrc: u32,
    pub call_id: Seq<char>,
    pub codec: Option<Seq<char>>,
    pub last_pt: Option<u8>,
    pub via_turn: bool,
    pub leg: Option<Leg>,
    pub reverse_seen: bool,
    pub first_ts_us: Option<u64>,
    pub last_ts_us: Option<u64>,
    pub bytes: u64,
    /// Sequence numbers seen, missing and lost.
    pub seq: SeqState,
    /// Packets, first payload type, clock rate, and the arrival and RTP time of
    /// the latest packet.
    pub rest: (u64, Option<u8>, Option<u32>, Option<u64>, Option<u32>),
    pub rtt_samples: Seq<Real64>,
    pub oneway_samples: Seq<Real64>,
}

impl View for RtpStream {
    type V = StreamView;

    open spec fn view(&self) -> StreamView {
        StreamView {
            flow: self.flow,
            ssrc: self.ssrc,
            call_id: self.call_id@,
            codec: text::opt_text(self.codec),
            last_pt: self.last_pt,
            via_turn: self.via_turn,
            leg: self.leg,
            reverse_seen: self.reverse_seen,
            first_ts_us: self.first_ts_us,
            last_ts_us: self.last_ts_us,
            bytes: self.bytes,
            seq: self.stats.seq(),
            rest: self.stats.rest(),
            rtt_samples: self.rtt_samples@,
            oneway_samples: self.oneway_samples@,
        }
    }
}

pub open spec fn stream_views(v: Seq<RtpStream>) -> Seq<StreamView> {
    v.map_values(|s: RtpStream| s@)
}

/// A list after one more element, without the oldest where it grew too long.
pub open spec fn capped<T>(s: Seq<T>, x: T, cap: nat) -> Seq<T> {
    let p = s.push(x);
    if p.len() > cap {
        p.skip(1)
    } else {
        p
    }
}

impl StreamView {
    pub open spec fn fresh(flow: Flow5Tuple, ssrc: u32, call_id: Seq<char>) -> StreamView {
        StreamView {
            flow,
            ssrc,
            call_id,
            codec: None,
            last_pt: None,
            via_turn: false,
            leg: None,
            reverse_seen: false,
            first_ts_us: None,
            last_ts_us: None,
            bytes: 0,
            seq: SeqState { first: None, last: None, lost: 0, pending: Set::empty() },
            rest: (0, None, None, None, None),
            rtt_samples: Seq::empty(),
            oneway_samples: Seq::empty(),
        }
    }

    /// The counters have room for a packet of `len` bytes.
    pub open spec fn room(self, len: usize) -> bool {
        &&& self.rest.0 < u64::MAX
        &&& self.seq.lost <= u64::MAX - 0x2_0000
        &&& self.bytes + len <= u64::MAX
    }

    /// The clock that the stream runs by: the one it began with, or else that of its
    /// first payload type.
    pub open spec fn clock(self, pt: u8) -> u32 {
        match self.rest.2 {
            Some(c) => c,
            None => rtp::static_clock_rate(pt),
        }
    }

    /// After a packet.
    pub open spec fn observed(self, ts: u64, h: RtpHeader, len: usize) -> StreamView {
        StreamView {
            first_ts_us: if self.first_ts_us is Some {
                self.first_ts_us
            } else {
                Some(ts)
            },
            last_ts_us: Some(ts),
            last_pt: Some(h.payload_type),
            bytes: (self.bytes + len) as u64,
            seq: media_stats::seq_step(self.seq, h.sequence_number),
            rest: (
                (self.rest.0 + 1) as u64,
                if self.rest.1 is Some {
                    self.rest.1
                } else {
                    Some(h.payload_type)
                },
                Some(self.clock(h.payload_type)),
                Some(ts),
                Some(h.timestamp),
            ),
            ..self
        }
    }

    /// What a packet contributes to the jitter, from the second one on.
    pub open spec fn jitter(self, ts: u64, h: RtpHeader) -> Option<JitterStep> {
        match (self.rest.3, self.rest.4) {
            (Some(a), Some(t)) => Some(
                JitterStep {
                    arrival_delta_us: (ts - a) as i128,
                    rtp_delta: media_stats::ts_delta(h.timestamp, t),
                    clock_rate: self.clock(h.payload_type),
                },
            ),
            _ => None,
        }
    }

    /// After a round-trip or one-way sample.
    pub open spec fn sampled(self, rtt: Option<Real64>, oneway: Option<Real64>) -> StreamView {
        StreamView {
            rtt_samples: match rtt {
                Some(r) => capped(self.rtt_samples, r, MAX_SAMPLES as nat),
                None => self.rtt_samples,
            },
            oneway_samples: match oneway {
                Some(o) => capped(self.oneway_samples, o, MAX_SAMPLES as nat),
                None => self.oneway_samples,
            },
            ..self
        }
    }
}

fn push_capped(v: &mut Vec<Real64>, x: Real64, cap: usize)
    requires
        old(v)@.len() <= cap < usize::MAX,
    ensures
        final(v)@ == capped(old(v)@, x, cap as nat),
        final(v)@.len() <= cap || cap == 0,
{
    v.push(x);
    if v.len() > cap {
        let ghost all = v@;
        let _oldest = v.remove(0);
        assert(v@ =~= all.skip(1));
    }
}

impl RtpStream {
    /// Whether the counters have room for a packet of `len` bytes.
    pub fn has_room(&self, len: usize) -> (r: bool)
        ensures
            r == self@.room(len),
    {
        self.stats.packet_count < u64::MAX && self.stats.lost_packets <= u64::MAX - 0x2_0000
            && self.bytes as u128 + len as u128 <= u64::MAX as u128
    }
}

impl RtpStream {
    /// In good order: nothing missing twice, and no more samples than are kept.
    pub open spec fn wf(self) -> bool {
        &&& self.stats.wf()
        &&& self.rtt_samples@.len() <= MAX_SAMPLES
        &&& self.oneway_samples@.len() <= MAX_SAMPLES
    }

    pub fn new(flow: Flow5Tuple, ssrc: u32, call_id: String) -> (r: RtpStream)
        ensures
            r.wf(),
            r@ == StreamView::fresh(flow, ssrc, call_id@),
    {
        RtpStream {
            flow,
            ssrc,
            call_id,
            codec: None,
            last_pt: None,
            via_turn: false,
            leg: None,
            reverse_seen: false,
            first_ts_us: None,
            last_ts_us: None,
            bytes: 0,
            stats: MediaStatsAccumulator::new(),
            rtt_samples: Vec::new(),
            oneway_samples: Vec::new(),
        }
    }

    /// Counts a packet, and returns what it contributes to the jitter.
    pub fn observe(&mut self, ts: u64, h: RtpHeader, len: usize) -> (r: Option<JitterStep>)
        requires
            old(self).wf(),
            old(self)@.room(len),
        ensures
            final(self).wf(),
            final(self)@ == old(self)@.observed(ts, h, len),
            r == old(self)@.jitter(ts, h),
    {
        if self.first_ts_us.is_none() {
            self.first_ts_us = Some(ts);
        }
        self.last_ts_us = Some(ts);
        self.last_pt = Some(h.payload_type);
        self.bytes = self.bytes + len as u64;
        let header = RtpStatsHeader {
            payload_type: h.payload_type,
            sequence_number: h.sequence_number,
            rtp_timestamp: h.timestamp,
            ssrc: h.ssrc,
        };
        self.stats.observe(ts, Some(header))
    }

    /// Keeps a round-trip or one-way sample.
    pub fn sample(&mut self, rtt: Option<Real64>, oneway: Option<Real64>)
        requires
            old(self).wf(),
        ensures
            final(self).wf(),
            final(self)@ == old(self)@.sampled(rtt, oneway),
    {
        if let Some(r) = rtt {
            push_capped(&mut self.rtt_samples, r, MAX_SAMPLES);
        }
        if let Some(o) = oneway {
            push_capped(&mut self.oneway_samples, o, MAX_SAMPLES);
        }
    }
}

} // verus!
