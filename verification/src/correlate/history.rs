//! Throughput and quality of a stream over time.
use crate::model::media::{RatePoint, StreamSummary, SummaryView};
use crate::store::registry;
use vstd::prelude::*;

verus! {

/// The latest samples are kept, up to so many: an hour of them at five seconds.
pub const MAX_POINTS: usize = 720;

/// The samples of a stream, oldest first, and its counters at the latest of them.
pub struct History {
    pub points: Vec<RatePoint>,
    pub bytes: u64,
    pub packets: u64,
}

/// A history by its contents.
pub struct HistoryView {
    pub points: Seq<RatePoint>,
    pub bytes: u64,
    pub packets: u64,
}

impl View for History {
    type V = HistoryView;

    open spec fn view(&self) -> HistoryView {
        HistoryView { points: self.points@, bytes: self.bytes, packets: self.packets }
    }
}

/// What a counter rose by. One that fell began anew, and counts from nothing.
pub open spec fn rise(from: u64, to: u64) -> u64 {
    if to >= from {
        (to - from) as u64
    } else {
        to
    }
}

impl HistoryView {
    pub open spec fn wf(self) -> bool {
        self.points.len() <= MAX_POINTS
    }

    pub open spec fn blank() -> HistoryView {
        HistoryView { points: Seq::empty(), bytes: 0, packets: 0 }
    }

    /// What is sampled of a stream: what it carried since the latest sample, and its
    /// quality so far.
    pub open spec fn point(self, ts: u64, sum: SummaryView) -> RatePoint {
        RatePoint {
            ts_us: ts,
            bytes: rise(self.bytes, sum.bytes),
            packets: rise(self.packets, sum.packets),
            loss_pct: sum.loss_pct,
            jitter_ms: sum.jitter_ms,
            mos: sum.mos,
        }
    }

    pub open spec fn sampled(self, ts: u64, sum: SummaryView) -> HistoryView {
        HistoryView {
            points: registry::last_n(self.points.push(self.point(ts, sum)), MAX_POINTS as int),
            bytes: sum.bytes,
            packets: sum.packets,
        }
    }
}

fn risen(from: u64, to: u64) -> (r: u64)
    ensures
        r == rise(from, to),
{
    if to >= from {
        to - from
    } else {
        to
    }
}

impl History {
    pub open spec fn wf(&self) -> bool {
        self@.wf()
    }

    pub fn new() -> (r: History)
        ensures
            r.wf(),
            r@ == HistoryView::blank(),
    {
        let r = History { points: Vec::new(), bytes: 0, packets: 0 };
        assert(r@.points =~= HistoryView::blank().points);
        r
    }

    /// Samples a stream by its summary.
    pub fn sample(&mut self, ts: u64, sum: &StreamSummary)
        requires
            old(self).wf(),
        ensures
            final(self).wf(),
            final(self)@ == old(self)@.sampled(ts, sum@),
    {
        self.points.push(
            RatePoint {
                ts_us: ts,
                bytes: risen(self.bytes, sum.bytes),
                packets: risen(self.packets, sum.packets),
                loss_pct: sum.loss_pct,
                jitter_ms: sum.jitter_ms,
                mos: sum.mos,
            },
        );
        let ghost grown = self.points@;
        if self.points.len() > MAX_POINTS {
            self.points.remove(0);
            assert(self.points@ =~= grown.skip(1));
        }
        self.bytes = sum.bytes;
        self.packets = sum.packets;
        assert(self@.points =~= old(self)@.sampled(ts, sum@).points);
    }

    /// The samples, for a summary.
    pub fn points(&self) -> (r: Vec<RatePoint>)
        ensures
            r@ == self@.points,
    {
        let mut out: Vec<RatePoint> = Vec::new();
        let mut i: usize = 0;
        while i < self.points.len()
            invariant
                i <= self.points.len(),
                out@ == self.points@.take(i as int),
            decreases self.points.len() - i,
        {
            out.push(self.points[i]);
            i += 1;
            assert(out@ =~= self.points@.take(i as int));
        }
        assert(out@ =~= self.points@);
        out
    }
}

// ----------------------------- laws -----------------------------

pub open spec fn bytes_in(v: Seq<RatePoint>) -> nat
    decreases v.len(),
{
    if v.len() == 0 {
        0
    } else {
        bytes_in(v.drop_last()) + v.last().bytes as nat
    }
}

pub open spec fn packets_in(v: Seq<RatePoint>) -> nat
    decreases v.len(),
{
    if v.len() == 0 {
        0
    } else {
        packets_in(v.drop_last()) + v.last().packets as nat
    }
}

impl HistoryView {
    /// The samples account for all that the stream carried.
    pub open spec fn adds_up(self) -> bool {
        bytes_in(self.points) == self.bytes && packets_in(self.points) == self.packets
    }
}

/// As long as no sample was dropped, the samples of a stream add up to all that it
/// carried.
pub proof fn law_samples_add_up(h: HistoryView, ts: u64, sum: SummaryView)
    requires
        h.adds_up(),
        h.points.len() < MAX_POINTS,
        sum.bytes >= h.bytes,
        sum.packets >= h.packets,
    ensures
        HistoryView::blank().adds_up(),
        h.sampled(ts, sum).adds_up(),
{
    let after = h.sampled(ts, sum).points;
    assert(after.drop_last() =~= h.points);
}

/// The latest sample is always there, and no more than the limit are.
pub proof fn law_latest_sample_kept(h: HistoryView, ts: u64, sum: SummaryView)
    requires
        h.wf(),
    ensures
        h.sampled(ts, sum).wf(),
        h.sampled(ts, sum).points.last() == h.point(ts, sum),
        h.sampled(ts, sum).points.len() >= h.points.len(),
{
}

} // verus!
