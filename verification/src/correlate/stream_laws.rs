//! What a packet adds to its stream.
use crate::analyze::media_stats::ts_delta;
use crate::correlate::stream::{capped, StreamView};
use crate::decode::rtp::RtpHeader;
use crate::model::packet::Flow5Tuple;
use crate::model::stats::Real64;
use vstd::prelude::*;

verus! {

/// A packet counts once, with its bytes; the first one sets the beginning of the stream and its payload type,
/// and every one its end.
pub proof fn law_packet_observed(s: StreamView, ts: u64, h: RtpHeader, len: usize)
    requires
        s.room(len),
    ensures
        ({
            let t = s.observed(ts, h, len);
            &&& t.rest.0 == s.rest.0 + 1
            &&& t.bytes == s.bytes + len
            &&& t.last_ts_us == Some(ts)
            &&& s.first_ts_us is None ==> t.first_ts_us == Some(ts)
            &&& s.first_ts_us is Some ==> t.first_ts_us == s.first_ts_us
            &&& t.last_pt == Some(h.payload_type)
            &&& s.rest.1 is None ==> t.rest.1 == Some(h.payload_type)
            &&& s.rest.1 is Some ==> t.rest.1 == s.rest.1
            &&& t.rest.3 == Some(ts)
            &&& t.rest.4 == Some(h.timestamp)
            &&& t.flow == s.flow && t.ssrc == s.ssrc && t.call_id == s.call_id
            &&& t.codec == s.codec && t.via_turn == s.via_turn && t.leg == s.leg
            &&& t.rtt_samples == s.rtt_samples && t.oneway_samples == s.oneway_samples
            &&& s.seq.first is None ==> t.seq.first == Some(h.sequence_number) && t.seq.last
                == Some(h.sequence_number) && t.seq.lost == s.seq.lost
        }),
{
}

/// The clock of a stream is the one that was set, or else that of the payload type of its packets; it stays.
pub proof fn law_stream_clock(s: StreamView, ts: u64, h: RtpHeader, len: usize)
    ensures
        s.rest.2 matches Some(c) ==> s.clock(h.payload_type) == c,
        s.rest.2 is None && h.payload_type == 0 ==> s.clock(h.payload_type) == 8000,
        s.rest.2 is None && h.payload_type == 26 ==> s.clock(h.payload_type) == 90000,
        s.observed(ts, h, len).rest.2 == Some(s.clock(h.payload_type)),
{
}

/// Two packets give a step of the jitter: the time between their arrivals and the distance of their timestamps,
/// by the clock of the stream; the first packet gives none.
pub proof fn law_jitter_step(s: StreamView, ts: u64, h: RtpHeader, arrived: u64, stamp: u32)
    ensures
        s.rest.3 == Some(arrived) && s.rest.4 == Some(stamp) ==> (s.jitter(ts, h) matches Some(j)
            && j.arrival_delta_us == ts - arrived && j.rtp_delta == ts_delta(h.timestamp, stamp)
            && j.clock_rate == s.clock(h.payload_type)),
        s.rest.3 is None ==> s.jitter(ts, h) is None,
{
}

/// A new stream has seen nothing.
pub proof fn law_new_stream(f: Flow5Tuple, ssrc: u32, id: Seq<char>)
    ensures
        ({
            let s = StreamView::fresh(f, ssrc, id);
            &&& s.flow == f && s.ssrc == ssrc && s.call_id == id
            &&& s.rest.0 == 0 && s.bytes == 0 && s.seq.lost == 0
            &&& s.first_ts_us is None && s.last_ts_us is None && s.last_pt is None
            &&& !s.via_turn && !s.reverse_seen && s.leg is None && s.codec is None
            &&& s.rtt_samples.len() == 0 && s.oneway_samples.len() == 0
        }),
{
}

/// A new value goes to the end, and the first one leaves where there are too many.
pub proof fn law_latest_kept<T>(s: Seq<T>, x: T, cap: nat)
    requires
        cap > 0,
        s.len() <= cap,
    ensures
        capped(s, x, cap).last() == x,
        s.len() < cap ==> capped(s, x, cap) == s.push(x),
        s.len() == cap ==> capped(s, x, cap) == s.skip(1).push(x),
        capped(s, x, cap).len() <= cap,
{
    if s.len() == cap {
        assert(capped(s, x, cap) =~= s.skip(1).push(x));
    }
}

/// Round trips and one-way delays are kept apart, and what was not measured is not kept.
pub proof fn law_samples(s: StreamView, r: Real64, o: Real64)
    requires
        s.rtt_samples.len() < 256,
        s.oneway_samples.len() < 256,
    ensures
        s.sampled(Some(r), None).rtt_samples == s.rtt_samples.push(r),
        s.sampled(Some(r), None).oneway_samples == s.oneway_samples,
        s.sampled(None, Some(o)).oneway_samples == s.oneway_samples.push(o),
        s.sampled(None, Some(o)).rtt_samples == s.rtt_samples,
        s.sampled(None, None) == s,
{
}

} // verus!
