//! What a report says of the events that it sums up.
use crate::model::addr::IpAddr;
use crate::model::stats::Real64;
use crate::store::evstats::{Counters, FailSplit, StatsView, WinView};
use crate::store::report::{
    all_shown, at_percentile, code_ahead, in_order, ip_ahead, network_effective, percentile_index,
    shown, spanned, with_pct, EvlogStats, IpLoss,
};
use vstd::prelude::*;

verus! {

/// Effective calls are those answered and those that the called side failed: not found, refused or busy.
pub proof fn law_effective(answered: u64, f: FailSplit)
    requires
        answered + f.notfound + f.reject + f.busy <= u64::MAX,
    ensures
        network_effective(answered, f) == answered + f.notfound + f.reject + f.busy,
{
}

/// A percentile is the value whose place is nearest to that share of the way from the first to the last.
pub proof fn law_percentile(v: Seq<u32>, pct: nat)
    requires
        v.len() > 0,
        pct <= 100,
    ensures
        ({
            let i = percentile_index(v.len(), pct);
            &&& 0 <= i < v.len()
            &&& at_percentile(v, pct) == Some(v[i])
            &&& -50 <= 100 * i - (v.len() - 1) * pct <= 50
        }),
        at_percentile(Seq::empty(), pct) is None,
{
    let n = v.len() - 1;
    let p = pct as int;
    assert(0 <= n * p <= n * 100) by (nonlinear_arith)
        requires
            n >= 0,
            0 <= p <= 100,
    ;
}

/// The median of a list that stands in order has as many values on either side, up to one.
pub proof fn law_median(v: Seq<u32>)
    requires
        v.len() > 0,
    ensures
        percentile_index(v.len(), 50) == v.len() as int / 2,
        percentile_index(v.len(), 0) == 0,
        percentile_index(v.len(), 100) == v.len() - 1,
{
}

/// A code ranks before another by how often it came up, and then by its number.
pub proof fn law_code_order(a: (u32, u64), b: (u32, u64))
    ensures
        a.1 > b.1 ==> code_ahead(a, b) && !code_ahead(b, a),
        a.1 == b.1 && a.0 < b.0 ==> code_ahead(a, b) && !code_ahead(b, a),
{
}

/// An IP ranks before another by the share that it lost, and then by how many packets; one whose share is not
/// known counts as one that lost none.
pub proof fn law_ip_order(a: IpLoss, b: IpLoss)
    ensures
        a.loss_pct is Some && b.loss_pct is Some && a.loss_pct->Some_0.rank() > b.loss_pct->Some_0.rank()
            ==> ip_ahead(a, b) && !ip_ahead(b, a),
        a.loss_pct == b.loss_pct && a.lost > b.lost ==> ip_ahead(a, b) && !ip_ahead(b, a),
        a.loss_pct is None && b.loss_pct is None && a.lost == b.lost ==> !ip_ahead(a, b),
        a.loss_pct is Some && a.loss_pct->Some_0.rank() > 0 && b.loss_pct is None ==> ip_ahead(a, b),
{
}

/// What is shown of an IP are its own counters.
pub proof fn law_ip_row(e: (IpAddr, Counters), pct: Option<Real64>)
    ensures
        with_pct(e, pct).ip == e.0,
        with_pct(e, pct).pkts == e.1.pkts,
        with_pct(e, pct).lost == e.1.lost,
        with_pct(e, pct).bytes == e.1.bytes,
        with_pct(e, pct).loss_pct == pct,
{
}

/// What is shown of a window are its own counts.
pub proof fn law_window_row(w: WinView)
    requires
        w.answered + w.fail.notfound + w.fail.reject + w.fail.busy <= u64::MAX,
    ensures
        shown(w).start_ts_us == w.start_ts_us,
        shown(w).calls == w.calls.len(),
        shown(w).streams == w.streams.len(),
        shown(w).invites == w.invites.len(),
        shown(w).teardowns == w.teardowns,
        shown(w).answered == w.answered,
        shown(w).effective == w.answered + w.fail.notfound + w.fail.reject + w.fail.busy,
        shown(w).completed == w.completed,
        shown(w).canceled == w.canceled,
        shown(w).fail == w.fail,
        shown(w).pkts == w.loss.pkts,
        shown(w).lost == w.loss.lost,
        shown(w).rtp_bytes == w.loss.bytes,
        shown(w).sip_msgs == w.sip_msgs,
        shown(w).rtts == w.rtts,
{
}

/// The time that a log spans is that from its first to its last event; none where they are not in order.
pub proof fn law_span(a: Option<u64>, b: Option<u64>)
    ensures
        a is Some && b is Some && a->Some_0 <= b->Some_0 ==> spanned(a, b) == b->Some_0 - a->Some_0,
        a is None || b is None ==> spanned(a, b) == 0,
        a is Some && b is Some && a->Some_0 > b->Some_0 ==> spanned(a, b) == 0,
{
}

/// The report of the events holds what they were counted as.
pub proof fn law_report_fields(
    r: EvlogStats,
    s: StatsView,
    pcts: Seq<Option<Real64>>,
    top_ips: nat,
)
    requires
        r.sums_up(s, pcts, top_ips),
        s.answered + s.fail.notfound + s.fail.reject + s.fail.busy <= u64::MAX,
        s.ids.len() <= usize::MAX,
    ensures
        r.start_ts_us == s.start_ts_us,
        r.end_ts_us == s.end_ts_us,
        r.events == s.events,
        r.calls.unique == s.ids.len(),
        r.calls.invite == s.calls.invite,
        r.calls.bye == s.calls.bye,
        r.calls.cancel == s.calls.cancel,
        r.calls.completed == s.calls.completed,
        r.calls.failed == s.calls.failed,
        r.calls.canceled == s.calls.canceled,
        r.reliability.seizures == s.seized.len(),
        r.reliability.answered == s.answered,
        r.reliability.effective == s.answered + s.fail.notfound + s.fail.reject + s.fail.busy,
        r.reliability.fail == s.fail,
        r.reliability.talks@ == s.talks,
        r.reliability.setups@ == s.setups,
        r.reliability.durations@ == s.durations,
        in_order(r.reliability.pdds@),
        r.reliability.pdds@.to_multiset() == s.pdds.to_multiset(),
        r.reliability.p50_pdd_ms == at_percentile(r.reliability.pdds@, 50),
        r.reliability.p95_pdd_ms == at_percentile(r.reliability.pdds@, 95),
        r.reliability.hangup_codes@.len() <= 10,
        r.traffic.sip_msgs == s.events.sip,
        r.traffic.sip_bytes == s.sip_bytes,
        r.traffic.rtts@ == s.rtts,
        r.traffic.sip_class@ == s.sip_class,
        r.loss == s.all,
        r.windows@.len() == s.windows.len(),
        r.top_ips@.len() <= top_ips,
        s.start_ts_us is Some && s.end_ts_us is Some && s.start_ts_us->Some_0 <= s.end_ts_us->Some_0
            ==> r.traffic.span_us == s.end_ts_us->Some_0 - s.start_ts_us->Some_0,
{
    assert(crate::store::report::loss_views(r.windows@).len() == all_shown(s.windows).len());
}

} // verus!
