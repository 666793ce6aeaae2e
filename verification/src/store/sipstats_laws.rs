//! Which column and which bucket a SIP message counts in, and for whom.
use crate::model::addr::IpAddr;
use crate::model::sip::Method;
use crate::store::sipstats;
use crate::store::sipstats::{
    bucket_start, ip_less, req_col, req_label_at, resp_col, resp_label_at, ring_step, ring_sum,
    row_less, SipObs, SipStatsStore, StatsView,
};
use vstd::prelude::*;

verus! {

// ----------------------------- columns -----------------------------

/// Each method with a column of its own is counted under its name, and all the others under the last.
pub proof fn law_request_columns(m: Method)
    ensures
        req_label_at(req_col(m) as int) == (match m {
            Method::Invite => "INVITE"@,
            Method::Ack => "ACK"@,
            Method::Bye => "BYE"@,
            Method::Cancel => "CANCEL"@,
            Method::Options => "OPTION"@,
            Method::Info => "INFO"@,
            Method::Register => "REGISTER"@,
            Method::Message => "MESSAGE"@,
            _ => "oth"@,
        }),
        req_col(m) < 9,
{
}

/// A status is counted under its own code where that has a column, or else under its class; what is
/// neither a success of another kind nor a failure is counted under the last.
pub proof fn law_response_columns(s: u16)
    ensures
        resp_col(s) < 15,
        resp_label_at(resp_col(s) as int) == (if s == 100 {
            "100"@
        } else if s == 180 {
            "180"@
        } else if s == 183 {
            "183"@
        } else if s == 200 {
            "200"@
        } else if s == 403 {
            "403"@
        } else if s == 404 {
            "404"@
        } else if s == 408 {
            "408"@
        } else if s == 480 {
            "480"@
        } else if s == 486 {
            "486"@
        } else if s == 487 {
            "487"@
        } else if s / 100 == 3 {
            "3xx"@
        } else if s / 100 == 4 {
            "4xx"@
        } else if s / 100 == 5 {
            "5xx"@
        } else if s / 100 == 6 {
            "6xx"@
        } else {
            "oth"@
        }),
{
}

// ----------------------------- one endpoint -----------------------------

/// A request adds one to the column of its method and to no other; a response one to that of its status.
/// An initial INVITE counts in the series of one, five and fifteen minutes; nothing else does.
pub proof fn law_message_counted(v: StatsView, o: SipObs, k: int)
    requires
        v.wf(),
        v.room(),
    ensures
        ({
            let w = v.with_message(o);
            let col = if o.is_request {
                match o.method {
                    Some(m) => req_col(m) as int,
                    None => 8int,
                }
            } else {
                match o.status {
                    Some(s) => resp_col(s) as int,
                    None => -1int,
                }
            };
            &&& 0 <= k < 9 ==> w.req[k] == v.req[k] + (if o.is_request && k == col {
                1int
            } else {
                0int
            })
            &&& 0 <= k < 15 ==> w.resp[k] == v.resp[k] + (if !o.is_request && k == col {
                1int
            } else {
                0int
            })
            &&& o.is_request && o.initial_invite ==> w.m1 == ring_step(v.m1, 60_000_000, o.ts_us, 1, 0)
                && w.m5 == ring_step(v.m5, 300_000_000, o.ts_us, 1, 0) && w.m15 == ring_step(
                v.m15,
                900_000_000,
                o.ts_us,
                1,
                0,
            )
            &&& !(o.is_request && o.initial_invite) ==> w.m1 == v.m1 && w.m5 == v.m5 && w.m15 == v.m15
            &&& w.last_ts_us is Some && w.last_ts_us->Some_0 >= o.ts_us
            &&& v.last_ts_us is None ==> w.last_ts_us == Some(o.ts_us)
            &&& v.last_ts_us matches Some(t) ==> w.last_ts_us == Some(
                if t > o.ts_us {
                    t
                } else {
                    o.ts_us
                },
            )
        }),
{
}

/// An answer counts in the series alone.
pub proof fn law_answer_counted(v: StatsView, ts: u64)
    ensures
        ({
            let w = v.with_answer(ts);
            &&& w.req == v.req
            &&& w.resp == v.resp
            &&& w.m1 == ring_step(v.m1, 60_000_000, ts, 0, 1)
            &&& w.m5 == ring_step(v.m5, 300_000_000, ts, 0, 1)
            &&& w.m15 == ring_step(v.m15, 900_000_000, ts, 0, 1)
        }),
{
}

/// The series of five and of fifteen minutes are asked for by their seconds; any other number gives that
/// of one minute.
pub proof fn law_series(v: StatsView, secs: u64)
    ensures
        secs == 300 ==> v.series(secs) == v.m5,
        secs == 900 ==> v.series(secs) == v.m15,
        secs != 300 && secs != 900 ==> v.series(secs) == v.m1,
{
}

/// A bucket begins at a multiple of its width, at most a width before the time.
pub proof fn law_bucket(ts: u64, w: u64)
    requires
        w > 0,
    ensures
        bucket_start(ts, w) % w == 0,
        bucket_start(ts, w) <= ts,
        ts < bucket_start(ts, w) + w,
{
    sipstats::lemma_bucket_start(ts, w);
    vstd::arithmetic::div_mod::lemma_fundamental_div_mod(ts as int, w as int);
    assert(ts / w * w == w * (ts / w)) by (nonlinear_arith);
}

/// A gap of more than sixty buckets begins a series anew.
pub proof fn law_series_restarts(r: Seq<(u64, u64, u64)>, w: u64, ts: u64, inv: u64, ans: u64)
    requires
        r.len() > 0,
        inv > 0 || ans > 0,
        bucket_start(ts, w) > r.last().0 + w * 60,
    ensures
        ring_step(r, w, ts, inv, ans) == seq![(bucket_start(ts, w), inv, ans)],
{
}

/// The sums of a series are those of its buckets, invites and answers apart.
pub proof fn law_series_sums(r: Seq<(u64, u64, u64)>, n: nat)
    requires
        n < r.len(),
    ensures
        ring_sum(r, 0) == (0nat, 0nat),
        ring_sum(r, n + 1).0 == ring_sum(r, n).0 + r[n as int].1,
        ring_sum(r, n + 1).1 == ring_sum(r, n).1 + r[n as int].2,
{
}

/// The errors are the responses counted under 486, 404, 403, 408, 480, 4xx, 5xx and 6xx: every failure but
/// 487.
pub proof fn law_errors(v: StatsView, o: SipObs)
    requires
        v.wf(),
        v.room(),
    ensures
        v.with_message(o).errors() == v.errors() + (if !o.is_request && o.status is Some && 400
            <= o.status->Some_0 < 700 && o.status->Some_0 != 487 {
            1int
        } else {
            0int
        }),
{
}

// ----------------------------- endpoints -----------------------------

/// A message counts for the endpoint that it came from, an answer for the one that had asked, and neither
/// for anybody else; both count for all together.
pub proof fn law_observed_by_endpoint(s: SipStatsStore, o: SipObs, ip: IpAddr)
    ensures
        ip != o.ip && o.answer_for_ip != Some(ip) ==> s.observed_at(o, ip) == s.of(ip),
        ip == o.ip && o.answer_for_ip != Some(ip) ==> s.observed_at(o, ip) == Some(
            s.of_or_zero(ip).with_message(o),
        ),
        ip != o.ip && o.answer_for_ip == Some(ip) ==> s.observed_at(o, ip) == Some(
            s.of_or_zero(ip).with_answer(o.ts_us),
        ),
        ip == o.ip && o.answer_for_ip == Some(ip) ==> s.observed_at(o, ip) == Some(
            s.of_or_zero(ip).with_message(o).with_answer(o.ts_us),
        ),
        o.answer_for_ip is Some ==> s.global().observed(o) == s.global().with_message(
            o,
        ).with_answer(o.ts_us),
        o.answer_for_ip is None ==> s.global().observed(o) == s.global().with_message(o),
{
}

/// Addresses are ordered: IPv4 before IPv6 and each by its number; rows by their traffic, the busier first,
/// and then by address. Both orders are total.
pub proof fn law_orders(a: IpAddr, b: IpAddr, ta: nat, tb: nat, x: u32, y: u128)
    ensures
        ip_less(IpAddr::V4(x), IpAddr::V6(y)),
        !ip_less(IpAddr::V6(y), IpAddr::V4(x)),
        !(ip_less(a, b) && ip_less(b, a)),
        a != b ==> ip_less(a, b) || ip_less(b, a),
        !ip_less(a, a),
        ta > tb ==> row_less(ta, a, tb, b) && !row_less(tb, b, ta, a),
        ta == tb ==> (row_less(ta, a, tb, b) <==> ip_less(a, b)),
{
}

/// Counters are kept that were touched at the time or after it; those never touched only where everything
/// is kept.
pub proof fn law_recent(v: StatsView, cutoff: u64)
    ensures
        v.last_ts_us matches Some(t) ==> (SipStatsStore::recent(v, cutoff) <==> t >= cutoff),
        v.last_ts_us is None ==> (SipStatsStore::recent(v, cutoff) <==> cutoff == 0),
{
}

} // verus!
