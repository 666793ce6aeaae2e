//! The report of an event log as JSON.
//!
//! Ratios and averages come as numbers in text; everything else is exact.
use crate::json::{
    int_of, json_of, list, no_fields, nothing, null, number_json, number_or_null, object, print,
    printed, put, text, uint, uint_json, uint_or_null, Json,
};
use crate::model::addr_text;
use crate::model::addr_text::ip_string;
use crate::numfmt;
use crate::numfmt::fmt_time_tz;
use crate::store::evstats::{CallCounts, Counters, EventCounts};
use crate::store::report::{EvlogStats, IpLoss, LossWindow, Reliability, Traffic};
use crate::store::report_text::windows_shown;
use crate::text::{dec, opt_text, push_dec};
use vstd::prelude::*;

verus! {

/// The figures of a report, as numbers; none, where there is nothing to count.
pub struct ReportFigures {
    pub asr: Option<String>,
    pub ccr: Option<String>,
    pub ner: Option<String>,
    pub cancel: Option<String>,
    pub notfound: Option<String>,
    pub reject: Option<String>,
    pub busy: Option<String>,
    pub timeout: Option<String>,
    pub fail: Option<String>,
    pub pdd_avg: Option<String>,
    pub setup: Option<String>,
    pub talk: Option<String>,
    pub call: Option<String>,
    pub loss: Option<String>,
    pub pps: Option<String>,
    pub bps: Option<String>,
    pub cps: Option<String>,
    pub mos: Option<String>,
    pub jitter: Option<String>,
    pub rtt: Option<String>,
    /// The share that each ranked IP lost.
    pub ips: Vec<Option<String>>,
    /// The ratios of each window.
    pub windows: Vec<WindowFigures>,
}

/// The ratios of a window, as numbers.
pub struct WindowFigures {
    pub asr: Option<String>,
    pub ner: Option<String>,
    pub ccr: Option<String>,
    pub cancel: Option<String>,
    pub notfound: Option<String>,
    pub reject: Option<String>,
    pub busy: Option<String>,
    pub timeout: Option<String>,
    pub fail: Option<String>,
    pub loss: Option<String>,
    pub rtt: Option<String>,
}

/// How many events there are of each type.
pub open spec fn event_fields(e: EventCounts) -> Map<Seq<char>, Json> {
    nothing().insert(
        "total"@,
        Json::Int(e.spec_total() as int),
    ).insert(
        "sip"@,
        Json::Int(e.sip as int),
    ).insert(
        "txn"@,
        Json::Int(e.txn as int),
    ).insert(
        "call"@,
        Json::Int(e.call as int),
    ).insert(
        "stream_snap"@,
        Json::Int(e.stream_snap as int),
    ).insert(
        "rtcp_rtt"@,
        Json::Int(e.rtcp_rtt as int),
    ).insert(
        "health"@,
        Json::Int(e.health as int),
    ).insert(
        "error"@,
        Json::Int(e.error as int),
    ).insert(
        "diag"@,
        Json::Int(e.diag as int),
    ).insert(
        "skipped"@,
        Json::Int(e.skipped as int),
    )
}

fn events_value(e: &EventCounts) -> (r: serde_json::Value)
    ensures
        json_of(r) == Json::Object(event_fields(*e)),
{
    let mut m = no_fields();
    put(&mut m, "total", uint(e.total()));
    put(&mut m, "sip", uint(e.sip));
    put(&mut m, "txn", uint(e.txn));
    put(&mut m, "call", uint(e.call));
    put(&mut m, "stream_snap", uint(e.stream_snap));
    put(&mut m, "rtcp_rtt", uint(e.rtcp_rtt));
    put(&mut m, "health", uint(e.health));
    put(&mut m, "error", uint(e.error));
    put(&mut m, "diag", uint(e.diag));
    put(&mut m, "skipped", uint(e.skipped));
    object(m)
}

/// How many calls there are, and what became of them.
pub open spec fn call_count_fields(c: CallCounts) -> Map<Seq<char>, Json> {
    nothing().insert(
        "unique"@,
        Json::Int(c.unique as int),
    ).insert(
        "invite"@,
        Json::Int(c.invite as int),
    ).insert(
        "bye"@,
        Json::Int(c.bye as int),
    ).insert(
        "cancel"@,
        Json::Int(c.cancel as int),
    ).insert(
        "completed"@,
        Json::Int(c.completed as int),
    ).insert(
        "failed"@,
        Json::Int(c.failed as int),
    ).insert(
        "canceled"@,
        Json::Int(c.canceled as int),
    )
}

fn calls_value(c: &CallCounts) -> (r: serde_json::Value)
    ensures
        json_of(r) == Json::Object(call_count_fields(*c)),
{
    let mut m = no_fields();
    put(&mut m, "unique", uint(c.unique as u64));
    put(&mut m, "invite", uint(c.invite));
    put(&mut m, "bye", uint(c.bye));
    put(&mut m, "cancel", uint(c.cancel));
    put(&mut m, "completed", uint(c.completed));
    put(&mut m, "failed", uint(c.failed));
    put(&mut m, "canceled", uint(c.canceled));
    object(m)
}

/// A hangup code and its count.
pub open spec fn code_fields(x: (u32, u64)) -> Map<Seq<char>, Json> {
    nothing().insert(
        "code"@,
        Json::Int(x.0 as int),
    ).insert(
        "count"@,
        Json::Int(x.1 as int),
    )
}

fn code_value(x: (u32, u64)) -> (r: serde_json::Value)
    ensures
        json_of(r) == Json::Object(code_fields(x)),
{
    let mut m = no_fields();
    put(&mut m, "code", uint(x.0 as u64));
    put(&mut m, "count", uint(x.1));
    object(m)
}

pub open spec fn codes_json(v: Seq<(u32, u64)>) -> Seq<Json> {
    Seq::new(v.len(), |i: int| Json::Object(code_fields(v[i])))
}

fn codes_value(v: &Vec<(u32, u64)>) -> (r: serde_json::Value)
    ensures
        json_of(r) == Json::List(codes_json(v@)),
{
    let ghost all = codes_json(v@);
    let mut out: Vec<serde_json::Value> = Vec::new();
    let mut i: usize = 0;
    while i < v.len()
        invariant
            i <= v.len(),
            all == codes_json(v@),
            out@.len() == i,
            forall|k: int| 0 <= k < i ==> json_of(#[trigger] out@[k]) == all[k],
        decreases v.len() - i,
    {
        out.push(code_value(v[i]));
        assert(json_of(out@[i as int]) == all[i as int]);
        i += 1;
    }
    assert(out@.map_values(|x: serde_json::Value| json_of(x)) =~= all);
    list(out)
}

/// A whole number written as one with a fraction.
pub open spec fn whole_number(n: Option<u32>) -> Option<Seq<char>> {
    match n {
        Some(n) => Some(dec(n as nat) + ".0"@),
        None => None,
    }
}

fn whole(n: Option<u32>) -> (r: Option<String>)
    ensures
        opt_text(r) == whole_number(n),
{
    match n {
        Some(n) => {
            let mut s = String::new();
            push_dec(&mut s, n as u64);
            s.push_str(".0");
            assert(s@ =~= dec(n as nat) + ".0"@);
            Some(s)
        },
        None => None,
    }
}

/// Call completion.
pub open spec fn reliability_fields(r: Reliability, f: ReportFigures) -> Map<Seq<char>, Json> {
    nothing().insert(
        "seizures"@,
        Json::Int(r.seizures as int),
    ).insert(
        "answered"@,
        Json::Int(r.answered as int),
    ).insert(
        "asr_pct"@,
        number_json(opt_text(f.asr)),
    ).insert(
        "ccr_pct"@,
        number_json(opt_text(f.ccr)),
    ).insert(
        "ner_pct"@,
        number_json(opt_text(f.ner)),
    ).insert(
        "cancel_pct"@,
        number_json(opt_text(f.cancel)),
    ).insert(
        "notfound"@,
        Json::Int(r.fail.notfound as int),
    ).insert(
        "reject"@,
        Json::Int(r.fail.reject as int),
    ).insert(
        "busy"@,
        Json::Int(r.fail.busy as int),
    ).insert(
        "timeout"@,
        Json::Int(r.fail.timeout as int),
    ).insert(
        "fail"@,
        Json::Int(r.fail.fail as int),
    ).insert(
        "notfound_pct"@,
        number_json(opt_text(f.notfound)),
    ).insert(
        "reject_pct"@,
        number_json(opt_text(f.reject)),
    ).insert(
        "busy_pct"@,
        number_json(opt_text(f.busy)),
    ).insert(
        "timeout_pct"@,
        number_json(opt_text(f.timeout)),
    ).insert(
        "fail_pct"@,
        number_json(opt_text(f.fail)),
    ).insert(
        "avg_pdd_ms"@,
        number_json(opt_text(f.pdd_avg)),
    ).insert(
        "p50_pdd_ms"@,
        number_json(whole_number(r.p50_pdd_ms)),
    ).insert(
        "p95_pdd_ms"@,
        number_json(whole_number(r.p95_pdd_ms)),
    ).insert(
        "avg_setup_ms"@,
        number_json(opt_text(f.setup)),
    ).insert(
        "avg_talk_ms"@,
        number_json(opt_text(f.talk)),
    ).insert(
        "avg_call_ms"@,
        number_json(opt_text(f.call)),
    ).insert(
        "hangup_codes"@,
        Json::List(codes_json(r.hangup_codes@)),
    )
}

fn reliability_value(rel: &Reliability, f: &ReportFigures) -> (r: serde_json::Value)
    ensures
        json_of(r) == Json::Object(reliability_fields(*rel, *f)),
{
    let mut m = no_fields();
    put(&mut m, "seizures", uint(rel.seizures as u64));
    put(&mut m, "answered", uint(rel.answered));
    put(&mut m, "asr_pct", number_or_null(&f.asr));
    put(&mut m, "ccr_pct", number_or_null(&f.ccr));
    put(&mut m, "ner_pct", number_or_null(&f.ner));
    put(&mut m, "cancel_pct", number_or_null(&f.cancel));
    put(&mut m, "notfound", uint(rel.fail.notfound));
    put(&mut m, "reject", uint(rel.fail.reject));
    put(&mut m, "busy", uint(rel.fail.busy));
    put(&mut m, "timeout", uint(rel.fail.timeout));
    put(&mut m, "fail", uint(rel.fail.fail));
    put(&mut m, "notfound_pct", number_or_null(&f.notfound));
    put(&mut m, "reject_pct", number_or_null(&f.reject));
    put(&mut m, "busy_pct", number_or_null(&f.busy));
    put(&mut m, "timeout_pct", number_or_null(&f.timeout));
    put(&mut m, "fail_pct", number_or_null(&f.fail));
    put(&mut m, "avg_pdd_ms", number_or_null(&f.pdd_avg));
    put(&mut m, "p50_pdd_ms", number_or_null(&whole(rel.p50_pdd_ms)));
    put(&mut m, "p95_pdd_ms", number_or_null(&whole(rel.p95_pdd_ms)));
    put(&mut m, "avg_setup_ms", number_or_null(&f.setup));
    put(&mut m, "avg_talk_ms", number_or_null(&f.talk));
    put(&mut m, "avg_call_ms", number_or_null(&f.call));
    put(&mut m, "hangup_codes", codes_value(&rel.hangup_codes));
    object(m)
}

/// SIP responses by class.
pub open spec fn class_fields(v: Seq<u64>) -> Map<Seq<char>, Json> {
    nothing().insert(
        "1xx"@,
        Json::Int(v[1] as int),
    ).insert(
        "2xx"@,
        Json::Int(v[2] as int),
    ).insert(
        "3xx"@,
        Json::Int(v[3] as int),
    ).insert(
        "4xx"@,
        Json::Int(v[4] as int),
    ).insert(
        "5xx"@,
        Json::Int(v[5] as int),
    ).insert(
        "6xx"@,
        Json::Int(v[6] as int),
    )
}

fn class_value(v: &Vec<u64>) -> (r: serde_json::Value)
    requires
        v@.len() == 7,
    ensures
        json_of(r) == Json::Object(class_fields(v@)),
{
    let mut m = no_fields();
    put(&mut m, "1xx", uint(v[1]));
    put(&mut m, "2xx", uint(v[2]));
    put(&mut m, "3xx", uint(v[3]));
    put(&mut m, "4xx", uint(v[4]));
    put(&mut m, "5xx", uint(v[5]));
    put(&mut m, "6xx", uint(v[6]));
    object(m)
}

/// Volume and media quality.
pub open spec fn traffic_fields(t: Traffic, l: Counters, f: ReportFigures) -> Map<Seq<char>, Json> {
    nothing().insert(
        "rtp_pkts"@,
        Json::Int(l.pkts as int),
    ).insert(
        "rtp_lost"@,
        Json::Int(l.lost as int),
    ).insert(
        "rtp_bytes"@,
        Json::Int(l.bytes as int),
    ).insert(
        "sip_msgs"@,
        Json::Int(t.sip_msgs as int),
    ).insert(
        "sip_bytes"@,
        Json::Int(t.sip_bytes as int),
    ).insert(
        "loss_pct"@,
        number_json(opt_text(f.loss)),
    ).insert(
        "avg_bps"@,
        number_json(opt_text(f.bps)),
    ).insert(
        "avg_rtp_pps"@,
        number_json(opt_text(f.pps)),
    ).insert(
        "avg_cps"@,
        number_json(opt_text(f.cps)),
    ).insert(
        "avg_mos"@,
        number_json(opt_text(f.mos)),
    ).insert(
        "avg_jitter_ms"@,
        number_json(opt_text(f.jitter)),
    ).insert(
        "avg_rtt_ms"@,
        number_json(opt_text(f.rtt)),
    ).insert(
        "rtt_samples"@,
        Json::Int(t.rtts@.len() as int),
    ).insert(
        "sip_class"@,
        Json::Object(class_fields(t.sip_class@)),
    )
}

fn traffic_value(t: &Traffic, l: &Counters, f: &ReportFigures) -> (r: serde_json::Value)
    requires
        t.sip_class@.len() == 7,
    ensures
        json_of(r) == Json::Object(traffic_fields(*t, *l, *f)),
{
    let mut m = no_fields();
    put(&mut m, "rtp_pkts", uint(l.pkts));
    put(&mut m, "rtp_lost", uint(l.lost));
    put(&mut m, "rtp_bytes", uint(l.bytes));
    put(&mut m, "sip_msgs", uint(t.sip_msgs));
    put(&mut m, "sip_bytes", uint(t.sip_bytes));
    put(&mut m, "loss_pct", number_or_null(&f.loss));
    put(&mut m, "avg_bps", number_or_null(&f.bps));
    put(&mut m, "avg_rtp_pps", number_or_null(&f.pps));
    put(&mut m, "avg_cps", number_or_null(&f.cps));
    put(&mut m, "avg_mos", number_or_null(&f.mos));
    put(&mut m, "avg_jitter_ms", number_or_null(&f.jitter));
    put(&mut m, "avg_rtt_ms", number_or_null(&f.rtt));
    put(&mut m, "rtt_samples", uint(t.rtts.len() as u64));
    put(&mut m, "sip_class", class_value(&t.sip_class));
    object(m)
}

/// Packets, and the share that was lost.
pub open spec fn loss_fields(l: Counters, pct: Option<String>) -> Map<Seq<char>, Json> {
    nothing().insert(
        "pkts"@,
        Json::Int(l.pkts as int),
    ).insert(
        "lost"@,
        Json::Int(l.lost as int),
    ).insert(
        "bytes"@,
        Json::Int(l.bytes as int),
    ).insert(
        "pct"@,
        number_json(opt_text(pct)),
    )
}

fn loss_value(l: &Counters, pct: &Option<String>) -> (r: serde_json::Value)
    ensures
        json_of(r) == Json::Object(loss_fields(*l, *pct)),
{
    let mut m = no_fields();
    put(&mut m, "pkts", uint(l.pkts));
    put(&mut m, "lost", uint(l.lost));
    put(&mut m, "bytes", uint(l.bytes));
    put(&mut m, "pct", number_or_null(pct));
    object(m)
}

/// One window; its start is shown at an offset from UTC in seconds.
pub open spec fn window_fields(w: LossWindow, f: WindowFigures, offset: i32) -> Map<Seq<char>, Json> {
    nothing().insert(
        "start_ts_us"@,
        Json::Int(w.start_ts_us as int),
    ).insert(
        "time"@,
        Json::Text(numfmt::time_text(w.start_ts_us, offset)),
    ).insert(
        "calls"@,
        Json::Int(w.calls as int),
    ).insert(
        "streams"@,
        Json::Int(w.streams as int),
    ).insert(
        "invites"@,
        Json::Int(w.invites as int),
    ).insert(
        "teardowns"@,
        Json::Int(w.teardowns as int),
    ).insert(
        "answered"@,
        Json::Int(w.answered as int),
    ).insert(
        "asr_pct"@,
        number_json(opt_text(f.asr)),
    ).insert(
        "ner_pct"@,
        number_json(opt_text(f.ner)),
    ).insert(
        "ccr_pct"@,
        number_json(opt_text(f.ccr)),
    ).insert(
        "cancel_pct"@,
        number_json(opt_text(f.cancel)),
    ).insert(
        "notfound_pct"@,
        number_json(opt_text(f.notfound)),
    ).insert(
        "reject_pct"@,
        number_json(opt_text(f.reject)),
    ).insert(
        "busy_pct"@,
        number_json(opt_text(f.busy)),
    ).insert(
        "timeout_pct"@,
        number_json(opt_text(f.timeout)),
    ).insert(
        "fail_pct"@,
        number_json(opt_text(f.fail)),
    ).insert(
        "pkts"@,
        Json::Int(w.pkts as int),
    ).insert(
        "lost"@,
        Json::Int(w.lost as int),
    ).insert(
        "rtp_bytes"@,
        Json::Int(w.rtp_bytes as int),
    ).insert(
        "sip_msgs"@,
        Json::Int(w.sip_msgs as int),
    ).insert(
        "loss_pct"@,
        number_json(opt_text(f.loss)),
    ).insert(
        "avg_rtt_ms"@,
        number_json(opt_text(f.rtt)),
    )
}

fn window_value(w: &LossWindow, f: &WindowFigures, offset: i32) -> (r: serde_json::Value)
    requires
        numfmt::has_clock(w.start_ts_us, offset),
    ensures
        json_of(r) == Json::Object(window_fields(*w, *f, offset)),
{
    let time = fmt_time_tz(w.start_ts_us, offset);
    let mut m = no_fields();
    put(&mut m, "start_ts_us", uint(w.start_ts_us));
    put(&mut m, "time", text(time.as_str()));
    put(&mut m, "calls", uint(w.calls as u64));
    put(&mut m, "streams", uint(w.streams as u64));
    put(&mut m, "invites", uint(w.invites as u64));
    put(&mut m, "teardowns", uint(w.teardowns));
    put(&mut m, "answered", uint(w.answered));
    put(&mut m, "asr_pct", number_or_null(&f.asr));
    put(&mut m, "ner_pct", number_or_null(&f.ner));
    put(&mut m, "ccr_pct", number_or_null(&f.ccr));
    put(&mut m, "cancel_pct", number_or_null(&f.cancel));
    put(&mut m, "notfound_pct", number_or_null(&f.notfound));
    put(&mut m, "reject_pct", number_or_null(&f.reject));
    put(&mut m, "busy_pct", number_or_null(&f.busy));
    put(&mut m, "timeout_pct", number_or_null(&f.timeout));
    put(&mut m, "fail_pct", number_or_null(&f.fail));
    put(&mut m, "pkts", uint(w.pkts));
    put(&mut m, "lost", uint(w.lost));
    put(&mut m, "rtp_bytes", uint(w.rtp_bytes));
    put(&mut m, "sip_msgs", uint(w.sip_msgs));
    put(&mut m, "loss_pct", number_or_null(&f.loss));
    put(&mut m, "avg_rtt_ms", number_or_null(&f.rtt));
    object(m)
}

pub open spec fn windows_json(v: Seq<LossWindow>, f: Seq<WindowFigures>, offset: i32) -> Seq<Json> {
    Seq::new(v.len(), |i: int| Json::Object(window_fields(v[i], f[i], offset)))
}

fn windows_value(v: &Vec<LossWindow>, f: &Vec<WindowFigures>, offset: i32) -> (r: serde_json::Value)
    requires
        f@.len() == v@.len(),
        windows_shown(v@, offset),
    ensures
        json_of(r) == Json::List(windows_json(v@, f@, offset)),
{
    let ghost all = windows_json(v@, f@, offset);
    let mut out: Vec<serde_json::Value> = Vec::new();
    let mut i: usize = 0;
    while i < v.len()
        invariant
            i <= v.len(),
            all == windows_json(v@, f@, offset),
            f@.len() == v@.len(),
            windows_shown(v@, offset),
            out@.len() == i,
            forall|k: int| 0 <= k < i ==> json_of(#[trigger] out@[k]) == all[k],
        decreases v.len() - i,
    {
        out.push(window_value(&v[i], &f[i], offset));
        assert(json_of(out@[i as int]) == all[i as int]);
        i += 1;
    }
    assert(out@.map_values(|x: serde_json::Value| json_of(x)) =~= all);
    list(out)
}

/// What one address lost.
pub open spec fn ip_fields(x: IpLoss, pct: Option<String>) -> Map<Seq<char>, Json> {
    nothing().insert(
        "ip"@,
        Json::Text(addr_text::ip_text(x.ip)),
    ).insert(
        "pkts"@,
        Json::Int(x.pkts as int),
    ).insert(
        "lost"@,
        Json::Int(x.lost as int),
    ).insert(
        "bytes"@,
        Json::Int(x.bytes as int),
    ).insert(
        "loss_pct"@,
        number_json(opt_text(pct)),
    )
}

fn ip_value(x: &IpLoss, pct: &Option<String>) -> (r: serde_json::Value)
    ensures
        json_of(r) == Json::Object(ip_fields(*x, *pct)),
{
    let ip = ip_string(x.ip);
    let mut m = no_fields();
    put(&mut m, "ip", text(ip.as_str()));
    put(&mut m, "pkts", uint(x.pkts));
    put(&mut m, "lost", uint(x.lost));
    put(&mut m, "bytes", uint(x.bytes));
    put(&mut m, "loss_pct", number_or_null(pct));
    object(m)
}

pub open spec fn ips_json(v: Seq<IpLoss>, f: Seq<Option<String>>) -> Seq<Json> {
    Seq::new(v.len(), |i: int| Json::Object(ip_fields(v[i], f[i])))
}

fn ips_value(v: &Vec<IpLoss>, f: &Vec<Option<String>>) -> (r: serde_json::Value)
    requires
        f@.len() == v@.len(),
    ensures
        json_of(r) == Json::List(ips_json(v@, f@)),
{
    let ghost all = ips_json(v@, f@);
    let mut out: Vec<serde_json::Value> = Vec::new();
    let mut i: usize = 0;
    while i < v.len()
        invariant
            i <= v.len(),
            all == ips_json(v@, f@),
            f@.len() == v@.len(),
            out@.len() == i,
            forall|k: int| 0 <= k < i ==> json_of(#[trigger] out@[k]) == all[k],
        decreases v.len() - i,
    {
        out.push(ip_value(&v[i], &f[i]));
        assert(json_of(out@[i as int]) == all[i as int]);
        i += 1;
    }
    assert(out@.map_values(|x: serde_json::Value| json_of(x)) =~= all);
    list(out)
}

pub open spec fn tz_json(tz: Option<i32>) -> Json {
    match tz {
        Some(n) => Json::Int(n as int),
        None => Json::Null,
    }
}

fn tz_value(tz: Option<i32>) -> (r: serde_json::Value)
    ensures
        json_of(r) == tz_json(tz),
{
    match tz {
        Some(n) => int_of(n),
        None => null(),
    }
}

/// The whole report.
pub open spec fn report_fields(s: EvlogStats, f: ReportFigures, offset: i32) -> Map<Seq<char>, Json> {
    nothing().insert(
        "file"@,
        Json::Text(s.file@),
    ).insert(
        "bytes"@,
        Json::Int(s.bytes as int),
    ).insert(
        "tz_offset_secs"@,
        tz_json(s.tz_offset_secs),
    ).insert(
        "start_ts_us"@,
        uint_json(s.start_ts_us),
    ).insert(
        "end_ts_us"@,
        uint_json(s.end_ts_us),
    ).insert(
        "events"@,
        Json::Object(event_fields(s.events)),
    ).insert(
        "calls"@,
        Json::Object(call_count_fields(s.calls)),
    ).insert(
        "reliability"@,
        Json::Object(reliability_fields(s.reliability, f)),
    ).insert(
        "traffic"@,
        Json::Object(traffic_fields(s.traffic, s.loss, f)),
    ).insert(
        "loss"@,
        Json::Object(loss_fields(s.loss, f.loss)),
    ).insert(
        "windows"@,
        Json::List(windows_json(s.windows@, f.windows@, offset)),
    ).insert(
        "top_ips"@,
        Json::List(ips_json(s.top_ips@, f.ips@)),
    )
}

impl EvlogStats {
    /// The report as one line of JSON. Times are shown at an offset from UTC in
    /// seconds.
    pub fn to_json(&self, f: &ReportFigures, offset: i32) -> (r: String)
        requires
            self.traffic.sip_class@.len() == 7,
            f.ips@.len() == self.top_ips@.len(),
            f.windows@.len() == self.windows@.len(),
            windows_shown(self.windows@, offset),
        ensures
            r@ == printed(Json::Object(report_fields(*self, *f, offset))),
    {
        let mut m = no_fields();
        put(&mut m, "file", text(self.file.as_str()));
        put(&mut m, "bytes", uint(self.bytes));
        put(&mut m, "tz_offset_secs", tz_value(self.tz_offset_secs));
        put(&mut m, "start_ts_us", uint_or_null(self.start_ts_us));
        put(&mut m, "end_ts_us", uint_or_null(self.end_ts_us));
        put(&mut m, "events", events_value(&self.events));
        put(&mut m, "calls", calls_value(&self.calls));
        put(&mut m, "reliability", reliability_value(&self.reliability, f));
        put(&mut m, "traffic", traffic_value(&self.traffic, &self.loss, f));
        put(&mut m, "loss", loss_value(&self.loss, &f.loss));
        put(&mut m, "windows", windows_value(&self.windows, &f.windows, offset));
        put(&mut m, "top_ips", ips_value(&self.top_ips, &f.ips));
        print(&object(m))
    }
}

} // verus!
