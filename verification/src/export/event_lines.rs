//! Events and calls as lines of JSON, for people and scripts.
use crate::export::rebuild;
use crate::export::rebuild::query_label;
use crate::export::tables;
use crate::export::tables::ssrc_string;
use crate::json::{
    json_of, no_fields, nothing, null, number_json, number_or_null, object, opt_json, print,
    printed, put, small_json, small_or_null, text, text_or_null, uint, Json,
};
use crate::model::addr_text;
use crate::model::addr_text::socket_string;
use crate::model::stats::{HealthBucket, MetricSet};
use crate::store::evlog::{
    CallEvt, DiagEvt, ErrorEvt, Event, RtcpRttEvt, SipMsgEvt, StreamSnapEvt, TxnEvt,
};
use crate::store::snapshot::{CallSummary, RowView};
use crate::store::wire::CallEvtKind;
use crate::text::opt_text;
use vstd::prelude::*;

verus! {

pub open spec fn status_json(s: Option<u16>) -> Json {
    match s {
        Some(s) => Json::Int(s as int),
        None => Json::Null,
    }
}

fn status_or_null(s: Option<u16>) -> (r: serde_json::Value)
    ensures
        json_of(r) == status_json(s),
{
    match s {
        Some(s) => uint(s as u64),
        None => null(),
    }
}

/// The name of a state of a call in the log.
pub open spec fn kind_text(k: CallEvtKind) -> Seq<char> {
    match k {
        CallEvtKind::Setup => "Setup"@,
        CallEvtKind::Update => "Update"@,
        CallEvtKind::Teardown => "Teardown"@,
    }
}

fn kind_word(k: CallEvtKind) -> (r: &'static str)
    ensures
        r@ == kind_text(k),
{
    match k {
        CallEvtKind::Setup => "Setup",
        CallEvtKind::Update => "Update",
        CallEvtKind::Teardown => "Teardown",
    }
}

// ----------------------------- events -----------------------------

/// How many numbers with a fraction an event holds.
pub open spec fn figures_in(ev: Event) -> nat {
    match ev {
        Event::StreamSnap(_) => 3,
        Event::RtcpRtt(_) => 2,
        Event::HealthBucket(_) => 5,
        _ => 0,
    }
}

/// A SIP message.
pub open spec fn sip_fields(e: SipMsgEvt) -> Map<Seq<char>, Json> {
    nothing().insert(
        "type"@,
        Json::Text("sip"@),
    ).insert(
        "ts_us"@,
        Json::Int(e.ts_us as int),
    ).insert(
        "call_id"@,
        Json::Text(e.call_id@),
    ).insert(
        "method"@,
        opt_json(opt_text(e.method)),
    ).insert(
        "status"@,
        status_json(e.status),
    ).insert(
        "src"@,
        Json::Text(addr_text::socket_text(e.flow.src)),
    ).insert(
        "dst"@,
        Json::Text(addr_text::socket_text(e.flow.dst)),
    ).insert(
        "cseq"@,
        small_json(e.cseq),
    ).insert(
        "branch"@,
        opt_json(opt_text(e.branch)),
    )
}

fn sip_value(e: &SipMsgEvt) -> (r: serde_json::Value)
    ensures
        json_of(r) == Json::Object(sip_fields(*e)),
{
    let src = socket_string(e.flow.src);
    let dst = socket_string(e.flow.dst);
    let mut m = no_fields();
    put(&mut m, "type", text("sip"));
    put(&mut m, "ts_us", uint(e.ts_us));
    put(&mut m, "call_id", text(e.call_id.as_str()));
    put(&mut m, "method", text_or_null(&e.method));
    put(&mut m, "status", status_or_null(e.status));
    put(&mut m, "src", text(src.as_str()));
    put(&mut m, "dst", text(dst.as_str()));
    put(&mut m, "cseq", small_or_null(e.cseq));
    put(&mut m, "branch", text_or_null(&e.branch));
    object(m)
}

/// A transaction.
pub open spec fn txn_fields(e: TxnEvt) -> Map<Seq<char>, Json> {
    nothing().insert(
        "type"@,
        Json::Text("txn"@),
    ).insert(
        "ts_us"@,
        Json::Int(e.ts_us as int),
    ).insert(
        "call_id"@,
        Json::Text(e.call_id@),
    ).insert(
        "method"@,
        Json::Text(e.method@),
    ).insert(
        "code"@,
        status_json(e.response_code),
    ).insert(
        "delay_ms"@,
        small_json(e.delay_ms),
    )
}

fn txn_value(e: &TxnEvt) -> (r: serde_json::Value)
    ensures
        json_of(r) == Json::Object(txn_fields(*e)),
{
    let mut m = no_fields();
    put(&mut m, "type", text("txn"));
    put(&mut m, "ts_us", uint(e.ts_us));
    put(&mut m, "call_id", text(e.call_id.as_str()));
    put(&mut m, "method", text(e.method.as_str()));
    put(&mut m, "code", status_or_null(e.response_code));
    put(&mut m, "delay_ms", small_or_null(e.delay_ms));
    object(m)
}

/// A state of a call.
pub open spec fn call_fields(e: CallEvt) -> Map<Seq<char>, Json> {
    nothing().insert(
        "type"@,
        Json::Text("call"@),
    ).insert(
        "ts_us"@,
        Json::Int(e.ts_us as int),
    ).insert(
        "call_id"@,
        Json::Text(e.call_id@),
    ).insert(
        "kind"@,
        Json::Text(kind_text(e.kind)),
    ).insert(
        "state"@,
        Json::Int(e.state as int),
    ).insert(
        "pdd_ms"@,
        small_json(e.pdd_ms),
    ).insert(
        "setup_ms"@,
        small_json(e.setup_ms),
    ).insert(
        "hangup"@,
        small_json(e.hangup_code),
    )
}

fn call_value(e: &CallEvt) -> (r: serde_json::Value)
    ensures
        json_of(r) == Json::Object(call_fields(*e)),
{
    let mut m = no_fields();
    put(&mut m, "type", text("call"));
    put(&mut m, "ts_us", uint(e.ts_us));
    put(&mut m, "call_id", text(e.call_id.as_str()));
    put(&mut m, "kind", text(kind_word(e.kind)));
    put(&mut m, "state", uint(e.state as u64));
    put(&mut m, "pdd_ms", small_or_null(e.pdd_ms));
    put(&mut m, "setup_ms", small_or_null(e.setup_ms));
    put(&mut m, "hangup", small_or_null(e.hangup_code));
    object(m)
}

/// The counters of a stream. Its numbers are loss, jitter and MOS.
pub open spec fn stream_fields(e: StreamSnapEvt, n: Seq<Option<String>>) -> Map<Seq<char>, Json> {
    nothing().insert(
        "type"@,
        Json::Text("stream"@),
    ).insert(
        "ts_us"@,
        Json::Int(e.ts_us as int),
    ).insert(
        "call_id"@,
        Json::Text(e.call_id@),
    ).insert(
        "ssrc"@,
        Json::Text(tables::ssrc_text(e.ssrc)),
    ).insert(
        "packets"@,
        Json::Int(e.packets as int),
    ).insert(
        "lost"@,
        Json::Int(e.lost as int),
    ).insert(
        "loss_pct"@,
        number_json(opt_text(n[0])),
    ).insert(
        "jitter_ms"@,
        number_json(opt_text(n[1])),
    ).insert(
        "mos"@,
        number_json(opt_text(n[2])),
    )
}

fn stream_value(e: &StreamSnapEvt, n: &Vec<Option<String>>) -> (r: serde_json::Value)
    requires
        n@.len() == 3,
    ensures
        json_of(r) == Json::Object(stream_fields(*e, n@)),
{
    let ssrc = ssrc_string(e.ssrc);
    let mut m = no_fields();
    put(&mut m, "type", text("stream"));
    put(&mut m, "ts_us", uint(e.ts_us));
    put(&mut m, "call_id", text(e.call_id.as_str()));
    put(&mut m, "ssrc", text(ssrc.as_str()));
    put(&mut m, "packets", uint(e.packets));
    put(&mut m, "lost", uint(e.lost));
    put(&mut m, "loss_pct", number_or_null(&n[0]));
    put(&mut m, "jitter_ms", number_or_null(&n[1]));
    put(&mut m, "mos", number_or_null(&n[2]));
    object(m)
}

/// A round trip. Its numbers are the round trip and the one-way time.
pub open spec fn rtt_fields(e: RtcpRttEvt, n: Seq<Option<String>>) -> Map<Seq<char>, Json> {
    nothing().insert(
        "type"@,
        Json::Text("rtcp_rtt"@),
    ).insert(
        "ts_us"@,
        Json::Int(e.ts_us as int),
    ).insert(
        "call_id"@,
        Json::Text(e.call_id@),
    ).insert(
        "ssrc"@,
        Json::Text(tables::ssrc_text(e.ssrc)),
    ).insert(
        "rtt_ms"@,
        number_json(opt_text(n[0])),
    ).insert(
        "oneway_ms"@,
        number_json(opt_text(n[1])),
    )
}

fn rtt_value(e: &RtcpRttEvt, n: &Vec<Option<String>>) -> (r: serde_json::Value)
    requires
        n@.len() == 2,
    ensures
        json_of(r) == Json::Object(rtt_fields(*e, n@)),
{
    let ssrc = ssrc_string(e.ssrc);
    let mut m = no_fields();
    put(&mut m, "type", text("rtcp_rtt"));
    put(&mut m, "ts_us", uint(e.ts_us));
    put(&mut m, "call_id", text(e.call_id.as_str()));
    put(&mut m, "ssrc", text(ssrc.as_str()));
    put(&mut m, "rtt_ms", number_or_null(&n[0]));
    put(&mut m, "oneway_ms", number_or_null(&n[1]));
    object(m)
}

/// The metrics of a bucket. The numbers are its five sums.
pub open spec fn metrics_fields(e: MetricSet, n: Seq<Option<String>>) -> Map<Seq<char>, Json> {
    nothing().insert(
        "calls"@,
        Json::Int(e.calls as int),
    ).insert(
        "answered"@,
        Json::Int(e.answered as int),
    ).insert(
        "failed"@,
        Json::Int(e.failed as int),
    ).insert(
        "pdd_sum_ms"@,
        number_json(opt_text(n[0])),
    ).insert(
        "pdd_n"@,
        Json::Int(e.pdd_n as int),
    ).insert(
        "jitter_sum_ms"@,
        number_json(opt_text(n[1])),
    ).insert(
        "jitter_n"@,
        Json::Int(e.jitter_n as int),
    ).insert(
        "loss_sum_pct"@,
        number_json(opt_text(n[2])),
    ).insert(
        "loss_n"@,
        Json::Int(e.loss_n as int),
    ).insert(
        "rtt_sum_ms"@,
        number_json(opt_text(n[3])),
    ).insert(
        "rtt_n"@,
        Json::Int(e.rtt_n as int),
    ).insert(
        "mos_sum"@,
        number_json(opt_text(n[4])),
    ).insert(
        "mos_n"@,
        Json::Int(e.mos_n as int),
    )
}

fn metrics_value(e: &MetricSet, n: &Vec<Option<String>>) -> (r: serde_json::Value)
    requires
        n@.len() == 5,
    ensures
        json_of(r) == Json::Object(metrics_fields(*e, n@)),
{
    let mut m = no_fields();
    put(&mut m, "calls", uint(e.calls));
    put(&mut m, "answered", uint(e.answered));
    put(&mut m, "failed", uint(e.failed));
    put(&mut m, "pdd_sum_ms", number_or_null(&n[0]));
    put(&mut m, "pdd_n", uint(e.pdd_n));
    put(&mut m, "jitter_sum_ms", number_or_null(&n[1]));
    put(&mut m, "jitter_n", uint(e.jitter_n));
    put(&mut m, "loss_sum_pct", number_or_null(&n[2]));
    put(&mut m, "loss_n", uint(e.loss_n));
    put(&mut m, "rtt_sum_ms", number_or_null(&n[3]));
    put(&mut m, "rtt_n", uint(e.rtt_n));
    put(&mut m, "mos_sum", number_or_null(&n[4]));
    put(&mut m, "mos_n", uint(e.mos_n));
    object(m)
}

/// A health bucket.
pub open spec fn bucket_fields(e: HealthBucket, n: Seq<Option<String>>) -> Map<Seq<char>, Json> {
    nothing().insert(
        "type"@,
        Json::Text("bucket"@),
    ).insert(
        "bucket_us"@,
        Json::Int(e.bucket_us as int),
    ).insert(
        "key"@,
        Json::Text(e.dim_key@),
    ).insert(
        "metrics"@,
        Json::Object(metrics_fields(e.metrics, n)),
    )
}

fn bucket_value(e: &HealthBucket, n: &Vec<Option<String>>) -> (r: serde_json::Value)
    requires
        n@.len() == 5,
    ensures
        json_of(r) == Json::Object(bucket_fields(*e, n@)),
{
    let mut m = no_fields();
    put(&mut m, "type", text("bucket"));
    put(&mut m, "bucket_us", uint(e.bucket_us));
    put(&mut m, "key", text(e.dim_key.as_str()));
    put(&mut m, "metrics", metrics_value(&e.metrics, n));
    object(m)
}

/// A problem met while capturing.
pub open spec fn error_fields(e: ErrorEvt) -> Map<Seq<char>, Json> {
    nothing().insert(
        "type"@,
        Json::Text("error"@),
    ).insert(
        "ts_us"@,
        Json::Int(e.ts_us as int),
    ).insert(
        "kind"@,
        Json::Text(e.kind@),
    ).insert(
        "msg"@,
        Json::Text(e.msg@),
    )
}

fn error_value(e: &ErrorEvt) -> (r: serde_json::Value)
    ensures
        json_of(r) == Json::Object(error_fields(*e)),
{
    let mut m = no_fields();
    put(&mut m, "type", text("error"));
    put(&mut m, "ts_us", uint(e.ts_us));
    put(&mut m, "kind", text(e.kind.as_str()));
    put(&mut m, "msg", text(e.msg.as_str()));
    object(m)
}

/// A finding.
pub open spec fn diag_fields(e: DiagEvt) -> Map<Seq<char>, Json> {
    nothing().insert(
        "type"@,
        Json::Text("diag"@),
    ).insert(
        "ts_us"@,
        Json::Int(e.ts_us as int),
    ).insert(
        "call_id"@,
        Json::Text(e.call_id@),
    ).insert(
        "severity"@,
        Json::Int(e.severity as int),
    ).insert(
        "code"@,
        Json::Text(e.code@),
    ).insert(
        "message"@,
        Json::Text(e.message@),
    )
}

fn diag_value(e: &DiagEvt) -> (r: serde_json::Value)
    ensures
        json_of(r) == Json::Object(diag_fields(*e)),
{
    let mut m = no_fields();
    put(&mut m, "type", text("diag"));
    put(&mut m, "ts_us", uint(e.ts_us));
    put(&mut m, "call_id", text(e.call_id.as_str()));
    put(&mut m, "severity", uint(e.severity as u64));
    put(&mut m, "code", text(e.code.as_str()));
    put(&mut m, "message", text(e.message.as_str()));
    object(m)
}

/// An event; `n` holds its numbers with a fraction, in the order of the fields.
pub open spec fn event_fields(ev: Event, n: Seq<Option<String>>) -> Map<Seq<char>, Json> {
    match ev {
        Event::SipMsg(e) => sip_fields(e),
        Event::Txn(e) => txn_fields(e),
        Event::Call(e) => call_fields(e),
        Event::StreamSnap(e) => stream_fields(e, n),
        Event::RtcpRtt(e) => rtt_fields(e, n),
        Event::HealthBucket(e) => bucket_fields(e, n),
        Event::Error(e) => error_fields(e),
        Event::Diag(e) => diag_fields(e),
    }
}

/// The line of an event; `n` holds its numbers with a fraction, in the order of the
/// fields.
pub fn event_line(ev: &Event, n: &Vec<Option<String>>) -> (r: String)
    requires
        n@.len() == figures_in(*ev),
    ensures
        r@ == printed(Json::Object(event_fields(*ev, n@))),
{
    let v = match ev {
        Event::SipMsg(e) => sip_value(e),
        Event::Txn(e) => txn_value(e),
        Event::Call(e) => call_value(e),
        Event::StreamSnap(e) => stream_value(e, n),
        Event::RtcpRtt(e) => rtt_value(e, n),
        Event::HealthBucket(e) => bucket_value(e, n),
        Event::Error(e) => error_value(e),
        Event::Diag(e) => diag_value(e),
    };
    print(&v)
}

// ----------------------------- queries -----------------------------

/// A SIP message that a query finds.
pub open spec fn found_sip_fields(e: SipMsgEvt) -> Map<Seq<char>, Json> {
    nothing().insert(
        "ts_us"@,
        Json::Int(e.ts_us as int),
    ).insert(
        "msg"@,
        Json::Text(rebuild::query_label_text(e)),
    ).insert(
        "src"@,
        Json::Text(addr_text::socket_text(e.flow.src)),
    ).insert(
        "dst"@,
        Json::Text(addr_text::socket_text(e.flow.dst)),
    ).insert(
        "cseq"@,
        small_json(e.cseq),
    ).insert(
        "branch"@,
        opt_json(opt_text(e.branch)),
    ).insert(
        "from_tag"@,
        opt_json(opt_text(e.from_tag)),
    ).insert(
        "to_tag"@,
        opt_json(opt_text(e.to_tag)),
    ).insert(
        "raw_len"@,
        Json::Int(e.raw@.len() as int),
    )
}

fn found_sip_value(e: &SipMsgEvt) -> (r: serde_json::Value)
    ensures
        json_of(r) == Json::Object(found_sip_fields(*e)),
{
    let src = socket_string(e.flow.src);
    let dst = socket_string(e.flow.dst);
    let label = query_label(e);
    let mut m = no_fields();
    put(&mut m, "ts_us", uint(e.ts_us));
    put(&mut m, "msg", text(label.as_str()));
    put(&mut m, "src", text(src.as_str()));
    put(&mut m, "dst", text(dst.as_str()));
    put(&mut m, "cseq", small_or_null(e.cseq));
    put(&mut m, "branch", text_or_null(&e.branch));
    put(&mut m, "from_tag", text_or_null(&e.from_tag));
    put(&mut m, "to_tag", text_or_null(&e.to_tag));
    put(&mut m, "raw_len", uint(e.raw.len() as u64));
    object(m)
}

/// A stream that a query finds.
pub open spec fn found_stream_fields(e: StreamSnapEvt, n: Seq<Option<String>>) -> Map<Seq<char>, Json> {
    nothing().insert(
        "ts_us"@,
        Json::Int(e.ts_us as int),
    ).insert(
        "stream"@,
        Json::Text(tables::ssrc_text(e.ssrc)),
    ).insert(
        "codec"@,
        opt_json(opt_text(e.codec)),
    ).insert(
        "packets"@,
        Json::Int(e.packets as int),
    ).insert(
        "lost"@,
        Json::Int(e.lost as int),
    ).insert(
        "loss_pct"@,
        number_json(opt_text(n[0])),
    ).insert(
        "jitter_ms"@,
        number_json(opt_text(n[1])),
    ).insert(
        "mos"@,
        number_json(opt_text(n[2])),
    )
}

fn found_stream_value(e: &StreamSnapEvt, n: &Vec<Option<String>>) -> (r: serde_json::Value)
    requires
        n@.len() == 3,
    ensures
        json_of(r) == Json::Object(found_stream_fields(*e, n@)),
{
    let ssrc = ssrc_string(e.ssrc);
    let mut m = no_fields();
    put(&mut m, "ts_us", uint(e.ts_us));
    put(&mut m, "stream", text(ssrc.as_str()));
    put(&mut m, "codec", text_or_null(&e.codec));
    put(&mut m, "packets", uint(e.packets));
    put(&mut m, "lost", uint(e.lost));
    put(&mut m, "loss_pct", number_or_null(&n[0]));
    put(&mut m, "jitter_ms", number_or_null(&n[1]));
    put(&mut m, "mos", number_or_null(&n[2]));
    object(m)
}

/// A round trip that a query finds.
pub open spec fn found_rtt_fields(e: RtcpRttEvt, n: Seq<Option<String>>) -> Map<Seq<char>, Json> {
    nothing().insert(
        "ts_us"@,
        Json::Int(e.ts_us as int),
    ).insert(
        "ssrc"@,
        Json::Text(tables::ssrc_text(e.ssrc)),
    ).insert(
        "rtt_ms"@,
        number_json(opt_text(n[0])),
    ).insert(
        "oneway_ms"@,
        number_json(opt_text(n[1])),
    )
}

fn found_rtt_value(e: &RtcpRttEvt, n: &Vec<Option<String>>) -> (r: serde_json::Value)
    requires
        n@.len() == 2,
    ensures
        json_of(r) == Json::Object(found_rtt_fields(*e, n@)),
{
    let ssrc = ssrc_string(e.ssrc);
    let mut m = no_fields();
    put(&mut m, "ts_us", uint(e.ts_us));
    put(&mut m, "ssrc", text(ssrc.as_str()));
    put(&mut m, "rtt_ms", number_or_null(&n[0]));
    put(&mut m, "oneway_ms", number_or_null(&n[1]));
    object(m)
}

/// A finding that a query finds.
pub open spec fn found_diag_fields(e: DiagEvt) -> Map<Seq<char>, Json> {
    nothing().insert(
        "ts_us"@,
        Json::Int(e.ts_us as int),
    ).insert(
        "diag"@,
        Json::Text(e.code@),
    ).insert(
        "severity"@,
        Json::Int(e.severity as int),
    ).insert(
        "message"@,
        Json::Text(e.message@),
    )
}

fn found_diag_value(e: &DiagEvt) -> (r: serde_json::Value)
    ensures
        json_of(r) == Json::Object(found_diag_fields(*e)),
{
    let mut m = no_fields();
    put(&mut m, "ts_us", uint(e.ts_us));
    put(&mut m, "diag", text(e.code.as_str()));
    put(&mut m, "severity", uint(e.severity as u64));
    put(&mut m, "message", text(e.message.as_str()));
    object(m)
}

/// What a query prints of an event; nothing of transactions, states, buckets and
/// problems.
pub open spec fn found_fields(ev: Event, n: Seq<Option<String>>) -> Option<Map<Seq<char>, Json>> {
    match ev {
        Event::SipMsg(e) => Some(found_sip_fields(e)),
        Event::StreamSnap(e) => Some(found_stream_fields(e, n)),
        Event::RtcpRtt(e) => Some(found_rtt_fields(e, n)),
        Event::Diag(e) => Some(found_diag_fields(e)),
        _ => None,
    }
}

/// The line that a query prints of an event; `n` holds its numbers with a fraction,
/// in the order of the fields.
pub fn query_line(ev: &Event, n: &Vec<Option<String>>) -> (r: Option<String>)
    requires
        n@.len() == figures_in(*ev),
    ensures
        opt_text(r) == match found_fields(*ev, n@) {
            Some(m) => Some(printed(Json::Object(m))),
            None => None,
        },
{
    match ev {
        Event::SipMsg(e) => Some(print(&found_sip_value(e))),
        Event::StreamSnap(e) => Some(print(&found_stream_value(e, n))),
        Event::RtcpRtt(e) => Some(print(&found_rtt_value(e, n))),
        Event::Diag(e) => Some(print(&found_diag_value(e))),
        _ => None,
    }
}

// ----------------------------- calls -----------------------------

/// What is printed of a call when there are no screens.
pub open spec fn brief_fields(c: RowView) -> Map<Seq<char>, Json> {
    nothing().insert(
        "kind"@,
        Json::Text("call"@),
    ).insert(
        "call_id"@,
        Json::Text(c.call_id),
    ).insert(
        "state"@,
        Json::Text(c.state.spec_label()),
    ).insert(
        "pdd_ms"@,
        small_json(c.pdd_ms),
    ).insert(
        "setup_ms"@,
        small_json(c.setup_ms),
    ).insert(
        "warn"@,
        Json::Int(c.warn_count as int),
    ).insert(
        "crit"@,
        Json::Int(c.critical_count as int),
    )
}

/// The line of a call when there are no screens.
pub fn brief_line(c: &CallSummary) -> (r: String)
    ensures
        r@ == printed(Json::Object(brief_fields(c@))),
{
    let mut m = no_fields();
    put(&mut m, "kind", text("call"));
    put(&mut m, "call_id", text(c.call_id.as_str()));
    put(&mut m, "state", text(c.state.label()));
    put(&mut m, "pdd_ms", small_or_null(c.pdd_ms));
    put(&mut m, "setup_ms", small_or_null(c.setup_ms));
    put(&mut m, "warn", uint(c.warn_count as u64));
    put(&mut m, "crit", uint(c.critical_count as u64));
    print(&object(m))
}

// ----------------------------- laws -----------------------------

/// A query prints a line of an event exactly if the event can tell of a call.
pub proof fn law_printed_if_found(ev: Event, n: Seq<Option<String>>, id: Seq<char>)
    ensures
        rebuild::hit_of(ev, id) is Some ==> found_fields(ev, n) is Some,
        found_fields(ev, n) is Some ==> exists|x: Seq<char>| #[trigger]
            rebuild::hit_of(ev, x) is Some,
{
    match ev {
        Event::SipMsg(e) => assert(rebuild::hit_of(ev, e.call_id@) is Some),
        Event::StreamSnap(e) => assert(rebuild::hit_of(ev, e.call_id@) is Some),
        Event::RtcpRtt(e) => assert(rebuild::hit_of(ev, e.call_id@) is Some),
        Event::Diag(e) => assert(rebuild::hit_of(ev, e.call_id@) is Some),
        _ => {},
    }
}

} // verus!
