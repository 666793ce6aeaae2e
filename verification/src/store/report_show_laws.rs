//! What stands in a report, as text and as JSON.
use crate::json::Json;
use crate::model::addr_text;
use crate::numfmt;
use crate::store::evstats::{CallCounts, Counters, EventCounts};
use crate::store::report::{EvlogStats, IpLoss, LossWindow, Reliability, Traffic};
use crate::store::report_json;
use crate::store::report_json::{ReportFigures, WindowFigures};
use crate::store::report_text;
use crate::store::report_text::ReportCells;
use crate::text;
use vstd::prelude::*;

verus! {

// ----------------------------- text -----------------------------

/// The piece stands somewhere in the text.
pub open spec fn shows(t: Seq<char>, p: Seq<char>) -> bool {
    exists|i: int| 0 <= i && i + p.len() <= t.len() && #[trigger] t.subrange(i, i + p.len()) == p
}

broadcast proof fn lemma_shown_before(a: Seq<char>, b: Seq<char>, p: Seq<char>)
    ensures
        shows(a, p) ==> #[trigger] shows(a + b, p),
{
    if shows(a, p) {
        let i = choose|i: int|
            0 <= i && i + p.len() <= a.len() && #[trigger] a.subrange(i, i + p.len()) == p;
        assert((a + b).subrange(i, i + p.len()) =~= p);
    }
}

broadcast proof fn lemma_shown_last(a: Seq<char>, l: Seq<char>, v: Seq<char>)
    ensures
        #[trigger] shows(a + l + v, l + v),
{
    let t = a + l + v;
    let p = l + v;
    let i = a.len() as int;
    assert(t.subrange(i, i + p.len()) =~= p);
}

/// The lines on answers show the counts and the rates under their names.
pub proof fn law_answers_shown(out: Seq<char>, s: EvlogStats, c: ReportCells)
    ensures
        shows(
            report_text::answer_lines(out, s, c),
            "  seizures  "@ + text::dec(s.reliability.seizures as nat),
        ),
        shows(
            report_text::answer_lines(out, s, c),
            "  answered  "@ + text::dec(s.reliability.answered as nat),
        ),
        shows(
            report_text::answer_lines(out, s, c),
            "  teardown  completed="@ + text::dec(s.calls.completed as nat),
        ),
        shows(
            report_text::answer_lines(out, s, c),
            "  failed="@ + text::dec(s.calls.failed as nat),
        ),
        shows(
            report_text::answer_lines(out, s, c),
            "  canceled="@ + text::dec(s.calls.canceled as nat),
        ),
        shows(report_text::answer_lines(out, s, c), "  (ASR "@ + c.asr@),
        shows(report_text::answer_lines(out, s, c), "  rates     ASR="@ + c.asr@),
        shows(report_text::answer_lines(out, s, c), "  CCR="@ + c.ccr@),
        shows(report_text::answer_lines(out, s, c), "  NER="@ + c.ner@),
        shows(report_text::answer_lines(out, s, c), "  cancel="@ + c.cancel@),
{
    broadcast use lemma_shown_before, lemma_shown_last;

}

/// The line on failures shows each kind with its count.
pub proof fn law_failures_shown(out: Seq<char>, s: EvlogStats, c: ReportCells)
    ensures
        shows(
            report_text::fail_line(out, s, c),
            "  fail      notfound="@ + text::dec(s.reliability.fail.notfound as nat),
        ),
        shows(
            report_text::fail_line(out, s, c),
            ")  reject="@ + text::dec(s.reliability.fail.reject as nat),
        ),
        shows(
            report_text::fail_line(out, s, c),
            ")  busy="@ + text::dec(s.reliability.fail.busy as nat),
        ),
        shows(
            report_text::fail_line(out, s, c),
            ")  timeout="@ + text::dec(s.reliability.fail.timeout as nat),
        ),
        shows(
            report_text::fail_line(out, s, c),
            ")  fail="@ + text::dec(s.reliability.fail.fail as nat),
        ),
{
    broadcast use lemma_shown_before, lemma_shown_last;

}

/// The lines on traffic show the packets, the losses and the responses.
pub proof fn law_traffic_shown(out: Seq<char>, s: EvlogStats, c: ReportCells)
    ensures
        shows(
            report_text::traffic_lines(out, s, c),
            "  pkts="@ + text::dec(s.loss.pkts as nat),
        ),
        shows(
            report_text::traffic_lines(out, s, c),
            "  lost="@ + text::dec(s.loss.lost as nat),
        ),
        shows(
            report_text::traffic_lines(out, s, c),
            "  SIP       "@ + text::dec(s.traffic.sip_msgs as nat),
        ),
        shows(
            report_text::traffic_lines(out, s, c),
            "  responses 1xx="@ + text::dec(s.traffic.sip_class@[1] as nat),
        ),
        shows(
            report_text::traffic_lines(out, s, c),
            " 4xx="@ + text::dec(s.traffic.sip_class@[4] as nat),
        ),
        shows(report_text::traffic_lines(out, s, c), "  quality   MOS "@ + c.mos@),
        shows(report_text::traffic_lines(out, s, c), "  jitter "@ + c.jitter@),
        shows(report_text::traffic_lines(out, s, c), "  RTT "@ + c.rtt@),
        shows(report_text::traffic_lines(out, s, c), "  load      ~"@ + c.cps@),
{
    broadcast use lemma_shown_before, lemma_shown_last;

}

/// The lines on calls show the dialogs and the requests.
pub proof fn law_calls_shown(out: Seq<char>, s: EvlogStats, c: ReportCells)
    ensures
        shows(
            report_text::call_lines(out, s, c),
            "  dialogs   "@ + text::dec(s.calls.unique as nat),
        ),
        shows(
            report_text::call_lines(out, s, c),
            "  SIP       INVITE="@ + text::dec(s.calls.invite as nat),
        ),
        shows(report_text::call_lines(out, s, c), "  BYE="@ + text::dec(s.calls.bye as nat)),
        shows(report_text::call_lines(out, s, c), "  CANCEL="@ + text::dec(s.calls.cancel as nat)),
        shows(report_text::call_lines(out, s, c), "  (pkts "@ + text::dec(s.loss.pkts as nat)),
        shows(report_text::call_lines(out, s, c), "  lost "@ + text::dec(s.loss.lost as nat)),
        shows(
            report_text::call_lines(out, s, c),
            "  bytes "@ + numfmt::size_text(s.loss.bytes),
        ),
{
    broadcast use lemma_shown_before, lemma_shown_last;

}

/// The line on events shows how many there were of each type.
pub proof fn law_events_shown(out: Seq<char>, s: EvlogStats)
    ensures
        shows(
            report_text::events_line(out, s),
            "  events    "@ + text::dec(s.events.spec_total() as nat),
        ),
        shows(report_text::events_line(out, s), "  (sip "@ + text::dec(s.events.sip as nat)),
        shows(
            report_text::events_line(out, s),
            "  stream-snap "@ + text::dec(s.events.stream_snap as nat),
        ),
        shows(report_text::events_line(out, s), "  call "@ + text::dec(s.events.call as nat)),
        shows(report_text::events_line(out, s), "  diag "@ + text::dec(s.events.diag as nat)),
        shows(report_text::events_line(out, s), "  rtt "@ + text::dec(s.events.rtcp_rtt as nat)),
{
    broadcast use lemma_shown_before, lemma_shown_last;

}

/// The row of an IP shows its address, its share of losses, its packets, its losses and its bytes.
pub proof fn law_ip_row_shown(i: IpLoss, pct: Seq<char>)
    ensures
        report_text::ip_row(Seq::empty(), i, pct) == "  "@ + numfmt::left(
            addr_text::ip_text(i.ip),
            15,
        ) + " "@ + numfmt::right(pct, 7) + " "@ + numfmt::right(text::dec(i.pkts as nat), 12) + " "@
            + numfmt::right(text::dec(i.lost as nat), 10) + " "@ + numfmt::right(
            numfmt::size_text(i.bytes),
            10,
        ) + "\n"@,
{
    assert(Seq::<char>::empty() + "  "@ =~= "  "@);
}

/// A delay is shown in milliseconds below a second.
pub proof fn law_delay_cell(ms: u32, secs: Seq<char>)
    ensures
        report_text::delay_cell(None, secs) == "-"@,
        ms < 1000 ==> report_text::delay_cell(Some(ms), secs) == text::dec(ms as nat) + "ms"@,
        ms >= 1000 ==> report_text::delay_cell(Some(ms), secs) == secs,
{
}

/// Records that were skipped are told, and nothing where there were none.
pub proof fn law_skipped_shown(out: Seq<char>, n: u64)
    ensures
        report_text::skipped_line(out, 0) == out,
        n > 0 ==> shows(report_text::skipped_line(out, n), "  skipped   "@ + text::dec(n as nat)),
        n > 1 ==> shows(report_text::skipped_line(out, n), " unreadable record"@ + "s"@),
{
    broadcast use lemma_shown_before, lemma_shown_last;

}

/// The codes of the calls that ended stand in their order, each with its count.
pub proof fn law_hangups_shown(out: Seq<char>, a: (u32, u64), b: (u32, u64))
    ensures
        report_text::hangup_line(out, Seq::empty()) == out,
        report_text::hangup_line(out, seq![a]) == out + "  hangup    "@ + text::dec(a.0 as nat)
            + "×"@ + text::dec(a.1 as nat) + "\n"@,
        report_text::hangup_line(out, seq![a, b]) == out + "  hangup    "@ + text::dec(a.0 as nat)
            + "×"@ + text::dec(a.1 as nat) + "  "@ + text::dec(b.0 as nat) + "×"@ + text::dec(
            b.1 as nat,
        ) + "\n"@,
{
    reveal_with_fuel(report_text::codes, 3);
}

// ----------------------------- JSON -----------------------------

/// The counts of events stand under their names.
pub proof fn law_event_members(e: EventCounts)
    ensures
        report_json::event_fields(e)["total"@] == Json::Int(e.spec_total() as int),
        report_json::event_fields(e)["sip"@] == Json::Int(e.sip as int),
        report_json::event_fields(e)["txn"@] == Json::Int(e.txn as int),
        report_json::event_fields(e)["call"@] == Json::Int(e.call as int),
        report_json::event_fields(e)["stream_snap"@] == Json::Int(e.stream_snap as int),
        report_json::event_fields(e)["rtcp_rtt"@] == Json::Int(e.rtcp_rtt as int),
        report_json::event_fields(e)["health"@] == Json::Int(e.health as int),
        report_json::event_fields(e)["error"@] == Json::Int(e.error as int),
        report_json::event_fields(e)["diag"@] == Json::Int(e.diag as int),
        report_json::event_fields(e)["skipped"@] == Json::Int(e.skipped as int),
{
    reveal_strlit("total");
    reveal_strlit("sip");
    reveal_strlit("txn");
    reveal_strlit("call");
    reveal_strlit("stream_snap");
    reveal_strlit("rtcp_rtt");
    reveal_strlit("health");
    reveal_strlit("error");
    reveal_strlit("diag");
    reveal_strlit("skipped");
    assert("total"@.len() == 5 && "total"@[0] == 't');
    assert("sip"@.len() == 3 && "sip"@[0] == 's');
    assert("txn"@.len() == 3 && "txn"@[0] == 't');
    assert("call"@.len() == 4 && "call"@[0] == 'c');
    assert("stream_snap"@.len() == 11 && "stream_snap"@[0] == 's');
    assert("rtcp_rtt"@.len() == 8 && "rtcp_rtt"@[0] == 'r');
    assert("health"@.len() == 6 && "health"@[0] == 'h');
    assert("error"@.len() == 5 && "error"@[0] == 'e');
    assert("diag"@.len() == 4 && "diag"@[0] == 'd');
    assert("skipped"@.len() == 7 && "skipped"@[0] == 's');
}

/// The counts of calls stand under their names.
pub proof fn law_call_members(c: CallCounts)
    ensures
        report_json::call_count_fields(c)["unique"@] == Json::Int(c.unique as int),
        report_json::call_count_fields(c)["invite"@] == Json::Int(c.invite as int),
        report_json::call_count_fields(c)["bye"@] == Json::Int(c.bye as int),
        report_json::call_count_fields(c)["cancel"@] == Json::Int(c.cancel as int),
        report_json::call_count_fields(c)["completed"@] == Json::Int(c.completed as int),
        report_json::call_count_fields(c)["failed"@] == Json::Int(c.failed as int),
        report_json::call_count_fields(c)["canceled"@] == Json::Int(c.canceled as int),
{
    reveal_strlit("unique");
    reveal_strlit("invite");
    reveal_strlit("bye");
    reveal_strlit("cancel");
    reveal_strlit("completed");
    reveal_strlit("failed");
    reveal_strlit("canceled");
    assert("unique"@.len() == 6 && "unique"@[0] == 'u');
    assert("invite"@.len() == 6 && "invite"@[0] == 'i');
    assert("bye"@.len() == 3 && "bye"@[0] == 'b');
    assert("cancel"@.len() == 6 && "cancel"@[0] == 'c');
    assert("completed"@.len() == 9 && "completed"@[0] == 'c');
    assert("failed"@.len() == 6 && "failed"@[0] == 'f');
    assert("canceled"@.len() == 8 && "canceled"@[0] == 'c');
}

/// The responses stand under their classes.
pub proof fn law_class_members(v: Seq<u64>)
    ensures
        report_json::class_fields(v)["1xx"@] == Json::Int(v[1] as int),
        report_json::class_fields(v)["2xx"@] == Json::Int(v[2] as int),
        report_json::class_fields(v)["3xx"@] == Json::Int(v[3] as int),
        report_json::class_fields(v)["4xx"@] == Json::Int(v[4] as int),
        report_json::class_fields(v)["5xx"@] == Json::Int(v[5] as int),
        report_json::class_fields(v)["6xx"@] == Json::Int(v[6] as int),
{
    reveal_strlit("1xx");
    reveal_strlit("2xx");
    reveal_strlit("3xx");
    reveal_strlit("4xx");
    reveal_strlit("5xx");
    reveal_strlit("6xx");
    assert("1xx"@.len() == 3 && "1xx"@[0] == '1');
    assert("2xx"@.len() == 3 && "2xx"@[0] == '2');
    assert("3xx"@.len() == 3 && "3xx"@[0] == '3');
    assert("4xx"@.len() == 3 && "4xx"@[0] == '4');
    assert("5xx"@.len() == 3 && "5xx"@[0] == '5');
    assert("6xx"@.len() == 3 && "6xx"@[0] == '6');
}

/// The counts of answers and failures stand under their names, and what was not measured is null.
pub proof fn law_reliability_members(r: Reliability, f: ReportFigures)
    ensures
        report_json::reliability_fields(r, f)["seizures"@] == Json::Int(r.seizures as int),
        report_json::reliability_fields(r, f)["answered"@] == Json::Int(r.answered as int),
        report_json::reliability_fields(r, f)["notfound"@] == Json::Int(r.fail.notfound as int),
        report_json::reliability_fields(r, f)["reject"@] == Json::Int(r.fail.reject as int),
        report_json::reliability_fields(r, f)["busy"@] == Json::Int(r.fail.busy as int),
        report_json::reliability_fields(r, f)["timeout"@] == Json::Int(r.fail.timeout as int),
        report_json::reliability_fields(r, f)["fail"@] == Json::Int(r.fail.fail as int),
        f.asr is None ==> report_json::reliability_fields(r, f)["asr_pct"@] == Json::Null,
        f.ccr is None ==> report_json::reliability_fields(r, f)["ccr_pct"@] == Json::Null,
        f.ner is None ==> report_json::reliability_fields(r, f)["ner_pct"@] == Json::Null,
        f.cancel is None ==> report_json::reliability_fields(r, f)["cancel_pct"@] == Json::Null,
        f.pdd_avg is None ==> report_json::reliability_fields(r, f)["avg_pdd_ms"@] == Json::Null,
        f.setup is None ==> report_json::reliability_fields(r, f)["avg_setup_ms"@] == Json::Null,
        f.talk is None ==> report_json::reliability_fields(r, f)["avg_talk_ms"@] == Json::Null,
        f.call is None ==> report_json::reliability_fields(r, f)["avg_call_ms"@] == Json::Null,
        r.p50_pdd_ms is None ==> report_json::reliability_fields(r, f)["p50_pdd_ms"@] == Json::Null,
        r.p95_pdd_ms is None ==> report_json::reliability_fields(r, f)["p95_pdd_ms"@] == Json::Null,
{
    reveal_strlit("seizures");
    reveal_strlit("answered");
    reveal_strlit("asr_pct");
    reveal_strlit("ccr_pct");
    reveal_strlit("ner_pct");
    reveal_strlit("cancel_pct");
    reveal_strlit("notfound");
    reveal_strlit("reject");
    reveal_strlit("busy");
    reveal_strlit("timeout");
    reveal_strlit("fail");
    reveal_strlit("notfound_pct");
    reveal_strlit("reject_pct");
    reveal_strlit("busy_pct");
    reveal_strlit("timeout_pct");
    reveal_strlit("fail_pct");
    reveal_strlit("avg_pdd_ms");
    reveal_strlit("p50_pdd_ms");
    reveal_strlit("p95_pdd_ms");
    reveal_strlit("avg_setup_ms");
    reveal_strlit("avg_talk_ms");
    reveal_strlit("avg_call_ms");
    reveal_strlit("hangup_codes");
    assert("seizures"@.len() == 8 && "seizures"@[0] == 's');
    assert("answered"@.len() == 8 && "answered"@[0] == 'a');
    assert("asr_pct"@.len() == 7 && "asr_pct"@[0] == 'a');
    assert("ccr_pct"@.len() == 7 && "ccr_pct"@[0] == 'c');
    assert("ner_pct"@.len() == 7 && "ner_pct"@[0] == 'n');
    assert("cancel_pct"@.len() == 10 && "cancel_pct"@[0] == 'c');
    assert("notfound"@.len() == 8 && "notfound"@[0] == 'n');
    assert("reject"@.len() == 6 && "reject"@[0] == 'r');
    assert("busy"@.len() == 4 && "busy"@[0] == 'b');
    assert("timeout"@.len() == 7 && "timeout"@[0] == 't');
    assert("fail"@.len() == 4 && "fail"@[0] == 'f');
    assert("notfound_pct"@.len() == 12 && "notfound_pct"@[0] == 'n');
    assert("reject_pct"@.len() == 10 && "reject_pct"@[0] == 'r');
    assert("busy_pct"@.len() == 8 && "busy_pct"@[0] == 'b');
    assert("timeout_pct"@.len() == 11 && "timeout_pct"@[0] == 't');
    assert("fail_pct"@.len() == 8 && "fail_pct"@[0] == 'f');
    assert("avg_pdd_ms"@.len() == 10 && "avg_pdd_ms"@[0] == 'a');
    assert("p50_pdd_ms"@.len() == 10 && "p50_pdd_ms"@[0] == 'p' && "p50_pdd_ms"@[1] == '5');
    assert("p95_pdd_ms"@.len() == 10 && "p95_pdd_ms"@[0] == 'p' && "p95_pdd_ms"@[1] == '9');
    assert("avg_setup_ms"@.len() == 12 && "avg_setup_ms"@[0] == 'a');
    assert("avg_talk_ms"@.len() == 11 && "avg_talk_ms"@[0] == 'a' && "avg_talk_ms"@[4] == 't');
    assert("avg_call_ms"@.len() == 11 && "avg_call_ms"@[0] == 'a' && "avg_call_ms"@[4] == 'c');
    assert("hangup_codes"@.len() == 12 && "hangup_codes"@[0] == 'h');
}

/// The traffic stands under its names.
pub proof fn law_traffic_members(t: Traffic, l: Counters, f: ReportFigures)
    ensures
        report_json::traffic_fields(t, l, f)["rtp_pkts"@] == Json::Int(l.pkts as int),
        report_json::traffic_fields(t, l, f)["rtp_lost"@] == Json::Int(l.lost as int),
        report_json::traffic_fields(t, l, f)["rtp_bytes"@] == Json::Int(l.bytes as int),
        report_json::traffic_fields(t, l, f)["sip_msgs"@] == Json::Int(t.sip_msgs as int),
        report_json::traffic_fields(t, l, f)["sip_bytes"@] == Json::Int(t.sip_bytes as int),
        report_json::traffic_fields(t, l, f)["rtt_samples"@] == Json::Int(t.rtts@.len() as int),
{
    reveal_strlit("rtp_pkts");
    reveal_strlit("rtp_lost");
    reveal_strlit("rtp_bytes");
    reveal_strlit("sip_msgs");
    reveal_strlit("sip_bytes");
    reveal_strlit("loss_pct");
    reveal_strlit("avg_bps");
    reveal_strlit("avg_rtp_pps");
    reveal_strlit("avg_cps");
    reveal_strlit("avg_mos");
    reveal_strlit("avg_jitter_ms");
    reveal_strlit("avg_rtt_ms");
    reveal_strlit("rtt_samples");
    reveal_strlit("sip_class");
    assert("rtp_pkts"@.len() == 8 && "rtp_pkts"@[0] == 'r' && "rtp_pkts"@[4] == 'p');
    assert("rtp_lost"@.len() == 8 && "rtp_lost"@[0] == 'r' && "rtp_lost"@[4] == 'l');
    assert("rtp_bytes"@.len() == 9 && "rtp_bytes"@[0] == 'r');
    assert("sip_msgs"@.len() == 8 && "sip_msgs"@[0] == 's');
    assert("sip_bytes"@.len() == 9 && "sip_bytes"@[0] == 's' && "sip_bytes"@[4] == 'b');
    assert("loss_pct"@.len() == 8 && "loss_pct"@[0] == 'l');
    assert("avg_bps"@.len() == 7 && "avg_bps"@[0] == 'a' && "avg_bps"@[4] == 'b');
    assert("avg_rtp_pps"@.len() == 11 && "avg_rtp_pps"@[0] == 'a');
    assert("avg_cps"@.len() == 7 && "avg_cps"@[0] == 'a' && "avg_cps"@[4] == 'c');
    assert("avg_mos"@.len() == 7 && "avg_mos"@[0] == 'a' && "avg_mos"@[4] == 'm');
    assert("avg_jitter_ms"@.len() == 13 && "avg_jitter_ms"@[0] == 'a');
    assert("avg_rtt_ms"@.len() == 10 && "avg_rtt_ms"@[0] == 'a');
    assert("rtt_samples"@.len() == 11 && "rtt_samples"@[0] == 'r');
    assert("sip_class"@.len() == 9 && "sip_class"@[0] == 's' && "sip_class"@[4] == 'c');
}

/// The losses stand under their names.
pub proof fn law_loss_members(l: Counters, pct: Option<String>)
    ensures
        report_json::loss_fields(l, pct)["pkts"@] == Json::Int(l.pkts as int),
        report_json::loss_fields(l, pct)["lost"@] == Json::Int(l.lost as int),
        report_json::loss_fields(l, pct)["bytes"@] == Json::Int(l.bytes as int),
        pct is None ==> report_json::loss_fields(l, pct)["pct"@] == Json::Null,
{
    reveal_strlit("pkts");
    reveal_strlit("lost");
    reveal_strlit("bytes");
    reveal_strlit("pct");
    assert("pkts"@.len() == 4 && "pkts"@[0] == 'p');
    assert("lost"@.len() == 4 && "lost"@[0] == 'l');
    assert("bytes"@.len() == 5 && "bytes"@[0] == 'b');
    assert("pct"@.len() == 3 && "pct"@[0] == 'p');
}

/// An IP stands with its counters.
pub proof fn law_ip_members(x: IpLoss, pct: Option<String>)
    ensures
        report_json::ip_fields(x, pct)["pkts"@] == Json::Int(x.pkts as int),
        report_json::ip_fields(x, pct)["lost"@] == Json::Int(x.lost as int),
        report_json::ip_fields(x, pct)["bytes"@] == Json::Int(x.bytes as int),
        report_json::ip_fields(x, pct)["ip"@] == Json::Text(addr_text::ip_text(x.ip)),
{
    reveal_strlit("ip");
    reveal_strlit("pkts");
    reveal_strlit("lost");
    reveal_strlit("bytes");
    reveal_strlit("loss_pct");
    assert("ip"@.len() == 2 && "ip"@[0] == 'i');
    assert("pkts"@.len() == 4 && "pkts"@[0] == 'p');
    assert("lost"@.len() == 4 && "lost"@[0] == 'l');
    assert("bytes"@.len() == 5 && "bytes"@[0] == 'b');
    assert("loss_pct"@.len() == 8 && "loss_pct"@[0] == 'l');
}

/// A window stands with its beginning and its counts.
pub proof fn law_window_members(w: LossWindow, f: WindowFigures, offset: i32)
    ensures
        report_json::window_fields(w, f, offset)["start_ts_us"@] == Json::Int(w.start_ts_us as int),
        report_json::window_fields(w, f, offset)["calls"@] == Json::Int(w.calls as int),
        report_json::window_fields(w, f, offset)["streams"@] == Json::Int(w.streams as int),
        report_json::window_fields(w, f, offset)["invites"@] == Json::Int(w.invites as int),
        report_json::window_fields(w, f, offset)["teardowns"@] == Json::Int(w.teardowns as int),
        report_json::window_fields(w, f, offset)["answered"@] == Json::Int(w.answered as int),
        report_json::window_fields(w, f, offset)["pkts"@] == Json::Int(w.pkts as int),
        report_json::window_fields(w, f, offset)["lost"@] == Json::Int(w.lost as int),
        report_json::window_fields(w, f, offset)["rtp_bytes"@] == Json::Int(w.rtp_bytes as int),
        report_json::window_fields(w, f, offset)["sip_msgs"@] == Json::Int(w.sip_msgs as int),
        report_json::window_fields(w, f, offset)["time"@] == Json::Text(numfmt::time_text(w.start_ts_us, offset)),
{
    reveal_strlit("start_ts_us");
    reveal_strlit("time");
    reveal_strlit("calls");
    reveal_strlit("streams");
    reveal_strlit("invites");
    reveal_strlit("teardowns");
    reveal_strlit("answered");
    reveal_strlit("asr_pct");
    reveal_strlit("ner_pct");
    reveal_strlit("ccr_pct");
    reveal_strlit("cancel_pct");
    reveal_strlit("notfound_pct");
    reveal_strlit("reject_pct");
    reveal_strlit("busy_pct");
    reveal_strlit("timeout_pct");
    reveal_strlit("fail_pct");
    reveal_strlit("pkts");
    reveal_strlit("lost");
    reveal_strlit("rtp_bytes");
    reveal_strlit("sip_msgs");
    reveal_strlit("loss_pct");
    reveal_strlit("avg_rtt_ms");
    assert("start_ts_us"@.len() == 11 && "start_ts_us"@[0] == 's');
    assert("time"@.len() == 4 && "time"@[0] == 't');
    assert("calls"@.len() == 5 && "calls"@[0] == 'c');
    assert("streams"@.len() == 7 && "streams"@[0] == 's');
    assert("invites"@.len() == 7 && "invites"@[0] == 'i');
    assert("teardowns"@.len() == 9 && "teardowns"@[0] == 't');
    assert("answered"@.len() == 8 && "answered"@[0] == 'a');
    assert("asr_pct"@.len() == 7 && "asr_pct"@[0] == 'a');
    assert("ner_pct"@.len() == 7 && "ner_pct"@[0] == 'n');
    assert("ccr_pct"@.len() == 7 && "ccr_pct"@[0] == 'c');
    assert("cancel_pct"@.len() == 10 && "cancel_pct"@[0] == 'c');
    assert("notfound_pct"@.len() == 12 && "notfound_pct"@[0] == 'n');
    assert("reject_pct"@.len() == 10 && "reject_pct"@[0] == 'r');
    assert("busy_pct"@.len() == 8 && "busy_pct"@[0] == 'b');
    assert("timeout_pct"@.len() == 11 && "timeout_pct"@[0] == 't');
    assert("fail_pct"@.len() == 8 && "fail_pct"@[0] == 'f');
    assert("pkts"@.len() == 4 && "pkts"@[0] == 'p');
    assert("lost"@.len() == 4 && "lost"@[0] == 'l');
    assert("rtp_bytes"@.len() == 9 && "rtp_bytes"@[0] == 'r');
    assert("sip_msgs"@.len() == 8 && "sip_msgs"@[0] == 's');
    assert("loss_pct"@.len() == 8 && "loss_pct"@[0] == 'l');
    assert("avg_rtt_ms"@.len() == 10 && "avg_rtt_ms"@[0] == 'a');
}

/// A code stands with its count.
pub proof fn law_code_members(x: (u32, u64))
    ensures
        report_json::code_fields(x)["code"@] == Json::Int(x.0 as int),
        report_json::code_fields(x)["count"@] == Json::Int(x.1 as int),
{
    reveal_strlit("code");
    reveal_strlit("count");
    assert("code"@.len() == 4 && "code"@[0] == 'c');
    assert("count"@.len() == 5 && "count"@[0] == 'c');
}

/// A report holds its parts under their names.
pub proof fn law_report_members(s: EvlogStats, f: ReportFigures, offset: i32)
    ensures
        report_json::report_fields(s, f, offset)["bytes"@] == Json::Int(s.bytes as int),
        report_json::report_fields(s, f, offset)["file"@] == Json::Text(s.file@),
        s.start_ts_us matches Some(t) ==> report_json::report_fields(s, f, offset)["start_ts_us"@] == Json::Int(t as int),
        s.end_ts_us matches Some(t) ==> report_json::report_fields(s, f, offset)["end_ts_us"@] == Json::Int(t as int),
        s.end_ts_us is None ==> report_json::report_fields(s, f, offset)["end_ts_us"@] == Json::Null,
        report_json::report_fields(s, f, offset)["events"@] == Json::Object(report_json::event_fields(s.events)),
        report_json::report_fields(s, f, offset)["calls"@] == Json::Object(report_json::call_count_fields(s.calls)),
        s.tz_offset_secs matches Some(n) ==> report_json::report_fields(s, f, offset)["tz_offset_secs"@] == Json::Int(n as int),
        report_json::report_fields(s, f, offset)["windows"@] is List && report_json::report_fields(s, f, offset)["windows"@]->List_0.len() == s.windows@.len(),
        report_json::report_fields(s, f, offset)["top_ips"@] is List && report_json::report_fields(s, f, offset)["top_ips"@]->List_0.len() == s.top_ips@.len(),
{
    reveal_strlit("file");
    reveal_strlit("bytes");
    reveal_strlit("tz_offset_secs");
    reveal_strlit("start_ts_us");
    reveal_strlit("end_ts_us");
    reveal_strlit("events");
    reveal_strlit("calls");
    reveal_strlit("reliability");
    reveal_strlit("traffic");
    reveal_strlit("loss");
    reveal_strlit("windows");
    reveal_strlit("top_ips");
    assert("file"@.len() == 4 && "file"@[0] == 'f');
    assert("bytes"@.len() == 5 && "bytes"@[0] == 'b');
    assert("tz_offset_secs"@.len() == 14 && "tz_offset_secs"@[0] == 't');
    assert("start_ts_us"@.len() == 11 && "start_ts_us"@[0] == 's');
    assert("end_ts_us"@.len() == 9 && "end_ts_us"@[0] == 'e');
    assert("events"@.len() == 6 && "events"@[0] == 'e');
    assert("calls"@.len() == 5 && "calls"@[0] == 'c');
    assert("reliability"@.len() == 11 && "reliability"@[0] == 'r');
    assert("traffic"@.len() == 7 && "traffic"@[0] == 't' && "traffic"@[1] == 'r');
    assert("loss"@.len() == 4 && "loss"@[0] == 'l');
    assert("windows"@.len() == 7 && "windows"@[0] == 'w');
    assert("top_ips"@.len() == 7 && "top_ips"@[0] == 't' && "top_ips"@[1] == 'o');
}

} // verus!
