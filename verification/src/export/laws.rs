//! What is written out of a log or a snapshot, and what is read back.
use crate::correlate::call_laws::{law_same_word, same_letters};
use crate::diagnostics;
use crate::diagnostics::{DiagView, Severity};
use crate::export::event_lines;
use crate::export::import;
use crate::export::import::{
    diag_of, exported_diag, exported_stream, flow_between, focus_of, kind_named, lines_of_kind,
    recorded, replayed_stream, row_index, row_of, stream_of, within, JsonCall, JsonDiag, JsonStream,
    LineKind,
};
use crate::export::lines;
use crate::export::lines::{BucketLineView, StreamFiguresView};
use crate::export::rebuild;
use crate::export::rebuild::{hit_of, query_label_text, replayed, to_analyse, Found, Hit};
use crate::export::tables::{
    code_named, method_of, outcome_of, severity_numbered, severity_of, ssrc_of, ssrc_text, state_of,
};
use crate::json;
use crate::json::Json;
use crate::model::addr::SocketAddr;
use crate::model::addr_text;
use crate::model::media::SummaryView;
use crate::model::packet::Proto;
use crate::model::sip::{CallState, Method};
use crate::model::stats::Real64;
use crate::store::evlog::{CallEvt, DiagEvt, ErrorEvt, Event, SipMsgEvt, StreamSnapEvt};
use crate::store::snapshot::RowView;
use crate::store::wire::CallEvtKind;
use crate::text;
use vstd::prelude::*;

verus! {

// ----------------------------- words -----------------------------

/// The words of the states; any other word is read as a failed call.
pub proof fn law_state_words(t: Seq<char>)
    ensures
        state_of(Some("Dialing"@)) == CallState::Dialing,
        state_of(Some("Ringing"@)) == CallState::Ringing,
        state_of(Some("Active"@)) == CallState::Active,
        state_of(Some("Completed"@)) == CallState::Completed,
        state_of(Some("Canceled"@)) == CallState::Canceled,
        state_of(None) == CallState::Failed,
        state_of(Some(t)) != CallState::Failed ==> t == state_of(Some(t)).spec_label(),
{
    reveal_strlit("Dialing");
    reveal_strlit("Ringing");
    reveal_strlit("Active");
    reveal_strlit("Completed");
    reveal_strlit("Canceled");
    assert("Dialing"@[0] == 'D');
    assert("Ringing"@[0] == 'R');
    assert("Active"@[0] == 'A');
    assert("Completed"@[1] == 'o');
    assert("Canceled"@[1] == 'a');
    assert("Completed"@[0] == 'C');
    assert("Canceled"@[0] == 'C');
}

/// A severity that is not known by its word is a warning; one above 1 by its number is critical.
pub proof fn law_severities(n: u8)
    ensures
        severity_of(Some("CRIT"@)) == Severity::Critical,
        severity_of(Some("INFO"@)) == Severity::Info,
        severity_of(Some("WARN"@)) == Severity::Warn,
        severity_of(None) == Severity::Warn,
        severity_numbered(0) == Severity::Info,
        severity_numbered(1) == Severity::Warn,
        n > 1 ==> severity_numbered(n) == Severity::Critical,
{
    reveal_strlit("CRIT");
    reveal_strlit("INFO");
    reveal_strlit("WARN");
    assert("CRIT"@[0] == 'C');
    assert("INFO"@[0] == 'I');
    assert("WARN"@[0] == 'W');
}

/// A method is read in any case of letters.
pub proof fn law_methods_read(t: Seq<char>)
    ensures
        same_letters(t, "INVITE"@) <==> method_of(t) == Method::Invite,
        same_letters(t, "INVITE"@) || !same_letters(t, "ACK"@) || method_of(t) == Method::Ack,
        same_letters(t, "BYE"@) && !same_letters(t, "INVITE"@) && !same_letters(t, "ACK"@)
            ==> method_of(t) == Method::Bye,
{
    law_same_word(t, "INVITE"@);
    law_same_word(t, "ACK"@);
    law_same_word(t, "BYE"@);
    reveal_strlit("INVITE");
    reveal_strlit("ACK");
    reveal_strlit("BYE");
}

/// A code that the library knows is kept, and any other is unknown.
pub proof fn law_codes(t: Seq<char>)
    ensures
        code_named(diagnostics::ONE_WAY_MEDIA@) == diagnostics::ONE_WAY_MEDIA@,
        code_named(diagnostics::CONTACT_UNREACHABLE@) == diagnostics::CONTACT_UNREACHABLE@,
        code_named(diagnostics::CONTACT_PRIVATE_NAT@) == diagnostics::CONTACT_PRIVATE_NAT@,
        code_named(diagnostics::CONTACT_MCAST@) == diagnostics::CONTACT_MCAST@,
        code_named(diagnostics::RR_NOT_HONORED@) == diagnostics::RR_NOT_HONORED@,
        code_named(diagnostics::RR_DEPTH_MISMATCH@) == diagnostics::RR_DEPTH_MISMATCH@,
        code_named(diagnostics::SDP_HOLD@) == diagnostics::SDP_HOLD@,
        code_named(diagnostics::RTP_PT_MISMATCH@) == diagnostics::RTP_PT_MISMATCH@,
        code_named(diagnostics::RTP_FLOW_UNEXPECTED@) == diagnostics::RTP_FLOW_UNEXPECTED@,
        code_named(diagnostics::RTP_PT_CHANGED@) == diagnostics::RTP_PT_CHANGED@,
        code_named(diagnostics::TURN_ALLOC_OK@) == diagnostics::TURN_ALLOC_OK@,
        code_named(diagnostics::TURN_ALLOC_FAILED@) == diagnostics::TURN_ALLOC_FAILED@,
        code_named(diagnostics::TURN_REFRESH_FAILED@) == diagnostics::TURN_REFRESH_FAILED@,
        code_named(diagnostics::TURN_LEG_IMBALANCE@) == diagnostics::TURN_LEG_IMBALANCE@,
        code_named(t) == t || code_named(t) == "UNKNOWN"@,
{
}

/// An SSRC is written in hexadecimal behind `0x`; what spells no number is read as zero.
pub proof fn law_ssrcs(n: u32, t: Seq<char>)
    ensures
        ssrc_text(n) == "0x"@ + addr_text::hex(n as nat),
        ssrc_of(Seq::empty()) == 0,
{
    reveal_strlit("0x");
}

// ----------------------------- replay -----------------------------

/// A range takes the seconds that it begins and ends with, both included.
pub proof fn law_range(ts: u64, from: Option<u64>, to: Option<u64>)
    ensures
        within(ts, None, None),
        from is Some && to is None ==> (within(ts, from, to) <==> ts >= 1_000_000
            * from->Some_0),
        from is None && to is Some ==> (within(ts, from, to) <==> ts <= 1_000_000 * to->Some_0),
        from is Some && to is Some ==> (within(ts, from, to) <==> 1_000_000 * from->Some_0 <= ts
            <= 1_000_000 * to->Some_0),
{
}

/// A message of a log within the range is analysed, from its bytes where they can be read; no other event is.
pub proof fn law_replayed(ev: Event, from: Option<u64>, to: Option<u64>)
    ensures
        ev matches Event::SipMsg(e) ==> (within(e.ts_us, from, to) <==> to_analyse(ev, from, to)
            == Some(replayed(e))) && (!within(e.ts_us, from, to) <==> to_analyse(ev, from, to)
            is None),
        !(ev is SipMsg) ==> to_analyse(ev, from, to) is None,
{
}

/// What was recorded of a message stands for it where its bytes cannot be read.
pub proof fn law_recorded(e: SipMsgEvt)
    ensures
        recorded(e).ts_us == e.ts_us,
        recorded(e).flow == e.flow,
        recorded(e).is_request == e.is_request,
        recorded(e).status == e.status,
        recorded(e).call_id == e.call_id@,
        recorded(e).cseq == e.cseq,
        recorded(e).branch == text::opt_text(e.branch),
        recorded(e).from_tag == text::opt_text(e.from_tag),
        recorded(e).to_tag == text::opt_text(e.to_tag),
        recorded(e).raw == e.raw@,
        e.method is None <==> recorded(e).method is None,
        e.method is Some ==> (recorded(e).method == Some(Method::Invite) <==> same_letters(
            e.method->Some_0@,
            "INVITE"@,
        )),
{
    if let Some(m) = e.method {
        law_methods_read(m@);
    }
}

/// The streams and findings of a log come out as they were logged.
pub proof fn law_exported(e: StreamSnapEvt, d: DiagEvt)
    ensures
        exported_stream(e).call_id == Some(e.call_id@),
        exported_stream(e).ssrc == e.ssrc,
        exported_stream(e).flow == Some(e.flow),
        exported_stream(e).codec == text::opt_text(e.codec),
        exported_stream(e).payload_type == e.payload_type,
        exported_stream(e).packets == e.packets,
        exported_stream(e).lost == e.lost,
        exported_stream(e).expected == e.expected,
        exported_stream(e).loss_pct == e.loss_pct,
        exported_stream(e).jitter_ms == e.jitter_ms,
        exported_stream(e).mos == e.mos,
        exported_stream(e).direction == text::opt_text(e.direction),
        exported_stream(e).bytes == 0,
        replayed_stream(e).packets == e.packets,
        replayed_stream(e).lost == e.lost,
        replayed_stream(e).flow == Some(e.flow),
        replayed_stream(e).bytes == e.bytes,
        replayed_stream(e).first_ts_us == e.first_ts_us,
        replayed_stream(e).last_ts_us == e.last_ts_us,
        replayed_stream(e).rtt_min_ms == e.rtt_min_ms,
        replayed_stream(e).rtt_avg_ms == e.rtt_avg_ms,
        replayed_stream(e).rtt_max_ms == e.rtt_max_ms,
        replayed_stream(e).oneway_ms == e.oneway_ms,
        replayed_stream(e).leg == text::opt_text(e.leg),
        replayed_stream(e).via_turn == e.via_turn,
        exported_diag(d).ts_us == d.ts_us,
        exported_diag(d).call_id == d.call_id@,
        exported_diag(d).severity == severity_numbered(d.severity),
        exported_diag(d).code == code_named(d.code@),
        exported_diag(d).message == d.message@,
{
}

/// Streams and findings within the range are taken up at the end, and those out of it are not.
pub proof fn law_taken(
    ev: Event,
    from: Option<u64>,
    to: Option<u64>,
    v: Seq<SummaryView>,
    w: Seq<DiagView>,
)
    ensures
        ev matches Event::StreamSnap(e) ==> within(e.ts_us, from, to) ==> rebuild::streams_with(
            v,
            ev,
            from,
            to,
        ) == v.push(exported_stream(e)),
        ev matches Event::StreamSnap(e) ==> !within(e.ts_us, from, to) ==> rebuild::streams_with(
            v,
            ev,
            from,
            to,
        ) == v,
        ev matches Event::Diag(e) ==> within(e.ts_us, from, to) ==> rebuild::diags_with(
            w,
            ev,
            from,
            to,
        ) == w.push(exported_diag(e)),
        ev matches Event::Diag(e) ==> !within(e.ts_us, from, to) ==> rebuild::diags_with(
            w,
            ev,
            from,
            to,
        ) == w,
        !(ev is StreamSnap) ==> rebuild::streams_with(v, ev, from, to) == v,
        !(ev is Diag) ==> rebuild::diags_with(w, ev, from, to) == w,
{
}

/// A query finds the messages, streams, round trips and findings of its call, and nothing of another.
pub proof fn law_query(ev: Event, id: Seq<char>)
    ensures
        hit_of(ev, id) == Some(Hit::Message) <==> (ev matches Event::SipMsg(e) && e.call_id@ == id),
        hit_of(ev, id) == Some(Hit::Stream) <==> (ev matches Event::StreamSnap(e) && e.call_id@
            == id),
        hit_of(ev, id) == Some(Hit::Rtt) <==> (ev matches Event::RtcpRtt(e) && e.call_id@ == id),
        hit_of(ev, id) == Some(Hit::Diagnostic) <==> (ev matches Event::Diag(e) && e.call_id@ == id),
{
}

/// What a query found is counted by its kind, and told at the end.
pub proof fn law_query_counts(f: Found, id: Seq<char>)
    requires
        f.messages < u64::MAX,
        f.streams < u64::MAX,
        f.rtts < u64::MAX,
    ensures
        f.with(Some(Hit::Message)).messages == f.messages + 1,
        f.with(Some(Hit::Message)).streams == f.streams,
        f.with(Some(Hit::Message)).rtts == f.rtts,
        f.with(Some(Hit::Stream)).streams == f.streams + 1,
        f.with(Some(Hit::Stream)).messages == f.messages,
        f.with(Some(Hit::Rtt)).rtts == f.rtts + 1,
        f.with(Some(Hit::Rtt)).streams == f.streams,
        f.with(Some(Hit::Diagnostic)) == f,
        f.with(None) == f,
        f.spec_summary(id) == "query: "@ + text::dec(f.messages as nat) + " sip msgs, "@ + text::dec(
            f.streams as nat,
        ) + " stream snaps, "@ + text::dec(f.rtts as nat) + " rtt samples for "@ + id,
{
}

/// A message that was found is labelled by its method or its status.
pub proof fn law_query_label(e: SipMsgEvt)
    ensures
        e.is_request && e.method is Some ==> query_label_text(e) == e.method->Some_0@,
        !e.is_request && e.status is Some ==> query_label_text(e) == text::dec(
            e.status->Some_0 as nat,
        ),
        e.is_request && e.method is None ==> query_label_text(e).len() == 0,
        !e.is_request && e.status is None ==> query_label_text(e).len() == 0,
{
}

// ----------------------------- lines -----------------------------

/// The members of a message's line.
pub proof fn law_sip_line(e: SipMsgEvt)
    ensures
        event_lines::sip_fields(e)["type"@] == Json::Text("sip"@),
        event_lines::sip_fields(e)["ts_us"@] == Json::Int(e.ts_us as int),
        event_lines::sip_fields(e)["call_id"@] == Json::Text(e.call_id@),
        e.status matches Some(s) ==> event_lines::sip_fields(e)["status"@] == Json::Int(s as int),
        e.status is None ==> event_lines::sip_fields(e)["status"@] == Json::Null,
        event_lines::sip_fields(e)["src"@] == Json::Text(addr_text::socket_text(e.flow.src)),
        event_lines::sip_fields(e)["dst"@] == Json::Text(addr_text::socket_text(e.flow.dst)),
        e.cseq matches Some(n) ==> event_lines::sip_fields(e)["cseq"@] == Json::Int(n as int),
        e.method matches Some(m) ==> event_lines::sip_fields(e)["method"@] == Json::Text(m@),
        e.branch matches Some(b) ==> event_lines::sip_fields(e)["branch"@] == Json::Text(b@),
        e.branch is None ==> event_lines::sip_fields(e)["branch"@] == Json::Null,
{
    reveal_strlit("type");
    reveal_strlit("ts_us");
    reveal_strlit("call_id");
    reveal_strlit("method");
    reveal_strlit("status");
    reveal_strlit("src");
    reveal_strlit("dst");
    reveal_strlit("cseq");
    reveal_strlit("branch");
    assert("type"@.len() == 4 && "type"@[0] == 't');
    assert("ts_us"@.len() == 5 && "ts_us"@[0] == 't');
    assert("call_id"@.len() == 7 && "call_id"@[0] == 'c');
    assert("method"@.len() == 6 && "method"@[0] == 'm');
    assert("status"@.len() == 6 && "status"@[0] == 's');
    assert("src"@.len() == 3 && "src"@[0] == 's');
    assert("dst"@.len() == 3 && "dst"@[0] == 'd');
    assert("cseq"@.len() == 4 && "cseq"@[0] == 'c');
    assert("branch"@.len() == 6 && "branch"@[0] == 'b');
}

/// The members of a call's line.
pub proof fn law_call_line(e: CallEvt)
    ensures
        event_lines::call_fields(e)["type"@] == Json::Text("call"@),
        event_lines::call_fields(e)["ts_us"@] == Json::Int(e.ts_us as int),
        event_lines::call_fields(e)["call_id"@] == Json::Text(e.call_id@),
        e.kind == CallEvtKind::Setup ==> event_lines::call_fields(e)["kind"@] == Json::Text(
            "Setup"@,
        ),
        e.kind == CallEvtKind::Update ==> event_lines::call_fields(e)["kind"@] == Json::Text(
            "Update"@,
        ),
        e.kind == CallEvtKind::Teardown ==> event_lines::call_fields(e)["kind"@] == Json::Text(
            "Teardown"@,
        ),
        event_lines::call_fields(e)["state"@] == Json::Int(e.state as int),
        e.pdd_ms matches Some(n) ==> event_lines::call_fields(e)["pdd_ms"@] == Json::Int(n as int),
        e.setup_ms matches Some(n) ==> event_lines::call_fields(e)["setup_ms"@] == Json::Int(
            n as int,
        ),
        e.hangup_code matches Some(n) ==> event_lines::call_fields(e)["hangup"@] == Json::Int(
            n as int,
        ),
{
    reveal_strlit("type");
    reveal_strlit("ts_us");
    reveal_strlit("call_id");
    reveal_strlit("kind");
    reveal_strlit("state");
    reveal_strlit("pdd_ms");
    reveal_strlit("setup_ms");
    reveal_strlit("hangup");
    assert("type"@.len() == 4 && "type"@[0] == 't');
    assert("ts_us"@.len() == 5 && "ts_us"@[0] == 't');
    assert("call_id"@.len() == 7 && "call_id"@[0] == 'c');
    assert("kind"@.len() == 4 && "kind"@[0] == 'k');
    assert("state"@.len() == 5 && "state"@[0] == 's');
    assert("pdd_ms"@.len() == 6 && "pdd_ms"@[0] == 'p');
    assert("setup_ms"@.len() == 8 && "setup_ms"@[0] == 's');
    assert("hangup"@.len() == 6 && "hangup"@[0] == 'h');
}

/// The members of a stream's line.
pub proof fn law_stream_line(e: StreamSnapEvt, n: Seq<Option<String>>)
    ensures
        event_lines::stream_fields(e, n)["type"@] == Json::Text("stream"@),
        event_lines::stream_fields(e, n)["ts_us"@] == Json::Int(e.ts_us as int),
        event_lines::stream_fields(e, n)["call_id"@] == Json::Text(e.call_id@),
        event_lines::stream_fields(e, n)["ssrc"@] == Json::Text(ssrc_text(e.ssrc)),
        event_lines::stream_fields(e, n)["packets"@] == Json::Int(e.packets as int),
        event_lines::stream_fields(e, n)["lost"@] == Json::Int(e.lost as int),
        n[0] is None ==> event_lines::stream_fields(e, n)["loss_pct"@] == Json::Null,
        n[1] is None ==> event_lines::stream_fields(e, n)["jitter_ms"@] == Json::Null,
        n[2] is None ==> event_lines::stream_fields(e, n)["mos"@] == Json::Null,
{
    reveal_strlit("type");
    reveal_strlit("ts_us");
    reveal_strlit("call_id");
    reveal_strlit("ssrc");
    reveal_strlit("packets");
    reveal_strlit("lost");
    reveal_strlit("loss_pct");
    reveal_strlit("jitter_ms");
    reveal_strlit("mos");
    assert("type"@.len() == 4 && "type"@[0] == 't');
    assert("ts_us"@.len() == 5 && "ts_us"@[0] == 't');
    assert("call_id"@.len() == 7 && "call_id"@[0] == 'c');
    assert("ssrc"@.len() == 4 && "ssrc"@[0] == 's');
    assert("packets"@.len() == 7 && "packets"@[0] == 'p');
    assert("lost"@.len() == 4 && "lost"@[0] == 'l');
    assert("loss_pct"@.len() == 8 && "loss_pct"@[0] == 'l');
    assert("jitter_ms"@.len() == 9 && "jitter_ms"@[0] == 'j');
    assert("mos"@.len() == 3 && "mos"@[0] == 'm');
}

/// The members of the lines of findings and errors.
pub proof fn law_diag_line(e: DiagEvt, r: ErrorEvt)
    ensures
        event_lines::diag_fields(e)["type"@] == Json::Text("diag"@),
        event_lines::diag_fields(e)["ts_us"@] == Json::Int(e.ts_us as int),
        event_lines::diag_fields(e)["call_id"@] == Json::Text(e.call_id@),
        event_lines::diag_fields(e)["severity"@] == Json::Int(e.severity as int),
        event_lines::diag_fields(e)["code"@] == Json::Text(e.code@),
        event_lines::diag_fields(e)["message"@] == Json::Text(e.message@),
        event_lines::error_fields(r)["type"@] == Json::Text("error"@),
        event_lines::error_fields(r)["kind"@] == Json::Text(r.kind@),
        event_lines::error_fields(r)["msg"@] == Json::Text(r.msg@),
{
    reveal_strlit("type");
    reveal_strlit("ts_us");
    reveal_strlit("call_id");
    reveal_strlit("severity");
    reveal_strlit("code");
    reveal_strlit("message");
    reveal_strlit("kind");
    reveal_strlit("msg");
    assert("type"@.len() == 4 && "type"@[0] == 't');
    assert("ts_us"@.len() == 5 && "ts_us"@[0] == 't');
    assert("call_id"@.len() == 7 && "call_id"@[0] == 'c');
    assert("severity"@.len() == 8 && "severity"@[0] == 's');
    assert("code"@.len() == 4 && "code"@[0] == 'c');
    assert("message"@.len() == 7 && "message"@[0] == 'm');
    assert("kind"@.len() == 4 && "kind"@[0] == 'k');
    assert("msg"@.len() == 3 && "msg"@[0] == 'm');
}

/// Each event has the line of its kind; a query prints those of messages, streams, round trips and findings.
pub proof fn law_event_lines_of(ev: Event, n: Seq<Option<String>>)
    ensures
        ev matches Event::SipMsg(e) ==> event_lines::event_fields(ev, n)
            == event_lines::sip_fields(e),
        ev matches Event::Call(e) ==> event_lines::event_fields(ev, n)
            == event_lines::call_fields(e),
        ev matches Event::StreamSnap(e) ==> event_lines::event_fields(ev, n)
            == event_lines::stream_fields(e, n),
        ev matches Event::Diag(e) ==> event_lines::event_fields(ev, n)
            == event_lines::diag_fields(e),
        ev matches Event::Error(e) ==> event_lines::event_fields(ev, n)
            == event_lines::error_fields(e),
        event_lines::found_fields(ev, n) is Some <==> ev is SipMsg || ev is StreamSnap || ev
            is RtcpRtt || ev is Diag,
        event_lines::figures_in(ev) > 0 <==> ev is StreamSnap || ev is RtcpRtt || ev is HealthBucket,
{
}

/// The members of the line that a query prints of a message.
pub proof fn law_found_sip_line(e: SipMsgEvt)
    ensures
        event_lines::found_sip_fields(e)["ts_us"@] == Json::Int(e.ts_us as int),
        event_lines::found_sip_fields(e)["msg"@] == Json::Text(query_label_text(e)),
        event_lines::found_sip_fields(e)["src"@] == Json::Text(addr_text::socket_text(e.flow.src)),
        event_lines::found_sip_fields(e)["dst"@] == Json::Text(addr_text::socket_text(e.flow.dst)),
        event_lines::found_sip_fields(e)["raw_len"@] == Json::Int(e.raw@.len() as int),
        e.from_tag matches Some(t) ==> event_lines::found_sip_fields(e)["from_tag"@] == Json::Text(
            t@,
        ),
        e.to_tag matches Some(t) ==> event_lines::found_sip_fields(e)["to_tag"@] == Json::Text(t@),
{
    reveal_strlit("ts_us");
    reveal_strlit("msg");
    reveal_strlit("src");
    reveal_strlit("dst");
    reveal_strlit("cseq");
    reveal_strlit("branch");
    reveal_strlit("from_tag");
    reveal_strlit("to_tag");
    reveal_strlit("raw_len");
    assert("ts_us"@.len() == 5 && "ts_us"@[0] == 't');
    assert("msg"@.len() == 3 && "msg"@[0] == 'm');
    assert("src"@.len() == 3 && "src"@[0] == 's');
    assert("dst"@.len() == 3 && "dst"@[0] == 'd');
    assert("cseq"@.len() == 4 && "cseq"@[0] == 'c');
    assert("branch"@.len() == 6 && "branch"@[0] == 'b');
    assert("from_tag"@.len() == 8 && "from_tag"@[0] == 'f');
    assert("to_tag"@.len() == 6 && "to_tag"@[0] == 't');
    assert("raw_len"@.len() == 7 && "raw_len"@[0] == 'r');
}

/// The members of the short line of a call.
pub proof fn law_brief_line(c: RowView)
    ensures
        event_lines::brief_fields(c)["kind"@] == Json::Text("call"@),
        event_lines::brief_fields(c)["call_id"@] == Json::Text(c.call_id),
        event_lines::brief_fields(c)["state"@] == Json::Text(c.state.spec_label()),
        c.pdd_ms matches Some(n) ==> event_lines::brief_fields(c)["pdd_ms"@] == Json::Int(n as int),
        c.setup_ms matches Some(n) ==> event_lines::brief_fields(c)["setup_ms"@] == Json::Int(
            n as int,
        ),
        event_lines::brief_fields(c)["warn"@] == Json::Int(c.warn_count as int),
        event_lines::brief_fields(c)["crit"@] == Json::Int(c.critical_count as int),
{
    reveal_strlit("kind");
    reveal_strlit("call_id");
    reveal_strlit("state");
    reveal_strlit("pdd_ms");
    reveal_strlit("setup_ms");
    reveal_strlit("warn");
    reveal_strlit("crit");
    assert("kind"@.len() == 4 && "kind"@[0] == 'k');
    assert("call_id"@.len() == 7 && "call_id"@[0] == 'c');
    assert("state"@.len() == 5 && "state"@[0] == 's');
    assert("pdd_ms"@.len() == 6 && "pdd_ms"@[0] == 'p');
    assert("setup_ms"@.len() == 8 && "setup_ms"@[0] == 's');
    assert("warn"@.len() == 4 && "warn"@[0] == 'w');
    assert("crit"@.len() == 4 && "crit"@[0] == 'c');
}

/// The members of an exported finding.
pub proof fn law_exported_diag_line(d: DiagView)
    ensures
        lines::diag_fields(d)["kind"@] == Json::Text("diag"@),
        lines::diag_fields(d)["ts_us"@] == Json::Int(d.ts_us as int),
        lines::diag_fields(d)["call_id"@] == Json::Text(d.call_id),
        lines::diag_fields(d)["severity"@] == Json::Text(d.severity.spec_label()),
        lines::diag_fields(d)["code"@] == Json::Text(d.code),
        lines::diag_fields(d)["message"@] == Json::Text(d.message),
{
    reveal(lines::diag_fields);
    reveal_strlit("kind");
    reveal_strlit("ts_us");
    reveal_strlit("call_id");
    reveal_strlit("severity");
    reveal_strlit("code");
    reveal_strlit("message");
    assert("kind"@.len() == 4 && "kind"@[0] == 'k');
    assert("ts_us"@.len() == 5 && "ts_us"@[0] == 't');
    assert("call_id"@.len() == 7 && "call_id"@[0] == 'c');
    assert("severity"@.len() == 8 && "severity"@[0] == 's');
    assert("code"@.len() == 4 && "code"@[0] == 'c');
    assert("message"@.len() == 7 && "message"@[0] == 'm');
}

// ----------------------------- reading back -----------------------------

/// The kinds of lines.
pub proof fn law_line_kinds(t: Seq<char>)
    ensures
        kind_named(Some("call"@)) == LineKind::Call,
        kind_named(Some("stream"@)) == LineKind::Stream,
        kind_named(Some("diag"@)) == LineKind::Diag,
        kind_named(Some("bucket"@)) == LineKind::Bucket,
        kind_named(None) == LineKind::Other,
        t != "call"@ && t != "stream"@ && t != "diag"@ && t != "bucket"@ ==> kind_named(Some(t))
            == LineKind::Other,
{
    reveal_strlit("call");
    reveal_strlit("stream");
    reveal_strlit("diag");
    reveal_strlit("bucket");
    assert("call"@[0] == 'c');
    assert("stream"@[0] == 's');
    assert("diag"@[0] == 'd');
    assert("bucket"@[0] == 'b');
}

/// Every line of a kind is taken, once, without the white space round it, in order.
pub proof fn law_lines_taken(ls: Seq<Seq<char>>, kind: LineKind, n: int)
    requires
        0 <= n < ls.len(),
    ensures
        import::kind_of(ls[n]) == kind ==> lines_of_kind(ls, kind, n + 1) == lines_of_kind(
            ls,
            kind,
            n,
        ).push(text::trimmed(ls[n])),
        import::kind_of(ls[n]) != kind ==> lines_of_kind(ls, kind, n + 1) == lines_of_kind(
            ls,
            kind,
            n,
        ),
        lines_of_kind(ls, kind, 0).len() == 0,
{
}

/// A call is read from the members of its line.
pub proof fn law_row_read(j: JsonCall)
    ensures
        j.call_id is Some ==> row_of(j).call_id == j.call_id->Some_0@,
        row_of(j).from_user == text::opt_text(j.from),
        row_of(j).to_user == text::opt_text(j.to),
        row_of(j).state == state_of(text::opt_text(j.state)),
        row_of(j).outcome == outcome_of(text::opt_text(j.outcome)),
        row_of(j).invite_ts == j.invite_ts_us,
        row_of(j).duration_ms == j.duration_ms,
        j.pdd_ms matches Some(x) ==> x <= u32::MAX ==> row_of(j).pdd_ms == Some(x as u32),
        j.setup_ms matches Some(x) ==> x <= u32::MAX ==> row_of(j).setup_ms == Some(x as u32),
        j.hangup_code matches Some(x) ==> x <= u32::MAX ==> row_of(j).hangup_code == Some(x as u32),
        j.pkts_sip matches Some(x) ==> row_of(j).pkts_sip == x,
        j.pkts_rtp matches Some(x) ==> row_of(j).pkts_rtp == x,
        j.pkts_sip is None ==> row_of(j).pkts_sip == 0,
        j.warn_count matches Some(x) ==> x <= u32::MAX ==> row_of(j).warn_count == x,
        j.critical_count matches Some(x) ==> x <= u32::MAX ==> row_of(j).critical_count == x,
        j.best_mos matches Some(b) ==> row_of(j).best_mos == Some(Real64 { bits: b }),
        j.best_mos is None ==> row_of(j).best_mos is None,
        row_of(j).via_turn <==> j.via_turn == Some(true),
{
}

/// A stream is read from the members of its line; what was expected is what came and what was lost.
pub proof fn law_stream_read(j: JsonStream)
    ensures
        stream_of(j).call_id == text::opt_text(j.call_id),
        j.ssrc_text matches Some(t) ==> stream_of(j).ssrc == ssrc_of(t@),
        j.ssrc_text is None ==> (j.ssrc matches Some(n) ==> n <= u32::MAX ==> stream_of(j).ssrc == n),
        stream_of(j).codec == text::opt_text(j.codec),
        j.pt matches Some(n) ==> n < 256 ==> stream_of(j).payload_type == Some(n as u8),
        (j.packets matches Some(p) && j.lost matches Some(l)) ==> stream_of(j).packets
            == j.packets->Some_0 && stream_of(j).lost == j.lost->Some_0 && (j.packets->Some_0
            + j.lost->Some_0 <= u64::MAX ==> stream_of(j).expected == j.packets->Some_0
            + j.lost->Some_0),
        j.bytes matches Some(n) ==> stream_of(j).bytes == n,
        j.jitter_ms matches Some(b) ==> stream_of(j).jitter_ms == Some(Real64 { bits: b }),
        j.mos matches Some(b) ==> stream_of(j).mos == Some(Real64 { bits: b }),
        j.loss_pct matches Some(b) ==> stream_of(j).loss_pct == (Real64 { bits: b }),
        j.rtt_avg_ms matches Some(b) ==> stream_of(j).rtt_avg_ms == Some(Real64 { bits: b }),
        j.oneway_ms matches Some(b) ==> stream_of(j).oneway_ms == Some(Real64 { bits: b }),
        stream_of(j).direction == text::opt_text(j.direction),
        stream_of(j).leg == text::opt_text(j.leg),
        stream_of(j).via_turn <==> j.via_turn == Some(true),
{
}

/// A flow is read where both its ends are, from the one to the other.
pub proof fn law_flow_read(a: SocketAddr, b: SocketAddr)
    ensures
        flow_between(Some(a), Some(b)) is Some,
        flow_between(Some(a), Some(b))->Some_0.src == a,
        flow_between(Some(a), Some(b))->Some_0.dst == b,
        flow_between(Some(a), Some(b))->Some_0.proto == Proto::Udp,
        flow_between(None, Some(b)) is None,
        flow_between(Some(a), None) is None,
{
}

/// A finding is read from the members of its line.
pub proof fn law_diag_read(j: JsonDiag)
    ensures
        j.ts_us matches Some(t) ==> diag_of(j).ts_us == t,
        j.call_id matches Some(t) ==> diag_of(j).call_id == t@,
        diag_of(j).severity == severity_of(text::opt_text(j.severity)),
        j.code matches Some(t) ==> diag_of(j).code == code_named(t@),
        j.message matches Some(t) ==> diag_of(j).message == t@,
{
}

/// The first row with a call's ID is the call's; its detail has the findings of the call.
pub proof fn law_row_found(rows: Seq<RowView>, id: Seq<char>, k: int, diags: Seq<DiagView>)
    requires
        0 <= k < rows.len(),
        rows[k].call_id == id,
        forall|i: int| 0 <= i < k ==> (#[trigger] rows[i]).call_id != id,
    ensures
        row_index(rows, id, 0) == Some(k),
        focus_of(rows[k], diags).call_id == id,
        focus_of(rows[k], diags).state == rows[k].state,
        focus_of(rows[k], diags).from_user == rows[k].from_user,
        focus_of(rows[k], diags).to_user == rows[k].to_user,
{
    lemma_row_index(rows, id, 0, k);
}

proof fn lemma_row_index(rows: Seq<RowView>, id: Seq<char>, i: int, k: int)
    requires
        0 <= i <= k < rows.len(),
        rows[k].call_id == id,
        forall|j: int| i <= j < k ==> (#[trigger] rows[j]).call_id != id,
    ensures
        row_index(rows, id, i) == Some(k),
    decreases k - i,
{
    if i < k {
        lemma_row_index(rows, id, i + 1, k);
    }
}

/// The members of a line are read by their names.
pub proof fn law_line_members(l: Seq<char>, m: Map<Seq<char>, Json>, k: Seq<char>)
    requires
        json::parsed(l) == Some(Json::Object(m)),
    ensures
        m.contains_key(k) ==> (m[k] matches Json::Text(t) ==> json::json_text(l, k) == Some(t)),
        m.contains_key(k) ==> (m[k] matches Json::Int(n) ==> 0 <= n <= u64::MAX ==> json::json_uint(
            l,
            k,
        ) == Some(n as u64)),
        m.contains_key(k) ==> (m[k] matches Json::Flag(b) ==> json::json_flag(l, k) == Some(b)),
        m.contains_key(k) ==> (m[k] matches Json::Real(b) ==> json::json_real(l, k) == Some(b)),
        !m.contains_key(k) ==> json::json_text(l, k) is None && json::json_uint(l, k) is None
            && json::json_flag(l, k) is None && json::json_real(l, k) is None,
{
    reveal(json::text_at);
    reveal(json::uint_at);
    reveal(json::flag_at);
    reveal(json::real_at);
}

/// A call that is read has the members of its line.
pub proof fn law_call_read(j: JsonCall, l: Seq<char>)
    requires
        j.read_from(l),
    ensures
        text::opt_text(j.call_id) == json::json_text(l, "call_id"@),
        row_of(j).from_user == json::json_text(l, "from"@),
        row_of(j).to_user == json::json_text(l, "to"@),
        row_of(j).invite_ts == json::json_uint(l, "invite_ts_us"@),
        row_of(j).duration_ms == json::json_uint(l, "duration_ms"@),
        j.pdd_ms == json::json_uint(l, "pdd_ms"@),
        j.setup_ms == json::json_uint(l, "setup_ms"@),
        j.hangup_code == json::json_uint(l, "hangup_code"@),
        j.pkts_sip == json::json_uint(l, "pkts_sip"@),
        j.pkts_rtp == json::json_uint(l, "pkts_rtp"@),
        j.best_mos == json::json_real(l, "best_mos"@),
        j.warn_count == json::json_uint(l, "warn_count"@),
        j.critical_count == json::json_uint(l, "critical_count"@),
        j.stream_count == json::json_uint(l, "stream_count"@),
        row_of(j).via_turn <==> json::json_flag(l, "via_turn"@) == Some(true),
{
}

/// The members of an exported bucket.
pub proof fn law_bucket_line(b: BucketLineView)
    ensures
        lines::bucket_fields(b)["kind"@] == Json::Text("bucket"@),
        lines::bucket_fields(b)["bucket_us"@] == Json::Int(b.bucket_us as int),
        lines::bucket_fields(b)["dim_key"@] == Json::Text(b.dim_key),
        lines::bucket_fields(b)["calls"@] == Json::Int(b.calls as int),
        lines::bucket_fields(b)["answered"@] == Json::Int(b.answered as int),
        lines::bucket_fields(b)["failed"@] == Json::Int(b.failed as int),
        b.asr_pct is None ==> lines::bucket_fields(b)["asr_pct"@] == Json::Null,
        b.avg_pdd_ms is None ==> lines::bucket_fields(b)["avg_pdd_ms"@] == Json::Null,
        b.avg_jitter_ms is None ==> lines::bucket_fields(b)["avg_jitter_ms"@] == Json::Null,
        b.avg_loss_pct is None ==> lines::bucket_fields(b)["avg_loss_pct"@] == Json::Null,
        b.avg_rtt_ms is None ==> lines::bucket_fields(b)["avg_rtt_ms"@] == Json::Null,
        b.avg_mos is None ==> lines::bucket_fields(b)["avg_mos"@] == Json::Null,
{
    reveal(lines::bucket_fields);
    reveal_strlit("kind");
    reveal_strlit("bucket_us");
    reveal_strlit("dim_key");
    reveal_strlit("calls");
    reveal_strlit("answered");
    reveal_strlit("failed");
    reveal_strlit("asr_pct");
    reveal_strlit("avg_pdd_ms");
    reveal_strlit("avg_jitter_ms");
    reveal_strlit("avg_loss_pct");
    reveal_strlit("avg_rtt_ms");
    reveal_strlit("avg_mos");
    assert("kind"@.len() == 4 && "kind"@[0] == 'k');
    assert("bucket_us"@.len() == 9 && "bucket_us"@[0] == 'b');
    assert("dim_key"@.len() == 7 && "dim_key"@[0] == 'd');
    assert("calls"@.len() == 5 && "calls"@[0] == 'c');
    assert("answered"@.len() == 8 && "answered"@[0] == 'a');
    assert("failed"@.len() == 6 && "failed"@[0] == 'f');
    assert("asr_pct"@.len() == 7 && "asr_pct"@[0] == 'a' && "asr_pct"@[1] == 's');
    assert("avg_pdd_ms"@.len() == 10 && "avg_pdd_ms"@[0] == 'a' && "avg_pdd_ms"@[4] == 'p');
    assert("avg_jitter_ms"@.len() == 13 && "avg_jitter_ms"@[0] == 'a');
    assert("avg_loss_pct"@.len() == 12 && "avg_loss_pct"@[0] == 'a');
    assert("avg_rtt_ms"@.len() == 10 && "avg_rtt_ms"@[0] == 'a' && "avg_rtt_ms"@[4] == 'r');
    assert("avg_mos"@.len() == 7 && "avg_mos"@[0] == 'a' && "avg_mos"@[1] == 'v');
}

/// The members of an exported call.
pub proof fn law_exported_call_line(c: RowView, mos: Option<Seq<char>>)
    ensures
        lines::call_fields(c, mos)["kind"@] == Json::Text("call"@),
        lines::call_fields(c, mos)["call_id"@] == Json::Text(c.call_id),
        c.from_user matches Some(u) ==> lines::call_fields(c, mos)["from"@] == Json::Text(u),
        c.to_user matches Some(u) ==> lines::call_fields(c, mos)["to"@] == Json::Text(u),
        lines::call_fields(c, mos)["state"@] == Json::Text(c.state.spec_label()),
        c.invite_ts matches Some(t) ==> lines::call_fields(c, mos)["invite_ts_us"@] == Json::Int(
            t as int,
        ),
        c.duration_ms matches Some(t) ==> lines::call_fields(c, mos)["duration_ms"@] == Json::Int(
            t as int,
        ),
        c.pdd_ms matches Some(t) ==> lines::call_fields(c, mos)["pdd_ms"@] == Json::Int(t as int),
        c.setup_ms matches Some(t) ==> lines::call_fields(c, mos)["setup_ms"@] == Json::Int(
            t as int,
        ),
        c.hangup_code matches Some(t) ==> lines::call_fields(c, mos)["hangup_code"@] == Json::Int(
            t as int,
        ),
        lines::call_fields(c, mos)["pkts_sip"@] == Json::Int(c.pkts_sip as int),
        lines::call_fields(c, mos)["pkts_rtp"@] == Json::Int(c.pkts_rtp as int),
        lines::call_fields(c, mos)["warn_count"@] == Json::Int(c.warn_count as int),
        lines::call_fields(c, mos)["critical_count"@] == Json::Int(c.critical_count as int),
        lines::call_fields(c, mos)["stream_count"@] == Json::Int(c.stream_count as int),
        lines::call_fields(c, mos)["via_turn"@] == Json::Flag(c.via_turn),
{
    reveal(lines::call_fields);
    reveal_strlit("kind");
    reveal_strlit("call_id");
    reveal_strlit("from");
    reveal_strlit("to");
    reveal_strlit("state");
    reveal_strlit("outcome");
    reveal_strlit("invite_ts_us");
    reveal_strlit("duration_ms");
    reveal_strlit("pdd_ms");
    reveal_strlit("setup_ms");
    reveal_strlit("hangup_code");
    reveal_strlit("pkts_sip");
    reveal_strlit("pkts_rtp");
    reveal_strlit("best_mos");
    reveal_strlit("warn_count");
    reveal_strlit("critical_count");
    reveal_strlit("stream_count");
    reveal_strlit("via_turn");
    assert("kind"@.len() == 4 && "kind"@[0] == 'k');
    assert("call_id"@.len() == 7 && "call_id"@[0] == 'c');
    assert("from"@.len() == 4 && "from"@[0] == 'f');
    assert("to"@.len() == 2 && "to"@[0] == 't');
    assert("state"@.len() == 5 && "state"@[0] == 's');
    assert("outcome"@.len() == 7 && "outcome"@[0] == 'o');
    assert("invite_ts_us"@.len() == 12 && "invite_ts_us"@[0] == 'i');
    assert("duration_ms"@.len() == 11 && "duration_ms"@[0] == 'd');
    assert("pdd_ms"@.len() == 6 && "pdd_ms"@[0] == 'p');
    assert("setup_ms"@.len() == 8 && "setup_ms"@[0] == 's');
    assert("hangup_code"@.len() == 11 && "hangup_code"@[0] == 'h');
    assert("pkts_sip"@.len() == 8 && "pkts_sip"@[0] == 'p' && "pkts_sip"@[5] == 's');
    assert("pkts_rtp"@.len() == 8 && "pkts_rtp"@[0] == 'p' && "pkts_rtp"@[5] == 'r');
    assert("best_mos"@.len() == 8 && "best_mos"@[0] == 'b');
    assert("warn_count"@.len() == 10 && "warn_count"@[0] == 'w');
    assert("critical_count"@.len() == 14 && "critical_count"@[0] == 'c');
    assert("stream_count"@.len() == 12 && "stream_count"@[0] == 's');
    assert("via_turn"@.len() == 8 && "via_turn"@[0] == 'v');
}

/// The members of an exported stream.
pub proof fn law_exported_stream_line(s: SummaryView, f: StreamFiguresView)
    ensures
        lines::stream_fields(s, f)["kind"@] == Json::Text("stream"@),
        s.call_id matches Some(t) ==> lines::stream_fields(s, f)["call_id"@] == Json::Text(t),
        lines::stream_fields(s, f)["ssrc"@] == Json::Text(ssrc_text(s.ssrc)),
        s.flow matches Some(w) ==> lines::stream_fields(s, f)["flow_src"@] == Json::Text(
            addr_text::socket_text(w.src),
        ),
        s.flow matches Some(w) ==> lines::stream_fields(s, f)["flow_dst"@] == Json::Text(
            addr_text::socket_text(w.dst),
        ),
        s.codec matches Some(t) ==> lines::stream_fields(s, f)["codec"@] == Json::Text(t),
        s.payload_type matches Some(p) ==> lines::stream_fields(s, f)["pt"@] == Json::Int(p as int),
        lines::stream_fields(s, f)["packets"@] == Json::Int(s.packets as int),
        lines::stream_fields(s, f)["lost"@] == Json::Int(s.lost as int),
        lines::stream_fields(s, f)["bytes"@] == Json::Int(s.bytes as int),
        s.direction matches Some(t) ==> lines::stream_fields(s, f)["direction"@] == Json::Text(t),
        s.leg matches Some(t) ==> lines::stream_fields(s, f)["leg"@] == Json::Text(t),
        lines::stream_fields(s, f)["via_turn"@] == Json::Flag(s.via_turn),
        f.mos is None ==> lines::stream_fields(s, f)["mos"@] == Json::Null,
        f.jitter_ms is None ==> lines::stream_fields(s, f)["jitter_ms"@] == Json::Null,
{
    reveal(lines::stream_fields);
    reveal_strlit("kind");
    reveal_strlit("call_id");
    reveal_strlit("ssrc");
    reveal_strlit("flow_src");
    reveal_strlit("flow_dst");
    reveal_strlit("codec");
    reveal_strlit("pt");
    reveal_strlit("packets");
    reveal_strlit("lost");
    reveal_strlit("bytes");
    reveal_strlit("loss_pct");
    reveal_strlit("jitter_ms");
    reveal_strlit("rtt_avg_ms");
    reveal_strlit("oneway_ms");
    reveal_strlit("mos");
    reveal_strlit("direction");
    reveal_strlit("leg");
    reveal_strlit("via_turn");
    assert("kind"@.len() == 4 && "kind"@[0] == 'k');
    assert("call_id"@.len() == 7 && "call_id"@[0] == 'c');
    assert("ssrc"@.len() == 4 && "ssrc"@[0] == 's');
    assert("flow_src"@.len() == 8 && "flow_src"@[0] == 'f' && "flow_src"@[5] == 's');
    assert("flow_dst"@.len() == 8 && "flow_dst"@[0] == 'f' && "flow_dst"@[5] == 'd');
    assert("codec"@.len() == 5 && "codec"@[0] == 'c');
    assert("pt"@.len() == 2 && "pt"@[0] == 'p');
    assert("packets"@.len() == 7 && "packets"@[0] == 'p');
    assert("lost"@.len() == 4 && "lost"@[0] == 'l');
    assert("bytes"@.len() == 5 && "bytes"@[0] == 'b');
    assert("loss_pct"@.len() == 8 && "loss_pct"@[0] == 'l');
    assert("jitter_ms"@.len() == 9 && "jitter_ms"@[0] == 'j');
    assert("rtt_avg_ms"@.len() == 10 && "rtt_avg_ms"@[0] == 'r');
    assert("oneway_ms"@.len() == 9 && "oneway_ms"@[0] == 'o');
    assert("mos"@.len() == 3 && "mos"@[0] == 'm');
    assert("direction"@.len() == 9 && "direction"@[0] == 'd');
    assert("leg"@.len() == 3 && "leg"@[0] == 'l');
    assert("via_turn"@.len() == 8 && "via_turn"@[0] == 'v');
}

} // verus!
