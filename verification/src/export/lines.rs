//! A snapshot written for export: one JSON object a line.
use crate::diagnostics;
use crate::diagnostics::{DiagView, Diagnostic};
use crate::export::import;
use crate::export::import::{JsonCall, JsonDiag, JsonStream, LineKind};
use crate::export::tables;
use crate::export::tables::{outcome_word, ssrc_string};
use crate::json;
use crate::json::{
    figure_bits, flag, json_real, json_text, json_uint, no_fields, nothing, null, number_json,
    number_or_null, object, opt_fine, opt_json, opt_short, print, printed, put, reads_back, small_json, small_or_null, text,
    text_or_null, uint, uint_json, uint_or_null, Json,
};
use crate::model::addr_laws::law_socket_read_back;
use crate::model::addr_text;
use crate::model::addr_text::socket_string;
use crate::model::media;
use crate::model::media::{StreamSummary, SummaryView};
use crate::model::packet::{Flow5Tuple, Proto};
use crate::model::stats::Real64;
use crate::store::snapshot;
use crate::store::snapshot::{CallSummary, RowView};
use crate::text::{lines_of, opt_text, texts, trimmed, Class};
use vstd::prelude::*;

verus! {

/// A printed object has no white space around it.
proof fn lemma_trimmed(l: Seq<char>)
    requires
        json::is_one_line(l),
    ensures
        trimmed(l) == l,
{
    crate::text::lemma_scan(l, 0, Class::Space, false);
    assert(!Class::Space.has('{'));
    assert(!Class::Space.has('}'));
    assert(crate::text::scan(l, 0, Class::Space, false) == 0);
    assert(crate::text::rscan(l, l.len() as int, Class::Space) == l.len());
    assert(l.subrange(0, l.len() as int) =~= l);
}

/// A line that reads back is of the kind that it was written as.
proof fn lemma_kind(l: Seq<char>, m: Map<Seq<char>, Json>, kind: Seq<char>)
    requires
        json::is_one_line(l),
        reads_back(l, m),
        json::field(m, "kind"@) == Some(Json::Text(kind)),
    ensures
        import::kind_of(l) == import::kind_named(Some(kind)),
{
    lemma_trimmed(l);
    assert(json_text(l, "kind"@) == Some(kind));
}

// ----------------------------- calls -----------------------------

/// The fields of a call; `mos` is its best score as a number.
#[verifier::opaque]
pub open spec fn call_fields(c: RowView, mos: Option<Seq<char>>) -> Map<Seq<char>, Json> {
    nothing().insert(
        "kind"@,
        Json::Text("call"@),
    ).insert(
        "call_id"@,
        Json::Text(c.call_id),
    ).insert(
        "from"@,
        opt_json(c.from_user),
    ).insert(
        "to"@,
        opt_json(c.to_user),
    ).insert(
        "state"@,
        Json::Text(c.state.spec_label()),
    ).insert(
        "outcome"@,
        Json::Text(tables::outcome_text(c.outcome)),
    ).insert(
        "invite_ts_us"@,
        uint_json(c.invite_ts),
    ).insert(
        "duration_ms"@,
        uint_json(c.duration_ms),
    ).insert(
        "pdd_ms"@,
        small_json(c.pdd_ms),
    ).insert(
        "setup_ms"@,
        small_json(c.setup_ms),
    ).insert(
        "hangup_code"@,
        small_json(c.hangup_code),
    ).insert(
        "pkts_sip"@,
        Json::Int(c.pkts_sip as int),
    ).insert(
        "pkts_rtp"@,
        Json::Int(c.pkts_rtp as int),
    ).insert(
        "best_mos"@,
        number_json(mos),
    ).insert(
        "warn_count"@,
        Json::Int(c.warn_count as int),
    ).insert(
        "critical_count"@,
        Json::Int(c.critical_count as int),
    ).insert(
        "stream_count"@,
        Json::Int(c.stream_count as int),
    ).insert(
        "via_turn"@,
        Json::Flag(c.via_turn),
    )
}

/// What is read back of a call: what is not written is not there, and of the score
/// what the line says.
pub open spec fn kept_row(c: RowView, mos: Option<Real64>) -> RowView {
    RowView {
        caller_ip: None,
        ring_ms: None,
        ring_code: None,
        early_media: false,
        hangup_by: None,
        best_mos: mos,
        ips: Seq::empty(),
        ..c
    }
}

/// Whether a line is read back as the call that it was written for.
/// A score of few digits is read back as the number that it spells.
pub open spec fn call_comes_back(l: Seq<char>, c: RowView, mos: Option<Seq<char>>) -> bool {
    &&& forall|j: JsonCall| #[trigger]
        j.read_from(l) ==> import::row_of(j) == kept_row(
            c,
            import::real_of(json_real(l, "best_mos"@)),
        )
    &&& opt_fine(mos) ==> json_real(l, "best_mos"@) == figure_bits(mos)
}

proof fn lemma_call(c: RowView, mos: Option<Seq<char>>)
    ensures
        json::field(call_fields(c, mos), "kind"@) == Some(Json::Text("call"@)),
        json::field(call_fields(c, mos), "call_id"@) == Some(Json::Text(c.call_id)),
        json::field(call_fields(c, mos), "from"@) == Some(opt_json(c.from_user)),
        json::field(call_fields(c, mos), "to"@) == Some(opt_json(c.to_user)),
        json::field(call_fields(c, mos), "state"@) == Some(Json::Text(c.state.spec_label())),
        json::field(call_fields(c, mos), "outcome"@) == Some(Json::Text(tables::outcome_text(c.outcome))),
        json::field(call_fields(c, mos), "invite_ts_us"@) == Some(uint_json(c.invite_ts)),
        json::field(call_fields(c, mos), "duration_ms"@) == Some(uint_json(c.duration_ms)),
        json::field(call_fields(c, mos), "pdd_ms"@) == Some(small_json(c.pdd_ms)),
        json::field(call_fields(c, mos), "setup_ms"@) == Some(small_json(c.setup_ms)),
        json::field(call_fields(c, mos), "hangup_code"@) == Some(small_json(c.hangup_code)),
        json::field(call_fields(c, mos), "pkts_sip"@) == Some(Json::Int(c.pkts_sip as int)),
        json::field(call_fields(c, mos), "pkts_rtp"@) == Some(Json::Int(c.pkts_rtp as int)),
        json::field(call_fields(c, mos), "best_mos"@) == Some(number_json(mos)),
        json::field(call_fields(c, mos), "warn_count"@) == Some(Json::Int(c.warn_count as int)),
        json::field(call_fields(c, mos), "critical_count"@) == Some(Json::Int(c.critical_count as int)),
        json::field(call_fields(c, mos), "stream_count"@) == Some(Json::Int(c.stream_count as int)),
        json::field(call_fields(c, mos), "via_turn"@) == Some(Json::Flag(c.via_turn)),
        json::is_plain(number_json(mos)) ==> json::all_plain(call_fields(c, mos)),
{
    reveal(call_fields);
    reveal_strlit("kind");
    reveal_strlit("call_id");
    reveal_strlit("from");
    reveal_strlit("to");
    reveal_strlit("state");
    reveal_strlit("outcome");
    reveal_strlit("invite_ts_us");
    reveal_strlit("duration_ms");
    reveal_strlit("pdd_ms");
    reveal_strlit("setup_ms");
    reveal_strlit("hangup_code");
    reveal_strlit("pkts_sip");
    reveal_strlit("pkts_rtp");
    reveal_strlit("best_mos");
    reveal_strlit("warn_count");
    reveal_strlit("critical_count");
    reveal_strlit("stream_count");
    reveal_strlit("via_turn");
    assert("to"@.len() == 2);
    assert("kind"@.len() == 4 && "kind"@[0] == 'k');
    assert("from"@.len() == 4 && "from"@[0] == 'f');
    assert("state"@.len() == 5);
    assert("pdd_ms"@.len() == 6);
    assert("call_id"@.len() == 7 && "call_id"@[0] == 'c');
    assert("outcome"@.len() == 7 && "outcome"@[0] == 'o');
    assert("setup_ms"@.len() == 8 && "setup_ms"@[5] == '_');
    assert("pkts_sip"@.len() == 8 && "pkts_sip"@[5] == 's');
    assert("pkts_rtp"@.len() == 8 && "pkts_rtp"@[5] == 'r');
    assert("best_mos"@.len() == 8 && "best_mos"@[5] == 'm');
    assert("via_turn"@.len() == 8 && "via_turn"@[5] == 'u');
    assert("warn_count"@.len() == 10);
    assert("duration_ms"@.len() == 11 && "duration_ms"@[0] == 'd');
    assert("hangup_code"@.len() == 11 && "hangup_code"@[0] == 'h');
    assert("invite_ts_us"@.len() == 12 && "invite_ts_us"@[0] == 'i');
    assert("stream_count"@.len() == 12 && "stream_count"@[0] == 's');
    assert("critical_count"@.len() == 14);
}

proof fn lemma_call_back(l: Seq<char>, c: RowView, mos: Option<Seq<char>>)
    requires
        json::is_one_line(l),
        json::comes_as(json::parsed(l), call_fields(c, mos)),
        c.stream_count <= usize::MAX,
    ensures
        import::kind_of(l) == LineKind::Call,
        call_comes_back(l, c, mos),
{
    lemma_call(c, mos);
    json::lemma_reads_back(l, call_fields(c, mos));
    if opt_fine(mos) {
        json::lemma_figure_back(l, call_fields(c, mos), "best_mos"@, mos);
    }
    lemma_kind(l, call_fields(c, mos), "call"@);
    assert forall|j: JsonCall| #[trigger] j.read_from(l) implies import::row_of(j) == kept_row(
        c,
        import::real_of(json_real(l, "best_mos"@)),
    ) by {
        tables::law_words_read_back(c.state, c.outcome, diagnostics::Severity::Warn);
        assert(import::row_of(j).ips =~= Seq::empty());
    }
}

/// The line of a call; `mos` is its best score as a number.
pub fn call_line(c: &CallSummary, mos: &Option<String>) -> (r: String)
    ensures
        r@ == printed(Json::Object(call_fields(c@, opt_text(*mos)))),
        json::is_one_line(r@),
        trimmed(r@) == r@,
        opt_short(opt_text(*mos)) ==> import::kind_of(r@) == LineKind::Call && call_comes_back(
            r@,
            c@,
            opt_text(*mos),
        ),
{
    let mut m = no_fields();
    put(&mut m, "kind", text("call"));
    put(&mut m, "call_id", text(c.call_id.as_str()));
    put(&mut m, "from", text_or_null(&c.from_user));
    put(&mut m, "to", text_or_null(&c.to_user));
    put(&mut m, "state", text(c.state.label()));
    put(&mut m, "outcome", text(outcome_word(c.outcome)));
    put(&mut m, "invite_ts_us", uint_or_null(c.invite_ts));
    put(&mut m, "duration_ms", uint_or_null(c.duration_ms));
    put(&mut m, "pdd_ms", small_or_null(c.pdd_ms));
    put(&mut m, "setup_ms", small_or_null(c.setup_ms));
    put(&mut m, "hangup_code", small_or_null(c.hangup_code));
    put(&mut m, "pkts_sip", uint(c.pkts_sip));
    put(&mut m, "pkts_rtp", uint(c.pkts_rtp));
    put(&mut m, "best_mos", number_or_null(mos));
    put(&mut m, "warn_count", uint(c.warn_count as u64));
    put(&mut m, "critical_count", uint(c.critical_count as u64));
    put(&mut m, "stream_count", uint(c.stream_count as u64));
    put(&mut m, "via_turn", flag(c.via_turn));
    proof {
        reveal(call_fields);
        lemma_call(c@, opt_text(*mos));
    }
    let r = print(&object(m));
    proof {
        lemma_trimmed(r@);
        if opt_short(opt_text(*mos)) {
            lemma_call_back(r@, c@, opt_text(*mos));
        }
    }
    r
}

// ----------------------------- streams -----------------------------

/// The figures of a stream, as numbers.
pub struct StreamFigures {
    pub loss_pct: Option<String>,
    pub jitter_ms: Option<String>,
    pub rtt_avg_ms: Option<String>,
    pub oneway_ms: Option<String>,
    pub mos: Option<String>,
}

/// The figures of a stream by their contents.
pub struct StreamFiguresView {
    pub loss_pct: Option<Seq<char>>,
    pub jitter_ms: Option<Seq<char>>,
    pub rtt_avg_ms: Option<Seq<char>>,
    pub oneway_ms: Option<Seq<char>>,
    pub mos: Option<Seq<char>>,
}

impl View for StreamFigures {
    type V = StreamFiguresView;

    open spec fn view(&self) -> StreamFiguresView {
        StreamFiguresView {
            loss_pct: opt_text(self.loss_pct),
            jitter_ms: opt_text(self.jitter_ms),
            rtt_avg_ms: opt_text(self.rtt_avg_ms),
            oneway_ms: opt_text(self.oneway_ms),
            mos: opt_text(self.mos),
        }
    }
}

impl StreamFiguresView {
    /// Each of them is written in a few digits.
    pub open spec fn short(self) -> bool {
        &&& opt_short(self.loss_pct)
        &&& opt_short(self.jitter_ms)
        &&& opt_short(self.rtt_avg_ms)
        &&& opt_short(self.oneway_ms)
        &&& opt_short(self.mos)
    }
}

pub open spec fn src_text(f: Option<Flow5Tuple>) -> Option<Seq<char>> {
    match f {
        Some(f) => Some(addr_text::socket_text(f.src)),
        None => None,
    }
}

pub open spec fn dst_text(f: Option<Flow5Tuple>) -> Option<Seq<char>> {
    match f {
        Some(f) => Some(addr_text::socket_text(f.dst)),
        None => None,
    }
}

pub open spec fn pt_json(pt: Option<u8>) -> Json {
    match pt {
        Some(p) => Json::Int(p as int),
        None => Json::Null,
    }
}

fn pt_or_null(pt: Option<u8>) -> (r: serde_json::Value)
    ensures
        json::json_of(r) == pt_json(pt),
{
    match pt {
        Some(p) => uint(p as u64),
        None => null(),
    }
}

/// The fields of a stream.
#[verifier::opaque]
pub open spec fn stream_fields(s: SummaryView, f: StreamFiguresView) -> Map<Seq<char>, Json> {
    nothing().insert(
        "kind"@,
        Json::Text("stream"@),
    ).insert(
        "call_id"@,
        opt_json(s.call_id),
    ).insert(
        "ssrc"@,
        Json::Text(tables::ssrc_text(s.ssrc)),
    ).insert(
        "flow_src"@,
        opt_json(src_text(s.flow)),
    ).insert(
        "flow_dst"@,
        opt_json(dst_text(s.flow)),
    ).insert(
        "codec"@,
        opt_json(s.codec),
    ).insert(
        "pt"@,
        pt_json(s.payload_type),
    ).insert(
        "packets"@,
        Json::Int(s.packets as int),
    ).insert(
        "lost"@,
        Json::Int(s.lost as int),
    ).insert(
        "bytes"@,
        Json::Int(s.bytes as int),
    ).insert(
        "loss_pct"@,
        number_json(f.loss_pct),
    ).insert(
        "jitter_ms"@,
        number_json(f.jitter_ms),
    ).insert(
        "rtt_avg_ms"@,
        number_json(f.rtt_avg_ms),
    ).insert(
        "oneway_ms"@,
        number_json(f.oneway_ms),
    ).insert(
        "mos"@,
        number_json(f.mos),
    ).insert(
        "direction"@,
        opt_json(s.direction),
    ).insert(
        "leg"@,
        opt_json(s.leg),
    ).insert(
        "via_turn"@,
        Json::Flag(s.via_turn),
    )
}

/// What is read back of a stream: its ends, over UDP, and its counters as they were,
/// and of the figures what the line says.
pub open spec fn kept_stream(l: Seq<char>, s: SummaryView) -> SummaryView {
    SummaryView {
        flow: match s.flow {
            Some(f) => Some(Flow5Tuple { proto: Proto::Udp, ..f }),
            None => None,
        },
        expected: s.packets.wrapping_add(s.lost),
        loss_pct: match import::real_of(json_real(l, "loss_pct"@)) {
            Some(x) => x,
            None => Real64 { bits: 0 },
        },
        jitter_ms: import::real_of(json_real(l, "jitter_ms"@)),
        first_ts_us: None,
        last_ts_us: None,
        rtt_min_ms: None,
        rtt_avg_ms: import::real_of(json_real(l, "rtt_avg_ms"@)),
        rtt_max_ms: None,
        oneway_ms: import::real_of(json_real(l, "oneway_ms"@)),
        mos: import::real_of(json_real(l, "mos"@)),
        history: Seq::empty(),
        ..s
    }
}

/// Whether a line is read back as the stream that it was written for.
/// A figure of few digits is read back as the number that it spells.
pub open spec fn stream_comes_back(l: Seq<char>, s: SummaryView, f: StreamFiguresView) -> bool {
    &&& forall|j: JsonStream| #[trigger]
        j.read_from(l) ==> import::stream_of(j) == kept_stream(l, s)
    &&& opt_fine(f.loss_pct) ==> json_real(l, "loss_pct"@) == figure_bits(f.loss_pct)
    &&& opt_fine(f.jitter_ms) ==> json_real(l, "jitter_ms"@) == figure_bits(f.jitter_ms)
    &&& opt_fine(f.rtt_avg_ms) ==> json_real(l, "rtt_avg_ms"@) == figure_bits(f.rtt_avg_ms)
    &&& opt_fine(f.oneway_ms) ==> json_real(l, "oneway_ms"@) == figure_bits(f.oneway_ms)
    &&& opt_fine(f.mos) ==> json_real(l, "mos"@) == figure_bits(f.mos)
}

proof fn lemma_stream(s: SummaryView, f: StreamFiguresView)
    ensures
        json::field(stream_fields(s, f), "kind"@) == Some(Json::Text("stream"@)),
        json::field(stream_fields(s, f), "call_id"@) == Some(opt_json(s.call_id)),
        json::field(stream_fields(s, f), "ssrc"@) == Some(Json::Text(tables::ssrc_text(s.ssrc))),
        json::field(stream_fields(s, f), "flow_src"@) == Some(opt_json(src_text(s.flow))),
        json::field(stream_fields(s, f), "flow_dst"@) == Some(opt_json(dst_text(s.flow))),
        json::field(stream_fields(s, f), "codec"@) == Some(opt_json(s.codec)),
        json::field(stream_fields(s, f), "pt"@) == Some(pt_json(s.payload_type)),
        json::field(stream_fields(s, f), "packets"@) == Some(Json::Int(s.packets as int)),
        json::field(stream_fields(s, f), "lost"@) == Some(Json::Int(s.lost as int)),
        json::field(stream_fields(s, f), "bytes"@) == Some(Json::Int(s.bytes as int)),
        json::field(stream_fields(s, f), "loss_pct"@) == Some(number_json(f.loss_pct)),
        json::field(stream_fields(s, f), "jitter_ms"@) == Some(number_json(f.jitter_ms)),
        json::field(stream_fields(s, f), "rtt_avg_ms"@) == Some(number_json(f.rtt_avg_ms)),
        json::field(stream_fields(s, f), "oneway_ms"@) == Some(number_json(f.oneway_ms)),
        json::field(stream_fields(s, f), "mos"@) == Some(number_json(f.mos)),
        json::field(stream_fields(s, f), "direction"@) == Some(opt_json(s.direction)),
        json::field(stream_fields(s, f), "leg"@) == Some(opt_json(s.leg)),
        json::field(stream_fields(s, f), "via_turn"@) == Some(Json::Flag(s.via_turn)),
        json::is_plain(number_json(f.loss_pct)) && json::is_plain(number_json(f.jitter_ms))
            && json::is_plain(number_json(f.rtt_avg_ms)) && json::is_plain(
            number_json(f.oneway_ms),
        ) && json::is_plain(number_json(f.mos)) ==> json::all_plain(stream_fields(s, f)),
{
    reveal(stream_fields);
    reveal_strlit("kind");
    reveal_strlit("call_id");
    reveal_strlit("ssrc");
    reveal_strlit("flow_src");
    reveal_strlit("flow_dst");
    reveal_strlit("codec");
    reveal_strlit("pt");
    reveal_strlit("packets");
    reveal_strlit("lost");
    reveal_strlit("bytes");
    reveal_strlit("loss_pct");
    reveal_strlit("jitter_ms");
    reveal_strlit("rtt_avg_ms");
    reveal_strlit("oneway_ms");
    reveal_strlit("mos");
    reveal_strlit("direction");
    reveal_strlit("leg");
    reveal_strlit("via_turn");
    assert("pt"@.len() == 2);
    assert("mos"@.len() == 3 && "mos"@[0] == 'm');
    assert("leg"@.len() == 3 && "leg"@[0] == 'l');
    assert("kind"@.len() == 4 && "kind"@[0] == 'k');
    assert("ssrc"@.len() == 4 && "ssrc"@[0] == 's');
    assert("lost"@.len() == 4 && "lost"@[0] == 'l');
    assert("codec"@.len() == 5 && "codec"@[0] == 'c');
    assert("bytes"@.len() == 5 && "bytes"@[0] == 'b');
    assert("call_id"@.len() == 7 && "call_id"@[0] == 'c');
    assert("packets"@.len() == 7 && "packets"@[0] == 'p');
    assert("flow_src"@.len() == 8 && "flow_src"@[5] == 's');
    assert("flow_dst"@.len() == 8 && "flow_dst"@[5] == 'd');
    assert("loss_pct"@.len() == 8 && "loss_pct"@[5] == 'p');
    assert("via_turn"@.len() == 8 && "via_turn"@[5] == 'u');
    assert("jitter_ms"@.len() == 9 && "jitter_ms"@[0] == 'j');
    assert("oneway_ms"@.len() == 9 && "oneway_ms"@[0] == 'o');
    assert("direction"@.len() == 9 && "direction"@[0] == 'd');
    assert("rtt_avg_ms"@.len() == 10);
}

proof fn lemma_stream_back(l: Seq<char>, s: SummaryView, f: StreamFiguresView)
    requires
        json::is_one_line(l),
        json::comes_as(json::parsed(l), stream_fields(s, f)),
    ensures
        import::kind_of(l) == LineKind::Stream,
        stream_comes_back(l, s, f),
{
    lemma_stream(s, f);
    json::lemma_reads_back(l, stream_fields(s, f));
    let m = stream_fields(s, f);
    if opt_fine(f.loss_pct) {
        json::lemma_figure_back(l, m, "loss_pct"@, f.loss_pct);
    }
    if opt_fine(f.jitter_ms) {
        json::lemma_figure_back(l, m, "jitter_ms"@, f.jitter_ms);
    }
    if opt_fine(f.rtt_avg_ms) {
        json::lemma_figure_back(l, m, "rtt_avg_ms"@, f.rtt_avg_ms);
    }
    if opt_fine(f.oneway_ms) {
        json::lemma_figure_back(l, m, "oneway_ms"@, f.oneway_ms);
    }
    if opt_fine(f.mos) {
        json::lemma_figure_back(l, m, "mos"@, f.mos);
    }
    lemma_kind(l, stream_fields(s, f), "stream"@);
    lemma_kinds_differ();
    assert forall|j: JsonStream| #[trigger] j.read_from(l) implies import::stream_of(j)
        == kept_stream(l, s) by {
        tables::law_ssrc_read_back(s.ssrc);
        if let Some(f) = s.flow {
            law_socket_read_back(f.src);
            law_socket_read_back(f.dst);
        }
        assert(import::stream_of(j).history =~= Seq::empty());
    }
}

proof fn lemma_kinds_differ()
    ensures
        import::kind_named(Some("call"@)) == LineKind::Call,
        import::kind_named(Some("stream"@)) == LineKind::Stream,
        import::kind_named(Some("diag"@)) == LineKind::Diag,
        import::kind_named(Some("bucket"@)) == LineKind::Bucket,
{
    reveal_strlit("call");
    reveal_strlit("stream");
    reveal_strlit("diag");
    reveal_strlit("bucket");
    assert("call"@[0] == 'c' && "diag"@[0] == 'd');
    assert("stream"@[0] == 's' && "bucket"@[0] == 'b');
}

/// The line of a stream.
pub fn stream_line(s: &StreamSummary, f: &StreamFigures) -> (r: String)
    ensures
        r@ == printed(Json::Object(stream_fields(s@, f@))),
        json::is_one_line(r@),
        trimmed(r@) == r@,
        f@.short() ==> import::kind_of(r@) == LineKind::Stream && stream_comes_back(r@, s@, f@),
{
    let ssrc = ssrc_string(s.ssrc);
    let (src, dst) = match s.flow {
        Some(f) => (Some(socket_string(f.src)), Some(socket_string(f.dst))),
        None => (None, None),
    };
    let mut m = no_fields();
    put(&mut m, "kind", text("stream"));
    put(&mut m, "call_id", text_or_null(&s.call_id));
    put(&mut m, "ssrc", text(ssrc.as_str()));
    put(&mut m, "flow_src", text_or_null(&src));
    put(&mut m, "flow_dst", text_or_null(&dst));
    put(&mut m, "codec", text_or_null(&s.codec));
    put(&mut m, "pt", pt_or_null(s.payload_type));
    put(&mut m, "packets", uint(s.packets));
    put(&mut m, "lost", uint(s.lost));
    put(&mut m, "bytes", uint(s.bytes));
    put(&mut m, "loss_pct", number_or_null(&f.loss_pct));
    put(&mut m, "jitter_ms", number_or_null(&f.jitter_ms));
    put(&mut m, "rtt_avg_ms", number_or_null(&f.rtt_avg_ms));
    put(&mut m, "oneway_ms", number_or_null(&f.oneway_ms));
    put(&mut m, "mos", number_or_null(&f.mos));
    put(&mut m, "direction", text_or_null(&s.direction));
    put(&mut m, "leg", text_or_null(&s.leg));
    put(&mut m, "via_turn", flag(s.via_turn));
    proof {
        reveal(stream_fields);
        lemma_stream(s@, f@);
    }
    let r = print(&object(m));
    proof {
        lemma_trimmed(r@);
        if f@.short() {
            lemma_stream_back(r@, s@, f@);
        }
    }
    r
}

// ----------------------------- diagnostics -----------------------------

/// The fields of a diagnostic.
#[verifier::opaque]
pub open spec fn diag_fields(d: DiagView) -> Map<Seq<char>, Json> {
    nothing().insert(
        "kind"@,
        Json::Text("diag"@),
    ).insert(
        "ts_us"@,
        Json::Int(d.ts_us as int),
    ).insert(
        "call_id"@,
        Json::Text(d.call_id),
    ).insert(
        "severity"@,
        Json::Text(d.severity.spec_label()),
    ).insert(
        "code"@,
        Json::Text(d.code),
    ).insert(
        "message"@,
        Json::Text(d.message),
    )
}

/// Whether a line is read back as the diagnostic that it was written for. Codes
/// that are not in use come back as unknown.
pub open spec fn diag_comes_back(l: Seq<char>, d: DiagView) -> bool {
    forall|j: JsonDiag| #[trigger]
        j.read_from(l) ==> import::diag_of(j) == (DiagView {
            code: tables::code_named(d.code),
            ..d
        })
}

proof fn lemma_diag(d: DiagView)
    ensures
        json::field(diag_fields(d), "kind"@) == Some(Json::Text("diag"@)),
        json::field(diag_fields(d), "ts_us"@) == Some(Json::Int(d.ts_us as int)),
        json::field(diag_fields(d), "call_id"@) == Some(Json::Text(d.call_id)),
        json::field(diag_fields(d), "severity"@) == Some(Json::Text(d.severity.spec_label())),
        json::field(diag_fields(d), "code"@) == Some(Json::Text(d.code)),
        json::field(diag_fields(d), "message"@) == Some(Json::Text(d.message)),
        json::all_plain(diag_fields(d)),
{
    reveal(diag_fields);
    reveal_strlit("kind");
    reveal_strlit("ts_us");
    reveal_strlit("call_id");
    reveal_strlit("severity");
    reveal_strlit("code");
    reveal_strlit("message");
    assert("kind"@.len() == 4 && "kind"@[0] == 'k');
    assert("code"@.len() == 4 && "code"@[0] == 'c');
    assert("ts_us"@.len() == 5);
    assert("call_id"@.len() == 7 && "call_id"@[0] == 'c');
    assert("message"@.len() == 7 && "message"@[0] == 'm');
    assert("severity"@.len() == 8);
}

/// The line of a diagnostic.
pub fn diag_line(d: &Diagnostic) -> (r: String)
    ensures
        r@ == printed(Json::Object(diag_fields(d@))),
        json::is_one_line(r@),
        trimmed(r@) == r@,
        import::kind_of(r@) == LineKind::Diag,
        diag_comes_back(r@, d@),
{
    let mut m = no_fields();
    put(&mut m, "kind", text("diag"));
    put(&mut m, "ts_us", uint(d.ts_us));
    put(&mut m, "call_id", text(d.call_id.as_str()));
    put(&mut m, "severity", text(d.severity.label()));
    put(&mut m, "code", text(d.code));
    put(&mut m, "message", text(d.message.as_str()));
    proof {
        reveal(diag_fields);
        lemma_diag(d@);
    }
    let r = print(&object(m));
    proof {
        lemma_trimmed(r@);
        json::lemma_reads_back(r@, diag_fields(d@));
        lemma_kind(r@, diag_fields(d@), "diag"@);
        lemma_kinds_differ();
        tables::law_words_read_back(
            crate::model::sip::CallState::Active,
            crate::model::sip::Outcome::Answered,
            d.severity,
        );
    }
    r
}

// ----------------------------- buckets -----------------------------

/// A bucket as it is exported: counts, and figures as numbers.
pub struct BucketLine {
    pub bucket_us: u64,
    pub dim_key: String,
    pub calls: u64,
    pub answered: u64,
    pub failed: u64,
    pub asr_pct: Option<String>,
    pub avg_pdd_ms: Option<String>,
    pub avg_jitter_ms: Option<String>,
    pub avg_loss_pct: Option<String>,
    pub avg_rtt_ms: Option<String>,
    pub avg_mos: Option<String>,
}

/// A bucket as it is exported, by its contents.
pub struct BucketLineView {
    pub bucket_us: u64,
    pub dim_key: Seq<char>,
    pub calls: u64,
    pub answered: u64,
    pub failed: u64,
    pub asr_pct: Option<Seq<char>>,
    pub avg_pdd_ms: Option<Seq<char>>,
    pub avg_jitter_ms: Option<Seq<char>>,
    pub avg_loss_pct: Option<Seq<char>>,
    pub avg_rtt_ms: Option<Seq<char>>,
    pub avg_mos: Option<Seq<char>>,
}

impl View for BucketLine {
    type V = BucketLineView;

    open spec fn view(&self) -> BucketLineView {
        BucketLineView {
            bucket_us: self.bucket_us,
            dim_key: self.dim_key@,
            calls: self.calls,
            answered: self.answered,
            failed: self.failed,
            asr_pct: opt_text(self.asr_pct),
            avg_pdd_ms: opt_text(self.avg_pdd_ms),
            avg_jitter_ms: opt_text(self.avg_jitter_ms),
            avg_loss_pct: opt_text(self.avg_loss_pct),
            avg_rtt_ms: opt_text(self.avg_rtt_ms),
            avg_mos: opt_text(self.avg_mos),
        }
    }
}

impl BucketLineView {
    /// Each of its figures is written in a few digits.
    pub open spec fn short(self) -> bool {
        &&& opt_short(self.asr_pct)
        &&& opt_short(self.avg_pdd_ms)
        &&& opt_short(self.avg_jitter_ms)
        &&& opt_short(self.avg_loss_pct)
        &&& opt_short(self.avg_rtt_ms)
        &&& opt_short(self.avg_mos)
    }
}

/// The fields of a bucket.
#[verifier::opaque]
pub open spec fn bucket_fields(b: BucketLineView) -> Map<Seq<char>, Json> {
    nothing().insert(
        "kind"@,
        Json::Text("bucket"@),
    ).insert(
        "bucket_us"@,
        Json::Int(b.bucket_us as int),
    ).insert(
        "dim_key"@,
        Json::Text(b.dim_key),
    ).insert(
        "calls"@,
        Json::Int(b.calls as int),
    ).insert(
        "answered"@,
        Json::Int(b.answered as int),
    ).insert(
        "failed"@,
        Json::Int(b.failed as int),
    ).insert(
        "asr_pct"@,
        number_json(b.asr_pct),
    ).insert(
        "avg_pdd_ms"@,
        number_json(b.avg_pdd_ms),
    ).insert(
        "avg_jitter_ms"@,
        number_json(b.avg_jitter_ms),
    ).insert(
        "avg_loss_pct"@,
        number_json(b.avg_loss_pct),
    ).insert(
        "avg_rtt_ms"@,
        number_json(b.avg_rtt_ms),
    ).insert(
        "avg_mos"@,
        number_json(b.avg_mos),
    )
}

/// Whether a line is read back with the key and the counts of its bucket, and with those
/// figures that have few digits.
pub open spec fn bucket_comes_back(l: Seq<char>, b: BucketLineView) -> bool {
    &&& json_uint(l, "bucket_us"@) == Some(b.bucket_us)
    &&& json_text(l, "dim_key"@) == Some(b.dim_key)
    &&& json_uint(l, "calls"@) == Some(b.calls)
    &&& json_uint(l, "answered"@) == Some(b.answered)
    &&& json_uint(l, "failed"@) == Some(b.failed)
    &&& opt_fine(b.asr_pct) ==> json_real(l, "asr_pct"@) == figure_bits(b.asr_pct)
    &&& opt_fine(b.avg_pdd_ms) ==> json_real(l, "avg_pdd_ms"@) == figure_bits(b.avg_pdd_ms)
    &&& opt_fine(b.avg_jitter_ms) ==> json_real(l, "avg_jitter_ms"@) == figure_bits(
        b.avg_jitter_ms,
    )
    &&& opt_fine(b.avg_loss_pct) ==> json_real(l, "avg_loss_pct"@) == figure_bits(b.avg_loss_pct)
    &&& opt_fine(b.avg_rtt_ms) ==> json_real(l, "avg_rtt_ms"@) == figure_bits(b.avg_rtt_ms)
    &&& opt_fine(b.avg_mos) ==> json_real(l, "avg_mos"@) == figure_bits(b.avg_mos)
}

proof fn lemma_bucket_figures(l: Seq<char>, b: BucketLineView)
    requires
        json::comes_as(json::parsed(l), bucket_fields(b)),
    ensures
        opt_fine(b.asr_pct) ==> json_real(l, "asr_pct"@) == figure_bits(b.asr_pct),
        opt_fine(b.avg_pdd_ms) ==> json_real(l, "avg_pdd_ms"@) == figure_bits(b.avg_pdd_ms),
        opt_fine(b.avg_jitter_ms) ==> json_real(l, "avg_jitter_ms"@) == figure_bits(
            b.avg_jitter_ms,
        ),
        opt_fine(b.avg_loss_pct) ==> json_real(l, "avg_loss_pct"@) == figure_bits(b.avg_loss_pct),
        opt_fine(b.avg_rtt_ms) ==> json_real(l, "avg_rtt_ms"@) == figure_bits(b.avg_rtt_ms),
        opt_fine(b.avg_mos) ==> json_real(l, "avg_mos"@) == figure_bits(b.avg_mos),
{
    let m = bucket_fields(b);
    lemma_bucket(b);
    if opt_fine(b.asr_pct) {
        json::lemma_figure_back(l, m, "asr_pct"@, b.asr_pct);
    }
    if opt_fine(b.avg_pdd_ms) {
        json::lemma_figure_back(l, m, "avg_pdd_ms"@, b.avg_pdd_ms);
    }
    if opt_fine(b.avg_jitter_ms) {
        json::lemma_figure_back(l, m, "avg_jitter_ms"@, b.avg_jitter_ms);
    }
    if opt_fine(b.avg_loss_pct) {
        json::lemma_figure_back(l, m, "avg_loss_pct"@, b.avg_loss_pct);
    }
    if opt_fine(b.avg_rtt_ms) {
        json::lemma_figure_back(l, m, "avg_rtt_ms"@, b.avg_rtt_ms);
    }
    if opt_fine(b.avg_mos) {
        json::lemma_figure_back(l, m, "avg_mos"@, b.avg_mos);
    }
}

proof fn lemma_bucket(b: BucketLineView)
    ensures
        json::field(bucket_fields(b), "kind"@) == Some(Json::Text("bucket"@)),
        json::field(bucket_fields(b), "bucket_us"@) == Some(Json::Int(b.bucket_us as int)),
        json::field(bucket_fields(b), "dim_key"@) == Some(Json::Text(b.dim_key)),
        json::field(bucket_fields(b), "calls"@) == Some(Json::Int(b.calls as int)),
        json::field(bucket_fields(b), "answered"@) == Some(Json::Int(b.answered as int)),
        json::field(bucket_fields(b), "failed"@) == Some(Json::Int(b.failed as int)),
        json::field(bucket_fields(b), "asr_pct"@) == Some(number_json(b.asr_pct)),
        json::field(bucket_fields(b), "avg_pdd_ms"@) == Some(number_json(b.avg_pdd_ms)),
        json::field(bucket_fields(b), "avg_jitter_ms"@) == Some(number_json(b.avg_jitter_ms)),
        json::field(bucket_fields(b), "avg_loss_pct"@) == Some(number_json(b.avg_loss_pct)),
        json::field(bucket_fields(b), "avg_rtt_ms"@) == Some(number_json(b.avg_rtt_ms)),
        json::field(bucket_fields(b), "avg_mos"@) == Some(number_json(b.avg_mos)),
        json::is_plain(number_json(b.asr_pct)) && json::is_plain(number_json(b.avg_pdd_ms))
            && json::is_plain(number_json(b.avg_jitter_ms)) && json::is_plain(
            number_json(b.avg_loss_pct),
        ) && json::is_plain(number_json(b.avg_rtt_ms)) && json::is_plain(number_json(b.avg_mos))
            ==> json::all_plain(bucket_fields(b)),
{
    reveal(bucket_fields);
    reveal_strlit("kind");
    reveal_strlit("bucket_us");
    reveal_strlit("dim_key");
    reveal_strlit("calls");
    reveal_strlit("answered");
    reveal_strlit("failed");
    reveal_strlit("asr_pct");
    reveal_strlit("avg_pdd_ms");
    reveal_strlit("avg_jitter_ms");
    reveal_strlit("avg_loss_pct");
    reveal_strlit("avg_rtt_ms");
    reveal_strlit("avg_mos");
    assert("kind"@.len() == 4);
    assert("calls"@.len() == 5);
    assert("failed"@.len() == 6);
    assert("dim_key"@.len() == 7 && "dim_key"@[1] == 'i');
    assert("asr_pct"@.len() == 7 && "asr_pct"@[1] == 's');
    assert("avg_mos"@.len() == 7 && "avg_mos"@[1] == 'v');
    assert("answered"@.len() == 8);
    assert("bucket_us"@.len() == 9);
    assert("avg_pdd_ms"@.len() == 10 && "avg_pdd_ms"@[4] == 'p');
    assert("avg_rtt_ms"@.len() == 10 && "avg_rtt_ms"@[4] == 'r');
    assert("avg_loss_pct"@.len() == 12);
    assert("avg_jitter_ms"@.len() == 13);
}

/// The line of a bucket.
pub fn bucket_line(b: &BucketLine) -> (r: String)
    ensures
        r@ == printed(Json::Object(bucket_fields(b@))),
        json::is_one_line(r@),
        trimmed(r@) == r@,
        b@.short() ==> import::kind_of(r@) == LineKind::Bucket && bucket_comes_back(r@, b@),
{
    let mut m = no_fields();
    put(&mut m, "kind", text("bucket"));
    put(&mut m, "bucket_us", uint(b.bucket_us));
    put(&mut m, "dim_key", text(b.dim_key.as_str()));
    put(&mut m, "calls", uint(b.calls));
    put(&mut m, "answered", uint(b.answered));
    put(&mut m, "failed", uint(b.failed));
    put(&mut m, "asr_pct", number_or_null(&b.asr_pct));
    put(&mut m, "avg_pdd_ms", number_or_null(&b.avg_pdd_ms));
    put(&mut m, "avg_jitter_ms", number_or_null(&b.avg_jitter_ms));
    put(&mut m, "avg_loss_pct", number_or_null(&b.avg_loss_pct));
    put(&mut m, "avg_rtt_ms", number_or_null(&b.avg_rtt_ms));
    put(&mut m, "avg_mos", number_or_null(&b.avg_mos));
    proof {
        reveal(bucket_fields);
        lemma_bucket(b@);
    }
    let r = print(&object(m));
    proof {
        lemma_trimmed(r@);
        lemma_kinds_differ();
        if b@.short() {
            json::lemma_reads_back(r@, bucket_fields(b@));
            lemma_bucket_figures(r@, b@);
            lemma_kind(r@, bucket_fields(b@), "bucket"@);
        }
    }
    r
}

// ----------------------------- snapshots -----------------------------

/// The first `n` lines, each with its end.
pub open spec fn joined(ls: Seq<Seq<char>>, n: int) -> Seq<char>
    decreases n,
{
    if n <= 0 {
        Seq::empty()
    } else {
        joined(ls, n - 1) + ls[n - 1] + seq!['\n']
    }
}

pub open spec fn all_one_line(ls: Seq<Seq<char>>) -> bool {
    forall|i: int| 0 <= i < ls.len() ==> json::is_one_line(#[trigger] ls[i])
}

proof fn lemma_joined_prefix(ls: Seq<Seq<char>>, k: int, n: int)
    requires
        0 <= k <= n <= ls.len(),
    ensures
        joined(ls, k).len() <= joined(ls, n).len(),
        joined(ls, n).take(joined(ls, k).len() as int) == joined(ls, k),
    decreases n - k,
{
    if k == n {
        assert(joined(ls, n).take(joined(ls, n).len() as int) =~= joined(ls, n));
    } else {
        lemma_joined_prefix(ls, k, n - 1);
        let a = joined(ls, n - 1);
        let t = joined(ls, n);
        assert(t =~= a + (ls[n - 1] + seq!['\n']));
        assert(t.take(joined(ls, k).len() as int) =~= a.take(joined(ls, k).len() as int));
    }
}

proof fn lemma_lines_apart(ls: Seq<Seq<char>>, k: int)
    requires
        0 <= k <= ls.len(),
        all_one_line(ls),
    ensures
        crate::text::lines_from(joined(ls, ls.len() as int), joined(ls, k).len() as int)
            == ls.skip(k),
    decreases ls.len() - k,
{
    let n = ls.len() as int;
    let t = joined(ls, n);
    let i = joined(ls, k).len() as int;
    lemma_joined_prefix(ls, k, n);
    if k == n {
        assert(ls.skip(k) =~= Seq::empty());
    } else {
        lemma_joined_prefix(ls, k + 1, n);
        lemma_lines_apart(ls, k + 1);
        let l = ls[k];
        let j = i + l.len();
        let p = joined(ls, k + 1);
        assert(p == joined(ls, k) + l + seq!['\n']);
        assert(p.len() == j + 1);
        assert(t.take(j + 1) == p);
        assert forall|x: int| 0 <= x < j + 1 implies #[trigger] t[x] == p[x] by {
            assert(t.take(j + 1)[x] == t[x]);
        }
        assert(json::is_one_line(l));
        assert forall|x: int| i <= x < j implies #[trigger] t[x] == l[x - i] by {
            assert(p[x] == l[x - i]);
        }
        assert(t[j] == '\n') by {
            assert(p[j] == '\n');
        }
        let nl = Class::Is('\n');
        crate::text::lemma_scan(t, i, nl, true);
        let e = crate::text::scan(t, i, nl, true);
        assert(e == j) by {
            if e > j {
                assert(nl.has(t[j]) != true);
            }
            if e < j {
                assert(t[e] == l[e - i]);
                assert(l[e - i] as int >= 0x20);
            }
        }
        assert(t.subrange(i, j) =~= l);
        assert(crate::text::strip_cr(l) == l);
        assert(ls.skip(k) =~= seq![l] + ls.skip(k + 1));
    }
}

/// Lines that are printed objects are the lines of the text that they are joined to.
pub proof fn law_lines_apart(ls: Seq<Seq<char>>)
    requires
        all_one_line(ls),
    ensures
        lines_of(joined(ls, ls.len() as int)) == ls,
{
    lemma_lines_apart(ls, 0);
    assert(ls.skip(0) =~= ls);
}

pub open spec fn has_kind(ls: Seq<Seq<char>>, kind: LineKind, a: int, b: int) -> bool {
    forall|i: int|
        a <= i < b ==> import::kind_of(#[trigger] ls[i]) == kind && trimmed(ls[i]) == ls[i]
}

proof fn lemma_kind_lines(ls: Seq<Seq<char>>, kind: LineKind, of: LineKind, a: int, b: int)
    requires
        0 <= a <= b <= ls.len(),
        has_kind(ls, of, a, b),
    ensures
        import::lines_of_kind(ls, kind, b) == import::lines_of_kind(ls, kind, a) + (if kind == of {
            ls.subrange(a, b)
        } else {
            Seq::empty()
        }),
    decreases b - a,
{
    let before = import::lines_of_kind(ls, kind, a);
    if a == b {
        assert(before + ls.subrange(a, b) =~= before);
        assert(before + Seq::<Seq<char>>::empty() =~= before);
    } else {
        lemma_kind_lines(ls, kind, of, a, b - 1);
        assert(import::kind_of(ls[b - 1]) == of);
        if kind == of {
            assert((before + ls.subrange(a, b - 1)).push(ls[b - 1]) =~= before + ls.subrange(a, b));
        }
    }
}

/// What a text gives back: the calls, streams, diagnostics and buckets that it was
/// written for, each in its order.
pub open spec fn comes_back(
    t: Seq<char>,
    calls: Seq<RowView>,
    scores: Seq<Option<Seq<char>>>,
    streams: Seq<SummaryView>,
    figures: Seq<StreamFiguresView>,
    diags: Seq<DiagView>,
    buckets: Seq<BucketLineView>,
) -> bool {
    let ls = lines_of(t);
    let n = ls.len() as int;
    let c = import::lines_of_kind(ls, LineKind::Call, n);
    let s = import::lines_of_kind(ls, LineKind::Stream, n);
    let d = import::lines_of_kind(ls, LineKind::Diag, n);
    let b = import::lines_of_kind(ls, LineKind::Bucket, n);
    &&& c.len() == calls.len() && forall|i: int|
        0 <= i < c.len() ==> call_comes_back(#[trigger] c[i], calls[i], scores[i])
    &&& s.len() == streams.len() && forall|i: int|
        0 <= i < s.len() ==> stream_comes_back(#[trigger] s[i], streams[i], figures[i])
    &&& d.len() == diags.len() && forall|i: int|
        0 <= i < d.len() ==> diag_comes_back(#[trigger] d[i], diags[i])
    &&& b.len() == buckets.len() && forall|i: int|
        0 <= i < b.len() ==> bucket_comes_back(#[trigger] b[i], buckets[i])
}

pub open spec fn score_views(v: Seq<Option<String>>) -> Seq<Option<Seq<char>>> {
    v.map_values(|x: Option<String>| opt_text(x))
}

pub open spec fn figure_views(v: Seq<StreamFigures>) -> Seq<StreamFiguresView> {
    v.map_values(|x: StreamFigures| x@)
}

pub open spec fn bucket_views(v: Seq<BucketLine>) -> Seq<BucketLineView> {
    v.map_values(|x: BucketLine| x@)
}

pub open spec fn scores_short(v: Seq<Option<Seq<char>>>) -> bool {
    forall|i: int| 0 <= i < v.len() ==> opt_short(#[trigger] v[i])
}

pub open spec fn figures_short(v: Seq<StreamFiguresView>) -> bool {
    forall|i: int| 0 <= i < v.len() ==> (#[trigger] v[i]).short()
}

pub open spec fn buckets_short(v: Seq<BucketLineView>) -> bool {
    forall|i: int| 0 <= i < v.len() ==> (#[trigger] v[i]).short()
}

pub open spec fn call_lines(calls: Seq<RowView>, scores: Seq<Option<Seq<char>>>) -> Seq<Seq<char>> {
    Seq::new(calls.len(), |i: int| printed(Json::Object(call_fields(calls[i], scores[i]))))
}

pub open spec fn stream_lines(v: Seq<SummaryView>, f: Seq<StreamFiguresView>) -> Seq<Seq<char>> {
    Seq::new(v.len(), |i: int| printed(Json::Object(stream_fields(v[i], f[i]))))
}

pub open spec fn diag_lines(v: Seq<DiagView>) -> Seq<Seq<char>> {
    Seq::new(v.len(), |i: int| printed(Json::Object(diag_fields(v[i]))))
}

pub open spec fn bucket_lines(v: Seq<BucketLineView>) -> Seq<Seq<char>> {
    Seq::new(v.len(), |i: int| printed(Json::Object(bucket_fields(v[i]))))
}

proof fn lemma_line_added(ls: Seq<Seq<char>>, l: Seq<char>, kind: LineKind, from: int, ok: bool)
    requires
        0 <= from <= ls.len(),
        all_one_line(ls),
        json::is_one_line(l),
        ok ==> has_kind(ls, kind, from, ls.len() as int),
        ok ==> import::kind_of(l) == kind,
        trimmed(l) == l,
    ensures
        all_one_line(ls.push(l)),
        ok ==> has_kind(ls.push(l), kind, from, ls.len() as int + 1),
{
    let t = ls.push(l);
    assert forall|k: int| 0 <= k < t.len() implies json::is_one_line(#[trigger] t[k]) by {
        if k < ls.len() {
            assert(t[k] == ls[k]);
        }
    }
    assert forall|k: int| ok && from <= k < t.len() implies import::kind_of(#[trigger] t[k])
        == kind && trimmed(t[k]) == t[k] by {
        if k < ls.len() {
            assert(t[k] == ls[k]);
        }
    }
}

fn write_calls(out: &mut Vec<String>, v: &Vec<CallSummary>, scores: &Vec<Option<String>>)
    requires
        scores@.len() == v@.len(),
        all_one_line(texts(old(out)@)),
    ensures
        texts(final(out)@) == texts(old(out)@) + call_lines(snapshot::row_views(v@), score_views(scores@)),
        all_one_line(texts(final(out)@)),
        scores_short(score_views(scores@)) ==> has_kind(
            texts(final(out)@),
            LineKind::Call,
            old(out)@.len() as int,
            final(out)@.len() as int,
        ),
        scores_short(score_views(scores@)) ==> forall|i: int|
            0 <= i < v@.len() ==> call_comes_back(
                #[trigger] texts(final(out)@)[old(out)@.len() + i],
                v@[i]@,
                opt_text(scores@[i]),
            ),
{
    let ghost start = out@;
    let ghost ok = scores_short(score_views(scores@));
    let ghost all = call_lines(snapshot::row_views(v@), score_views(scores@));
    let mut i: usize = 0;
    assert(texts(start) + all.take(0) =~= texts(start));
    while i < v.len()
        invariant
            i <= v.len(),
            ok == scores_short(score_views(scores@)),
            all == call_lines(snapshot::row_views(v@), score_views(scores@)),
            scores@.len() == v@.len(),
            out@.len() == start.len() + i,
            texts(out@) == texts(start) + all.take(i as int),
            all_one_line(texts(out@)),
            ok ==> has_kind(texts(out@), LineKind::Call, start.len() as int, out@.len() as int),
            ok ==> forall|k: int|
                0 <= k < i ==> call_comes_back(
                    #[trigger] texts(out@)[start.len() + k],
                    v@[k]@,
                    opt_text(scores@[k]),
                ),
        decreases v.len() - i,
    {
        let ghost before = out@;
        assert(score_views(scores@)[i as int] == opt_text(scores@[i as int]));
        let l = call_line(&v[i], &scores[i]);
        let ghost lv = l@;
        out.push(l);
        proof {
            assert(texts(out@) =~= texts(before).push(lv));
            assert(all[i as int] == lv);
            assert(texts(out@) =~= texts(start) + all.take(i + 1));
            assert forall|k: int| ok && 0 <= k < i + 1 implies call_comes_back(
                #[trigger] texts(out@)[start.len() + k],
                v@[k]@,
                opt_text(scores@[k]),
            ) by {
                if k < i {
                    assert(texts(out@)[start.len() + k] == texts(before)[start.len() + k]);
                }
            }
            lemma_line_added(texts(before), lv, LineKind::Call, start.len() as int, ok);
        }
        i += 1;
    }
    assert(all.take(all.len() as int) =~= all);
}

fn write_streams(out: &mut Vec<String>, v: &Vec<StreamSummary>, figures: &Vec<StreamFigures>)
    requires
        figures@.len() == v@.len(),
        all_one_line(texts(old(out)@)),
    ensures
        texts(final(out)@) == texts(old(out)@) + stream_lines(media::summary_views(v@), figure_views(figures@)),
        all_one_line(texts(final(out)@)),
        figures_short(figure_views(figures@)) ==> has_kind(
            texts(final(out)@),
            LineKind::Stream,
            old(out)@.len() as int,
            final(out)@.len() as int,
        ),
        figures_short(figure_views(figures@)) ==> forall|i: int|
            0 <= i < v@.len() ==> stream_comes_back(
                #[trigger] texts(final(out)@)[old(out)@.len() + i],
                v@[i]@,
                figures@[i]@,
            ),
{
    let ghost start = out@;
    let ghost ok = figures_short(figure_views(figures@));
    let ghost all = stream_lines(media::summary_views(v@), figure_views(figures@));
    let mut i: usize = 0;
    assert(texts(start) + all.take(0) =~= texts(start));
    while i < v.len()
        invariant
            i <= v.len(),
            ok == figures_short(figure_views(figures@)),
            all == stream_lines(media::summary_views(v@), figure_views(figures@)),
            figures@.len() == v@.len(),
            out@.len() == start.len() + i,
            texts(out@) == texts(start) + all.take(i as int),
            all_one_line(texts(out@)),
            ok ==> has_kind(texts(out@), LineKind::Stream, start.len() as int, out@.len() as int),
            ok ==> forall|k: int|
                0 <= k < i ==> stream_comes_back(
                    #[trigger] texts(out@)[start.len() + k],
                    v@[k]@,
                    figures@[k]@,
                ),
        decreases v.len() - i,
    {
        let ghost before = out@;
        assert(figure_views(figures@)[i as int] == figures@[i as int]@);
        let l = stream_line(&v[i], &figures[i]);
        let ghost lv = l@;
        out.push(l);
        proof {
            assert(texts(out@) =~= texts(before).push(lv));
            assert(all[i as int] == lv);
            assert(texts(out@) =~= texts(start) + all.take(i + 1));
            assert forall|k: int| ok && 0 <= k < i + 1 implies stream_comes_back(
                #[trigger] texts(out@)[start.len() + k],
                v@[k]@,
                figures@[k]@,
            ) by {
                if k < i {
                    assert(texts(out@)[start.len() + k] == texts(before)[start.len() + k]);
                }
            }
            lemma_line_added(texts(before), lv, LineKind::Stream, start.len() as int, ok);
        }
        i += 1;
    }
    assert(all.take(all.len() as int) =~= all);
}

fn write_diags(out: &mut Vec<String>, v: &Vec<Diagnostic>)
    requires
        all_one_line(texts(old(out)@)),
    ensures
        texts(final(out)@) == texts(old(out)@) + diag_lines(diagnostics::diag_views(v@)),
        all_one_line(texts(final(out)@)),
        has_kind(
            texts(final(out)@),
            LineKind::Diag,
            old(out)@.len() as int,
            final(out)@.len() as int,
        ),
        forall|i: int|
            0 <= i < v@.len() ==> diag_comes_back(
                #[trigger] texts(final(out)@)[old(out)@.len() + i],
                v@[i]@,
            ),
{
    let ghost start = out@;
    let ghost all = diag_lines(diagnostics::diag_views(v@));
    let mut i: usize = 0;
    assert(texts(start) + all.take(0) =~= texts(start));
    while i < v.len()
        invariant
            i <= v.len(),
            all == diag_lines(diagnostics::diag_views(v@)),
            out@.len() == start.len() + i,
            texts(out@) == texts(start) + all.take(i as int),
            all_one_line(texts(out@)),
            has_kind(texts(out@), LineKind::Diag, start.len() as int, out@.len() as int),
            forall|k: int|
                0 <= k < i ==> diag_comes_back(#[trigger] texts(out@)[start.len() + k], v@[k]@),
        decreases v.len() - i,
    {
        let ghost before = out@;
        let l = diag_line(&v[i]);
        let ghost lv = l@;
        out.push(l);
        proof {
            assert(texts(out@) =~= texts(before).push(lv));
            assert(all[i as int] == lv);
            assert(texts(out@) =~= texts(start) + all.take(i + 1));
            assert forall|k: int| 0 <= k < i + 1 implies diag_comes_back(
                #[trigger] texts(out@)[start.len() + k],
                v@[k]@,
            ) by {
                if k < i {
                    assert(texts(out@)[start.len() + k] == texts(before)[start.len() + k]);
                }
            }
            lemma_line_added(texts(before), lv, LineKind::Diag, start.len() as int, true);
        }
        i += 1;
    }
    assert(all.take(all.len() as int) =~= all);
}

fn write_buckets(out: &mut Vec<String>, v: &Vec<BucketLine>)
    requires
        all_one_line(texts(old(out)@)),
    ensures
        texts(final(out)@) == texts(old(out)@) + bucket_lines(bucket_views(v@)),
        all_one_line(texts(final(out)@)),
        buckets_short(bucket_views(v@)) ==> has_kind(
            texts(final(out)@),
            LineKind::Bucket,
            old(out)@.len() as int,
            final(out)@.len() as int,
        ),
        buckets_short(bucket_views(v@)) ==> forall|i: int|
            0 <= i < v@.len() ==> bucket_comes_back(
                #[trigger] texts(final(out)@)[old(out)@.len() + i],
                v@[i]@,
            ),
{
    let ghost start = out@;
    let ghost ok = buckets_short(bucket_views(v@));
    let ghost all = bucket_lines(bucket_views(v@));
    let mut i: usize = 0;
    assert(texts(start) + all.take(0) =~= texts(start));
    while i < v.len()
        invariant
            i <= v.len(),
            ok == buckets_short(bucket_views(v@)),
            all == bucket_lines(bucket_views(v@)),
            out@.len() == start.len() + i,
            texts(out@) == texts(start) + all.take(i as int),
            all_one_line(texts(out@)),
            ok ==> has_kind(texts(out@), LineKind::Bucket, start.len() as int, out@.len() as int),
            ok ==> forall|k: int|
                0 <= k < i ==> bucket_comes_back(#[trigger] texts(out@)[start.len() + k], v@[k]@),
        decreases v.len() - i,
    {
        let ghost before = out@;
        assert(bucket_views(v@)[i as int] == v@[i as int]@);
        let l = bucket_line(&v[i]);
        let ghost lv = l@;
        out.push(l);
        proof {
            assert(texts(out@) =~= texts(before).push(lv));
            assert(all[i as int] == lv);
            assert(texts(out@) =~= texts(start) + all.take(i + 1));
            assert forall|k: int| ok && 0 <= k < i + 1 implies bucket_comes_back(
                #[trigger] texts(out@)[start.len() + k],
                v@[k]@,
            ) by {
                if k < i {
                    assert(texts(out@)[start.len() + k] == texts(before)[start.len() + k]);
                }
            }
            lemma_line_added(texts(before), lv, LineKind::Bucket, start.len() as int, ok);
        }
        i += 1;
    }
    assert(all.take(all.len() as int) =~= all);
}

fn join_lines(v: &Vec<String>) -> (r: String)
    ensures
        r@ == joined(texts(v@), v@.len() as int),
{
    let mut s = String::new();
    let mut i: usize = 0;
    assert(s@ =~= Seq::<char>::empty());
    while i < v.len()
        invariant
            i <= v.len(),
            s@ == joined(texts(v@), i as int),
        decreases v.len() - i,
    {
        s.push_str(v[i].as_str());
        s.push('\n');
        i += 1;
        assert(texts(v@)[i - 1] == v@[i - 1]@);
        assert(s@ =~= joined(texts(v@), i as int));
    }
    s
}

/// The text of an export: calls, streams, diagnostics and buckets, each on a line of
/// its own. `scores` holds the best score of each call as a number, `figures` the
/// figures of each stream. An export whose figures are written in a few digits can
/// be read back.
pub fn export_snapshot(
    calls: &Vec<CallSummary>,
    scores: &Vec<Option<String>>,
    streams: &Vec<StreamSummary>,
    figures: &Vec<StreamFigures>,
    diags: &Vec<Diagnostic>,
    buckets: &Vec<BucketLine>,
) -> (r: String)
    requires
        scores@.len() == calls@.len(),
        figures@.len() == streams@.len(),
    ensures
        ({
            let ls = call_lines(snapshot::row_views(calls@), score_views(scores@)) + stream_lines(
                media::summary_views(streams@),
                figure_views(figures@),
            ) + diag_lines(diagnostics::diag_views(diags@)) + bucket_lines(bucket_views(buckets@));
            r@ == joined(ls, ls.len() as int)
        }),
        scores_short(score_views(scores@)) && figures_short(figure_views(figures@))
            && buckets_short(bucket_views(buckets@)) ==> comes_back(
            r@,
            snapshot::row_views(calls@),
            score_views(scores@),
            media::summary_views(streams@),
            figure_views(figures@),
            diagnostics::diag_views(diags@),
            bucket_views(buckets@),
        ),
{
    let mut out: Vec<String> = Vec::new();
    assert(texts(out@) =~= Seq::<Seq<char>>::empty());
    write_calls(&mut out, calls, scores);
    let ghost a = texts(out@);
    write_streams(&mut out, streams, figures);
    let ghost b = texts(out@);
    write_diags(&mut out, diags);
    let ghost c = texts(out@);
    write_buckets(&mut out, buckets);
    let ghost ls = texts(out@);
    let r = join_lines(&out);
    proof {
        assert(a =~= call_lines(snapshot::row_views(calls@), score_views(scores@)));
        assert(b.take(a.len() as int) =~= a);
        assert(c.take(b.len() as int) =~= b);
        assert(ls.take(c.len() as int) =~= c);
        if scores_short(score_views(scores@)) && figures_short(figure_views(figures@))
            && buckets_short(bucket_views(buckets@)) {
            lemma_parted(a, b, c, ls);
            law_lines_apart(ls);
            let n = ls.len() as int;
            let kc = import::lines_of_kind(ls, LineKind::Call, n);
            let ks = import::lines_of_kind(ls, LineKind::Stream, n);
            let kd = import::lines_of_kind(ls, LineKind::Diag, n);
            let kb = import::lines_of_kind(ls, LineKind::Bucket, n);
            assert forall|i: int| 0 <= i < kc.len() implies call_comes_back(
                #[trigger] kc[i],
                snapshot::row_views(calls@)[i],
                score_views(scores@)[i],
            ) by {
                assert(kc[i] == a[0 + i]);
            }
            assert forall|i: int| 0 <= i < ks.len() implies stream_comes_back(
                #[trigger] ks[i],
                media::summary_views(streams@)[i],
                figure_views(figures@)[i],
            ) by {
                assert(ks[i] == b[a.len() + i]);
            }
            assert forall|i: int| 0 <= i < kd.len() implies diag_comes_back(
                #[trigger] kd[i],
                diagnostics::diag_views(diags@)[i],
            ) by {
                assert(kd[i] == c[b.len() + i]);
            }
            assert forall|i: int| 0 <= i < kb.len() implies bucket_comes_back(
                #[trigger] kb[i],
                bucket_views(buckets@)[i],
            ) by {
                assert(kb[i] == ls[c.len() + i]);
            }
        }
    }
    r
}

/// Lines of four kinds, one kind after the other, each growing on the one before.
proof fn lemma_parted(a: Seq<Seq<char>>, b: Seq<Seq<char>>, c: Seq<Seq<char>>, ls: Seq<Seq<char>>)
    requires
        a.len() <= b.len() <= c.len() <= ls.len(),
        b.take(a.len() as int) == a,
        c.take(b.len() as int) == b,
        ls.take(c.len() as int) == c,
        has_kind(a, LineKind::Call, 0, a.len() as int),
        has_kind(b, LineKind::Stream, a.len() as int, b.len() as int),
        has_kind(c, LineKind::Diag, b.len() as int, c.len() as int),
        has_kind(ls, LineKind::Bucket, c.len() as int, ls.len() as int),
    ensures
        import::lines_of_kind(ls, LineKind::Call, ls.len() as int) == a,
        import::lines_of_kind(ls, LineKind::Stream, ls.len() as int) == b.skip(a.len() as int),
        import::lines_of_kind(ls, LineKind::Diag, ls.len() as int) == c.skip(b.len() as int),
        import::lines_of_kind(ls, LineKind::Bucket, ls.len() as int) == ls.skip(c.len() as int),
{
    let (x, y, z, n) = (a.len() as int, b.len() as int, c.len() as int, ls.len() as int);
    assert forall|i: int| 0 <= i < z implies #[trigger] ls[i] == c[i] by {
        assert(ls.take(z)[i] == ls[i]);
    }
    assert forall|i: int| 0 <= i < y implies #[trigger] ls[i] == b[i] by {
        assert(c.take(y)[i] == c[i]);
        assert(ls[i] == c[i]);
    }
    assert forall|i: int| 0 <= i < x implies #[trigger] ls[i] == a[i] by {
        assert(b.take(x)[i] == b[i]);
        assert(ls[i] == b[i]);
    }
    assert(has_kind(ls, LineKind::Call, 0, x));
    assert(has_kind(ls, LineKind::Stream, x, y));
    assert(has_kind(ls, LineKind::Diag, y, z));
    lemma_four(ls, LineKind::Call, x, y, z);
    lemma_four(ls, LineKind::Stream, x, y, z);
    lemma_four(ls, LineKind::Diag, x, y, z);
    lemma_four(ls, LineKind::Bucket, x, y, z);
    assert(ls.subrange(0, x) =~= a);
    assert(ls.subrange(x, y) =~= b.skip(x));
    assert(ls.subrange(y, z) =~= c.skip(y));
    assert(ls.subrange(z, n) =~= ls.skip(z));
}

proof fn lemma_four(ls: Seq<Seq<char>>, kind: LineKind, x: int, y: int, z: int)
    requires
        0 <= x <= y <= z <= ls.len(),
        kind != LineKind::Other,
        has_kind(ls, LineKind::Call, 0, x),
        has_kind(ls, LineKind::Stream, x, y),
        has_kind(ls, LineKind::Diag, y, z),
        has_kind(ls, LineKind::Bucket, z, ls.len() as int),
    ensures
        import::lines_of_kind(ls, kind, ls.len() as int) == match kind {
            LineKind::Call => ls.subrange(0, x),
            LineKind::Stream => ls.subrange(x, y),
            LineKind::Diag => ls.subrange(y, z),
            _ => ls.subrange(z, ls.len() as int),
        },
{
    let n = ls.len() as int;
    lemma_kind_lines(ls, kind, LineKind::Call, 0, x);
    lemma_kind_lines(ls, kind, LineKind::Stream, x, y);
    lemma_kind_lines(ls, kind, LineKind::Diag, y, z);
    lemma_kind_lines(ls, kind, LineKind::Bucket, z, n);
    assert(import::lines_of_kind(ls, kind, n) =~= match kind {
        LineKind::Call => ls.subrange(0, x),
        LineKind::Stream => ls.subrange(x, y),
        LineKind::Diag => ls.subrange(y, z),
        _ => ls.subrange(z, n),
    });
}

// ----------------------------- laws -----------------------------

/// The rows of an export, as they are read back from its call lines.
pub open spec fn kept_rows(t: Seq<char>, calls: Seq<RowView>) -> Seq<RowView> {
    let ls = lines_of(t);
    let c = import::lines_of_kind(ls, LineKind::Call, ls.len() as int);
    Seq::new(
        calls.len(),
        |i: int| kept_row(calls[i], import::real_of(json_real(c[i], "best_mos"@))),
    )
}

/// The streams of an export, as they are read back from its stream lines.
pub open spec fn kept_streams(t: Seq<char>, v: Seq<SummaryView>) -> Seq<SummaryView> {
    let ls = lines_of(t);
    let s = import::lines_of_kind(ls, LineKind::Stream, ls.len() as int);
    Seq::new(v.len(), |i: int| kept_stream(s[i], v[i]))
}

/// The figures of a stream that have few digits are the numbers that they spell.
pub open spec fn figures_kept(s: SummaryView, f: StreamFiguresView) -> bool {
    &&& opt_fine(f.loss_pct) ==> s.loss_pct == (match import::real_of(figure_bits(f.loss_pct)) {
        Some(x) => x,
        None => Real64 { bits: 0 },
    })
    &&& opt_fine(f.jitter_ms) ==> s.jitter_ms == import::real_of(figure_bits(f.jitter_ms))
    &&& opt_fine(f.rtt_avg_ms) ==> s.rtt_avg_ms == import::real_of(figure_bits(f.rtt_avg_ms))
    &&& opt_fine(f.oneway_ms) ==> s.oneway_ms == import::real_of(figure_bits(f.oneway_ms))
    &&& opt_fine(f.mos) ==> s.mos == import::real_of(figure_bits(f.mos))
}

/// The diagnostics of an export, as they are read back.
pub open spec fn kept_diags(v: Seq<DiagView>) -> Seq<DiagView> {
    v.map_values(|d: DiagView| DiagView { code: tables::code_named(d.code), ..d })
}

/// Reading an export is the reverse of writing it: whatever is read from a text that
/// was written for a snapshot holds the calls of the snapshot, newest first, its
/// streams and its diagnostics, in so far as they were written. Scores and figures of
/// few digits come back bit for bit as the numbers that they spell.
pub proof fn law_import_reverses_export(
    t: Seq<char>,
    calls: Seq<RowView>,
    scores: Seq<Option<Seq<char>>>,
    streams: Seq<SummaryView>,
    figures: Seq<StreamFiguresView>,
    diags: Seq<DiagView>,
    buckets: Seq<BucketLineView>,
    rows: Seq<RowView>,
    sums: Seq<SummaryView>,
    found: Seq<DiagView>,
)
    requires
        comes_back(t, calls, scores, streams, figures, diags, buckets),
        import::rows_of(
            rows,
            import::lines_of_kind(lines_of(t), LineKind::Call, lines_of(t).len() as int),
        ),
        import::streams_of(
            sums,
            import::lines_of_kind(lines_of(t), LineKind::Stream, lines_of(t).len() as int),
        ),
        import::diags_of(
            found,
            import::lines_of_kind(lines_of(t), LineKind::Diag, lines_of(t).len() as int),
        ),
    ensures
        rows == kept_rows(t, calls),
        sums == kept_streams(t, streams),
        found == kept_diags(diags),
        forall|i: int|
            0 <= i < rows.len() && opt_fine(scores[i]) ==> (#[trigger] rows[i]).best_mos
                == import::real_of(figure_bits(scores[i])),
        forall|i: int|
            0 <= i < sums.len() ==> figures_kept(#[trigger] sums[i], figures[i]),
{
    let ls = lines_of(t);
    let n = ls.len() as int;
    let c = import::lines_of_kind(ls, LineKind::Call, n);
    let s = import::lines_of_kind(ls, LineKind::Stream, n);
    let d = import::lines_of_kind(ls, LineKind::Diag, n);
    assert forall|i: int| 0 <= i < rows.len() implies rows[i] == kept_rows(t, calls)[i] by {
        assert(import::is_row_of(rows[i], c[i]));
        assert(call_comes_back(c[i], calls[i], scores[i]));
    }
    assert(rows =~= kept_rows(t, calls));
    assert forall|i: int| 0 <= i < sums.len() implies sums[i] == kept_streams(t, streams)[i] by {
        assert(import::is_stream_of(sums[i], s[i]));
        assert(stream_comes_back(s[i], streams[i], figures[i]));
    }
    assert(sums =~= kept_streams(t, streams));
    assert forall|i: int| 0 <= i < rows.len() && opt_fine(scores[i]) implies (
    #[trigger] rows[i]).best_mos == import::real_of(figure_bits(scores[i])) by {
        assert(call_comes_back(c[i], calls[i], scores[i]));
    }
    assert forall|i: int| 0 <= i < sums.len() implies figures_kept(
        #[trigger] sums[i],
        figures[i],
    ) by {
        assert(stream_comes_back(s[i], streams[i], figures[i]));
    }
    assert forall|i: int| 0 <= i < found.len() implies found[i] == kept_diags(diags)[i] by {
        assert(import::is_diag_of(found[i], d[i]));
        assert(diag_comes_back(d[i], diags[i]));
    }
    assert(found =~= kept_diags(diags));
}

} // verus!
