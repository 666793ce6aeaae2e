//! A snapshot read back from an export: one JSON object a line.
//!
//! Lines that are no JSON, or of another kind, are passed over.
use crate::decode::sip;
use crate::decode::sip::parse_sip;
use crate::diagnostics;
use crate::diagnostics::{DiagView, Diagnostic};
use crate::export::tables;
use crate::export::tables::{
    code_from_str, parse_outcome, parse_severity, parse_ssrc, parse_state, severity_from,
};
use crate::json;
use crate::json::{
    flag_field, json_flag, json_real, json_text, json_uint, real_field, text_field, uint_field,
};
use crate::model::addr::SocketAddr;
use crate::model::addr_text;
use crate::model::addr_text::socket_from_str;
use crate::model::media;
use crate::model::media::{StreamSummary, SummaryView};
use crate::model::packet::{Flow5Tuple, Proto};
use crate::model::sip::{CallState, MsgView, SipMsg};
use crate::model::stats::Real64;
use crate::store::evlog::{DiagEvt, SipMsgEvt, StreamSnapEvt};
use crate::store::snapshot;
use crate::store::snapshot::{CallSummary, Focus, FocusView, RowView};
use crate::text;
use crate::text::{chars_of, clone_opt, lines, str_eq, string_of, trim};
use vstd::prelude::*;

verus! {

// ----------------------------- calls -----------------------------

/// The fields of an exported call.
#[derive(Debug)]
pub struct JsonCall {
    pub call_id: Option<String>,
    pub from: Option<String>,
    pub to: Option<String>,
    pub state: Option<String>,
    pub outcome: Option<String>,
    pub invite_ts_us: Option<u64>,
    pub duration_ms: Option<u64>,
    pub pdd_ms: Option<u64>,
    pub setup_ms: Option<u64>,
    pub hangup_code: Option<u64>,
    pub pkts_sip: Option<u64>,
    pub pkts_rtp: Option<u64>,
    pub best_mos: Option<u64>,
    pub warn_count: Option<u64>,
    pub critical_count: Option<u64>,
    pub stream_count: Option<u64>,
    pub via_turn: Option<bool>,
}

pub open spec fn low32(x: Option<u64>) -> Option<u32> {
    match x {
        Some(x) => Some((x % 0x1_0000_0000) as u32),
        None => None,
    }
}

fn as_u32(x: Option<u64>) -> (r: Option<u32>)
    ensures
        r == low32(x),
{
    match x {
        Some(x) => Some((x % 0x1_0000_0000) as u32),
        None => None,
    }
}

pub open spec fn uint_or_zero(x: Option<u64>) -> u64 {
    match x {
        Some(x) => x,
        None => 0,
    }
}

fn or_zero(x: Option<u64>) -> (r: u64)
    ensures
        r == uint_or_zero(x),
{
    match x {
        Some(x) => x,
        None => 0,
    }
}

pub open spec fn text_or_none(t: Option<String>) -> Seq<char> {
    match t {
        Some(t) => t@,
        None => Seq::empty(),
    }
}

fn or_blank(t: Option<String>) -> (r: String)
    ensures
        r@ == text_or_none(t),
{
    match t {
        Some(t) => t,
        None => {
            let s = String::new();
            assert(s@ =~= Seq::<char>::empty());
            s
        },
    }
}

pub open spec fn real_of(b: Option<u64>) -> Option<Real64> {
    match b {
        Some(bits) => Some(Real64 { bits }),
        None => None,
    }
}

fn as_real(b: Option<u64>) -> (r: Option<Real64>)
    ensures
        r == real_of(b),
{
    match b {
        Some(bits) => Some(Real64 { bits }),
        None => None,
    }
}

/// The row that an exported call stands for.
pub open spec fn row_of(j: JsonCall) -> RowView {
    RowView {
        call_id: text_or_none(j.call_id),
        from_user: text::opt_text(j.from),
        to_user: text::opt_text(j.to),
        caller_ip: None,
        state: tables::state_of(text::opt_text(j.state)),
        outcome: tables::outcome_of(text::opt_text(j.outcome)),
        invite_ts: j.invite_ts_us,
        duration_ms: j.duration_ms,
        pdd_ms: low32(j.pdd_ms),
        setup_ms: low32(j.setup_ms),
        ring_ms: None,
        ring_code: None,
        early_media: false,
        hangup_by: None,
        hangup_code: low32(j.hangup_code),
        pkts_sip: uint_or_zero(j.pkts_sip),
        pkts_rtp: uint_or_zero(j.pkts_rtp),
        best_mos: real_of(j.best_mos),
        warn_count: (uint_or_zero(j.warn_count) % 0x1_0000_0000) as u32,
        critical_count: (uint_or_zero(j.critical_count) % 0x1_0000_0000) as u32,
        stream_count: uint_or_zero(j.stream_count) as usize as nat,
        via_turn: j.via_turn == Some(true),
        ips: Seq::empty(),
    }
}

/// The row of an exported call.
pub fn import_call(j: JsonCall) -> (r: CallSummary)
    ensures
        r@ == row_of(j),
{
    let ghost want = row_of(j);
    let r = CallSummary {
        state: parse_state(&j.state),
        outcome: parse_outcome(&j.outcome),
        call_id: or_blank(j.call_id),
        from_user: j.from,
        to_user: j.to,
        caller_ip: None,
        invite_ts: j.invite_ts_us,
        duration_ms: j.duration_ms,
        pdd_ms: as_u32(j.pdd_ms),
        setup_ms: as_u32(j.setup_ms),
        ring_ms: None,
        ring_code: None,
        early_media: false,
        hangup_by: None,
        hangup_code: as_u32(j.hangup_code),
        pkts_sip: or_zero(j.pkts_sip),
        pkts_rtp: or_zero(j.pkts_rtp),
        best_mos: as_real(j.best_mos),
        warn_count: (or_zero(j.warn_count) % 0x1_0000_0000) as u32,
        critical_count: (or_zero(j.critical_count) % 0x1_0000_0000) as u32,
        stream_count: or_zero(j.stream_count) as usize,
        via_turn: match j.via_turn {
            Some(b) => b,
            None => false,
        },
        ips: Vec::new(),
    };
    assert(r@.ips =~= Seq::empty());
    r
}

impl JsonCall {
    /// Whether these are the fields of a line.
    pub open spec fn read_from(self, l: Seq<char>) -> bool {
        &&& text::opt_text(self.call_id) == json_text(l, "call_id"@)
        &&& text::opt_text(self.from) == json_text(l, "from"@)
        &&& text::opt_text(self.to) == json_text(l, "to"@)
        &&& text::opt_text(self.state) == json_text(l, "state"@)
        &&& text::opt_text(self.outcome) == json_text(l, "outcome"@)
        &&& self.invite_ts_us == json_uint(l, "invite_ts_us"@)
        &&& self.duration_ms == json_uint(l, "duration_ms"@)
        &&& self.pdd_ms == json_uint(l, "pdd_ms"@)
        &&& self.setup_ms == json_uint(l, "setup_ms"@)
        &&& self.hangup_code == json_uint(l, "hangup_code"@)
        &&& self.pkts_sip == json_uint(l, "pkts_sip"@)
        &&& self.pkts_rtp == json_uint(l, "pkts_rtp"@)
        &&& self.best_mos == json_real(l, "best_mos"@)
        &&& self.warn_count == json_uint(l, "warn_count"@)
        &&& self.critical_count == json_uint(l, "critical_count"@)
        &&& self.stream_count == json_uint(l, "stream_count"@)
        &&& self.via_turn == json_flag(l, "via_turn"@)
    }
}

/// Reads the fields of an exported call.
pub fn read_call(line: &str) -> (r: JsonCall)
    ensures
        r.read_from(line@),
{
    let v = json::parse(line);
    JsonCall {
        call_id: text_field(&v, "call_id"),
        from: text_field(&v, "from"),
        to: text_field(&v, "to"),
        state: text_field(&v, "state"),
        outcome: text_field(&v, "outcome"),
        invite_ts_us: uint_field(&v, "invite_ts_us"),
        duration_ms: uint_field(&v, "duration_ms"),
        pdd_ms: uint_field(&v, "pdd_ms"),
        setup_ms: uint_field(&v, "setup_ms"),
        hangup_code: uint_field(&v, "hangup_code"),
        pkts_sip: uint_field(&v, "pkts_sip"),
        pkts_rtp: uint_field(&v, "pkts_rtp"),
        best_mos: real_field(&v, "best_mos"),
        warn_count: uint_field(&v, "warn_count"),
        critical_count: uint_field(&v, "critical_count"),
        stream_count: uint_field(&v, "stream_count"),
        via_turn: flag_field(&v, "via_turn"),
    }
}

// ----------------------------- streams -----------------------------

/// The fields of an exported stream.
#[derive(Debug)]
pub struct JsonStream {
    pub call_id: Option<String>,
    pub ssrc_text: Option<String>,
    pub ssrc: Option<u64>,
    pub flow_src: Option<String>,
    pub flow_dst: Option<String>,
    pub codec: Option<String>,
    pub pt: Option<u64>,
    pub packets: Option<u64>,
    pub lost: Option<u64>,
    pub bytes: Option<u64>,
    pub loss_pct: Option<u64>,
    pub jitter_ms: Option<u64>,
    pub rtt_avg_ms: Option<u64>,
    pub oneway_ms: Option<u64>,
    pub mos: Option<u64>,
    pub direction: Option<String>,
    pub leg: Option<String>,
    pub via_turn: Option<bool>,
}

/// The address that a field spells.
pub open spec fn end_of(t: Option<String>) -> Option<SocketAddr> {
    match t {
        Some(t) => addr_text::socket_of(t@),
        None => None,
    }
}

fn parse_end(t: &Option<String>) -> (r: Option<SocketAddr>)
    ensures
        r == end_of(*t),
{
    match t {
        Some(t) => socket_from_str(t.as_str()),
        None => None,
    }
}

/// The flow between two ends, if both are known.
pub open spec fn flow_between(a: Option<SocketAddr>, b: Option<SocketAddr>) -> Option<Flow5Tuple> {
    match (a, b) {
        (Some(src), Some(dst)) => Some(Flow5Tuple { proto: Proto::Udp, src, dst }),
        _ => None,
    }
}

/// The SSRC of an exported stream: from its text, or else from its number.
pub open spec fn stream_ssrc(j: JsonStream) -> u32 {
    match j.ssrc_text {
        Some(t) => tables::ssrc_of(t@),
        None => (uint_or_zero(j.ssrc) % 0x1_0000_0000) as u32,
    }
}

/// The stream that an exported one stands for.
pub open spec fn stream_of(j: JsonStream) -> SummaryView {
    SummaryView {
        call_id: text::opt_text(j.call_id),
        ssrc: stream_ssrc(j),
        flow: flow_between(end_of(j.flow_src), end_of(j.flow_dst)),
        codec: text::opt_text(j.codec),
        payload_type: match j.pt {
            Some(x) => Some((x % 0x100) as u8),
            None => None,
        },
        packets: uint_or_zero(j.packets),
        lost: uint_or_zero(j.lost),
        expected: uint_or_zero(j.packets).wrapping_add(uint_or_zero(j.lost)),
        loss_pct: match real_of(j.loss_pct) {
            Some(x) => x,
            None => Real64 { bits: 0 },
        },
        jitter_ms: real_of(j.jitter_ms),
        first_ts_us: None,
        last_ts_us: None,
        rtt_min_ms: None,
        rtt_avg_ms: real_of(j.rtt_avg_ms),
        rtt_max_ms: None,
        oneway_ms: real_of(j.oneway_ms),
        mos: real_of(j.mos),
        direction: text::opt_text(j.direction),
        leg: text::opt_text(j.leg),
        via_turn: j.via_turn == Some(true),
        bytes: uint_or_zero(j.bytes),
        history: Seq::empty(),
    }
}

/// The stream of an exported one.
pub fn import_stream(j: JsonStream) -> (r: StreamSummary)
    ensures
        r@ == stream_of(j),
{
    let ssrc: u32 = match &j.ssrc_text {
        Some(t) => parse_ssrc(t.as_str()),
        None => (or_zero(j.ssrc) % 0x1_0000_0000) as u32,
    };
    let flow: Option<Flow5Tuple> = match (parse_end(&j.flow_src), parse_end(&j.flow_dst)) {
        (Some(src), Some(dst)) => Some(Flow5Tuple { proto: Proto::Udp, src, dst }),
        _ => None,
    };
    let packets: u64 = or_zero(j.packets);
    let lost: u64 = or_zero(j.lost);
    let r = StreamSummary {
        call_id: j.call_id,
        ssrc,
        flow,
        codec: j.codec,
        payload_type: match j.pt {
            Some(x) => Some((x % 0x100) as u8),
            None => None,
        },
        packets,
        lost,
        expected: packets.wrapping_add(lost),
        loss_pct: match as_real(j.loss_pct) {
            Some(x) => x,
            None => Real64 { bits: 0 },
        },
        jitter_ms: as_real(j.jitter_ms),
        first_ts_us: None,
        last_ts_us: None,
        rtt_min_ms: None,
        rtt_avg_ms: as_real(j.rtt_avg_ms),
        rtt_max_ms: None,
        oneway_ms: as_real(j.oneway_ms),
        mos: as_real(j.mos),
        direction: j.direction,
        leg: j.leg,
        via_turn: match j.via_turn {
            Some(b) => b,
            None => false,
        },
        bytes: or_zero(j.bytes),
        history: Vec::new(),
    };
    assert(r@.history =~= Seq::empty());
    r
}

impl JsonStream {
    /// Whether these are the fields of a line.
    pub open spec fn read_from(self, l: Seq<char>) -> bool {
        &&& text::opt_text(self.call_id) == json_text(l, "call_id"@)
        &&& text::opt_text(self.ssrc_text) == json_text(l, "ssrc"@)
        &&& self.ssrc == json_uint(l, "ssrc"@)
        &&& text::opt_text(self.flow_src) == json_text(l, "flow_src"@)
        &&& text::opt_text(self.flow_dst) == json_text(l, "flow_dst"@)
        &&& text::opt_text(self.codec) == json_text(l, "codec"@)
        &&& self.pt == json_uint(l, "pt"@)
        &&& self.packets == json_uint(l, "packets"@)
        &&& self.lost == json_uint(l, "lost"@)
        &&& self.bytes == json_uint(l, "bytes"@)
        &&& self.loss_pct == json_real(l, "loss_pct"@)
        &&& self.jitter_ms == json_real(l, "jitter_ms"@)
        &&& self.rtt_avg_ms == json_real(l, "rtt_avg_ms"@)
        &&& self.oneway_ms == json_real(l, "oneway_ms"@)
        &&& self.mos == json_real(l, "mos"@)
        &&& text::opt_text(self.direction) == json_text(l, "direction"@)
        &&& text::opt_text(self.leg) == json_text(l, "leg"@)
        &&& self.via_turn == json_flag(l, "via_turn"@)
    }
}

/// Reads the fields of an exported stream.
pub fn read_stream(line: &str) -> (r: JsonStream)
    ensures
        r.read_from(line@),
{
    let v = json::parse(line);
    JsonStream {
        call_id: text_field(&v, "call_id"),
        ssrc_text: text_field(&v, "ssrc"),
        ssrc: uint_field(&v, "ssrc"),
        flow_src: text_field(&v, "flow_src"),
        flow_dst: text_field(&v, "flow_dst"),
        codec: text_field(&v, "codec"),
        pt: uint_field(&v, "pt"),
        packets: uint_field(&v, "packets"),
        lost: uint_field(&v, "lost"),
        bytes: uint_field(&v, "bytes"),
        loss_pct: real_field(&v, "loss_pct"),
        jitter_ms: real_field(&v, "jitter_ms"),
        rtt_avg_ms: real_field(&v, "rtt_avg_ms"),
        oneway_ms: real_field(&v, "oneway_ms"),
        mos: real_field(&v, "mos"),
        direction: text_field(&v, "direction"),
        leg: text_field(&v, "leg"),
        via_turn: flag_field(&v, "via_turn"),
    }
}

// ----------------------------- diagnostics -----------------------------

/// The fields of an exported diagnostic.
#[derive(Debug)]
pub struct JsonDiag {
    pub ts_us: Option<u64>,
    pub call_id: Option<String>,
    pub severity: Option<String>,
    pub code: Option<String>,
    pub message: Option<String>,
}

/// The diagnostic that an exported one stands for.
pub open spec fn diag_of(j: JsonDiag) -> DiagView {
    DiagView {
        ts_us: uint_or_zero(j.ts_us),
        call_id: text_or_none(j.call_id),
        severity: tables::severity_of(text::opt_text(j.severity)),
        code: tables::code_named(text_or_none(j.code)),
        message: text_or_none(j.message),
    }
}

/// The diagnostic of an exported one.
pub fn import_diag(j: JsonDiag) -> (r: Diagnostic)
    ensures
        r@ == diag_of(j),
{
    let severity = parse_severity(&j.severity);
    let code = or_blank(j.code);
    Diagnostic {
        ts_us: or_zero(j.ts_us),
        call_id: or_blank(j.call_id),
        severity,
        code: code_from_str(code.as_str()),
        message: or_blank(j.message),
    }
}

impl JsonDiag {
    /// Whether these are the fields of a line.
    pub open spec fn read_from(self, l: Seq<char>) -> bool {
        &&& self.ts_us == json_uint(l, "ts_us"@)
        &&& text::opt_text(self.call_id) == json_text(l, "call_id"@)
        &&& text::opt_text(self.severity) == json_text(l, "severity"@)
        &&& text::opt_text(self.code) == json_text(l, "code"@)
        &&& text::opt_text(self.message) == json_text(l, "message"@)
    }
}

/// Reads the fields of an exported diagnostic.
pub fn read_diag(line: &str) -> (r: JsonDiag)
    ensures
        r.read_from(line@),
{
    let v = json::parse(line);
    JsonDiag {
        ts_us: uint_field(&v, "ts_us"),
        call_id: text_field(&v, "call_id"),
        severity: text_field(&v, "severity"),
        code: text_field(&v, "code"),
        message: text_field(&v, "message"),
    }
}

// ----------------------------- buckets -----------------------------

/// A bucket read from a line: its counts, and the bits of its averages.
#[derive(Debug)]
pub struct JsonBucket {
    pub bucket_us: u64,
    pub dim_key: String,
    pub calls: u64,
    pub answered: u64,
    pub failed: u64,
    pub avg_pdd_ms: Option<u64>,
    pub avg_jitter_ms: Option<u64>,
    pub avg_loss_pct: Option<u64>,
    pub avg_rtt_ms: Option<u64>,
    pub avg_mos: Option<u64>,
}

impl JsonBucket {
    /// Whether this is the bucket of a line. Counts that are not there are zero.
    pub open spec fn read_from(self, l: Seq<char>) -> bool {
        &&& self.bucket_us == uint_or_zero(json_uint(l, "bucket_us"@))
        &&& self.dim_key@ == match json_text(l, "dim_key"@) {
            Some(t) => t,
            None => Seq::empty(),
        }
        &&& self.calls == uint_or_zero(json_uint(l, "calls"@))
        &&& self.answered == uint_or_zero(json_uint(l, "answered"@))
        &&& self.failed == uint_or_zero(json_uint(l, "failed"@))
        &&& self.avg_pdd_ms == json_real(l, "avg_pdd_ms"@)
        &&& self.avg_jitter_ms == json_real(l, "avg_jitter_ms"@)
        &&& self.avg_loss_pct == json_real(l, "avg_loss_pct"@)
        &&& self.avg_rtt_ms == json_real(l, "avg_rtt_ms"@)
        &&& self.avg_mos == json_real(l, "avg_mos"@)
    }
}

/// Reads an exported bucket.
pub fn import_bucket(line: &str) -> (r: JsonBucket)
    ensures
        r.read_from(line@),
{
    let v = json::parse(line);
    JsonBucket {
        bucket_us: or_zero(uint_field(&v, "bucket_us")),
        dim_key: or_blank(text_field(&v, "dim_key")),
        calls: or_zero(uint_field(&v, "calls")),
        answered: or_zero(uint_field(&v, "answered")),
        failed: or_zero(uint_field(&v, "failed")),
        avg_pdd_ms: real_field(&v, "avg_pdd_ms"),
        avg_jitter_ms: real_field(&v, "avg_jitter_ms"),
        avg_loss_pct: real_field(&v, "avg_loss_pct"),
        avg_rtt_ms: real_field(&v, "avg_rtt_ms"),
        avg_mos: real_field(&v, "avg_mos"),
    }
}

// ----------------------------- lines -----------------------------

/// What a line of an export is.
#[derive(Debug, Clone, Copy, PartialEq, Eq, Structural)]
pub enum LineKind {
    Call,
    Stream,
    Diag,
    Bucket,
    Other,
}

/// What the kind written in a line says.
pub open spec fn kind_named(t: Option<Seq<char>>) -> LineKind {
    if t == Some("call"@) {
        LineKind::Call
    } else if t == Some("stream"@) {
        LineKind::Stream
    } else if t == Some("diag"@) {
        LineKind::Diag
    } else if t == Some("bucket"@) {
        LineKind::Bucket
    } else {
        LineKind::Other
    }
}

/// What the kind written in a line says.
pub fn kind_from(t: &Option<String>) -> (r: LineKind)
    ensures
        r == kind_named(text::opt_text(*t)),
{
    match t {
        Some(t) => {
            let t = t.as_str();
            if str_eq(t, "call") {
                LineKind::Call
            } else if str_eq(t, "stream") {
                LineKind::Stream
            } else if str_eq(t, "diag") {
                LineKind::Diag
            } else if str_eq(t, "bucket") {
                LineKind::Bucket
            } else {
                LineKind::Other
            }
        },
        None => LineKind::Other,
    }
}

/// What a line is: white space around it does not count.
pub open spec fn kind_of(line: Seq<char>) -> LineKind {
    let l = text::trimmed(line);
    if l.len() == 0 {
        LineKind::Other
    } else {
        kind_named(json_text(l, "kind"@))
    }
}

/// What an export holds, but for its buckets.
pub struct Imported {
    /// Newest first.
    pub calls: Vec<CallSummary>,
    pub streams: Vec<StreamSummary>,
    pub diagnostics: Vec<Diagnostic>,
    /// The lines of the buckets.
    pub buckets: Vec<String>,
    pub active: usize,
    pub completed: usize,
    pub failed: usize,
}

/// The lines of a kind among the first `n`, without white space around them.
pub open spec fn lines_of_kind(ls: Seq<Seq<char>>, kind: LineKind, n: int) -> Seq<Seq<char>>
    decreases n,
{
    if n <= 0 {
        Seq::empty()
    } else {
        let s = lines_of_kind(ls, kind, n - 1);
        if kind_of(ls[n - 1]) == kind {
            s.push(text::trimmed(ls[n - 1]))
        } else {
            s
        }
    }
}

/// A row read from a line.
pub open spec fn is_row_of(r: RowView, l: Seq<char>) -> bool {
    exists|j: JsonCall| j.read_from(l) && r == #[trigger] row_of(j)
}

pub open spec fn is_stream_of(s: SummaryView, l: Seq<char>) -> bool {
    exists|j: JsonStream| j.read_from(l) && s == #[trigger] stream_of(j)
}

pub open spec fn is_diag_of(d: DiagView, l: Seq<char>) -> bool {
    exists|j: JsonDiag| j.read_from(l) && d == #[trigger] diag_of(j)
}

/// Rows, streams and diagnostics, each read from its line.
pub open spec fn rows_of(rows: Seq<RowView>, ls: Seq<Seq<char>>) -> bool {
    rows.len() == ls.len() && forall|i: int|
        0 <= i < rows.len() ==> is_row_of(#[trigger] rows[i], ls[i])
}

pub open spec fn streams_of(v: Seq<SummaryView>, ls: Seq<Seq<char>>) -> bool {
    v.len() == ls.len() && forall|i: int|
        0 <= i < v.len() ==> is_stream_of(#[trigger] v[i], ls[i])
}

pub open spec fn diags_of(v: Seq<DiagView>, ls: Seq<Seq<char>>) -> bool {
    v.len() == ls.len() && forall|i: int| 0 <= i < v.len() ==> is_diag_of(#[trigger] v[i], ls[i])
}

impl Imported {
    /// Whether this is what the lines hold.
    pub open spec fn holds(self, ls: Seq<Seq<char>>) -> bool {
        let n = ls.len() as int;
        exists|rows: Seq<RowView>|
            {
                let k = rows.len() as int;
                &&& #[trigger] rows_of(rows, lines_of_kind(ls, LineKind::Call, n))
                &&& snapshot::row_views(self.calls@) == snapshot::sorted_rows(rows, k)
                &&& self.active == snapshot::count_class(rows, 0, k)
                &&& self.completed == snapshot::count_class(rows, 1, k)
                &&& self.failed == snapshot::count_class(rows, 2, k)
            }
    }
}

/// Counts the calls that are active, completed and failed.
pub fn count_states(v: &Vec<CallSummary>) -> (r: (usize, usize, usize))
    ensures
        r.0 == snapshot::count_class(snapshot::row_views(v@), 0, v@.len() as int),
        r.1 == snapshot::count_class(snapshot::row_views(v@), 1, v@.len() as int),
        r.2 == snapshot::count_class(snapshot::row_views(v@), 2, v@.len() as int),
{
    let ghost rv = snapshot::row_views(v@);
    let mut a: usize = 0;
    let mut c: usize = 0;
    let mut f: usize = 0;
    let mut i: usize = 0;
    while i < v.len()
        invariant
            i <= v.len(),
            rv == snapshot::row_views(v@),
            a == snapshot::count_class(rv, 0, i as int),
            c == snapshot::count_class(rv, 1, i as int),
            f == snapshot::count_class(rv, 2, i as int),
            a + c + f == i,
        decreases v.len() - i,
    {
        assert(rv[i as int] == v@[i as int]@);
        match v[i].state {
            CallState::Dialing | CallState::Ringing | CallState::Active => {
                a += 1;
            },
            CallState::Completed => {
                c += 1;
            },
            CallState::Failed | CallState::Canceled => {
                f += 1;
            },
        }
        i += 1;
    }
    (a, c, f)
}

/// Reads an export back. Lines that are not its own are passed over.
pub fn import_lines(s: &str) -> (r: Imported)
    ensures
        r.holds(text::lines_of(s@)),
        streams_of(
            media::summary_views(r.streams@),
            lines_of_kind(
                text::lines_of(s@),
                LineKind::Stream,
                text::lines_of(s@).len() as int,
            ),
        ),
        diags_of(
            diagnostics::diag_views(r.diagnostics@),
            lines_of_kind(text::lines_of(s@), LineKind::Diag, text::lines_of(s@).len() as int),
        ),
        text::texts(r.buckets@) == lines_of_kind(
            text::lines_of(s@),
            LineKind::Bucket,
            text::lines_of(s@).len() as int,
        ),
{
    let t = chars_of(s);
    let v = lines(t.as_slice());
    let ghost ls = text::lines_of(s@);
    let mut calls: Vec<CallSummary> = Vec::new();
    let mut streams: Vec<StreamSummary> = Vec::new();
    let mut diags: Vec<Diagnostic> = Vec::new();
    let mut buckets: Vec<String> = Vec::new();
    let mut i: usize = 0;
    assert(text::texts(buckets@) =~= Seq::<Seq<char>>::empty());
    while i < v.len()
        invariant
            i <= v.len(),
            text::deep(v@) == ls,
            rows_of(
                snapshot::row_views(calls@),
                lines_of_kind(ls, LineKind::Call, i as int),
            ),
            streams_of(
                media::summary_views(streams@),
                lines_of_kind(ls, LineKind::Stream, i as int),
            ),
            diags_of(
                diagnostics::diag_views(diags@),
                lines_of_kind(ls, LineKind::Diag, i as int),
            ),
            text::texts(buckets@) == lines_of_kind(ls, LineKind::Bucket, i as int),
        decreases v.len() - i,
    {
        assert(ls[i as int] == v@[i as int]@);
        let c = trim(v[i].as_slice());
        let kind: LineKind = if c.len() == 0 {
            LineKind::Other
        } else {
            let l = string_of(c.as_slice());
            kind_from(&text_field(&json::parse(l.as_str()), "kind"))
        };
        assert(kind == kind_of(ls[i as int]));
        let line = string_of(c.as_slice());
        match kind {
            LineKind::Call => {
                let ghost before = calls@;
                let j = read_call(line.as_str());
                let ghost row = row_of(j);
                assert(is_row_of(row, line@));
                let r = import_call(j);
                calls.push(r);
                assert(snapshot::row_views(calls@) =~= snapshot::row_views(before).push(row));
            },
            LineKind::Stream => {
                let ghost before = streams@;
                let j = read_stream(line.as_str());
                let ghost sum = stream_of(j);
                assert(is_stream_of(sum, line@));
                let r = import_stream(j);
                streams.push(r);
                assert(media::summary_views(streams@) =~= media::summary_views(before).push(sum));
            },
            LineKind::Diag => {
                let ghost before = diags@;
                let j = read_diag(line.as_str());
                let ghost d = diag_of(j);
                assert(is_diag_of(d, line@));
                let r = import_diag(j);
                diags.push(r);
                assert(diagnostics::diag_views(diags@) =~= diagnostics::diag_views(before).push(
                    d,
                ));
            },
            LineKind::Bucket => {
                let ghost before = buckets@;
                let ghost lv = line@;
                buckets.push(line);
                assert(text::texts(buckets@) =~= text::texts(before).push(lv));
            },
            LineKind::Other => {},
        }
        i += 1;
    }
    assert(ls.len() == v@.len());
    let counts: (usize, usize, usize) = count_states(&calls);
    let ghost rows = snapshot::row_views(calls@);
    assert(rows_of(rows, lines_of_kind(ls, LineKind::Call, ls.len() as int)));
    let sorted = snapshot::sort_rows(calls);
    Imported {
        calls: sorted,
        streams,
        diagnostics: diags,
        buckets,
        active: counts.0,
        completed: counts.1,
        failed: counts.2,
    }
}

// ----------------------------- events -----------------------------

/// Whether a time lies in a range of seconds, both ends included.
pub open spec fn within(ts_us: u64, from: Option<u64>, to: Option<u64>) -> bool {
    &&& from matches Some(f) ==> ts_us >= f * 1_000_000
    &&& to matches Some(t) ==> ts_us <= t * 1_000_000
}

/// Whether an event falls into the range that is exported.
pub fn in_range(ts_us: u64, from: Option<u64>, to: Option<u64>) -> (r: bool)
    ensures
        r == within(ts_us, from, to),
{
    let after: bool = match from {
        Some(f) => ts_us as u128 >= f as u128 * 1_000_000,
        None => true,
    };
    let before: bool = match to {
        Some(t) => ts_us as u128 <= t as u128 * 1_000_000,
        None => true,
    };
    after && before
}

/// The stream that a snapshot in a log stands for, as an export shows it.
pub open spec fn exported_stream(e: StreamSnapEvt) -> SummaryView {
    SummaryView {
        call_id: Some(e.call_id@),
        ssrc: e.ssrc,
        flow: Some(e.flow),
        codec: text::opt_text(e.codec),
        payload_type: e.payload_type,
        packets: e.packets,
        lost: e.lost,
        expected: e.expected,
        loss_pct: e.loss_pct,
        jitter_ms: e.jitter_ms,
        mos: e.mos,
        direction: text::opt_text(e.direction),
        ..SummaryView::blank()
    }
}

pub fn export_stream(e: &StreamSnapEvt) -> (r: StreamSummary)
    ensures
        r@ == exported_stream(*e),
{
    let r = StreamSummary {
        call_id: Some(e.call_id.clone()),
        ssrc: e.ssrc,
        flow: Some(e.flow),
        codec: clone_opt(&e.codec),
        payload_type: e.payload_type,
        packets: e.packets,
        lost: e.lost,
        expected: e.expected,
        loss_pct: e.loss_pct,
        jitter_ms: e.jitter_ms,
        first_ts_us: None,
        last_ts_us: None,
        rtt_min_ms: None,
        rtt_avg_ms: None,
        rtt_max_ms: None,
        oneway_ms: None,
        mos: e.mos,
        direction: clone_opt(&e.direction),
        leg: None,
        via_turn: false,
        bytes: 0,
        history: Vec::new(),
    };
    assert(r@.history =~= SummaryView::blank().history);
    r
}

/// The stream that a snapshot in a log stands for, with all that was recorded of it.
pub open spec fn replayed_stream(e: StreamSnapEvt) -> SummaryView {
    SummaryView {
        bytes: e.bytes,
        first_ts_us: e.first_ts_us,
        last_ts_us: e.last_ts_us,
        rtt_min_ms: e.rtt_min_ms,
        rtt_avg_ms: e.rtt_avg_ms,
        rtt_max_ms: e.rtt_max_ms,
        oneway_ms: e.oneway_ms,
        leg: text::opt_text(e.leg),
        via_turn: e.via_turn,
        ..exported_stream(e)
    }
}

pub fn replay_stream(e: &StreamSnapEvt) -> (r: StreamSummary)
    ensures
        r@ == replayed_stream(*e),
{
    let s = export_stream(e);
    StreamSummary {
        bytes: e.bytes,
        first_ts_us: e.first_ts_us,
        last_ts_us: e.last_ts_us,
        rtt_min_ms: e.rtt_min_ms,
        rtt_avg_ms: e.rtt_avg_ms,
        rtt_max_ms: e.rtt_max_ms,
        oneway_ms: e.oneway_ms,
        leg: clone_opt(&e.leg),
        via_turn: e.via_turn,
        ..s
    }
}

/// The diagnostic that one in a log stands for.
pub open spec fn exported_diag(e: DiagEvt) -> DiagView {
    DiagView {
        ts_us: e.ts_us,
        call_id: e.call_id@,
        severity: tables::severity_numbered(e.severity),
        code: tables::code_named(e.code@),
        message: e.message@,
    }
}

pub fn export_diag(e: &DiagEvt) -> (r: Diagnostic)
    ensures
        r@ == exported_diag(*e),
{
    Diagnostic {
        ts_us: e.ts_us,
        call_id: e.call_id.clone(),
        severity: severity_from(e.severity),
        code: code_from_str(e.code.as_str()),
        message: e.message.clone(),
    }
}

/// What a record itself tells of its message.
pub open spec fn recorded(e: SipMsgEvt) -> MsgView {
    MsgView {
        ts_us: e.ts_us,
        flow: e.flow,
        is_request: e.is_request,
        method: match e.method {
            Some(m) => Some(tables::method_of(m@)),
            None => None,
        },
        status: e.status,
        call_id: e.call_id@,
        cseq: e.cseq,
        cseq_method: None,
        branch: text::opt_text(e.branch),
        from_tag: text::opt_text(e.from_tag),
        to_tag: text::opt_text(e.to_tag),
        from_uri: None,
        to_uri: None,
        raw: e.raw@,
        contact_addr: None,
        route_count: 0,
        record_route_count: 0,
        has_sdp: false,
    }
}

/// A recorded message made into one that can be analysed again: what its raw bytes
/// give, or else what the record itself holds.
pub fn evt_to_sipmsg(e: &SipMsgEvt) -> (r: SipMsg)
    ensures
        r@ == match sip::sip_message(e.ts_us, e.flow, e.raw@, None) {
            Some(m) => m,
            None => recorded(*e),
        },
{
    if let Some(m) = parse_sip(e.ts_us, e.flow, e.raw.as_slice(), None) {
        return m;
    }
    SipMsg {
        ts_us: e.ts_us,
        flow: e.flow,
        is_request: e.is_request,
        method: match &e.method {
            Some(m) => Some(tables::parse_method(m.as_str())),
            None => None,
        },
        status: e.status,
        call_id: e.call_id.clone(),
        cseq: e.cseq,
        cseq_method: None,
        branch: clone_opt(&e.branch),
        from_tag: clone_opt(&e.from_tag),
        to_tag: clone_opt(&e.to_tag),
        from_uri: None,
        to_uri: None,
        raw: crate::octets::to_vec(e.raw.as_slice()),
        contact_addr: None,
        route_count: 0,
        record_route_count: 0,
        has_sdp: false,
    }
}

// ----------------------------- focus -----------------------------

/// Where a call stands among the rows, from `i` on.
pub open spec fn row_index(rows: Seq<RowView>, id: Seq<char>, i: int) -> Option<int>
    decreases rows.len() - i,
{
    if i >= rows.len() {
        None
    } else if rows[i].call_id == id {
        Some(i)
    } else {
        row_index(rows, id, i + 1)
    }
}

/// The detail of an exported call: its row and its diagnostics, for an export
/// holds no messages and streams of a call.
pub open spec fn focus_of(row: RowView, diags: Seq<DiagView>) -> FocusView {
    FocusView {
        call_id: row.call_id,
        state: row.state,
        from_user: row.from_user,
        to_user: row.to_user,
        caller_ua: None,
        callee_ua: None,
        caller_addr: None,
        caller_ip: None,
        callee_addr: None,
        messages: Seq::empty(),
        legs: Seq::empty(),
        b2bua: None,
        streams: Seq::empty(),
        diagnostics: snapshot::diags_of(diags, row.call_id, diags.len() as int),
        negotiated_endpoints: Seq::empty(),
        pdd_ms: None,
        setup_ms: None,
        ring_ms: None,
        early_media: false,
        invite_ts: None,
        trying_ts: None,
        ringing_ts: None,
        answer_ts: None,
        bye_ts: None,
        end_ts: None,
        hangup_by: None,
        hangup_code: None,
        hangup_reason: None,
    }
}

fn diags_for(v: &Vec<Diagnostic>, id: &str) -> (r: Vec<Diagnostic>)
    ensures
        diagnostics::diag_views(r@) == snapshot::diags_of(
            diagnostics::diag_views(v@),
            id@,
            v@.len() as int,
        ),
{
    let ghost dv = diagnostics::diag_views(v@);
    let mut out: Vec<Diagnostic> = Vec::new();
    let mut i: usize = 0;
    assert(diagnostics::diag_views(out@) =~= Seq::<DiagView>::empty());
    while i < v.len()
        invariant
            i <= v.len(),
            dv == diagnostics::diag_views(v@),
            diagnostics::diag_views(out@) == snapshot::diags_of(dv, id@, i as int),
        decreases v.len() - i,
    {
        assert(dv[i as int] == v@[i as int]@);
        if str_eq(v[i].call_id.as_str(), id) {
            let ghost before = out@;
            let d = v[i].copy();
            out.push(d);
            assert(diagnostics::diag_views(out@) =~= diagnostics::diag_views(before).push(d@));
        }
        i += 1;
    }
    out
}

/// The detail of a call of an export.
pub fn build_jsonl_focus(calls: &Vec<CallSummary>, diags: &Vec<Diagnostic>, id: &str) -> (r: Option<
    Focus,
>)
    ensures
        snapshot::focus_view(r) == match row_index(snapshot::row_views(calls@), id@, 0) {
            Some(i) => Some(
                focus_of(snapshot::row_views(calls@)[i], diagnostics::diag_views(diags@)),
            ),
            None => None,
        },
{
    let ghost rv = snapshot::row_views(calls@);
    let mut i: usize = 0;
    while i < calls.len()
        invariant
            i <= calls.len(),
            rv == snapshot::row_views(calls@),
            row_index(rv, id@, 0) == row_index(rv, id@, i as int),
        decreases calls.len() - i,
    {
        assert(rv[i as int] == calls@[i as int]@);
        if str_eq(calls[i].call_id.as_str(), id) {
            let f = Focus {
                call_id: calls[i].call_id.clone(),
                state: calls[i].state,
                from_user: clone_opt(&calls[i].from_user),
                to_user: clone_opt(&calls[i].to_user),
                caller_ua: None,
                callee_ua: None,
                caller_addr: None,
                caller_ip: None,
                callee_addr: None,
                messages: Vec::new(),
                legs: Vec::new(),
                b2bua: None,
                streams: Vec::new(),
                diagnostics: diags_for(diags, id),
                negotiated_endpoints: Vec::new(),
                pdd_ms: None,
                setup_ms: None,
                ring_ms: None,
                early_media: false,
                invite_ts: None,
                trying_ts: None,
                ringing_ts: None,
                answer_ts: None,
                bye_ts: None,
                end_ts: None,
                hangup_by: None,
                hangup_code: None,
                hangup_reason: None,
            };
            proof {
                let want = focus_of(rv[i as int], diagnostics::diag_views(diags@));
                assert(f@.messages =~= want.messages);
                assert(f@.legs =~= want.legs);
                assert(f@.streams =~= want.streams);
                assert(f@.negotiated_endpoints =~= want.negotiated_endpoints);
            }
            return Some(f);
        }
        i += 1;
    }
    None
}

} // verus!
