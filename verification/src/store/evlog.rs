//! The binary event log: events, their payloads, and the framed records that
//! a log is made of.
//!
//! A log is a header followed by records. A record is the time since the
//! previous one, a type byte, the payload's length and the payload.
use crate::model::packet::Flow5Tuple;
use crate::model::stats::{HealthBucket, MetricSet, Real64};
use crate::store::codec::{
    read_bytes, read_call_kind, read_exact, read_f64, read_flag, read_flow, read_opt_f64,
    read_opt_string, read_opt_u16, read_opt_u32, read_opt_u64, read_opt_u8, read_string, read_u32,
    read_u8, read_varint, write_be, write_bytes, write_call_kind, write_f64, write_flag,
    write_flow, write_opt_f64, write_opt_string, write_opt_u16, write_opt_u32, write_opt_u64,
    write_opt_u8, write_string, write_u32, write_u8, write_varint, ByteReader,
};
use crate::octets;
use crate::store::wire;
use crate::store::wire::{CallEvtKind, EvlogError, FieldKind, FieldVal};
use crate::text;
use crate::text::push_dec;
use vstd::prelude::*;
use vstd::utf8::*;

verus! {

/// First bytes of a log: "SMON".
pub const MAGIC: [u8; 4] = [0x53, 0x4D, 0x4F, 0x4E];

/// Version 2: the header's offset field carries the recording machine's UTC
/// offset; version 1 always wrote zero there, which reads as "unset".
pub const VERSION: u16 = 2;

/// Cap for a single record's payload (32 MiB). A longer one means that the
/// file is corrupt.
pub const MAX_RECORD_LEN: usize = 33_554_432;

// ----------------------------- events -----------------------------

/// One SIP message as it went over the wire.
#[derive(Debug, Clone)]
pub struct SipMsgEvt {
    pub ts_us: u64,
    pub flow: Flow5Tuple,
    pub is_request: bool,
    pub method: Option<String>,
    pub status: Option<u16>,
    pub call_id: String,
    pub cseq: Option<u32>,
    pub branch: Option<String>,
    pub from_tag: Option<String>,
    pub to_tag: Option<String>,
    pub raw: Vec<u8>,
}

impl SipMsgEvt {
    /// The payload, field by field.
    pub open spec fn fields(self) -> Seq<FieldVal> {
        seq![
            FieldVal::Flow(self.flow),
            FieldVal::Flag(self.is_request),
            FieldVal::OptText(text::opt_text(self.method)),
            FieldVal::OptU16(self.status),
            FieldVal::Text(self.call_id@),
            FieldVal::OptU32(self.cseq),
            FieldVal::OptText(text::opt_text(self.branch)),
            FieldVal::OptText(text::opt_text(self.from_tag)),
            FieldVal::OptText(text::opt_text(self.to_tag)),
            FieldVal::Blob(self.raw@),
        ]
    }
}

/// One transaction: a request and the response to it.
#[derive(Debug, Clone)]
pub struct TxnEvt {
    pub ts_us: u64,
    pub call_id: String,
    pub branch: String,
    pub method: String,
    pub response_code: Option<u16>,
    pub delay_ms: Option<u32>,
}

impl TxnEvt {
    /// The payload, field by field.
    pub open spec fn fields(self) -> Seq<FieldVal> {
        seq![
            FieldVal::Text(self.call_id@),
            FieldVal::Text(self.branch@),
            FieldVal::Text(self.method@),
            FieldVal::OptU16(self.response_code),
            FieldVal::OptU32(self.delay_ms),
        ]
    }
}

/// The state of a call at one point of its life.
#[derive(Debug, Clone)]
pub struct CallEvt {
    pub ts_us: u64,
    pub call_id: String,
    pub kind: CallEvtKind,
    pub from_user: Option<String>,
    pub to_user: Option<String>,
    pub from_uri: Option<String>,
    pub to_uri: Option<String>,
    pub state: u8,
    pub outcome: u8,
    pub invite_ts: Option<u64>,
    pub trying_ts: Option<u64>,
    pub ringing_ts: Option<u64>,
    pub answer_ts: Option<u64>,
    pub bye_ts: Option<u64>,
    pub end_ts: Option<u64>,
    pub pdd_ms: Option<u32>,
    pub setup_ms: Option<u32>,
    pub hangup_code: Option<u32>,
    pub hangup_reason: Option<String>,
    pub pkts_sip: u64,
    pub pkts_rtp: u64,
    pub pkts_rtcp: u64,
    pub bytes: u64,
}

impl CallEvt {
    /// The payload, field by field.
    pub open spec fn fields(self) -> Seq<FieldVal> {
        seq![
            FieldVal::Text(self.call_id@),
            FieldVal::CallKind(self.kind),
            FieldVal::OptText(text::opt_text(self.from_user)),
            FieldVal::OptText(text::opt_text(self.to_user)),
            FieldVal::OptText(text::opt_text(self.from_uri)),
            FieldVal::OptText(text::opt_text(self.to_uri)),
            FieldVal::Byte(self.state),
            FieldVal::Byte(self.outcome),
            FieldVal::OptU64(self.invite_ts),
            FieldVal::OptU64(self.trying_ts),
            FieldVal::OptU64(self.ringing_ts),
            FieldVal::OptU64(self.answer_ts),
            FieldVal::OptU64(self.bye_ts),
            FieldVal::OptU64(self.end_ts),
            FieldVal::OptU32(self.pdd_ms),
            FieldVal::OptU32(self.setup_ms),
            FieldVal::OptU32(self.hangup_code),
            FieldVal::OptText(text::opt_text(self.hangup_reason)),
            FieldVal::Varint(self.pkts_sip),
            FieldVal::Varint(self.pkts_rtp),
            FieldVal::Varint(self.pkts_rtcp),
            FieldVal::Varint(self.bytes),
        ]
    }
}

/// Counters and quality of one RTP stream.
#[derive(Debug, Clone)]
pub struct StreamSnapEvt {
    pub ts_us: u64,
    pub call_id: String,
    pub ssrc: u32,
    pub flow: Flow5Tuple,
    pub codec: Option<String>,
    pub payload_type: Option<u8>,
    pub packets: u64,
    pub lost: u64,
    pub expected: u64,
    pub loss_pct: Real64,
    pub jitter_ms: Option<Real64>,
    pub mos: Option<Real64>,
    pub direction: Option<String>,
    /// Cumulative RTP bytes observed; older logs stop before this field.
    pub bytes: u64,
    pub first_ts_us: Option<u64>,
    pub last_ts_us: Option<u64>,
    pub rtt_min_ms: Option<Real64>,
    pub rtt_avg_ms: Option<Real64>,
    pub rtt_max_ms: Option<Real64>,
    pub oneway_ms: Option<Real64>,
    /// TURN relay leg label ("client"/"peer") if the stream traverses a relay.
    pub leg: Option<String>,
    pub via_turn: bool,
}

impl StreamSnapEvt {
    /// The payload, field by field.
    pub open spec fn fields(self) -> Seq<FieldVal> {
        seq![
            FieldVal::Text(self.call_id@),
            FieldVal::U32Be(self.ssrc),
            FieldVal::Flow(self.flow),
            FieldVal::OptText(text::opt_text(self.codec)),
            FieldVal::OptU8(self.payload_type),
            FieldVal::Varint(self.packets),
            FieldVal::Varint(self.lost),
            FieldVal::Varint(self.expected),
            FieldVal::F64(self.loss_pct),
            FieldVal::OptF64(self.jitter_ms),
            FieldVal::OptF64(self.mos),
            FieldVal::OptText(text::opt_text(self.direction)),
            FieldVal::Varint(self.bytes),
            FieldVal::OptU64(self.first_ts_us),
            FieldVal::OptU64(self.last_ts_us),
            FieldVal::OptF64(self.rtt_min_ms),
            FieldVal::OptF64(self.rtt_avg_ms),
            FieldVal::OptF64(self.rtt_max_ms),
            FieldVal::OptF64(self.oneway_ms),
            FieldVal::OptText(text::opt_text(self.leg)),
            FieldVal::Flag(self.via_turn),
        ]
    }
}

/// One round-trip-time sample.
#[derive(Debug, Clone)]
pub struct RtcpRttEvt {
    pub ts_us: u64,
    pub call_id: String,
    pub ssrc: u32,
    pub rtt_ms: Real64,
    pub oneway_ms: Option<Real64>,
}

impl RtcpRttEvt {
    /// The payload, field by field.
    pub open spec fn fields(self) -> Seq<FieldVal> {
        seq![
            FieldVal::Text(self.call_id@),
            FieldVal::U32Be(self.ssrc),
            FieldVal::F64(self.rtt_ms),
            FieldVal::OptF64(self.oneway_ms),
        ]
    }
}

/// A problem met while capturing.
#[derive(Debug, Clone)]
pub struct ErrorEvt {
    pub ts_us: u64,
    pub kind: String,
    pub msg: String,
}

impl ErrorEvt {
    /// The payload, field by field.
    pub open spec fn fields(self) -> Seq<FieldVal> {
        seq![
            FieldVal::Text(self.kind@),
            FieldVal::Text(self.msg@),
        ]
    }
}

/// A diagnostic finding.
#[derive(Debug, Clone)]
pub struct DiagEvt {
    pub ts_us: u64,
    pub call_id: String,
    /// 0 info, 1 warning, 2 critical.
    pub severity: u8,
    pub code: String,
    pub message: String,
}

impl DiagEvt {
    /// The payload, field by field.
    pub open spec fn fields(self) -> Seq<FieldVal> {
        seq![
            FieldVal::Text(self.call_id@),
            FieldVal::Byte(self.severity),
            FieldVal::Text(self.code@),
            FieldVal::Text(self.message@),
        ]
    }
}

/// The payload of a health bucket, field by field.
pub open spec fn health_fields(e: HealthBucket) -> Seq<FieldVal> {
    seq![
        FieldVal::Varint(e.bucket_us),
        FieldVal::Text(e.dim_key@),
        FieldVal::Varint(e.metrics.calls),
        FieldVal::Varint(e.metrics.answered),
        FieldVal::Varint(e.metrics.failed),
        FieldVal::F64(e.metrics.pdd_sum_ms),
        FieldVal::Varint(e.metrics.pdd_n),
        FieldVal::F64(e.metrics.jitter_sum_ms),
        FieldVal::Varint(e.metrics.jitter_n),
        FieldVal::F64(e.metrics.loss_sum_pct),
        FieldVal::Varint(e.metrics.loss_n),
        FieldVal::F64(e.metrics.rtt_sum_ms),
        FieldVal::Varint(e.metrics.rtt_n),
        FieldVal::F64(e.metrics.mos_sum),
        FieldVal::Varint(e.metrics.mos_n),
    ]
}

/// One entry of the log.
#[derive(Debug, Clone)]
pub enum Event {
    SipMsg(SipMsgEvt),
    Txn(TxnEvt),
    Call(CallEvt),
    StreamSnap(StreamSnapEvt),
    RtcpRtt(RtcpRttEvt),
    HealthBucket(HealthBucket),
    Error(ErrorEvt),
    Diag(DiagEvt),
}

/// An event as a reader sees it: the type byte, the time and the payload.
pub struct EventView {
    pub ty: u8,
    pub ts_us: u64,
    pub fields: Seq<FieldVal>,
}

impl View for Event {
    type V = EventView;

    open spec fn view(&self) -> EventView {
        EventView { ty: self.type_code(), ts_us: self.spec_ts_us(), fields: self.fields() }
    }
}

impl Event {
    /// The type byte of the record.
    pub open spec fn type_code(self) -> u8 {
        match self {
            Event::SipMsg(_) => 1,
            Event::Txn(_) => 2,
            Event::Call(_) => 3,
            Event::StreamSnap(_) => 4,
            Event::RtcpRtt(_) => 5,
            Event::HealthBucket(_) => 6,
            Event::Error(_) => 7,
            Event::Diag(_) => 8,
        }
    }

    pub open spec fn fields(self) -> Seq<FieldVal> {
        match self {
            Event::SipMsg(e) => e.fields(),
            Event::Txn(e) => e.fields(),
            Event::Call(e) => e.fields(),
            Event::StreamSnap(e) => e.fields(),
            Event::RtcpRtt(e) => e.fields(),
            Event::HealthBucket(e) => health_fields(e),
            Event::Error(e) => e.fields(),
            Event::Diag(e) => e.fields(),
        }
    }

    pub open spec fn spec_ts_us(self) -> u64 {
        match self {
            Event::SipMsg(e) => e.ts_us,
            Event::Txn(e) => e.ts_us,
            Event::Call(e) => e.ts_us,
            Event::StreamSnap(e) => e.ts_us,
            Event::RtcpRtt(e) => e.ts_us,
            Event::HealthBucket(e) => e.bucket_us,
            Event::Error(e) => e.ts_us,
            Event::Diag(e) => e.ts_us,
        }
    }

    /// Every length in the payload fits its prefix.
    pub open spec fn fits(self) -> bool {
        wire::all_fit(self.fields())
    }

    /// When the event happened.
    pub fn ts_us(&self) -> (r: u64)
        ensures
            r == self.spec_ts_us(),
    {
        match self {
            Event::SipMsg(e) => e.ts_us,
            Event::Txn(e) => e.ts_us,
            Event::Call(e) => e.ts_us,
            Event::StreamSnap(e) => e.ts_us,
            Event::RtcpRtt(e) => e.ts_us,
            Event::HealthBucket(e) => e.bucket_us,
            Event::Error(e) => e.ts_us,
            Event::Diag(e) => e.ts_us,
        }
    }
}

// ----------------------------- encoding -----------------------------

fn write_sip_msg(buf: &mut Vec<u8>, e: &SipMsgEvt)
    requires
        old(buf)@.len() == 0,
        wire::all_fit(e.fields()),
    ensures
        final(buf)@ == wire::payload_bytes(e.fields()),
{
    let ghost vs = e.fields();
    proof {
        assert(buf@ =~= Seq::<u8>::empty());
        reveal_with_fuel(wire::fields_bytes, 11);
        assert(vs[2].fits());
        assert(vs[6].fits());
        assert(vs[7].fits());
        assert(vs[8].fits());
    }
    write_flow(buf, &e.flow);
    write_flag(buf, e.is_request);
    write_opt_string(buf, &e.method);
    write_opt_u16(buf, e.status);
    write_string(buf, e.call_id.as_str());
    write_opt_u32(buf, e.cseq);
    write_opt_string(buf, &e.branch);
    write_opt_string(buf, &e.from_tag);
    write_opt_string(buf, &e.to_tag);
    write_bytes(buf, e.raw.as_slice());
}

fn write_txn(buf: &mut Vec<u8>, e: &TxnEvt)
    requires
        old(buf)@.len() == 0,
        wire::all_fit(e.fields()),
    ensures
        final(buf)@ == wire::payload_bytes(e.fields()),
{
    let ghost vs = e.fields();
    proof {
        assert(buf@ =~= Seq::<u8>::empty());
        reveal_with_fuel(wire::fields_bytes, 6);
    }
    write_string(buf, e.call_id.as_str());
    write_string(buf, e.branch.as_str());
    write_string(buf, e.method.as_str());
    write_opt_u16(buf, e.response_code);
    write_opt_u32(buf, e.delay_ms);
}

fn write_call(buf: &mut Vec<u8>, e: &CallEvt)
    requires
        old(buf)@.len() == 0,
        wire::all_fit(e.fields()),
    ensures
        final(buf)@ == wire::payload_bytes(e.fields()),
{
    let ghost vs = e.fields();
    proof {
        assert(buf@ =~= Seq::<u8>::empty());
        reveal_with_fuel(wire::fields_bytes, 23);
        assert(vs[2].fits());
        assert(vs[3].fits());
        assert(vs[4].fits());
        assert(vs[5].fits());
        assert(vs[17].fits());
    }
    write_string(buf, e.call_id.as_str());
    write_call_kind(buf, e.kind);
    write_opt_string(buf, &e.from_user);
    write_opt_string(buf, &e.to_user);
    write_opt_string(buf, &e.from_uri);
    write_opt_string(buf, &e.to_uri);
    write_u8(buf, e.state);
    write_u8(buf, e.outcome);
    write_opt_u64(buf, e.invite_ts);
    write_opt_u64(buf, e.trying_ts);
    write_opt_u64(buf, e.ringing_ts);
    write_opt_u64(buf, e.answer_ts);
    write_opt_u64(buf, e.bye_ts);
    write_opt_u64(buf, e.end_ts);
    write_opt_u32(buf, e.pdd_ms);
    write_opt_u32(buf, e.setup_ms);
    write_opt_u32(buf, e.hangup_code);
    write_opt_string(buf, &e.hangup_reason);
    write_varint(buf, e.pkts_sip);
    write_varint(buf, e.pkts_rtp);
    write_varint(buf, e.pkts_rtcp);
    write_varint(buf, e.bytes);
}

fn write_stream_snap(buf: &mut Vec<u8>, e: &StreamSnapEvt)
    requires
        old(buf)@.len() == 0,
        wire::all_fit(e.fields()),
    ensures
        final(buf)@ == wire::payload_bytes(e.fields()),
{
    let ghost vs = e.fields();
    proof {
        assert(buf@ =~= Seq::<u8>::empty());
        reveal_with_fuel(wire::fields_bytes, 22);
        assert(vs[3].fits());
        assert(vs[11].fits());
        assert(vs[19].fits());
    }
    write_string(buf, e.call_id.as_str());
    write_u32(buf, e.ssrc);
    write_flow(buf, &e.flow);
    write_opt_string(buf, &e.codec);
    write_opt_u8(buf, e.payload_type);
    write_varint(buf, e.packets);
    write_varint(buf, e.lost);
    write_varint(buf, e.expected);
    write_f64(buf, e.loss_pct);
    write_opt_f64(buf, e.jitter_ms);
    write_opt_f64(buf, e.mos);
    write_opt_string(buf, &e.direction);
    write_varint(buf, e.bytes);
    write_opt_u64(buf, e.first_ts_us);
    write_opt_u64(buf, e.last_ts_us);
    write_opt_f64(buf, e.rtt_min_ms);
    write_opt_f64(buf, e.rtt_avg_ms);
    write_opt_f64(buf, e.rtt_max_ms);
    write_opt_f64(buf, e.oneway_ms);
    write_opt_string(buf, &e.leg);
    write_flag(buf, e.via_turn);
}

fn write_rtcp_rtt(buf: &mut Vec<u8>, e: &RtcpRttEvt)
    requires
        old(buf)@.len() == 0,
        wire::all_fit(e.fields()),
    ensures
        final(buf)@ == wire::payload_bytes(e.fields()),
{
    let ghost vs = e.fields();
    proof {
        assert(buf@ =~= Seq::<u8>::empty());
        reveal_with_fuel(wire::fields_bytes, 5);
    }
    write_string(buf, e.call_id.as_str());
    write_u32(buf, e.ssrc);
    write_f64(buf, e.rtt_ms);
    write_opt_f64(buf, e.oneway_ms);
}

fn write_health(buf: &mut Vec<u8>, e: &HealthBucket)
    requires
        old(buf)@.len() == 0,
        wire::all_fit(health_fields(*e)),
    ensures
        final(buf)@ == wire::payload_bytes(health_fields(*e)),
{
    let ghost vs = health_fields(*e);
    proof {
        assert(buf@ =~= Seq::<u8>::empty());
        reveal_with_fuel(wire::fields_bytes, 16);
    }
    write_varint(buf, e.bucket_us);
    write_string(buf, e.dim_key.as_str());
    write_varint(buf, e.metrics.calls);
    write_varint(buf, e.metrics.answered);
    write_varint(buf, e.metrics.failed);
    write_f64(buf, e.metrics.pdd_sum_ms);
    write_varint(buf, e.metrics.pdd_n);
    write_f64(buf, e.metrics.jitter_sum_ms);
    write_varint(buf, e.metrics.jitter_n);
    write_f64(buf, e.metrics.loss_sum_pct);
    write_varint(buf, e.metrics.loss_n);
    write_f64(buf, e.metrics.rtt_sum_ms);
    write_varint(buf, e.metrics.rtt_n);
    write_f64(buf, e.metrics.mos_sum);
    write_varint(buf, e.metrics.mos_n);
}

fn write_error(buf: &mut Vec<u8>, e: &ErrorEvt)
    requires
        old(buf)@.len() == 0,
        wire::all_fit(e.fields()),
    ensures
        final(buf)@ == wire::payload_bytes(e.fields()),
{
    let ghost vs = e.fields();
    proof {
        assert(buf@ =~= Seq::<u8>::empty());
        reveal_with_fuel(wire::fields_bytes, 3);
    }
    write_string(buf, e.kind.as_str());
    write_string(buf, e.msg.as_str());
}

fn write_diag(buf: &mut Vec<u8>, e: &DiagEvt)
    requires
        old(buf)@.len() == 0,
        wire::all_fit(e.fields()),
    ensures
        final(buf)@ == wire::payload_bytes(e.fields()),
{
    let ghost vs = e.fields();
    proof {
        assert(buf@ =~= Seq::<u8>::empty());
        reveal_with_fuel(wire::fields_bytes, 5);
    }
    write_string(buf, e.call_id.as_str());
    write_u8(buf, e.severity);
    write_string(buf, e.code.as_str());
    write_string(buf, e.message.as_str());
}

/// Encodes one event's payload into the caller's buffer and returns the type
/// byte of its record.
pub fn encode_event_payload(buf: &mut Vec<u8>, ev: &Event) -> (ty: u8)
    requires
        ev.fits(),
    ensures
        final(buf)@ == wire::payload_bytes(ev.fields()),
        ty == ev.type_code(),
{
    buf.clear();
    match ev {
        Event::SipMsg(e) => {
            write_sip_msg(buf, e);
            1
        },
        Event::Txn(e) => {
            write_txn(buf, e);
            2
        },
        Event::Call(e) => {
            write_call(buf, e);
            3
        },
        Event::StreamSnap(e) => {
            write_stream_snap(buf, e);
            4
        },
        Event::RtcpRtt(e) => {
            write_rtcp_rtt(buf, e);
            5
        },
        Event::HealthBucket(e) => {
            write_health(buf, e);
            6
        },
        Event::Error(e) => {
            write_error(buf, e);
            7
        },
        Event::Diag(e) => {
            write_diag(buf, e);
            8
        },
    }
}

// ----------------------------- decoding -----------------------------

pub open spec fn sip_msg_kinds() -> Seq<FieldKind> {
    seq![
        FieldKind::Flow,
        FieldKind::Flag,
        FieldKind::OptText,
        FieldKind::OptU16,
        FieldKind::Text,
        FieldKind::OptU32,
        FieldKind::OptText,
        FieldKind::OptText,
        FieldKind::OptText,
        FieldKind::Blob,
    ]
}

pub open spec fn txn_kinds() -> Seq<FieldKind> {
    seq![
        FieldKind::Text,
        FieldKind::Text,
        FieldKind::Text,
        FieldKind::OptU16,
        FieldKind::OptU32,
    ]
}

pub open spec fn call_kinds() -> Seq<FieldKind> {
    seq![
        FieldKind::Text,
        FieldKind::CallKind,
        FieldKind::OptText,
        FieldKind::OptText,
        FieldKind::OptText,
        FieldKind::OptText,
        FieldKind::Byte,
        FieldKind::Byte,
        FieldKind::OptU64,
        FieldKind::OptU64,
        FieldKind::OptU64,
        FieldKind::OptU64,
        FieldKind::OptU64,
        FieldKind::OptU64,
        FieldKind::OptU32,
        FieldKind::OptU32,
        FieldKind::OptU32,
        FieldKind::OptText,
        FieldKind::Varint,
        FieldKind::Varint,
        FieldKind::Varint,
        FieldKind::Varint,
    ]
}

pub open spec fn stream_snap_kinds() -> Seq<FieldKind> {
    seq![
        FieldKind::Text,
        FieldKind::U32Be,
        FieldKind::Flow,
        FieldKind::OptText,
        FieldKind::OptU8,
        FieldKind::Varint,
        FieldKind::Varint,
        FieldKind::Varint,
        FieldKind::F64,
        FieldKind::OptF64,
        FieldKind::OptF64,
        FieldKind::OptText,
        FieldKind::Varint,
        FieldKind::OptU64,
        FieldKind::OptU64,
        FieldKind::OptF64,
        FieldKind::OptF64,
        FieldKind::OptF64,
        FieldKind::OptF64,
        FieldKind::OptText,
        FieldKind::Flag,
    ]
}

pub open spec fn rtcp_rtt_kinds() -> Seq<FieldKind> {
    seq![
        FieldKind::Text,
        FieldKind::U32Be,
        FieldKind::F64,
        FieldKind::OptF64,
    ]
}

pub open spec fn health_kinds() -> Seq<FieldKind> {
    seq![
        FieldKind::Varint,
        FieldKind::Text,
        FieldKind::Varint,
        FieldKind::Varint,
        FieldKind::Varint,
        FieldKind::F64,
        FieldKind::Varint,
        FieldKind::F64,
        FieldKind::Varint,
        FieldKind::F64,
        FieldKind::Varint,
        FieldKind::F64,
        FieldKind::Varint,
        FieldKind::F64,
        FieldKind::Varint,
    ]
}

pub open spec fn error_kinds() -> Seq<FieldKind> {
    seq![
        FieldKind::Text,
        FieldKind::Text,
    ]
}

pub open spec fn diag_kinds() -> Seq<FieldKind> {
    seq![
        FieldKind::Text,
        FieldKind::Byte,
        FieldKind::Text,
        FieldKind::Text,
    ]
}

/// The layout of the payload that a type byte announces.
pub open spec fn kinds(ty: u8) -> Seq<FieldKind> {
    match ty {
        1 => sip_msg_kinds(),
        2 => txn_kinds(),
        3 => call_kinds(),
        4 => stream_snap_kinds(),
        5 => rtcp_rtt_kinds(),
        6 => health_kinds(),
        7 => error_kinds(),
        8 => diag_kinds(),
        _ => Seq::empty(),
    }
}

/// The fields of a stream record that older logs hold.
pub open spec fn stream_head_kinds() -> Seq<FieldKind> {
    seq![

        FieldKind::Text,
        FieldKind::U32Be,
        FieldKind::Flow,
        FieldKind::OptText,
        FieldKind::OptU8,
        FieldKind::Varint,
        FieldKind::Varint,
        FieldKind::Varint,
        FieldKind::F64,
        FieldKind::OptF64,
        FieldKind::OptF64,
        FieldKind::OptText,
    ]
}

/// What a reader takes the fields to be that an older stream record lacks.
pub open spec fn stream_tail_defaults() -> Seq<FieldVal> {
    seq![
        FieldVal::Varint(0),
        FieldVal::OptU64(None),
        FieldVal::OptU64(None),
        FieldVal::OptF64(None),
        FieldVal::OptF64(None),
        FieldVal::OptF64(None),
        FieldVal::OptF64(None),
        FieldVal::OptText(None),
        FieldVal::Flag(false),
    ]
}

/// The fields of a payload of a known type. Bytes behind the last field are
/// ignored; a stream record may stop after its head.
pub open spec fn known_payload_fields(ty: u8, b: Seq<u8>) -> Result<Seq<FieldVal>, EvlogError> {
    if ty == 4 {
        match wire::fields_read(stream_head_kinds(), 0, Seq::empty(), b, 0) {
            Err(e) => Err(e),
            Ok((vs, p)) => if p >= b.len() {
                Ok(vs + stream_tail_defaults())
            } else {
                match wire::fields_read(kinds(4), stream_head_kinds().len(), vs, b, p) {
                    Err(e) => Err(e),
                    Ok((ws, _)) => Ok(ws),
                }
            },
        }
    } else {
        match wire::fields_read(kinds(ty), 0, Seq::empty(), b, 0) {
            Err(e) => Err(e),
            Ok((vs, _)) => Ok(vs),
        }
    }
}

/// The event that stands for a record of a type this version does not know.
pub open spec fn unknown_event(ty: u8, ts_us: u64) -> EventView {
    EventView {
        ty: 7,
        ts_us,
        fields: seq![
            FieldVal::Text("unknown_event"@),
            FieldVal::Text("skipped event type "@ + text::dec(ty as nat)),
        ],
    }
}

/// What a payload means. A health bucket carries its own time.
#[verifier::opaque]
pub open spec fn payload_read(ty: u8, ts_us: u64, b: Seq<u8>) -> Result<EventView, EvlogError> {
    if 1 <= ty <= 8 {
        match known_payload_fields(ty, b) {
            Err(e) => Err(e),
            Ok(vs) => Ok(
                EventView {
                    ty,
                    ts_us: if ty == 6 {
                        vs[0]->Varint_0
                    } else {
                        ts_us
                    },
                    fields: vs,
                },
            ),
        }
    } else {
        Ok(unknown_event(ty, ts_us))
    }
}

fn read_sip_msg(r: &mut ByteReader, ts_us: u64) -> (res: Result<SipMsgEvt, EvlogError>)
    requires
        old(r).wf(),
        old(r).pos == 0,
    ensures
        match wire::fields_read(sip_msg_kinds(), 0, Seq::empty(), old(r).data@, 0) {
            Ok((vs, _)) => res matches Ok(e) && e.fields() == vs && e.ts_us == ts_us,
            Err(e) => res matches Err(f) && e == f,
        },
{
    let ghost b = r.data@;
    let ghost ks = sip_msg_kinds();
    proof {
        reveal_with_fuel(wire::fields_read, 11);
    }
    let flow = match read_flow(r) {
        Ok(v) => v,
        Err(e) => return Err(e),
    };
    let is_request = match read_flag(r) {
        Ok(v) => v,
        Err(e) => return Err(e),
    };
    let method = match read_opt_string(r) {
        Ok(v) => v,
        Err(e) => return Err(e),
    };
    let status = match read_opt_u16(r) {
        Ok(v) => v,
        Err(e) => return Err(e),
    };
    let call_id = match read_string(r) {
        Ok(v) => v,
        Err(e) => return Err(e),
    };
    let cseq = match read_opt_u32(r) {
        Ok(v) => v,
        Err(e) => return Err(e),
    };
    let branch = match read_opt_string(r) {
        Ok(v) => v,
        Err(e) => return Err(e),
    };
    let from_tag = match read_opt_string(r) {
        Ok(v) => v,
        Err(e) => return Err(e),
    };
    let to_tag = match read_opt_string(r) {
        Ok(v) => v,
        Err(e) => return Err(e),
    };
    let raw = match read_bytes(r) {
        Ok(v) => v,
        Err(e) => return Err(e),
    };
    Ok(SipMsgEvt {
        ts_us,
        flow,
        is_request,
        method,
        status,
        call_id,
        cseq,
        branch,
        from_tag,
        to_tag,
        raw,
    })
}

fn read_txn(r: &mut ByteReader, ts_us: u64) -> (res: Result<TxnEvt, EvlogError>)
    requires
        old(r).wf(),
        old(r).pos == 0,
    ensures
        match wire::fields_read(txn_kinds(), 0, Seq::empty(), old(r).data@, 0) {
            Ok((vs, _)) => res matches Ok(e) && e.fields() == vs && e.ts_us == ts_us,
            Err(e) => res matches Err(f) && e == f,
        },
{
    let ghost b = r.data@;
    let ghost ks = txn_kinds();
    proof {
        reveal_with_fuel(wire::fields_read, 6);
    }
    let call_id = match read_string(r) {
        Ok(v) => v,
        Err(e) => return Err(e),
    };
    let branch = match read_string(r) {
        Ok(v) => v,
        Err(e) => return Err(e),
    };
    let method = match read_string(r) {
        Ok(v) => v,
        Err(e) => return Err(e),
    };
    let response_code = match read_opt_u16(r) {
        Ok(v) => v,
        Err(e) => return Err(e),
    };
    let delay_ms = match read_opt_u32(r) {
        Ok(v) => v,
        Err(e) => return Err(e),
    };
    Ok(TxnEvt {
        ts_us,
        call_id,
        branch,
        method,
        response_code,
        delay_ms,
    })
}

fn read_call(r: &mut ByteReader, ts_us: u64) -> (res: Result<CallEvt, EvlogError>)
    requires
        old(r).wf(),
        old(r).pos == 0,
    ensures
        match wire::fields_read(call_kinds(), 0, Seq::empty(), old(r).data@, 0) {
            Ok((vs, _)) => res matches Ok(e) && e.fields() == vs && e.ts_us == ts_us,
            Err(e) => res matches Err(f) && e == f,
        },
{
    let ghost b = r.data@;
    let ghost ks = call_kinds();
    proof {
        reveal_with_fuel(wire::fields_read, 23);
    }
    let call_id = match read_string(r) {
        Ok(v) => v,
        Err(e) => return Err(e),
    };
    let kind = match read_call_kind(r) {
        Ok(v) => v,
        Err(e) => return Err(e),
    };
    let from_user = match read_opt_string(r) {
        Ok(v) => v,
        Err(e) => return Err(e),
    };
    let to_user = match read_opt_string(r) {
        Ok(v) => v,
        Err(e) => return Err(e),
    };
    let from_uri = match read_opt_string(r) {
        Ok(v) => v,
        Err(e) => return Err(e),
    };
    let to_uri = match read_opt_string(r) {
        Ok(v) => v,
        Err(e) => return Err(e),
    };
    let state = match read_u8(r) {
        Ok(v) => v,
        Err(e) => return Err(e),
    };
    let outcome = match read_u8(r) {
        Ok(v) => v,
        Err(e) => return Err(e),
    };
    let invite_ts = match read_opt_u64(r) {
        Ok(v) => v,
        Err(e) => return Err(e),
    };
    let trying_ts = match read_opt_u64(r) {
        Ok(v) => v,
        Err(e) => return Err(e),
    };
    let ringing_ts = match read_opt_u64(r) {
        Ok(v) => v,
        Err(e) => return Err(e),
    };
    let answer_ts = match read_opt_u64(r) {
        Ok(v) => v,
        Err(e) => return Err(e),
    };
    let bye_ts = match read_opt_u64(r) {
        Ok(v) => v,
        Err(e) => return Err(e),
    };
    let end_ts = match read_opt_u64(r) {
        Ok(v) => v,
        Err(e) => return Err(e),
    };
    let pdd_ms = match read_opt_u32(r) {
        Ok(v) => v,
        Err(e) => return Err(e),
    };
    let setup_ms = match read_opt_u32(r) {
        Ok(v) => v,
        Err(e) => return Err(e),
    };
    let hangup_code = match read_opt_u32(r) {
        Ok(v) => v,
        Err(e) => return Err(e),
    };
    let hangup_reason = match read_opt_string(r) {
        Ok(v) => v,
        Err(e) => return Err(e),
    };
    let pkts_sip = match read_varint(r) {
        Ok(v) => v,
        Err(e) => return Err(e),
    };
    let pkts_rtp = match read_varint(r) {
        Ok(v) => v,
        Err(e) => return Err(e),
    };
    let pkts_rtcp = match read_varint(r) {
        Ok(v) => v,
        Err(e) => return Err(e),
    };
    let bytes = match read_varint(r) {
        Ok(v) => v,
        Err(e) => return Err(e),
    };
    Ok(CallEvt {
        ts_us,
        call_id,
        kind,
        from_user,
        to_user,
        from_uri,
        to_uri,
        state,
        outcome,
        invite_ts,
        trying_ts,
        ringing_ts,
        answer_ts,
        bye_ts,
        end_ts,
        pdd_ms,
        setup_ms,
        hangup_code,
        hangup_reason,
        pkts_sip,
        pkts_rtp,
        pkts_rtcp,
        bytes,
    })
}

fn read_stream_snap(r: &mut ByteReader, ts_us: u64) -> (res: Result<StreamSnapEvt, EvlogError>)
    requires
        old(r).wf(),
        old(r).pos == 0,
    ensures
        match known_payload_fields(4, old(r).data@) {
            Ok(vs) => res matches Ok(e) && e.fields() == vs && e.ts_us == ts_us,
            Err(e) => res matches Err(f) && e == f,
        },
{
    let ghost b = r.data@;
    let ghost ks = stream_snap_kinds();
    let ghost hs = stream_head_kinds();
    
    let ghost a0 = Seq::<FieldVal>::empty();
    let ghost p0 = 0int;
    let call_id = match read_string(r) {
        Ok(v) => v,
        Err(e) => return Err(e),
    };
    let ghost a1 = a0.push(FieldVal::Text(call_id@));
    assert(wire::fields_read(hs, 0, a0, b, p0) == wire::fields_read(hs, 1, a1, b, r.pos as int));
    let ghost p1 = r.pos as int;
    let ssrc = match read_u32(r) {
        Ok(v) => v,
        Err(e) => return Err(e),
    };
    let ghost a2 = a1.push(FieldVal::U32Be(ssrc));
    assert(wire::fields_read(hs, 1, a1, b, p1) == wire::fields_read(hs, 2, a2, b, r.pos as int));
    let ghost p2 = r.pos as int;
    let flow = match read_flow(r) {
        Ok(v) => v,
        Err(e) => return Err(e),
    };
    let ghost a3 = a2.push(FieldVal::Flow(flow));
    assert(wire::fields_read(hs, 2, a2, b, p2) == wire::fields_read(hs, 3, a3, b, r.pos as int));
    let ghost p3 = r.pos as int;
    let codec = match read_opt_string(r) {
        Ok(v) => v,
        Err(e) => return Err(e),
    };
    let ghost a4 = a3.push(FieldVal::OptText(text::opt_text(codec)));
    assert(wire::fields_read(hs, 3, a3, b, p3) == wire::fields_read(hs, 4, a4, b, r.pos as int));
    let ghost p4 = r.pos as int;
    let payload_type = match read_opt_u8(r) {
        Ok(v) => v,
        Err(e) => return Err(e),
    };
    let ghost a5 = a4.push(FieldVal::OptU8(payload_type));
    assert(wire::fields_read(hs, 4, a4, b, p4) == wire::fields_read(hs, 5, a5, b, r.pos as int));
    let ghost p5 = r.pos as int;
    let packets = match read_varint(r) {
        Ok(v) => v,
        Err(e) => return Err(e),
    };
    let ghost a6 = a5.push(FieldVal::Varint(packets));
    assert(wire::fields_read(hs, 5, a5, b, p5) == wire::fields_read(hs, 6, a6, b, r.pos as int));
    let ghost p6 = r.pos as int;
    let lost = match read_varint(r) {
        Ok(v) => v,
        Err(e) => return Err(e),
    };
    let ghost a7 = a6.push(FieldVal::Varint(lost));
    assert(wire::fields_read(hs, 6, a6, b, p6) == wire::fields_read(hs, 7, a7, b, r.pos as int));
    let ghost p7 = r.pos as int;
    let expected = match read_varint(r) {
        Ok(v) => v,
        Err(e) => return Err(e),
    };
    let ghost a8 = a7.push(FieldVal::Varint(expected));
    assert(wire::fields_read(hs, 7, a7, b, p7) == wire::fields_read(hs, 8, a8, b, r.pos as int));
    let ghost p8 = r.pos as int;
    let loss_pct = match read_f64(r) {
        Ok(v) => v,
        Err(e) => return Err(e),
    };
    let ghost a9 = a8.push(FieldVal::F64(loss_pct));
    assert(wire::fields_read(hs, 8, a8, b, p8) == wire::fields_read(hs, 9, a9, b, r.pos as int));
    let ghost p9 = r.pos as int;
    let jitter_ms = match read_opt_f64(r) {
        Ok(v) => v,
        Err(e) => return Err(e),
    };
    let ghost a10 = a9.push(FieldVal::OptF64(jitter_ms));
    assert(wire::fields_read(hs, 9, a9, b, p9) == wire::fields_read(hs, 10, a10, b, r.pos as int));
    let ghost p10 = r.pos as int;
    let mos = match read_opt_f64(r) {
        Ok(v) => v,
        Err(e) => return Err(e),
    };
    let ghost a11 = a10.push(FieldVal::OptF64(mos));
    assert(wire::fields_read(hs, 10, a10, b, p10) == wire::fields_read(hs, 11, a11, b, r.pos as int));
    let ghost p11 = r.pos as int;
    let direction = match read_opt_string(r) {
        Ok(v) => v,
        Err(e) => return Err(e),
    };
    let ghost a12 = a11.push(FieldVal::OptText(text::opt_text(direction)));
    assert(wire::fields_read(hs, 11, a11, b, p11) == wire::fields_read(hs, 12, a12, b, r.pos as int));
    let ghost p12 = r.pos as int;
    let ghost head = a12;
    // Older logs stop here.
    if r.pos >= r.data.len() {
        let e = StreamSnapEvt {
            ts_us,
            call_id,
            ssrc,
            flow,
            codec,
            payload_type,
            packets,
            lost,
            expected,
            loss_pct,
            jitter_ms,
            mos,
            direction,
            bytes: 0,
            first_ts_us: None,
            last_ts_us: None,
            rtt_min_ms: None,
            rtt_avg_ms: None,
            rtt_max_ms: None,
            oneway_ms: None,
            leg: None,
            via_turn: false,
        };
        assert(e.fields() =~= head + stream_tail_defaults());
        return Ok(e);
    }
    let bytes = match read_varint(r) {
        Ok(v) => v,
        Err(e) => return Err(e),
    };
    let ghost a13 = a12.push(FieldVal::Varint(bytes));
    assert(wire::fields_read(ks, 12, a12, b, p12) == wire::fields_read(ks, 13, a13, b, r.pos as int));
    let ghost p13 = r.pos as int;
    let first_ts_us = match read_opt_u64(r) {
        Ok(v) => v,
        Err(e) => return Err(e),
    };
    let ghost a14 = a13.push(FieldVal::OptU64(first_ts_us));
    assert(wire::fields_read(ks, 13, a13, b, p13) == wire::fields_read(ks, 14, a14, b, r.pos as int));
    let ghost p14 = r.pos as int;
    let last_ts_us = match read_opt_u64(r) {
        Ok(v) => v,
        Err(e) => return Err(e),
    };
    let ghost a15 = a14.push(FieldVal::OptU64(last_ts_us));
    assert(wire::fields_read(ks, 14, a14, b, p14) == wire::fields_read(ks, 15, a15, b, r.pos as int));
    let ghost p15 = r.pos as int;
    let rtt_min_ms = match read_opt_f64(r) {
        Ok(v) => v,
        Err(e) => return Err(e),
    };
    let ghost a16 = a15.push(FieldVal::OptF64(rtt_min_ms));
    assert(wire::fields_read(ks, 15, a15, b, p15) == wire::fields_read(ks, 16, a16, b, r.pos as int));
    let ghost p16 = r.pos as int;
    let rtt_avg_ms = match read_opt_f64(r) {
        Ok(v) => v,
        Err(e) => return Err(e),
    };
    let ghost a17 = a16.push(FieldVal::OptF64(rtt_avg_ms));
    assert(wire::fields_read(ks, 16, a16, b, p16) == wire::fields_read(ks, 17, a17, b, r.pos as int));
    let ghost p17 = r.pos as int;
    let rtt_max_ms = match read_opt_f64(r) {
        Ok(v) => v,
        Err(e) => return Err(e),
    };
    let ghost a18 = a17.push(FieldVal::OptF64(rtt_max_ms));
    assert(wire::fields_read(ks, 17, a17, b, p17) == wire::fields_read(ks, 18, a18, b, r.pos as int));
    let ghost p18 = r.pos as int;
    let oneway_ms = match read_opt_f64(r) {
        Ok(v) => v,
        Err(e) => return Err(e),
    };
    let ghost a19 = a18.push(FieldVal::OptF64(oneway_ms));
    assert(wire::fields_read(ks, 18, a18, b, p18) == wire::fields_read(ks, 19, a19, b, r.pos as int));
    let ghost p19 = r.pos as int;
    let leg = match read_opt_string(r) {
        Ok(v) => v,
        Err(e) => return Err(e),
    };
    let ghost a20 = a19.push(FieldVal::OptText(text::opt_text(leg)));
    assert(wire::fields_read(ks, 19, a19, b, p19) == wire::fields_read(ks, 20, a20, b, r.pos as int));
    let ghost p20 = r.pos as int;
    let via_turn = match read_flag(r) {
        Ok(v) => v,
        Err(e) => return Err(e),
    };
    let ghost a21 = a20.push(FieldVal::Flag(via_turn));
    assert(wire::fields_read(ks, 20, a20, b, p20) == wire::fields_read(ks, 21, a21, b, r.pos as int));
    let ghost p21 = r.pos as int;
    Ok(StreamSnapEvt {
        ts_us,
        call_id,
        ssrc,
        flow,
        codec,
        payload_type,
        packets,
        lost,
        expected,
        loss_pct,
        jitter_ms,
        mos,
        direction,
        bytes,
        first_ts_us,
        last_ts_us,
        rtt_min_ms,
        rtt_avg_ms,
        rtt_max_ms,
        oneway_ms,
        leg,
        via_turn,
    })
}

fn read_rtcp_rtt(r: &mut ByteReader, ts_us: u64) -> (res: Result<RtcpRttEvt, EvlogError>)
    requires
        old(r).wf(),
        old(r).pos == 0,
    ensures
        match wire::fields_read(rtcp_rtt_kinds(), 0, Seq::empty(), old(r).data@, 0) {
            Ok((vs, _)) => res matches Ok(e) && e.fields() == vs && e.ts_us == ts_us,
            Err(e) => res matches Err(f) && e == f,
        },
{
    let ghost b = r.data@;
    let ghost ks = rtcp_rtt_kinds();
    proof {
        reveal_with_fuel(wire::fields_read, 5);
    }
    let call_id = match read_string(r) {
        Ok(v) => v,
        Err(e) => return Err(e),
    };
    let ssrc = match read_u32(r) {
        Ok(v) => v,
        Err(e) => return Err(e),
    };
    let rtt_ms = match read_f64(r) {
        Ok(v) => v,
        Err(e) => return Err(e),
    };
    let oneway_ms = match read_opt_f64(r) {
        Ok(v) => v,
        Err(e) => return Err(e),
    };
    Ok(RtcpRttEvt {
        ts_us,
        call_id,
        ssrc,
        rtt_ms,
        oneway_ms,
    })
}

fn read_health(r: &mut ByteReader) -> (res: Result<HealthBucket, EvlogError>)
    requires
        old(r).wf(),
        old(r).pos == 0,
    ensures
        match wire::fields_read(health_kinds(), 0, Seq::empty(), old(r).data@, 0) {
            Ok((vs, _)) => res matches Ok(e) && health_fields(e) == vs,
            Err(e) => res matches Err(f) && e == f,
        },
{
    let ghost b = r.data@;
    let ghost ks = health_kinds();
    proof {
        reveal_with_fuel(wire::fields_read, 16);
    }
    let bucket_us = match read_varint(r) {
        Ok(v) => v,
        Err(e) => return Err(e),
    };
    let dim_key = match read_string(r) {
        Ok(v) => v,
        Err(e) => return Err(e),
    };
    let calls = match read_varint(r) {
        Ok(v) => v,
        Err(e) => return Err(e),
    };
    let answered = match read_varint(r) {
        Ok(v) => v,
        Err(e) => return Err(e),
    };
    let failed = match read_varint(r) {
        Ok(v) => v,
        Err(e) => return Err(e),
    };
    let pdd_sum_ms = match read_f64(r) {
        Ok(v) => v,
        Err(e) => return Err(e),
    };
    let pdd_n = match read_varint(r) {
        Ok(v) => v,
        Err(e) => return Err(e),
    };
    let jitter_sum_ms = match read_f64(r) {
        Ok(v) => v,
        Err(e) => return Err(e),
    };
    let jitter_n = match read_varint(r) {
        Ok(v) => v,
        Err(e) => return Err(e),
    };
    let loss_sum_pct = match read_f64(r) {
        Ok(v) => v,
        Err(e) => return Err(e),
    };
    let loss_n = match read_varint(r) {
        Ok(v) => v,
        Err(e) => return Err(e),
    };
    let rtt_sum_ms = match read_f64(r) {
        Ok(v) => v,
        Err(e) => return Err(e),
    };
    let rtt_n = match read_varint(r) {
        Ok(v) => v,
        Err(e) => return Err(e),
    };
    let mos_sum = match read_f64(r) {
        Ok(v) => v,
        Err(e) => return Err(e),
    };
    let mos_n = match read_varint(r) {
        Ok(v) => v,
        Err(e) => return Err(e),
    };
    let metrics = MetricSet {
        calls,
        answered,
        failed,
        pdd_sum_ms,
        pdd_n,
        jitter_sum_ms,
        jitter_n,
        loss_sum_pct,
        loss_n,
        rtt_sum_ms,
        rtt_n,
        mos_sum,
        mos_n,
    };
    Ok(HealthBucket { bucket_us, dim_key, metrics })
}

fn read_error(r: &mut ByteReader, ts_us: u64) -> (res: Result<ErrorEvt, EvlogError>)
    requires
        old(r).wf(),
        old(r).pos == 0,
    ensures
        match wire::fields_read(error_kinds(), 0, Seq::empty(), old(r).data@, 0) {
            Ok((vs, _)) => res matches Ok(e) && e.fields() == vs && e.ts_us == ts_us,
            Err(e) => res matches Err(f) && e == f,
        },
{
    let ghost b = r.data@;
    let ghost ks = error_kinds();
    proof {
        reveal_with_fuel(wire::fields_read, 3);
    }
    let kind = match read_string(r) {
        Ok(v) => v,
        Err(e) => return Err(e),
    };
    let msg = match read_string(r) {
        Ok(v) => v,
        Err(e) => return Err(e),
    };
    Ok(ErrorEvt {
        ts_us,
        kind,
        msg,
    })
}

fn read_diag(r: &mut ByteReader, ts_us: u64) -> (res: Result<DiagEvt, EvlogError>)
    requires
        old(r).wf(),
        old(r).pos == 0,
    ensures
        match wire::fields_read(diag_kinds(), 0, Seq::empty(), old(r).data@, 0) {
            Ok((vs, _)) => res matches Ok(e) && e.fields() == vs && e.ts_us == ts_us,
            Err(e) => res matches Err(f) && e == f,
        },
{
    let ghost b = r.data@;
    let ghost ks = diag_kinds();
    proof {
        reveal_with_fuel(wire::fields_read, 5);
    }
    let call_id = match read_string(r) {
        Ok(v) => v,
        Err(e) => return Err(e),
    };
    let severity = match read_u8(r) {
        Ok(v) => v,
        Err(e) => return Err(e),
    };
    let code = match read_string(r) {
        Ok(v) => v,
        Err(e) => return Err(e),
    };
    let message = match read_string(r) {
        Ok(v) => v,
        Err(e) => return Err(e),
    };
    Ok(DiagEvt {
        ts_us,
        call_id,
        severity,
        code,
        message,
    })
}

/// Decodes a payload. Records of unknown type become an error event, so that
/// a log of a newer writer can still be read.
pub fn decode_payload(ty: u8, ts_us: u64, rd: &[u8]) -> (res: Result<Event, EvlogError>)
    ensures
        match payload_read(ty, ts_us, rd@) {
            Ok(v) => res is Ok && res->Ok_0@ == v,
            Err(e) => res is Err && res->Err_0 == e,
        },
{
    proof {
        reveal(payload_read);
    }
    let mut r = ByteReader::new(rd);
    match ty {
        1 => match read_sip_msg(&mut r, ts_us) {
            Ok(e) => Ok(Event::SipMsg(e)),
            Err(e) => Err(e),
        },
        2 => match read_txn(&mut r, ts_us) {
            Ok(e) => Ok(Event::Txn(e)),
            Err(e) => Err(e),
        },
        3 => match read_call(&mut r, ts_us) {
            Ok(e) => Ok(Event::Call(e)),
            Err(e) => Err(e),
        },
        4 => match read_stream_snap(&mut r, ts_us) {
            Ok(e) => Ok(Event::StreamSnap(e)),
            Err(e) => Err(e),
        },
        5 => match read_rtcp_rtt(&mut r, ts_us) {
            Ok(e) => Ok(Event::RtcpRtt(e)),
            Err(e) => Err(e),
        },
        6 => match read_health(&mut r) {
            Ok(e) => Ok(Event::HealthBucket(e)),
            Err(e) => Err(e),
        },
        7 => match read_error(&mut r, ts_us) {
            Ok(e) => Ok(Event::Error(e)),
            Err(e) => Err(e),
        },
        8 => match read_diag(&mut r, ts_us) {
            Ok(e) => Ok(Event::Diag(e)),
            Err(e) => Err(e),
        },
        _ => {
            let mut msg = String::new();
            msg.push_str("skipped event type ");
            push_dec(&mut msg, ty as u64);
            let mut kind = String::new();
            kind.push_str("unknown_event");
            proof {
                assert(Seq::<char>::empty() + "skipped event type "@ =~= "skipped event type "@);
                assert(Seq::<char>::empty() + "unknown_event"@ =~= "unknown_event"@);
            }
            Ok(Event::Error(ErrorEvt { ts_us, kind, msg }))
        },
    }
}

// ----------------------------- framing -----------------------------

/// Two's complement of a signed 32-bit number, as a number.
pub open spec fn i32_code(x: i32) -> nat {
    if x >= 0 {
        x as nat
    } else {
        (x + 0x1_0000_0000) as nat
    }
}

/// The signed 32-bit number with a given two's complement.
pub open spec fn i32_from_code(n: nat) -> i32 {
    if n < 0x8000_0000 {
        n as i32
    } else {
        (n - 0x1_0000_0000) as i32
    }
}

/// The header: magic, version, no flags, and the writer's UTC offset.
pub open spec fn header_bytes(tz_offset_secs: i32) -> Seq<u8> {
    MAGIC@ + octets::be_bytes(VERSION as nat, 2) + octets::be_bytes(0, 2) + octets::be_bytes(
        i32_code(tz_offset_secs),
        4,
    )
}

/// `a - b`, at least zero.
pub open spec fn gap(a: u64, b: u64) -> u64 {
    if a >= b {
        (a - b) as u64
    } else {
        0
    }
}

/// The record of an event that follows one at `last`.
pub open spec fn record_bytes(last: u64, ev: EventView) -> Seq<u8> {
    let payload = wire::payload_bytes(ev.fields);
    wire::varint_bytes(gap(ev.ts_us, last) as nat) + seq![ev.ty] + wire::varint_bytes(payload.len())
        + payload
}

/// Builds a log in memory. What has been built since the last `flush` waits to
/// be handed on.
pub struct EvlogWriter {
    out: Vec<u8>,
    last_ts: u64,
    bytes_written: u64,
    payload: Vec<u8>,
}

impl EvlogWriter {
    /// The bytes not yet handed on.
    pub closed spec fn pending(&self) -> Seq<u8> {
        self.out@
    }

    /// The time of the last event.
    pub closed spec fn spec_last_ts(&self) -> u64 {
        self.last_ts
    }

    /// Bytes of the header and of all records written.
    pub closed spec fn spec_bytes_written(&self) -> u64 {
        self.bytes_written
    }

    /// Starts a log. `tz_offset_secs` is the recording machine's UTC offset, so
    /// that a replay can show the wall clock as it was.
    pub fn new(tz_offset_secs: i32) -> (r: EvlogWriter)
        ensures
            r.pending() == header_bytes(tz_offset_secs),
            r.spec_last_ts() == 0,
            r.spec_bytes_written() == header_bytes(tz_offset_secs).len(),
            r.log_state(Seq::empty()) == LogState::started(tz_offset_secs),
    {
        let mut out: Vec<u8> = Vec::new();
        let mut i: usize = 0;
        while i < 4
            invariant
                i <= 4,
                out@ == MAGIC@.take(i as int),
            decreases 4 - i,
        {
            out.push(MAGIC[i]);
            i += 1;
            assert(out@ =~= MAGIC@.take(i as int));
        }
        assert(out@ =~= MAGIC@);
        write_be(&mut out, VERSION as u128, 2);
        write_be(&mut out, 0, 2);
        let code: u128 = if tz_offset_secs >= 0 {
            tz_offset_secs as u128
        } else {
            (tz_offset_secs as i64 + 0x1_0000_0000) as u128
        };
        write_be(&mut out, code, 4);
        let bytes_written: u64 = out.len() as u64;
        EvlogWriter { out, last_ts: 0, bytes_written, payload: Vec::new() }
    }

    /// Appends an event.
    pub fn write(&mut self, ev: &Event)
        requires
            ev.fits(),
            old(self).spec_bytes_written() + record_bytes(old(self).spec_last_ts(), ev@).len()
                <= u64::MAX,
        ensures
            final(self).pending() == old(self).pending() + record_bytes(
                old(self).spec_last_ts(),
                ev@,
            ),
            final(self).spec_last_ts() == ev.spec_ts_us(),
            final(self).spec_bytes_written() == old(self).spec_bytes_written() + record_bytes(
                old(self).spec_last_ts(),
                ev@,
            ).len(),
            forall|handed: Seq<u8>| #[trigger]
                final(self).log_state(handed) == old(self).log_state(handed).wrote(*ev),
    {
        let ts: u64 = ev.ts_us();
        let ty: u8 = encode_event_payload(&mut self.payload, ev);
        let delta: u64 = if ts >= self.last_ts {
            ts - self.last_ts
        } else {
            0
        };
        let mut rec: Vec<u8> = Vec::new();
        write_varint(&mut rec, delta);
        rec.push(ty);
        write_varint(&mut rec, self.payload.len() as u64);
        rec.append(&mut self.payload);
        assert(rec@ =~= record_bytes(old(self).spec_last_ts(), ev@));
        self.bytes_written = self.bytes_written + rec.len() as u64;
        self.out.append(&mut rec);
        self.last_ts = ts;
    }

    /// Hands on what has been built since the last call.
    pub fn flush(&mut self) -> (r: Vec<u8>)
        ensures
            r@ == old(self).pending(),
            final(self).pending() == Seq::<u8>::empty(),
            final(self).spec_last_ts() == old(self).spec_last_ts(),
            final(self).spec_bytes_written() == old(self).spec_bytes_written(),
            forall|handed: Seq<u8>|
                final(self).log_state(handed + r@) == (#[trigger] old(self).log_state(
                    handed,
                )).flushed(),
    {
        let mut out: Vec<u8> = Vec::new();
        out.append(&mut self.out);
        assert(out@ =~= old(self).pending());
        out
    }

    /// Total bytes of the log so far, the header and the records, handed on or not.
    pub fn bytes_written(&self) -> (r: u64)
        ensures
            r == self.spec_bytes_written(),
    {
        self.bytes_written
    }
}

/// Where the records begin, and the recording machine's UTC offset. A log
/// without a header begins at once; version 1 holds no offset; a header that
/// is cut short leaves nothing to read.
pub open spec fn header_read(b: Seq<u8>) -> (int, Option<i32>) {
    if b.len() >= 4 && b.take(4) == MAGIC@ {
        if b.len() >= 12 {
            (
                12,
                if octets::be_value(b, 4, 2) >= 2 {
                    Some(i32_from_code(octets::be_value(b, 8, 4)))
                } else {
                    None
                },
            )
        } else {
            (b.len() as int, None)
        }
    } else {
        (0, None)
    }
}

/// What one step of a reader gives, and where it leaves the reader.
pub struct RecordRead {
    pub res: Result<Option<EventView>, EvlogError>,
    pub pos: int,
    pub last_ts: u64,
}

/// `a + b`, at most the largest 64-bit number.
pub open spec fn sat_add(a: u64, b: u64) -> u64 {
    if a + b <= u64::MAX {
        (a + b) as u64
    } else {
        u64::MAX
    }
}

/// What one step of a reader takes off the log: type, time and payload.
pub struct RawRead {
    pub res: Result<Option<(u8, u64, Seq<u8>)>, EvlogError>,
    pub pos: int,
    pub last_ts: u64,
}

/// One step of a reader at `pos` whose last record was at `last`, without the
/// meaning of the payload. The log may end before a record or inside its first
/// two fields.
pub open spec fn raw_read(b: Seq<u8>, pos: int, last: u64) -> RawRead {
    match wire::varint_read(b, pos) {
        Err(EvlogError::UnexpectedEof) => RawRead {
            res: Ok(None),
            pos: b.len() as int,
            last_ts: last,
        },
        Err(e) => RawRead {
            res: Err(e),
            pos: if e is VarintTooLong {
                pos + 10
            } else {
                b.len() as int
            },
            last_ts: last,
        },
        Ok((delta, p)) => {
            let ts = sat_add(last, delta);
            if p >= b.len() {
                RawRead { res: Ok(None), pos: b.len() as int, last_ts: ts }
            } else {
                match wire::varint_read(b, p + 1) {
                    Err(e) => RawRead {
                        res: Err(e),
                        pos: if e is VarintTooLong {
                            p + 11
                        } else {
                            b.len() as int
                        },
                        last_ts: ts,
                    },
                    Ok((n, q)) => if n > MAX_RECORD_LEN {
                        RawRead { res: Err(EvlogError::RecordTooLong), pos: q, last_ts: ts }
                    } else {
                        match wire::take_read(b, q, n as nat) {
                            Err(e) => RawRead { res: Err(e), pos: b.len() as int, last_ts: ts },
                            Ok((payload, r)) => RawRead {
                                res: Ok(Some((b[p], ts, payload))),
                                pos: r,
                                last_ts: ts,
                            },
                        }
                    },
                }
            }
        },
    }
}

/// One step of a reader: the record with its meaning.
pub open spec fn record_read(b: Seq<u8>, pos: int, last: u64) -> RecordRead {
    let raw = raw_read(b, pos, last);
    RecordRead {
        res: match raw.res {
            Ok(Some((ty, ts, payload))) => match payload_read(ty, ts, payload) {
                Ok(v) => Ok(Some(v)),
                Err(e) => Err(e),
            },
            Ok(None) => Ok(None),
            Err(e) => Err(e),
        },
        pos: raw.pos,
        last_ts: raw.last_ts,
    }
}

/// Reads a log that is held in memory.
pub struct EvlogReader {
    data: Vec<u8>,
    pos: usize,
    last_ts: u64,
    tz_offset_secs: Option<i32>,
}

impl EvlogReader {
    pub closed spec fn data(&self) -> Seq<u8> {
        self.data@
    }

    pub closed spec fn pos(&self) -> int {
        self.pos as int
    }

    pub closed spec fn spec_last_ts(&self) -> u64 {
        self.last_ts
    }

    pub closed spec fn spec_tz(&self) -> Option<i32> {
        self.tz_offset_secs
    }

    /// The position lies within the log.
    pub closed spec fn wf(&self) -> bool {
        self.pos <= self.data@.len()
    }

    /// Opens a log and takes its header off.
    pub fn new(data: Vec<u8>) -> (r: EvlogReader)
        ensures
            r.wf(),
            r.data() == data@,
            (r.pos(), r.spec_tz()) == header_read(data@),
            r.spec_last_ts() == 0,
    {
        let n: usize = data.len();
        let magic: bool = n >= 4 && data[0] == MAGIC[0] && data[1] == MAGIC[1] && data[2]
            == MAGIC[2] && data[3] == MAGIC[3];
        proof {
            if n >= 4 {
                let h = data@.take(4);
                assert(magic ==> h =~= MAGIC@);
                assert(h == MAGIC@ ==> h[0] == MAGIC@[0] && h[1] == MAGIC@[1] && h[2] == MAGIC@[2]
                    && h[3] == MAGIC@[3]);
            }
        }
        if !magic {
            return EvlogReader { data, pos: 0, last_ts: 0, tz_offset_secs: None };
        }
        if n < 12 {
            return EvlogReader { data, pos: n, last_ts: 0, tz_offset_secs: None };
        }
        let version: u32 = data[4] as u32 * 256 + data[5] as u32;
        let tz: i64 = data[8] as i64 * 0x100_0000 + data[9] as i64 * 0x1_0000 + data[10] as i64
            * 0x100 + data[11] as i64;
        proof {
            reveal_with_fuel(octets::be_value, 5);
            assert(octets::be_value(data@, 4, 2) == version);
            assert(octets::be_value(data@, 8, 4) == tz);
        }
        let tz_offset_secs: Option<i32> = if version >= 2 {
            if tz < 0x8000_0000 {
                Some(tz as i32)
            } else {
                Some((tz - 0x1_0000_0000) as i32)
            }
        } else {
            None
        };
        EvlogReader { data, pos: 12, last_ts: 0, tz_offset_secs }
    }

    /// UTC offset (seconds) of the recording machine, if the log carried one.
    pub fn tz_offset_secs(&self) -> (r: Option<i32>)
        ensures
            r == self.spec_tz(),
    {
        self.tz_offset_secs
    }

    /// Reads the next record as it stands: type, time and payload. `None` at
    /// the end of the log.
    pub fn next_raw(&mut self) -> (res: Result<Option<(u8, u64, Vec<u8>)>, EvlogError>)
        requires
            old(self).wf(),
        ensures
            final(self).wf(),
            final(self).data() == old(self).data(),
            final(self).spec_tz() == old(self).spec_tz(),
            ({
                let step = raw_read(old(self).data(), old(self).pos(), old(self).spec_last_ts());
                &&& match step.res {
                    Ok(Some((ty, ts, payload))) => {
                        &&& res is Ok
                        &&& res->Ok_0 is Some
                        &&& res->Ok_0->Some_0.0 == ty
                        &&& res->Ok_0->Some_0.1 == ts
                        &&& res->Ok_0->Some_0.2@ == payload
                        &&& old(self).pos() < step.pos
                    },
                    Ok(None) => res is Ok && res->Ok_0 is None,
                    Err(e) => res is Err && res->Err_0 == e,
                }
                &&& final(self).pos() == step.pos
                &&& final(self).spec_last_ts() == step.last_ts
            }),
    {
        proof {
            wire::lemma_varint_moves(self.data@, self.pos as int, 0);
        }
        let mut r = ByteReader { data: self.data.as_slice(), pos: self.pos };
        let delta: u64 = match read_varint(&mut r) {
            Ok(v) => v,
            Err(EvlogError::UnexpectedEof) => {
                self.pos = r.pos;
                return Ok(None);
            },
            Err(e) => {
                self.pos = r.pos;
                return Err(e);
            },
        };
        let ts: u64 = if delta <= u64::MAX - self.last_ts {
            self.last_ts + delta
        } else {
            u64::MAX
        };
        self.last_ts = ts;
        let ty: u8 = match read_u8(&mut r) {
            Ok(t) => t,
            Err(_) => {
                self.pos = r.pos;
                return Ok(None);
            },
        };
        proof {
            wire::lemma_varint_moves(self.data@, r.pos as int, 0);
        }
        let len: u64 = match read_varint(&mut r) {
            Ok(v) => v,
            Err(e) => {
                self.pos = r.pos;
                return Err(e);
            },
        };
        if len > MAX_RECORD_LEN as u64 {
            self.pos = r.pos;
            return Err(EvlogError::RecordTooLong);
        }
        let payload = match read_exact(&mut r, len) {
            Ok(p) => p,
            Err(e) => {
                self.pos = r.pos;
                return Err(e);
            },
        };
        self.pos = r.pos;
        Ok(Some((ty, ts, payload)))
    }

    /// Reads the next record; `None` at the end of the log.
    pub fn next_event(&mut self) -> (res: Result<Option<Event>, EvlogError>)
        requires
            old(self).wf(),
        ensures
            final(self).wf(),
            final(self).data() == old(self).data(),
            final(self).spec_tz() == old(self).spec_tz(),
            ({
                let step = record_read(old(self).data(), old(self).pos(), old(self).spec_last_ts());
                &&& match step.res {
                    Ok(Some(v)) => res is Ok && res->Ok_0 is Some && res->Ok_0->Some_0@ == v,
                    Ok(None) => res is Ok && res->Ok_0 is None,
                    Err(e) => res is Err && res->Err_0 == e,
                }
                &&& final(self).pos() == step.pos
                &&& final(self).spec_last_ts() == step.last_ts
            }),
    {
        match self.next_raw() {
            Ok(Some((ty, ts, payload))) => match decode_payload(ty, ts, payload.as_slice()) {
                Ok(ev) => Ok(Some(ev)),
                Err(e) => Err(e),
            },
            Ok(None) => Ok(None),
            Err(e) => Err(e),
        }
    }
}

/// A reader stands within its log.
pub proof fn lemma_reader_pos(r: EvlogReader)
    requires
        r.wf(),
    ensures
        0 <= r.pos() <= r.data().len(),
{
}

// ----------------------------- laws -----------------------------

proof fn lemma_kinds(ev: Event)
    ensures
        wire::kinds_of(ev.fields()) == kinds(ev.type_code()),
        1 <= ev.type_code() <= 8,
{
    assert(wire::kinds_of(ev.fields()) =~= kinds(ev.type_code()));
}

proof fn lemma_fields_prefix(vs: Seq<FieldVal>, n: nat, m: nat)
    requires
        m <= n <= vs.len(),
    ensures
        wire::fields_bytes(vs.take(n as int), m) == wire::fields_bytes(vs, m),
    decreases m,
{
    if m > 0 {
        lemma_fields_prefix(vs, n, (m - 1) as nat);
    }
}

/// Every payload that is written means the event it was written for.
pub proof fn law_payload_round(ev: Event)
    requires
        ev.fits(),
    ensures
        payload_read(ev.type_code(), ev.spec_ts_us(), wire::payload_bytes(ev.fields())) == Ok::<
            EventView,
            EvlogError,
        >(ev@),
{
    reveal(payload_read);
    let vs = ev.fields();
    let b = wire::payload_bytes(vs);
    assert(b.subrange(0, b.len() as int) =~= b);
    lemma_kinds(ev);
    wire::law_fields_round(vs, b, 0);
    if ev is StreamSnap {
        let hs = vs.take(12);
        assert(wire::kinds_of(hs) =~= stream_head_kinds());
        lemma_fields_prefix(vs, 12, 12);
        wire::lemma_fields_split(vs, 12, b, 0);
        wire::law_fields_round(hs, b, 0);
        wire::lemma_fields_round_from(vs, 12, b, 0);
        let h = wire::fields_bytes(vs, 12);
        assert(h.len() < b.len()) by {
            wire::lemma_fields_split(vs, 13, b, 0);
            wire::lemma_varint_len(vs[12]->Varint_0 as nat);
            assert(wire::fields_bytes(vs, 13) == h + wire::field_bytes(vs[12]));
        }
    }
}

/// A record reads back as its event, wherever in a log it stands, provided that
/// time does not run backwards and the payload is under the cap.
pub proof fn law_record_round(b: Seq<u8>, pos: int, last: u64, ev: Event)
    requires
        ev.fits(),
        wire::payload_bytes(ev.fields()).len() <= MAX_RECORD_LEN,
        last <= ev.spec_ts_us(),
        wire::holds_at(b, pos, record_bytes(last, ev@)),
    ensures
        record_read(b, pos, last) == (RecordRead {
            res: Ok(Some(ev@)),
            pos: pos + record_bytes(last, ev@).len(),
            last_ts: ev.spec_ts_us(),
        }),
{
    let payload = wire::payload_bytes(ev.fields());
    let d = wire::varint_bytes(gap(ev.spec_ts_us(), last) as nat);
    let t = seq![ev.type_code()];
    let n = wire::varint_bytes(payload.len());
    wire::lemma_holds_at_split(b, pos, d + t + n, payload);
    wire::lemma_holds_at_split(b, pos, d + t, n);
    wire::lemma_holds_at_split(b, pos, d, t);
    wire::lemma_varint_round(b, pos, gap(ev.spec_ts_us(), last) as nat);
    wire::lemma_holds_at_byte(b, pos + d.len(), ev.type_code());
    wire::lemma_varint_round(b, pos + d.len() + 1, payload.len());
    law_payload_round(ev);
}

/// The records of a sequence of events that follow one at `last`.
pub open spec fn records_bytes(evs: Seq<Event>, last: u64) -> Seq<u8>
    decreases evs.len(),
{
    if evs.len() == 0 {
        Seq::empty()
    } else {
        record_bytes(last, evs[0]@) + records_bytes(evs.drop_first(), evs[0].spec_ts_us())
    }
}

/// What `n` steps of a reader give, if each of them gives an event; where they
/// leave it, and the time of the last record.
pub open spec fn read_n(b: Seq<u8>, pos: int, last: u64, n: nat) -> Option<
    (Seq<EventView>, int, u64),
>
    decreases n,
{
    if n == 0 {
        Some((Seq::empty(), pos, last))
    } else {
        let step = record_read(b, pos, last);
        match step.res {
            Ok(Some(v)) => match read_n(b, step.pos, step.last_ts, (n - 1) as nat) {
                Some((vs, p, t)) => Some((seq![v] + vs, p, t)),
                None => None,
            },
            _ => None,
        }
    }
}

/// Times do not run backwards, every length fits and no payload is over the
/// cap.
pub open spec fn loggable(evs: Seq<Event>, last: u64) -> bool {
    &&& forall|i: int|
        0 <= i < evs.len() ==> {
            &&& (#[trigger] evs[i]).fits()
            &&& wire::payload_bytes(evs[i].fields()).len() <= MAX_RECORD_LEN
            &&& last <= evs[i].spec_ts_us()
        }
    &&& forall|i: int, j: int|
        0 <= i <= j < evs.len() ==> (#[trigger] evs[i]).spec_ts_us() <= (
        #[trigger] evs[j]).spec_ts_us()
}

proof fn lemma_records_round(b: Seq<u8>, pos: int, last: u64, evs: Seq<Event>)
    requires
        loggable(evs, last),
        wire::holds_at(b, pos, records_bytes(evs, last)),
    ensures
        read_n(b, pos, last, evs.len()) matches Some((vs, p, _)) && vs =~= evs.map_values(
            |e: Event| e@,
        ) && p == pos + records_bytes(evs, last).len(),
    decreases evs.len(),
{
    if evs.len() > 0 {
        let r = record_bytes(last, evs[0]@);
        let rest = evs.drop_first();
        wire::lemma_holds_at_split(b, pos, r, records_bytes(rest, evs[0].spec_ts_us()));
        law_record_round(b, pos, last, evs[0]);
        assert(loggable(rest, evs[0].spec_ts_us())) by {
            assert forall|i: int| 0 <= i < rest.len() implies {
                &&& (#[trigger] rest[i]).fits()
                &&& wire::payload_bytes(rest[i].fields()).len() <= MAX_RECORD_LEN
                &&& evs[0].spec_ts_us() <= rest[i].spec_ts_us()
            } by {
                assert(rest[i] == evs[i + 1]);
            }
            assert forall|i: int, j: int| 0 <= i <= j < rest.len() implies (
            #[trigger] rest[i]).spec_ts_us() <= (#[trigger] rest[j]).spec_ts_us() by {
                assert(rest[i] == evs[i + 1]);
                assert(rest[j] == evs[j + 1]);
            }
        }
        lemma_records_round(b, pos + r.len(), evs[0].spec_ts_us(), rest);
        let vs = read_n(b, pos, last, evs.len())->Some_0.0;
        assert(vs =~= evs.map_values(|e: Event| e@)) by {
            assert forall|i: int| 0 <= i < evs.len() implies vs[i] == (#[trigger] evs[i])@ by {
                if i > 0 {
                    assert(rest[i - 1] == evs[i]);
                }
            }
        }
    }
}

/// Whatever is written is read back: the UTC offset, every event in order, and
/// then the end of the log, however often it is asked for.
pub proof fn law_log_round(tz: i32, evs: Seq<Event>)
    requires
        loggable(evs, 0),
    ensures
        ({
            let b = header_bytes(tz) + records_bytes(evs, 0);
            &&& header_read(b) == (12int, Some(tz))
            &&& read_n(b, 12, 0, evs.len()) matches Some((vs, p, t)) && {
                &&& vs =~= evs.map_values(|e: Event| e@)
                &&& record_read(b, p, t).res == Ok::<Option<EventView>, EvlogError>(None)
                &&& record_read(b, p, t).pos == p
                &&& record_read(b, p, t).last_ts == t
            }
        }),
{
    let h = header_bytes(tz);
    let r = records_bytes(evs, 0);
    let b = h + r;
    let v2 = octets::be_bytes(VERSION as nat, 2);
    let f2 = octets::be_bytes(0, 2);
    let z4 = octets::be_bytes(i32_code(tz), 4);
    octets::lemma_be_bytes_len(VERSION as nat, 2);
    octets::lemma_be_bytes_len(0, 2);
    octets::lemma_be_bytes_len(i32_code(tz), 4);
    assert(b.subrange(0, b.len() as int) =~= b);
    wire::lemma_holds_at_split(b, 0, h, r);
    wire::lemma_holds_at_split(b, 0, MAGIC@ + v2 + f2, z4);
    wire::lemma_holds_at_split(b, 0, MAGIC@ + v2, f2);
    wire::lemma_holds_at_split(b, 0, MAGIC@, v2);
    assert(b.take(4) =~= MAGIC@);
    reveal_with_fuel(octets::pow256, 5);
    octets::lemma_be_round(b, 4, VERSION as nat, 2);
    octets::lemma_be_round(b, 8, i32_code(tz), 4);
    lemma_records_round(b, 12, 0, evs);
}

// ----------------------------- the size of a log -----------------------------

/// What a log's user does: writes an event, or hands on what has been built.
pub enum LogStep {
    Write(Event),
    Flush,
}

/// A log in the making: what has been handed on, what waits, the time of the last
/// event, and the count of bytes.
pub struct LogState {
    pub handed: Seq<u8>,
    pub pending: Seq<u8>,
    pub last: u64,
    pub count: int,
}

impl EvlogWriter {
    /// The log that a writer makes, of which `handed` has been handed on.
    pub open spec fn log_state(&self, handed: Seq<u8>) -> LogState {
        LogState {
            handed,
            pending: self.pending(),
            last: self.spec_last_ts(),
            count: self.spec_bytes_written() as int,
        }
    }
}

impl LogState {
    pub open spec fn started(tz: i32) -> LogState {
        LogState {
            handed: Seq::empty(),
            pending: header_bytes(tz),
            last: 0,
            count: header_bytes(tz).len() as int,
        }
    }

    pub open spec fn wrote(self, ev: Event) -> LogState {
        LogState {
            pending: self.pending + record_bytes(self.last, ev@),
            last: ev.spec_ts_us(),
            count: self.count + record_bytes(self.last, ev@).len(),
            ..self
        }
    }

    pub open spec fn flushed(self) -> LogState {
        LogState { handed: self.handed + self.pending, pending: Seq::empty(), ..self }
    }

    pub open spec fn after(self, step: LogStep) -> LogState {
        match step {
            LogStep::Write(ev) => self.wrote(ev),
            LogStep::Flush => self.flushed(),
        }
    }
}

/// A log after the first `n` steps.
pub open spec fn log_after(tz: i32, steps: Seq<LogStep>, n: int) -> LogState
    decreases n,
{
    if n <= 0 {
        LogState::started(tz)
    } else {
        log_after(tz, steps, n - 1).after(steps[n - 1])
    }
}

/// The events that the first `n` steps write.
pub open spec fn events_among(steps: Seq<LogStep>, n: int) -> Seq<Event>
    decreases n,
{
    if n <= 0 {
        Seq::empty()
    } else {
        match steps[n - 1] {
            LogStep::Write(ev) => events_among(steps, n - 1).push(ev),
            LogStep::Flush => events_among(steps, n - 1),
        }
    }
}

/// The time of the last of some events.
pub open spec fn last_time(evs: Seq<Event>) -> u64 {
    if evs.len() == 0 {
        0
    } else {
        evs.last().spec_ts_us()
    }
}

proof fn lemma_records_push(evs: Seq<Event>, last: u64, ev: Event)
    ensures
        records_bytes(evs.push(ev), last) == records_bytes(evs, last) + record_bytes(
            if evs.len() == 0 {
                last
            } else {
                evs.last().spec_ts_us()
            },
            ev@,
        ),
    decreases evs.len(),
{
    let all = evs.push(ev);
    if evs.len() == 0 {
        assert(all.drop_first() =~= Seq::<Event>::empty());
        assert(records_bytes(all.drop_first(), ev.spec_ts_us()) =~= Seq::<u8>::empty());
        assert(records_bytes(all, last) =~= record_bytes(last, ev@));
        assert(Seq::<u8>::empty() + record_bytes(last, ev@) =~= record_bytes(last, ev@));
    } else {
        let rest = evs.drop_first();
        assert(all.drop_first() =~= rest.push(ev));
        assert(all[0] == evs[0]);
        lemma_records_push(rest, evs[0].spec_ts_us(), ev);
        if rest.len() > 0 {
            assert(rest.last() == evs.last());
        } else {
            assert(evs.last() == evs[0]);
        }
        assert(records_bytes(all, last) =~= records_bytes(evs, last) + record_bytes(
            evs.last().spec_ts_us(),
            ev@,
        ));
    }
}

/// However writes and flushes follow each other, the log is the header and the records
/// of the events written, and the count of bytes is its length, handed on or not. So
/// never more than the count has been handed on, and after a flush exactly as much.
pub proof fn law_count_is_length(tz: i32, steps: Seq<LogStep>, n: int)
    requires
        0 <= n <= steps.len(),
    ensures
        ({
            let s = log_after(tz, steps, n);
            let evs = events_among(steps, n);
            &&& s.handed + s.pending == header_bytes(tz) + records_bytes(evs, 0)
            &&& s.last == last_time(evs)
            &&& s.count == s.handed.len() + s.pending.len()
            &&& s.handed.len() <= s.count
            &&& s.flushed().handed.len() == s.flushed().count
            &&& s.flushed().handed == header_bytes(tz) + records_bytes(evs, 0)
        }),
    decreases n,
{
    let s = log_after(tz, steps, n);
    let evs = events_among(steps, n);
    if n == 0 {
        assert(s.handed + s.pending =~= header_bytes(tz) + records_bytes(evs, 0));
    } else {
        law_count_is_length(tz, steps, n - 1);
        let t = log_after(tz, steps, n - 1);
        let before = events_among(steps, n - 1);
        match steps[n - 1] {
            LogStep::Write(ev) => {
                lemma_records_push(before, 0, ev);
                assert(t.handed + (t.pending + record_bytes(t.last, ev@)) =~= (t.handed + t.pending)
                    + record_bytes(t.last, ev@));
                assert((header_bytes(tz) + records_bytes(before, 0)) + record_bytes(t.last, ev@)
                    =~= header_bytes(tz) + records_bytes(evs, 0));
                assert(evs.last() == ev);
            },
            LogStep::Flush => {
                assert((t.handed + t.pending) + Seq::<u8>::empty() =~= t.handed + t.pending);
            },
        }
    }
}

} // verus!
