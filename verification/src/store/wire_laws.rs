//! The layout of the event log, byte by byte.
use crate::model::addr::{IpAddr, SocketAddr};
use crate::model::packet::{Flow5Tuple, Proto};
use crate::octets;
use crate::store::evlog::{
    header_bytes, header_read, payload_read, raw_read, record_bytes, stream_head_kinds, Event,
    EventView,
};
use crate::store::wire::{
    addr_bytes, field_bytes, fields_read, flow_bytes, payload_bytes, varint_at, varint_bytes,
    varint_read, CallEvtKind, EvlogError, FieldVal,
};
use vstd::prelude::*;
use vstd::utf8::encode_utf8;

verus! {

/// A variable-length integer gives seven bits in each byte, the lowest first; a byte with the high bit set is
/// followed by another.
pub proof fn law_varint_bytes(n: nat)
    ensures
        n < 128 ==> varint_bytes(n) == seq![n as u8],
        n >= 128 ==> varint_bytes(n)[0] == n % 128 + 128 && varint_bytes(n).skip(1)
            == varint_bytes(n / 128),
{
    if n >= 128 {
        assert(varint_bytes(n).skip(1) =~= varint_bytes(n / 128));
    }
}

/// What bytes mean as a variable-length integer: a single byte itself, and before another byte seven bits below
/// what that one gives. Ten bytes are the most.
pub proof fn law_varint_read(b: Seq<u8>, pos: int, i: nat)
    requires
        0 <= pos < b.len(),
    ensures
        b[pos] < 128 ==> varint_at(b, pos, i) == Ok::<(nat, int), EvlogError>(
            (b[pos] as nat, pos + 1),
        ),
        b[pos] >= 128 && i < 9 ==> (varint_at(b, pos + 1, i + 1) matches Ok(r) ==> varint_at(
            b,
            pos,
            i,
        ) == Ok::<(nat, int), EvlogError>(((b[pos] - 128) as nat + 128 * r.0, r.1))),
        b[pos] >= 128 && i == 9 ==> varint_at(b, pos, i) == Err::<(nat, int), EvlogError>(
            EvlogError::VarintTooLong,
        ),
        varint_at(b, b.len() as int, i) == Err::<(nat, int), EvlogError>(EvlogError::UnexpectedEof),
{
}

/// Numbers of a fixed width have their most significant byte first.
pub proof fn law_big_endian_bytes(n: nat)
    ensures
        octets::be_bytes(n, 1) == seq![(n % 256) as u8],
        octets::be_bytes(n, 2) == seq![(n / 256 % 256) as u8, (n % 256) as u8],
        octets::be_bytes(n, 4) == seq![
            (n / 0x100_0000 % 256) as u8,
            (n / 0x1_0000 % 256) as u8,
            (n / 256 % 256) as u8,
            (n % 256) as u8,
        ],
{
    reveal_with_fuel(octets::be_bytes, 5);
    assert(n / 256 / 256 == n / 0x1_0000);
    assert(n / 256 / 256 / 256 == n / 0x100_0000);
    assert(octets::be_bytes(n, 1) =~= seq![(n % 256) as u8]);
    assert(octets::be_bytes(n, 2) =~= seq![(n / 256 % 256) as u8, (n % 256) as u8]);
    assert(octets::be_bytes(n, 4) =~= seq![
        (n / 0x100_0000 % 256) as u8,
        (n / 0x1_0000 % 256) as u8,
        (n / 256 % 256) as u8,
        (n % 256) as u8,
    ]);
}

/// An address is its family, 4 or 6, its bytes and its port; a flow is its protocol, 0 for UDP and 1 for TCP,
/// its source and its destination.
pub proof fn law_flow_bytes(v: u32, w: u128, port: u16, a: SocketAddr, b: SocketAddr)
    ensures
        addr_bytes(SocketAddr { ip: IpAddr::V4(v), port }) == seq![4u8] + octets::be_bytes(
            v as nat,
            4,
        ) + octets::be_bytes(port as nat, 2),
        addr_bytes(SocketAddr { ip: IpAddr::V6(w), port }) == seq![6u8] + octets::be_bytes(
            w as nat,
            16,
        ) + octets::be_bytes(port as nat, 2),
        flow_bytes(Flow5Tuple { proto: Proto::Udp, src: a, dst: b }) == seq![0u8] + addr_bytes(a)
            + addr_bytes(b),
        flow_bytes(Flow5Tuple { proto: Proto::Tcp, src: a, dst: b }) == seq![1u8] + addr_bytes(a)
            + addr_bytes(b),
{
}

/// The fields: flags and optional numbers have a byte 0 or 1 before them, texts their length, and optional texts
/// their length and one, or 0.
pub proof fn law_field_bytes(n: u32, m: u64, x: u16, t: Seq<char>)
    ensures
        field_bytes(FieldVal::Flag(true)) == seq![1u8],
        field_bytes(FieldVal::Flag(false)) == seq![0u8],
        field_bytes(FieldVal::CallKind(CallEvtKind::Setup)) == seq![1u8],
        field_bytes(FieldVal::CallKind(CallEvtKind::Update)) == seq![2u8],
        field_bytes(FieldVal::CallKind(CallEvtKind::Teardown)) == seq![3u8],
        field_bytes(FieldVal::OptU32(None)) == seq![0u8],
        field_bytes(FieldVal::OptU32(Some(n))) == seq![1u8] + varint_bytes(n as nat),
        field_bytes(FieldVal::OptU64(Some(m))) == seq![1u8] + varint_bytes(m as nat),
        field_bytes(FieldVal::OptU64(None)) == seq![0u8],
        field_bytes(FieldVal::OptU16(Some(x))) == seq![1u8] + octets::be_bytes(x as nat, 2),
        field_bytes(FieldVal::U32Be(n)) == octets::be_bytes(n as nat, 4),
        field_bytes(FieldVal::Varint(m)) == varint_bytes(m as nat),
        field_bytes(FieldVal::Text(t)) == varint_bytes(encode_utf8(t).len()) + encode_utf8(t),
        field_bytes(FieldVal::OptText(Some(t))) == varint_bytes(encode_utf8(t).len() + 1)
            + encode_utf8(t),
        field_bytes(FieldVal::OptText(None)) == seq![0u8],
{
}

/// A log begins with SMON, the version 2, two bytes of zero and the offset from UTC in seconds, and has a
/// header of twelve bytes.
pub proof fn law_header(tz: i32)
    ensures
        header_bytes(tz).len() == 12,
        header_bytes(tz).take(8) == seq![0x53u8, 0x4D, 0x4F, 0x4E, 0, 2, 0, 0],
        tz >= 0 ==> header_bytes(tz).skip(8) == octets::be_bytes(tz as nat, 4),
        tz < 0 ==> header_bytes(tz).skip(8) == octets::be_bytes((0x1_0000_0000 + tz) as nat, 4),
{
    law_big_endian_bytes(2);
    law_big_endian_bytes(0);
    law_big_endian_bytes(
        if tz >= 0 {
            tz as nat
        } else {
            (0x1_0000_0000 + tz) as nat
        },
    );
    assert(crate::store::evlog::MAGIC@.len() == 4);
    assert(header_bytes(tz).take(8) =~= seq![0x53u8, 0x4D, 0x4F, 0x4E, 0, 2, 0, 0]);
    assert(header_bytes(tz).skip(8) =~= octets::be_bytes(
        if tz >= 0 {
            tz as nat
        } else {
            (0x1_0000_0000 + tz) as nat
        },
        4,
    ));
}

/// A log without the mark is read from its first byte, and knows no offset; one of an older version has the
/// header but no offset.
pub proof fn law_header_read(b: Seq<u8>)
    ensures
        b.len() < 4 ==> header_read(b) == (0int, None::<i32>),
        b.len() >= 4 && b[0] != 0x53 ==> header_read(b) == (0int, None::<i32>),
        b.len() >= 12 && b.take(4) == seq![0x53u8, 0x4D, 0x4F, 0x4E] && b[4] == 0 && b[5] < 2
            ==> header_read(b) == (12int, None::<i32>),
        b.len() >= 12 && b.take(4) == seq![0x53u8, 0x4D, 0x4F, 0x4E] && b[5] >= 2 ==> header_read(
            b,
        ).0 == 12 && header_read(b).1 is Some,
{
    reveal_with_fuel(octets::be_value, 3);
    let m = crate::store::evlog::MAGIC@;
    assert(m =~= seq![0x53u8, 0x4D, 0x4F, 0x4E]);
    if b.len() >= 4 {
        assert(b.take(4)[0] == b[0]);
    }
}

/// The types of events.
pub proof fn law_type_codes(ev: Event)
    ensures
        ev is SipMsg <==> ev.type_code() == 1,
        ev is Txn <==> ev.type_code() == 2,
        ev is Call <==> ev.type_code() == 3,
        ev is StreamSnap <==> ev.type_code() == 4,
        ev is RtcpRtt <==> ev.type_code() == 5,
        ev is HealthBucket <==> ev.type_code() == 6,
        ev is Error <==> ev.type_code() == 7,
        ev is Diag <==> ev.type_code() == 8,
{
}

/// A record is the time since the one before it, its type, the length of its payload, and the payload.
pub proof fn law_record(last: u64, ev: EventView)
    ensures
        ev.ts_us >= last ==> record_bytes(last, ev) == varint_bytes((ev.ts_us - last) as nat) + seq![
            ev.ty,
        ] + varint_bytes(payload_bytes(ev.fields).len()) + payload_bytes(ev.fields),
        ev.ts_us < last ==> record_bytes(last, ev) == varint_bytes(0) + seq![ev.ty] + varint_bytes(
            payload_bytes(ev.fields).len(),
        ) + payload_bytes(ev.fields),
{
}

/// A payload is its fields one behind the other.
pub proof fn law_payload(vs: Seq<FieldVal>, v: FieldVal)
    ensures
        payload_bytes(vs.push(v)) == payload_bytes(vs) + field_bytes(v),
        payload_bytes(Seq::empty()).len() == 0,
{
    lemma_prefix(vs, v, vs.len());
    assert(vs.push(v)[vs.len() as int] == v);
}

proof fn lemma_prefix(vs: Seq<FieldVal>, v: FieldVal, n: nat)
    requires
        n <= vs.len(),
    ensures
        crate::store::wire::fields_bytes(vs.push(v), n) == crate::store::wire::fields_bytes(vs, n),
    decreases n,
{
    if n > 0 {
        lemma_prefix(vs, v, (n - 1) as nat);
    }
}

/// The order of the fields in a message, and in a round trip.
pub proof fn law_message_fields_order(ev: Event)
    ensures
        ev matches Event::SipMsg(e) ==> ev.fields()[0] == FieldVal::Flow(e.flow) && ev.fields()[1]
            == FieldVal::Flag(e.is_request) && ev.fields()[3] == FieldVal::OptU16(e.status)
            && ev.fields()[4] == FieldVal::Text(e.call_id@) && ev.fields()[5] == FieldVal::OptU32(
            e.cseq,
        ) && ev.fields()[9] == FieldVal::Blob(e.raw@) && ev.fields().len() == 10,
        ev matches Event::RtcpRtt(e) ==> ev.fields()[0] == FieldVal::Text(e.call_id@)
            && ev.fields()[1] == FieldVal::U32Be(e.ssrc) && ev.fields()[2] == FieldVal::F64(e.rtt_ms)
            && ev.fields()[3] == FieldVal::OptF64(e.oneway_ms) && ev.fields().len() == 4,
        ev matches Event::Diag(e) ==> ev.fields()[0] == FieldVal::Text(e.call_id@) && ev.fields()[1]
            == FieldVal::Byte(e.severity) && ev.fields()[2] == FieldVal::Text(e.code@)
            && ev.fields()[3] == FieldVal::Text(e.message@) && ev.fields().len() == 4,
        ev matches Event::Error(e) ==> ev.fields()[0] == FieldVal::Text(e.kind@) && ev.fields()[1]
            == FieldVal::Text(e.msg@) && ev.fields().len() == 2,
        ev matches Event::Txn(e) ==> ev.fields()[0] == FieldVal::Text(e.call_id@) && ev.fields()[1]
            == FieldVal::Text(e.branch@) && ev.fields()[2] == FieldVal::Text(e.method@)
            && ev.fields()[3] == FieldVal::OptU16(e.response_code) && ev.fields()[4]
            == FieldVal::OptU32(e.delay_ms) && ev.fields().len() == 5,
{
}

/// The order of the fields of a call.
pub proof fn law_call_fields_order(ev: Event)
    ensures
        ev matches Event::Call(e) ==> ev.fields()[0] == FieldVal::Text(e.call_id@) && ev.fields()[1]
            == FieldVal::CallKind(e.kind) && ev.fields()[6] == FieldVal::Byte(e.state)
            && ev.fields()[7] == FieldVal::Byte(e.outcome) && ev.fields()[8] == FieldVal::OptU64(
            e.invite_ts,
        ) && ev.fields()[9] == FieldVal::OptU64(e.trying_ts) && ev.fields()[10] == FieldVal::OptU64(
            e.ringing_ts,
        ) && ev.fields()[11] == FieldVal::OptU64(e.answer_ts) && ev.fields()[12]
            == FieldVal::OptU64(e.bye_ts) && ev.fields()[13] == FieldVal::OptU64(e.end_ts)
            && ev.fields()[14] == FieldVal::OptU32(e.pdd_ms) && ev.fields()[15] == FieldVal::OptU32(
            e.setup_ms,
        ) && ev.fields()[16] == FieldVal::OptU32(e.hangup_code) && ev.fields()[18]
            == FieldVal::Varint(e.pkts_sip) && ev.fields()[19] == FieldVal::Varint(e.pkts_rtp)
            && ev.fields()[20] == FieldVal::Varint(e.pkts_rtcp) && ev.fields()[21]
            == FieldVal::Varint(e.bytes) && ev.fields().len() == 22,
{
}

/// The order of the fields of a stream.
pub proof fn law_stream_fields_order(ev: Event)
    ensures
        ev matches Event::StreamSnap(e) ==> ev.fields()[0] == FieldVal::Text(e.call_id@)
            && ev.fields()[1] == FieldVal::U32Be(e.ssrc) && ev.fields()[2] == FieldVal::Flow(e.flow)
            && ev.fields()[4] == FieldVal::OptU8(e.payload_type) && ev.fields()[5]
            == FieldVal::Varint(e.packets) && ev.fields()[6] == FieldVal::Varint(e.lost)
            && ev.fields()[7] == FieldVal::Varint(e.expected) && ev.fields()[8] == FieldVal::F64(
            e.loss_pct,
        ) && ev.fields()[9] == FieldVal::OptF64(e.jitter_ms) && ev.fields()[10]
            == FieldVal::OptF64(e.mos) && ev.fields()[12] == FieldVal::Varint(e.bytes)
            && ev.fields()[13] == FieldVal::OptU64(e.first_ts_us) && ev.fields()[14]
            == FieldVal::OptU64(e.last_ts_us) && ev.fields()[18] == FieldVal::OptF64(e.oneway_ms)
            && ev.fields()[20] == FieldVal::Flag(e.via_turn) && ev.fields().len() == 21,
{
}

/// A record of an unknown type is told as an error, at its time, and does not end the log.
pub proof fn law_unknown_type(ty: u8, ts: u64, b: Seq<u8>)
    requires
        ty == 0 || ty > 8,
    ensures
        payload_read(ty, ts, b) == Ok::<EventView, EvlogError>(
            EventView {
                ty: 7,
                ts_us: ts,
                fields: seq![
                    FieldVal::Text("unknown_event"@),
                    FieldVal::Text("skipped event type "@ + crate::text::dec(ty as nat)),
                ],
            },
        ),
{
    reveal(payload_read);
}

/// A stream of an older log ends with its direction; what is not there reads as nothing known.
pub proof fn law_older_stream(b: Seq<u8>, vs: Seq<FieldVal>)
    requires
        vs.len() == 12,
        fields_read(stream_head_kinds(), 0, Seq::empty(), b, 0) == Ok::<
            (Seq<FieldVal>, int),
            EvlogError,
        >((vs, b.len() as int)),
    ensures
        ({
            let r = payload_read(4, 0, b);
            &&& r is Ok
            &&& r->Ok_0.fields.len() == 21
            &&& r->Ok_0.fields.take(12) == vs
            &&& r->Ok_0.fields[12] == FieldVal::Varint(0)
            &&& r->Ok_0.fields[13] == FieldVal::OptU64(None)
            &&& r->Ok_0.fields[18] == FieldVal::OptF64(None)
            &&& r->Ok_0.fields[19] == FieldVal::OptText(None)
            &&& r->Ok_0.fields[20] == FieldVal::Flag(false)
        }),
{
    reveal(payload_read);
    assert(payload_read(4, 0, b)->Ok_0.fields.take(12) =~= vs);
}

/// A log may end before a record or inside the time or the type of one; inside the rest it is an error, and so
/// is a record of more than 32 megabytes.
pub proof fn law_log_end(b: Seq<u8>, pos: int, last: u64, d: (u64, int), n: (u64, int))
    ensures
        pos == b.len() ==> raw_read(b, pos, last).res == Ok::<
            Option<(u8, u64, Seq<u8>)>,
            EvlogError,
        >(None),
        varint_read(b, pos) == Ok::<(u64, int), EvlogError>(d) && d.1 == b.len() ==> raw_read(
            b,
            pos,
            last,
        ).res == Ok::<Option<(u8, u64, Seq<u8>)>, EvlogError>(None),
        varint_read(b, pos) == Ok::<(u64, int), EvlogError>(d) && d.1 < b.len() && varint_read(
            b,
            d.1 + 1,
        ) == Ok::<(u64, int), EvlogError>(n) && n.0 > 32 * 1024 * 1024 ==> raw_read(
            b,
            pos,
            last,
        ).res == Err::<Option<(u8, u64, Seq<u8>)>, EvlogError>(EvlogError::RecordTooLong),
        varint_read(b, pos) == Ok::<(u64, int), EvlogError>(d) && d.1 < b.len() && varint_read(
            b,
            d.1 + 1,
        ) == Ok::<(u64, int), EvlogError>(n) && n.0 <= 32 * 1024 * 1024 && n.1 + n.0 > b.len()
            ==> raw_read(b, pos, last).res == Err::<Option<(u8, u64, Seq<u8>)>, EvlogError>(
            EvlogError::UnexpectedEof,
        ),
{
}

/// A record is at the time of the one before it and the time since; it holds the bytes behind its length.
pub proof fn law_raw_record(b: Seq<u8>, pos: int, last: u64, d: (u64, int), n: (u64, int))
    requires
        0 <= pos < b.len(),
        varint_read(b, pos) == Ok::<(u64, int), EvlogError>(d),
        0 <= d.1 < b.len(),
        varint_read(b, d.1 + 1) == Ok::<(u64, int), EvlogError>(n),
        n.0 <= 32 * 1024 * 1024,
        0 <= n.1,
        n.1 + n.0 <= b.len(),
        last + d.0 <= u64::MAX,
    ensures
        raw_read(b, pos, last).res == Ok::<Option<(u8, u64, Seq<u8>)>, EvlogError>(
            Some((b[d.1], (last + d.0) as u64, b.subrange(n.1, n.1 + n.0))),
        ),
        raw_read(b, pos, last).pos == n.1 + n.0,
        raw_read(b, pos, last).last_ts == last + d.0,
{
}

} // verus!
