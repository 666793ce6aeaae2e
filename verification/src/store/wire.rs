//! The event log's wire format: how each kind of field is laid out in bytes,
//! and what a reader takes bytes to mean.
use crate::model::addr::{IpAddr, SocketAddr};
use crate::model::packet::{Flow5Tuple, Proto};
use crate::model::stats::Real64;
use crate::octets;
use crate::text;
use vstd::prelude::*;
use vstd::utf8::*;

verus! {

/// Why a log cannot be read further.
#[derive(Debug, Clone, Copy, PartialEq, Eq, Structural)]
pub enum EvlogError {
    /// The bytes end inside a field.
    UnexpectedEof,
    /// A variable-length integer runs over ten bytes.
    VarintTooLong,
    /// A record announces more bytes than the cap allows.
    RecordTooLong,
}

/// What happened to a call when a call record was written.
#[derive(Debug, Clone, Copy, PartialEq, Eq, Structural)]
pub enum CallEvtKind {
    Setup,
    Update,
    Teardown,
}

/// The layout of one field.
pub enum FieldKind {
    Byte,
    Flag,
    CallKind,
    U32Be,
    Varint,
    F64,
    Text,
    Blob,
    OptText,
    OptU8,
    OptU16,
    OptU32,
    OptU64,
    OptF64,
    Flow,
}

/// The value of one field.
pub enum FieldVal {
    Byte(u8),
    Flag(bool),
    CallKind(CallEvtKind),
    U32Be(u32),
    Varint(u64),
    F64(Real64),
    Text(Seq<char>),
    Blob(Seq<u8>),
    OptText(Option<Seq<char>>),
    OptU8(Option<u8>),
    OptU16(Option<u16>),
    OptU32(Option<u32>),
    OptU64(Option<u64>),
    OptF64(Option<Real64>),
    Flow(Flow5Tuple),
}

impl FieldVal {
    pub open spec fn kind(self) -> FieldKind {
        match self {
            FieldVal::Byte(_) => FieldKind::Byte,
            FieldVal::Flag(_) => FieldKind::Flag,
            FieldVal::CallKind(_) => FieldKind::CallKind,
            FieldVal::U32Be(_) => FieldKind::U32Be,
            FieldVal::Varint(_) => FieldKind::Varint,
            FieldVal::F64(_) => FieldKind::F64,
            FieldVal::Text(_) => FieldKind::Text,
            FieldVal::Blob(_) => FieldKind::Blob,
            FieldVal::OptText(_) => FieldKind::OptText,
            FieldVal::OptU8(_) => FieldKind::OptU8,
            FieldVal::OptU16(_) => FieldKind::OptU16,
            FieldVal::OptU32(_) => FieldKind::OptU32,
            FieldVal::OptU64(_) => FieldKind::OptU64,
            FieldVal::OptF64(_) => FieldKind::OptF64,
            FieldVal::Flow(_) => FieldKind::Flow,
        }
    }

    /// Lengths fit the 64-bit length prefix, as those of values in memory do.
    pub open spec fn fits(self) -> bool {
        match self {
            FieldVal::Text(t) => encode_utf8(t).len() <= u64::MAX,
            FieldVal::Blob(b) => b.len() <= u64::MAX,
            FieldVal::OptText(Some(t)) => encode_utf8(t).len() < u64::MAX,
            _ => true,
        }
    }
}

// ----------------------------- integers -----------------------------

/// Base-128 digits, least significant first, all but the last with the high
/// bit set.
pub open spec fn varint_bytes(n: nat) -> Seq<u8>
    decreases n,
{
    if n < 128 {
        seq![n as u8]
    } else {
        seq![(n % 128 + 128) as u8] + varint_bytes(n / 128)
    }
}

/// The number spelled in base 128 from `pos` on, where `i` digits came before,
/// and the position behind it. Ten digits at most.
pub open spec fn varint_at(b: Seq<u8>, pos: int, i: nat) -> Result<(nat, int), EvlogError>
    decreases 10 - i,
{
    if pos >= b.len() {
        Err(EvlogError::UnexpectedEof)
    } else if b[pos] < 128 {
        Ok((b[pos] as nat, pos + 1))
    } else if i >= 9 {
        Err(EvlogError::VarintTooLong)
    } else {
        match varint_at(b, pos + 1, i + 1) {
            Ok((v, p)) => Ok(((b[pos] - 128) as nat + 128 * v, p)),
            Err(e) => Err(e),
        }
    }
}

/// The variable-length integer at `pos`: the spelled number modulo 2^64.
pub open spec fn varint_read(b: Seq<u8>, pos: int) -> Result<(u64, int), EvlogError> {
    match varint_at(b, pos, 0) {
        Ok((v, p)) => Ok(((v % 0x1_0000_0000_0000_0000) as u64, p)),
        Err(e) => Err(e),
    }
}

/// A variable-length integer takes at least one byte.
pub proof fn lemma_varint_moves(b: Seq<u8>, pos: int, k: nat)
    ensures
        varint_at(b, pos, k) matches Ok((_, p)) ==> pos < p <= b.len(),
    decreases 10 - k,
{
    if pos < b.len() && k < 9 {
        lemma_varint_moves(b, pos + 1, k + 1);
    }
}

/// `len` raw bytes at `pos`.
pub open spec fn take_read(b: Seq<u8>, pos: int, len: nat) -> Result<(Seq<u8>, int), EvlogError> {
    if pos + len <= b.len() {
        Ok((b.subrange(pos, pos + len), pos + len))
    } else {
        Err(EvlogError::UnexpectedEof)
    }
}

/// The big-endian number in the `len` bytes at `pos`.
pub open spec fn be_read(b: Seq<u8>, pos: int, len: nat) -> Result<(nat, int), EvlogError> {
    if pos + len <= b.len() {
        Ok((octets::be_value(b, pos, len), pos + len))
    } else {
        Err(EvlogError::UnexpectedEof)
    }
}

// ----------------------------- fields -----------------------------

pub open spec fn addr_bytes(a: SocketAddr) -> Seq<u8> {
    (match a.ip {
        IpAddr::V4(v) => seq![4u8] + octets::be_bytes(v as nat, 4),
        IpAddr::V6(v) => seq![6u8] + octets::be_bytes(v as nat, 16),
    }) + octets::be_bytes(a.port as nat, 2)
}

pub open spec fn flow_bytes(f: Flow5Tuple) -> Seq<u8> {
    seq![
        match f.proto {
            Proto::Udp => 0u8,
            Proto::Tcp => 1u8,
        },
    ] + addr_bytes(f.src) + addr_bytes(f.dst)
}

pub open spec fn call_kind_code(k: CallEvtKind) -> u8 {
    match k {
        CallEvtKind::Setup => 1,
        CallEvtKind::Update => 2,
        CallEvtKind::Teardown => 3,
    }
}

/// The bytes of one field.
pub open spec fn field_bytes(v: FieldVal) -> Seq<u8> {
    match v {
        FieldVal::Byte(x) => seq![x],
        FieldVal::Flag(x) => seq![if x { 1u8 } else { 0u8 }],
        FieldVal::CallKind(k) => seq![call_kind_code(k)],
        FieldVal::U32Be(x) => octets::be_bytes(x as nat, 4),
        FieldVal::Varint(x) => varint_bytes(x as nat),
        FieldVal::F64(x) => octets::be_bytes(x.bits as nat, 8),
        FieldVal::Text(t) => varint_bytes(encode_utf8(t).len()) + encode_utf8(t),
        FieldVal::Blob(t) => varint_bytes(t.len()) + t,
        FieldVal::OptText(None) => varint_bytes(0),
        FieldVal::OptText(Some(t)) => varint_bytes(encode_utf8(t).len() + 1) + encode_utf8(t),
        FieldVal::OptU8(None) => seq![0u8],
        FieldVal::OptU8(Some(x)) => seq![1u8] + seq![x],
        FieldVal::OptU16(None) => seq![0u8],
        FieldVal::OptU16(Some(x)) => seq![1u8] + octets::be_bytes(x as nat, 2),
        FieldVal::OptU32(None) => seq![0u8],
        FieldVal::OptU32(Some(x)) => seq![1u8] + varint_bytes(x as nat),
        FieldVal::OptU64(None) => seq![0u8],
        FieldVal::OptU64(Some(x)) => seq![1u8] + varint_bytes(x as nat),
        FieldVal::OptF64(None) => seq![0u8],
        FieldVal::OptF64(Some(x)) => seq![1u8] + octets::be_bytes(x.bits as nat, 8),
        FieldVal::Flow(f) => flow_bytes(f),
    }
}

/// A socket address at `pos`: tag 4 announces four octets, any other tag
/// sixteen; the port follows.
pub open spec fn addr_read(b: Seq<u8>, pos: int) -> Result<(SocketAddr, int), EvlogError> {
    match take_read(b, pos, 1) {
        Err(e) => Err(e),
        Ok((_, p)) => {
            let n: nat = if b[pos] == 4 {
                4
            } else {
                16
            };
            match be_read(b, p, n) {
                Err(e) => Err(e),
                Ok((v, q)) => match be_read(b, q, 2) {
                    Err(e) => Err(e),
                    Ok((port, r)) => Ok(
                        (
                            SocketAddr {
                                ip: if b[pos] == 4 {
                                    IpAddr::V4(v as u32)
                                } else {
                                    IpAddr::V6(v as u128)
                                },
                                port: port as u16,
                            },
                            r,
                        ),
                    ),
                },
            }
        },
    }
}

pub open spec fn flow_read(b: Seq<u8>, pos: int) -> Result<(Flow5Tuple, int), EvlogError> {
    match take_read(b, pos, 1) {
        Err(e) => Err(e),
        Ok((_, p)) => match addr_read(b, p) {
            Err(e) => Err(e),
            Ok((src, q)) => match addr_read(b, q) {
                Err(e) => Err(e),
                Ok((dst, r)) => Ok(
                    (
                        Flow5Tuple {
                            proto: if b[pos] == 1 {
                                Proto::Tcp
                            } else {
                                Proto::Udp
                            },
                            src,
                            dst,
                        },
                        r,
                    ),
                ),
            },
        },
    }
}

/// A length prefix and that many bytes.
pub open spec fn blob_read(b: Seq<u8>, pos: int) -> Result<(Seq<u8>, int), EvlogError> {
    match varint_read(b, pos) {
        Err(e) => Err(e),
        Ok((n, p)) => take_read(b, p, n as nat),
    }
}

/// A length prefix plus one, zero for none, and the bytes.
pub open spec fn opt_blob_read(b: Seq<u8>, pos: int) -> Result<
    (Option<Seq<u8>>, int),
    EvlogError,
> {
    match varint_read(b, pos) {
        Err(e) => Err(e),
        Ok((n, p)) => if n == 0 {
            Ok((None, p))
        } else {
            match take_read(b, p, (n - 1) as nat) {
                Err(e) => Err(e),
                Ok((t, q)) => Ok((Some(t), q)),
            }
        },
    }
}

/// Whether the presence flag at `pos` is set.
pub open spec fn flag_read(b: Seq<u8>, pos: int) -> Result<(bool, int), EvlogError> {
    if pos + 1 <= b.len() {
        Ok((b[pos] != 0, pos + 1))
    } else {
        Err(EvlogError::UnexpectedEof)
    }
}

pub open spec fn opt_varint_read(b: Seq<u8>, pos: int) -> Result<(Option<u64>, int), EvlogError> {
    match flag_read(b, pos) {
        Err(e) => Err(e),
        Ok((false, p)) => Ok((None, p)),
        Ok((true, p)) => match varint_read(b, p) {
            Err(e) => Err(e),
            Ok((v, q)) => Ok((Some(v), q)),
        },
    }
}

pub open spec fn opt_be_read(b: Seq<u8>, pos: int, len: nat) -> Result<
    (Option<nat>, int),
    EvlogError,
> {
    match flag_read(b, pos) {
        Err(e) => Err(e),
        Ok((false, p)) => Ok((None, p)),
        Ok((true, p)) => match be_read(b, p, len) {
            Err(e) => Err(e),
            Ok((v, q)) => Ok((Some(v), q)),
        },
    }
}

pub open spec fn opt_map<A, B>(o: Option<A>, f: spec_fn(A) -> B) -> Option<B> {
    match o {
        Some(a) => Some(f(a)),
        None => None,
    }
}

/// What a reader makes of the field at `pos`, and the position behind it.
#[verifier::opaque]
pub open spec fn field_read(k: FieldKind, b: Seq<u8>, pos: int) -> Result<
    (FieldVal, int),
    EvlogError,
> {
    match k {
        FieldKind::Byte => match take_read(b, pos, 1) {
            Err(e) => Err(e),
            Ok((_, p)) => Ok((FieldVal::Byte(b[pos]), p)),
        },
        FieldKind::Flag => match flag_read(b, pos) {
            Err(e) => Err(e),
            Ok((x, p)) => Ok((FieldVal::Flag(x), p)),
        },
        FieldKind::CallKind => match take_read(b, pos, 1) {
            Err(e) => Err(e),
            Ok((_, p)) => Ok(
                (
                    FieldVal::CallKind(
                        if b[pos] == 3 {
                            CallEvtKind::Teardown
                        } else if b[pos] == 2 {
                            CallEvtKind::Update
                        } else {
                            CallEvtKind::Setup
                        },
                    ),
                    p,
                ),
            ),
        },
        FieldKind::U32Be => match be_read(b, pos, 4) {
            Err(e) => Err(e),
            Ok((v, p)) => Ok((FieldVal::U32Be(v as u32), p)),
        },
        FieldKind::Varint => match varint_read(b, pos) {
            Err(e) => Err(e),
            Ok((v, p)) => Ok((FieldVal::Varint(v), p)),
        },
        FieldKind::F64 => match be_read(b, pos, 8) {
            Err(e) => Err(e),
            Ok((v, p)) => Ok((FieldVal::F64(Real64 { bits: v as u64 }), p)),
        },
        FieldKind::Text => match blob_read(b, pos) {
            Err(e) => Err(e),
            Ok((t, p)) => Ok((FieldVal::Text(text::utf8_lossy(t)), p)),
        },
        FieldKind::Blob => match blob_read(b, pos) {
            Err(e) => Err(e),
            Ok((t, p)) => Ok((FieldVal::Blob(t), p)),
        },
        FieldKind::OptText => match opt_blob_read(b, pos) {
            Err(e) => Err(e),
            Ok((None, p)) => Ok((FieldVal::OptText(None), p)),
            Ok((Some(t), p)) => Ok((FieldVal::OptText(Some(text::utf8_lossy(t))), p)),
        },
        FieldKind::OptU8 => match opt_be_read(b, pos, 1) {
            Err(e) => Err(e),
            Ok((v, p)) => Ok((FieldVal::OptU8(opt_map(v, |x: nat| x as u8)), p)),
        },
        FieldKind::OptU16 => match opt_be_read(b, pos, 2) {
            Err(e) => Err(e),
            Ok((v, p)) => Ok((FieldVal::OptU16(opt_map(v, |x: nat| x as u16)), p)),
        },
        FieldKind::OptU32 => match opt_varint_read(b, pos) {
            Err(e) => Err(e),
            Ok((v, p)) => Ok(
                (
                    FieldVal::OptU32(
                        opt_map(v, |x: u64| (x as nat % 0x1_0000_0000) as u32),
                    ),
                    p,
                ),
            ),
        },
        FieldKind::OptU64 => match opt_varint_read(b, pos) {
            Err(e) => Err(e),
            Ok((v, p)) => Ok((FieldVal::OptU64(v), p)),
        },
        FieldKind::OptF64 => match opt_be_read(b, pos, 8) {
            Err(e) => Err(e),
            Ok((v, p)) => Ok(
                (FieldVal::OptF64(opt_map(v, |x: nat| Real64 { bits: x as u64 })), p),
            ),
        },
        FieldKind::Flow => match flow_read(b, pos) {
            Err(e) => Err(e),
            Ok((f, p)) => Ok((FieldVal::Flow(f), p)),
        },
    }
}

// ----------------------------- payloads -----------------------------

/// The first `n` fields, one after the other.
pub open spec fn fields_bytes(vs: Seq<FieldVal>, n: nat) -> Seq<u8>
    decreases n,
{
    if n == 0 {
        Seq::empty()
    } else {
        fields_bytes(vs, (n - 1) as nat) + field_bytes(vs[n - 1])
    }
}

/// The bytes of a payload.
pub open spec fn payload_bytes(vs: Seq<FieldVal>) -> Seq<u8> {
    fields_bytes(vs, vs.len())
}

/// Reads the fields `ks[k..]` from `pos` on behind those already in `acc`.
pub open spec fn fields_read(
    ks: Seq<FieldKind>,
    k: nat,
    acc: Seq<FieldVal>,
    b: Seq<u8>,
    pos: int,
) -> Result<(Seq<FieldVal>, int), EvlogError>
    decreases ks.len() - k,
{
    if k >= ks.len() {
        Ok((acc, pos))
    } else {
        match field_read(ks[k as int], b, pos) {
            Err(e) => Err(e),
            Ok((v, p)) => fields_read(ks, k + 1, acc.push(v), b, p),
        }
    }
}

// ----------------------------- facts -----------------------------

pub open spec fn pow128(n: nat) -> nat
    decreases n,
{
    if n == 0 {
        1
    } else {
        128 * pow128((n - 1) as nat)
    }
}

pub proof fn lemma_varint_len(n: nat)
    ensures
        varint_bytes(n).len() >= 1,
    decreases n,
{
    if n >= 128 {
        lemma_varint_len(n / 128);
    }
}

/// A base-128 number that stands at `pos` reads back.
pub proof fn lemma_varint_at_round(b: Seq<u8>, pos: int, n: nat, i: nat)
    requires
        0 <= pos,
        i <= 9,
        pos + varint_bytes(n).len() <= b.len(),
        b.subrange(pos, pos + varint_bytes(n).len()) == varint_bytes(n),
        n < pow128((10 - i) as nat),
    ensures
        varint_at(b, pos, i) == Ok::<(nat, int), EvlogError>((n, pos + varint_bytes(n).len())),
    decreases n,
{
    let s = varint_bytes(n);
    lemma_varint_len(n);
    assert(b[pos] == b.subrange(pos, pos + s.len())[0]);
    if n >= 128 {
        let t = varint_bytes(n / 128);
        assert(s[0] == (n % 128 + 128) as u8);
        assert(s.subrange(1, s.len() as int) =~= t);
        assert(b.subrange(pos + 1, pos + 1 + t.len()) =~= t) by {
            assert forall|j: int| 0 <= j < t.len() implies b[pos + 1 + j] == t[j] by {
                assert(b.subrange(pos, pos + s.len())[j + 1] == s[j + 1]);
            }
        }
        if i == 9 {
            assert(pow128(1) == 128) by {
                reveal_with_fuel(pow128, 2);
            }
        }
        assert(n / 128 < pow128((10 - (i + 1)) as nat));
        lemma_varint_at_round(b, pos + 1, n / 128, i + 1);
        assert(n == n % 128 + 128 * (n / 128));
    }
}

/// A variable-length integer that stands at `pos` reads back.
pub proof fn lemma_varint_round(b: Seq<u8>, pos: int, n: nat)
    requires
        0 <= pos,
        n <= u64::MAX,
        pos + varint_bytes(n).len() <= b.len(),
        b.subrange(pos, pos + varint_bytes(n).len()) == varint_bytes(n),
    ensures
        varint_read(b, pos) == Ok::<(u64, int), EvlogError>(
            (n as u64, pos + varint_bytes(n).len()),
        ),
{
    assert(n < pow128(10)) by {
        reveal_with_fuel(pow128, 11);
    }
    lemma_varint_at_round(b, pos, n, 0);
}

/// `t` stands in `b` at `pos`.
pub open spec fn holds_at(b: Seq<u8>, pos: int, t: Seq<u8>) -> bool {
    0 <= pos && pos + t.len() <= b.len() && b.subrange(pos, pos + t.len()) == t
}

pub proof fn lemma_holds_at_split(b: Seq<u8>, pos: int, s: Seq<u8>, t: Seq<u8>)
    requires
        holds_at(b, pos, s + t),
    ensures
        holds_at(b, pos, s),
        holds_at(b, pos + s.len(), t),
{
    let u = s + t;
    assert(b.subrange(pos, pos + s.len()) =~= s) by {
        assert forall|i: int| 0 <= i < s.len() implies b[pos + i] == s[i] by {
            assert(b.subrange(pos, pos + u.len())[i] == u[i]);
        }
    }
    assert(b.subrange(pos + s.len(), pos + s.len() + t.len()) =~= t) by {
        assert forall|i: int| 0 <= i < t.len() implies b[pos + s.len() + i] == t[i] by {
            assert(b.subrange(pos, pos + u.len())[s.len() + i] == u[s.len() + i]);
        }
    }
}

pub proof fn lemma_holds_at_byte(b: Seq<u8>, pos: int, x: u8)
    requires
        holds_at(b, pos, seq![x]),
    ensures
        pos < b.len(),
        b[pos] == x,
{
    assert(b.subrange(pos, pos + 1)[0] == seq![x][0]);
}

proof fn lemma_be_read_round(b: Seq<u8>, pos: int, n: nat, len: nat)
    requires
        holds_at(b, pos, octets::be_bytes(n, len)),
        n < octets::pow256(len),
    ensures
        octets::be_bytes(n, len).len() == len,
        be_read(b, pos, len) == Ok::<(nat, int), EvlogError>((n, pos + len)),
{
    octets::lemma_be_bytes_len(n, len);
    octets::lemma_be_round(b, pos, n, len);
}

proof fn lemma_addr_round(b: Seq<u8>, pos: int, a: SocketAddr)
    requires
        holds_at(b, pos, addr_bytes(a)),
    ensures
        addr_read(b, pos) == Ok::<(SocketAddr, int), EvlogError>((a, pos + addr_bytes(a).len())),
{
    octets::lemma_pow256_values();
    let port = octets::be_bytes(a.port as nat, 2);
    match a.ip {
        IpAddr::V4(v) => {
            let ip = octets::be_bytes(v as nat, 4);
            lemma_holds_at_split(b, pos, seq![4u8] + ip, port);
            lemma_holds_at_split(b, pos, seq![4u8], ip);
            lemma_holds_at_byte(b, pos, 4);
            lemma_be_read_round(b, pos + 1, v as nat, 4);
            lemma_be_read_round(b, pos + 5, a.port as nat, 2);
        },
        IpAddr::V6(v) => {
            let ip = octets::be_bytes(v as nat, 16);
            lemma_holds_at_split(b, pos, seq![6u8] + ip, port);
            lemma_holds_at_split(b, pos, seq![6u8], ip);
            lemma_holds_at_byte(b, pos, 6);
            lemma_be_read_round(b, pos + 1, v as nat, 16);
            lemma_be_read_round(b, pos + 17, a.port as nat, 2);
        },
    }
}

proof fn lemma_text_round(t: Seq<char>)
    ensures
        text::utf8_lossy(encode_utf8(t)) == t,
{
    vstd::utf8::encode_utf8_valid_utf8(t);
    vstd::utf8::encode_utf8_decode_utf8(t);
}

/// Every field that is written reads back as it was: its value, and the
/// position behind it, whatever stands before and after it.
pub proof fn law_field_round(b: Seq<u8>, pos: int, v: FieldVal)
    requires
        v.fits(),
        holds_at(b, pos, field_bytes(v)),
    ensures
        field_read(v.kind(), b, pos) == Ok::<(FieldVal, int), EvlogError>(
            (v, pos + field_bytes(v).len()),
        ),
{
    reveal(field_read);
    octets::lemma_pow256_values();
    match v {
        FieldVal::Byte(x) => {
            lemma_holds_at_byte(b, pos, x);
        },
        FieldVal::Flag(x) => {
            lemma_holds_at_byte(b, pos, if x { 1u8 } else { 0u8 });
        },
        FieldVal::CallKind(k) => {
            lemma_holds_at_byte(b, pos, call_kind_code(k));
        },
        FieldVal::U32Be(x) => {
            lemma_be_read_round(b, pos, x as nat, 4);
        },
        FieldVal::Varint(x) => {
            lemma_varint_round(b, pos, x as nat);
        },
        FieldVal::F64(x) => {
            lemma_be_read_round(b, pos, x.bits as nat, 8);
        },
        FieldVal::Text(t) => {
            let e = encode_utf8(t);
            lemma_holds_at_split(b, pos, varint_bytes(e.len()), e);
            lemma_varint_round(b, pos, e.len());
            lemma_text_round(t);
        },
        FieldVal::Blob(t) => {
            lemma_holds_at_split(b, pos, varint_bytes(t.len()), t);
            lemma_varint_round(b, pos, t.len());
        },
        FieldVal::OptText(None) => {
            lemma_varint_round(b, pos, 0);
        },
        FieldVal::OptText(Some(t)) => {
            let e = encode_utf8(t);
            lemma_holds_at_split(b, pos, varint_bytes(e.len() + 1), e);
            lemma_varint_round(b, pos, e.len() + 1);
            lemma_text_round(t);
        },
        FieldVal::OptU8(None) => {
            lemma_holds_at_byte(b, pos, 0);
        },
        FieldVal::OptU8(Some(x)) => {
            lemma_holds_at_split(b, pos, seq![1u8], seq![x]);
            lemma_holds_at_byte(b, pos, 1);
            lemma_holds_at_byte(b, pos + 1, x);
            reveal_with_fuel(octets::be_value, 2);
        },
        FieldVal::OptU16(None) => {
            lemma_holds_at_byte(b, pos, 0);
        },
        FieldVal::OptU16(Some(x)) => {
            lemma_holds_at_split(b, pos, seq![1u8], octets::be_bytes(x as nat, 2));
            lemma_holds_at_byte(b, pos, 1);
            lemma_be_read_round(b, pos + 1, x as nat, 2);
        },
        FieldVal::OptU32(None) => {
            lemma_holds_at_byte(b, pos, 0);
        },
        FieldVal::OptU32(Some(x)) => {
            lemma_holds_at_split(b, pos, seq![1u8], varint_bytes(x as nat));
            lemma_holds_at_byte(b, pos, 1);
            lemma_varint_round(b, pos + 1, x as nat);
        },
        FieldVal::OptU64(None) => {
            lemma_holds_at_byte(b, pos, 0);
        },
        FieldVal::OptU64(Some(x)) => {
            lemma_holds_at_split(b, pos, seq![1u8], varint_bytes(x as nat));
            lemma_holds_at_byte(b, pos, 1);
            lemma_varint_round(b, pos + 1, x as nat);
        },
        FieldVal::OptF64(None) => {
            lemma_holds_at_byte(b, pos, 0);
        },
        FieldVal::OptF64(Some(x)) => {
            lemma_holds_at_split(b, pos, seq![1u8], octets::be_bytes(x.bits as nat, 8));
            lemma_holds_at_byte(b, pos, 1);
            lemma_be_read_round(b, pos + 1, x.bits as nat, 8);
        },
        FieldVal::Flow(f) => {
            let p: u8 = match f.proto {
                Proto::Udp => 0u8,
                Proto::Tcp => 1u8,
            };
            lemma_holds_at_split(b, pos, seq![p] + addr_bytes(f.src), addr_bytes(f.dst));
            lemma_holds_at_split(b, pos, seq![p], addr_bytes(f.src));
            lemma_holds_at_byte(b, pos, p);
            lemma_addr_round(b, pos + 1, f.src);
            lemma_addr_round(b, pos + 1 + addr_bytes(f.src).len(), f.dst);
        },
    }
}

/// The kinds of a sequence of fields.
pub open spec fn kinds_of(vs: Seq<FieldVal>) -> Seq<FieldKind> {
    vs.map_values(|v: FieldVal| v.kind())
}

/// Every length in the sequence fits its prefix.
pub open spec fn all_fit(vs: Seq<FieldVal>) -> bool {
    forall|i: int| 0 <= i < vs.len() ==> (#[trigger] vs[i]).fits()
}

pub proof fn lemma_fields_split(vs: Seq<FieldVal>, n: nat, b: Seq<u8>, pos: int)
    requires
        n <= vs.len(),
        holds_at(b, pos, fields_bytes(vs, vs.len())),
    ensures
        holds_at(b, pos, fields_bytes(vs, n)),
    decreases vs.len() - n,
{
    if n < vs.len() {
        lemma_fields_split(vs, n + 1, b, pos);
        lemma_holds_at_split(b, pos, fields_bytes(vs, n), field_bytes(vs[n as int]));
    }
}

pub proof fn lemma_fields_round_from(vs: Seq<FieldVal>, k: nat, b: Seq<u8>, pos: int)
    requires
        k <= vs.len(),
        all_fit(vs),
        holds_at(b, pos, payload_bytes(vs)),
    ensures
        fields_read(kinds_of(vs), k, vs.take(k as int), b, pos + fields_bytes(vs, k).len())
            == Ok::<(Seq<FieldVal>, int), EvlogError>((vs, pos + payload_bytes(vs).len())),
    decreases vs.len() - k,
{
    if k == vs.len() {
        assert(vs.take(k as int) =~= vs);
    } else {
        lemma_fields_split(vs, k + 1, b, pos);
        lemma_holds_at_split(b, pos, fields_bytes(vs, k), field_bytes(vs[k as int]));
        law_field_round(b, pos + fields_bytes(vs, k).len(), vs[k as int]);
        assert(vs.take(k as int).push(vs[k as int]) =~= vs.take((k + 1) as int));
        lemma_fields_round_from(vs, k + 1, b, pos);
    }
}

/// A payload reads back field by field, whatever follows it.
pub proof fn law_fields_round(vs: Seq<FieldVal>, b: Seq<u8>, pos: int)
    requires
        all_fit(vs),
        holds_at(b, pos, payload_bytes(vs)),
    ensures
        fields_read(kinds_of(vs), 0, Seq::empty(), b, pos) == Ok::<
            (Seq<FieldVal>, int),
            EvlogError,
        >((vs, pos + payload_bytes(vs).len())),
{
    assert(vs.take(0) =~= Seq::<FieldVal>::empty());
    lemma_fields_round_from(vs, 0, b, pos);
}

} // verus!
