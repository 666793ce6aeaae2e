//! Readers and writers for the single fields of the wire format.
use crate::model::addr::{IpAddr, SocketAddr};
use crate::model::packet::{Flow5Tuple, Proto};
use crate::model::stats::Real64;
use crate::octets;
use crate::store::wire;
use crate::store::wire::{CallEvtKind, EvlogError, FieldKind, FieldVal};
use crate::text;
use crate::text::lossy_string;
use vstd::prelude::*;

verus! {

// ----------------------------- writing -----------------------------

/// Appends `n` as a variable-length integer.
pub fn write_varint(buf: &mut Vec<u8>, n: u64)
    ensures
        final(buf)@ == old(buf)@ + wire::varint_bytes(n as nat),
{
    let mut m: u64 = n;
    assert(buf@ =~= old(buf)@ + Seq::<u8>::empty());
    let ghost mut done: Seq<u8> = Seq::empty();
    while m >= 128
        invariant
            buf@ == old(buf)@ + done,
            wire::varint_bytes(n as nat) == done + wire::varint_bytes(m as nat),
        decreases m,
    {
        let ghost before = buf@;
        buf.push((m % 128) as u8 + 128);
        proof {
            let d = (m % 128 + 128) as u8;
            assert(wire::varint_bytes(n as nat) =~= done.push(d) + wire::varint_bytes((m / 128) as nat));
            assert(buf@ =~= old(buf)@ + done.push(d));
            done = done.push(d);
        }
        m = m / 128;
    }
    buf.push(m as u8);
    assert(buf@ =~= old(buf)@ + wire::varint_bytes(n as nat));
}

/// Appends a byte slice.
fn write_raw(buf: &mut Vec<u8>, b: &[u8])
    ensures
        final(buf)@ == old(buf)@ + b@,
{
    let mut i: usize = 0;
    assert(buf@ =~= old(buf)@ + b@.take(0));
    while i < b.len()
        invariant
            i <= b.len(),
            buf@ == old(buf)@ + b@.take(i as int),
        decreases b.len() - i,
    {
        buf.push(b[i]);
        i += 1;
        assert(buf@ =~= old(buf)@ + b@.take(i as int));
    }
    assert(b@.take(i as int) =~= b@);
}

/// Appends `n` as `len` big-endian bytes.
pub fn write_be(buf: &mut Vec<u8>, n: u128, len: usize)
    ensures
        final(buf)@ == old(buf)@ + octets::be_bytes(n as nat, len as nat),
    decreases len,
{
    if len == 0 {
        assert(buf@ =~= old(buf)@ + octets::be_bytes(n as nat, 0));
    } else {
        write_be(buf, n / 256, len - 1);
        buf.push((n % 256) as u8);
        assert(buf@ =~= old(buf)@ + octets::be_bytes(n as nat, len as nat));
    }
}

pub fn write_string(buf: &mut Vec<u8>, s: &str)
    ensures
        final(buf)@ == old(buf)@ + wire::field_bytes(FieldVal::Text(s@)),
{
    let b = s.as_bytes();
    write_varint(buf, b.len() as u64);
    write_raw(buf, b);
    assert(buf@ =~= old(buf)@ + wire::field_bytes(FieldVal::Text(s@)));
}

/// Appends an optional string: length plus one, so that zero encodes `None`.
pub fn write_opt_string(buf: &mut Vec<u8>, s: &Option<String>)
    requires
        FieldVal::OptText(text::opt_text(*s)).fits(),
    ensures
        final(buf)@ == old(buf)@ + wire::field_bytes(FieldVal::OptText(text::opt_text(*s))),
{
    match s {
        Some(t) => {
            let b = t.as_str().as_bytes();
            write_varint(buf, b.len() as u64 + 1);
            write_raw(buf, b);
            assert(buf@ =~= old(buf)@ + wire::field_bytes(FieldVal::OptText(Some(t@))));
        },
        None => {
            write_varint(buf, 0);
        },
    }
}

pub fn write_bytes(buf: &mut Vec<u8>, b: &[u8])
    ensures
        final(buf)@ == old(buf)@ + wire::field_bytes(FieldVal::Blob(b@)),
{
    write_varint(buf, b.len() as u64);
    write_raw(buf, b);
    assert(buf@ =~= old(buf)@ + wire::field_bytes(FieldVal::Blob(b@)));
}

pub fn write_u8(buf: &mut Vec<u8>, x: u8)
    ensures
        final(buf)@ == old(buf)@ + wire::field_bytes(FieldVal::Byte(x)),
{
    buf.push(x);
    assert(buf@ =~= old(buf)@ + seq![x]);
}

pub fn write_flag(buf: &mut Vec<u8>, x: bool)
    ensures
        final(buf)@ == old(buf)@ + wire::field_bytes(FieldVal::Flag(x)),
{
    let c: u8 = if x { 1 } else { 0 };
    buf.push(c);
    assert(buf@ =~= old(buf)@ + wire::field_bytes(FieldVal::Flag(x)));
}

pub fn write_call_kind(buf: &mut Vec<u8>, k: CallEvtKind)
    ensures
        final(buf)@ == old(buf)@ + wire::field_bytes(FieldVal::CallKind(k)),
{
    let c: u8 = match k {
        CallEvtKind::Setup => 1,
        CallEvtKind::Update => 2,
        CallEvtKind::Teardown => 3,
    };
    buf.push(c);
    assert(buf@ =~= old(buf)@ + wire::field_bytes(FieldVal::CallKind(k)));
}

pub fn write_u32(buf: &mut Vec<u8>, x: u32)
    ensures
        final(buf)@ == old(buf)@ + wire::field_bytes(FieldVal::U32Be(x)),
{
    write_be(buf, x as u128, 4);
}

pub fn write_opt_u32(buf: &mut Vec<u8>, v: Option<u32>)
    ensures
        final(buf)@ == old(buf)@ + wire::field_bytes(FieldVal::OptU32(v)),
{
    match v {
        Some(x) => {
            buf.push(1);
            write_varint(buf, x as u64);
        },
        None => buf.push(0),
    }
    assert(buf@ =~= old(buf)@ + wire::field_bytes(FieldVal::OptU32(v)));
}

pub fn write_opt_u64(buf: &mut Vec<u8>, v: Option<u64>)
    ensures
        final(buf)@ == old(buf)@ + wire::field_bytes(FieldVal::OptU64(v)),
{
    match v {
        Some(x) => {
            buf.push(1);
            write_varint(buf, x);
        },
        None => buf.push(0),
    }
    assert(buf@ =~= old(buf)@ + wire::field_bytes(FieldVal::OptU64(v)));
}

pub fn write_opt_u16(buf: &mut Vec<u8>, v: Option<u16>)
    ensures
        final(buf)@ == old(buf)@ + wire::field_bytes(FieldVal::OptU16(v)),
{
    match v {
        Some(x) => {
            buf.push(1);
            write_be(buf, x as u128, 2);
        },
        None => buf.push(0),
    }
    assert(buf@ =~= old(buf)@ + wire::field_bytes(FieldVal::OptU16(v)));
}

pub fn write_opt_u8(buf: &mut Vec<u8>, v: Option<u8>)
    ensures
        final(buf)@ == old(buf)@ + wire::field_bytes(FieldVal::OptU8(v)),
{
    match v {
        Some(x) => {
            buf.push(1);
            buf.push(x);
        },
        None => buf.push(0),
    }
    assert(buf@ =~= old(buf)@ + wire::field_bytes(FieldVal::OptU8(v)));
}

pub fn write_opt_f64(buf: &mut Vec<u8>, v: Option<Real64>)
    ensures
        final(buf)@ == old(buf)@ + wire::field_bytes(FieldVal::OptF64(v)),
{
    match v {
        Some(x) => {
            buf.push(1);
            write_be(buf, x.bits as u128, 8);
        },
        None => buf.push(0),
    }
    assert(buf@ =~= old(buf)@ + wire::field_bytes(FieldVal::OptF64(v)));
}

pub fn write_f64(buf: &mut Vec<u8>, v: Real64)
    ensures
        final(buf)@ == old(buf)@ + wire::field_bytes(FieldVal::F64(v)),
{
    write_be(buf, v.bits as u128, 8);
}

pub fn write_sockaddr(buf: &mut Vec<u8>, a: SocketAddr)
    ensures
        final(buf)@ == old(buf)@ + wire::addr_bytes(a),
{
    match a.ip {
        IpAddr::V4(v) => {
            buf.push(4);
            write_be(buf, v as u128, 4);
        },
        IpAddr::V6(v) => {
            buf.push(6);
            write_be(buf, v, 16);
        },
    }
    write_be(buf, a.port as u128, 2);
    assert(buf@ =~= old(buf)@ + wire::addr_bytes(a));
}

pub fn write_flow(buf: &mut Vec<u8>, flow: &Flow5Tuple)
    ensures
        final(buf)@ == old(buf)@ + wire::field_bytes(FieldVal::Flow(*flow)),
{
    let c: u8 = match flow.proto {
        Proto::Udp => 0,
        Proto::Tcp => 1,
    };
    buf.push(c);
    write_sockaddr(buf, flow.src);
    write_sockaddr(buf, flow.dst);
    assert(buf@ =~= old(buf)@ + wire::field_bytes(FieldVal::Flow(*flow)));
}

// ----------------------------- reading -----------------------------

/// A position in a byte string.
pub struct ByteReader<'a> {
    pub data: &'a [u8],
    pub pos: usize,
}

impl<'a> ByteReader<'a> {
    pub open spec fn wf(self) -> bool {
        self.pos <= self.data@.len()
    }

    pub fn new(data: &'a [u8]) -> (r: ByteReader<'a>)
        ensures
            r.wf(),
            r.data@ == data@,
            r.pos == 0,
    {
        ByteReader { data, pos: 0 }
    }
}

/// Position of a reader behind a failed read of a variable-length integer.
pub open spec fn varint_fail_pos(len: int, pos: int, e: EvlogError) -> int {
    match e {
        EvlogError::VarintTooLong => pos + 10,
        _ => len,
    }
}

proof fn lemma_varint_pos(b: Seq<u8>, pos: int, i: nat)
    requires
        0 <= pos <= b.len(),
        i <= 9,
    ensures
        wire::varint_at(b, pos, i) matches Ok((v, p)) ==> pos < p <= b.len(),
        wire::varint_at(b, pos, i) == Err::<(nat, int), EvlogError>(EvlogError::VarintTooLong) ==> pos
            + 10 - i <= b.len(),
        wire::varint_at(b, pos, i) != Err::<(nat, int), EvlogError>(EvlogError::RecordTooLong),
    decreases 10 - i,
{
    if pos < b.len() && b[pos] >= 128 && i < 9 {
        lemma_varint_pos(b, pos + 1, i + 1);
    }
}

/// Reads a variable-length integer.
pub fn read_varint(r: &mut ByteReader) -> (res: Result<u64, EvlogError>)
    requires
        old(r).wf(),
    ensures
        final(r).wf(),
        final(r).data@ == old(r).data@,
        match wire::varint_read(old(r).data@, old(r).pos as int) {
            Ok((v, p)) => res == Ok::<u64, EvlogError>(v) && final(r).pos == p,
            Err(e) => {
                &&& res == Err::<u64, EvlogError>(e)
                &&& final(r).pos == varint_fail_pos(
                    old(r).data@.len() as int,
                    old(r).pos as int,
                    e,
                )
            },
        },
        match wire::field_read(FieldKind::Varint, old(r).data@, old(r).pos as int) {
            Ok((v, p)) => res is Ok && v == FieldVal::Varint(res->Ok_0) && final(r).pos == p,
            Err(e) => res == Err::<u64, EvlogError>(e),
        },
{
    let ghost b = r.data@;
    let start: usize = r.pos;
    let mut i: u64 = 0;
    let mut result: u64 = 0;
    let mut mult: u64 = 1;
    let mut pos: usize = r.pos;
    proof {
        lemma_varint_pos(b, start as int, 0);
        assert(mult as nat * 1 == mult);
    }
    while i < 10
        invariant
            b == r.data@,
            b == old(r).data@,
            start == r.pos,
            start == old(r).pos,
            i <= 9,
            pos == start + i,
            pos <= b.len(),
            mult == wire::pow128(i as nat),
            result < mult,
            mult <= 0x8000_0000_0000_0000,
            i < 9 ==> mult <= 0x100_0000_0000_0000,
            match wire::varint_at(b, pos as int, i as nat) {
                Ok((v, p)) => wire::varint_at(b, start as int, 0) == Ok::<(nat, int), EvlogError>(
                    (result as nat + mult as nat * v, p),
                ),
                Err(e) => wire::varint_at(b, start as int, 0) == Err::<(nat, int), EvlogError>(e),
            },
        decreases 10 - i,
    {
        proof {
            reveal(wire::field_read);
        }
        if pos >= r.data.len() {
            r.pos = r.data.len();
            return Err(EvlogError::UnexpectedEof);
        }
        let byte: u8 = r.data[pos];
        if byte < 128 {
            let low: u64 = byte as u64;
            let v: u64;
            if i == 9 {
                assert(mult == 0x8000_0000_0000_0000) by {
                    reveal_with_fuel(wire::pow128, 10);
                }
                v = result + (low % 2) * 0x8000_0000_0000_0000;
                proof {
                    let q: nat = (byte / 2) as nat;
                    assert(mult as nat * byte as nat == 0x8000_0000_0000_0000 * (byte as nat));
                    assert(result as nat + mult as nat * byte as nat == v as nat
                        + 0x1_0000_0000_0000_0000 * q);
                    assert((v as nat + 0x1_0000_0000_0000_0000 * q) % 0x1_0000_0000_0000_0000
                        == v as nat) by (nonlinear_arith)
                        requires
                            v as nat <= u64::MAX,
                    ;
                }
            } else {
                assert(low * mult <= 127 * mult) by (nonlinear_arith)
                    requires
                        low <= 127,
                ;
                assert(mult as nat * (byte as nat) == low * mult) by (nonlinear_arith)
                    requires
                        low == byte,
                ;
                v = result + low * mult;
            }
            assert(wire::varint_at(b, pos as int, i as nat) == Ok::<(nat, int), EvlogError>(
                (byte as nat, pos + 1),
            ));

            r.pos = pos + 1;
            return Ok(v);
        }
        if i == 9 {
            r.pos = pos + 1;
            return Err(EvlogError::VarintTooLong);
        }
        let low: u64 = (byte - 128) as u64;
        proof {
            assert(low * mult <= 127 * mult) by (nonlinear_arith)
                requires
                    low <= 127,
            ;
            match wire::varint_at(b, pos + 1, (i + 1) as nat) {
                Ok((v, p)) => {
                    assert(mult as nat * (low as nat + 128 * v) == (low * mult) as nat + (mult
                        * 128) as nat * v) by (nonlinear_arith);
                },
                Err(_) => {},
            }
            assert(wire::pow128((i + 1) as nat) == 128 * wire::pow128(i as nat));
            if i == 8 {
                reveal_with_fuel(wire::pow128, 10);
            }
            if i < 8 {
                reveal_with_fuel(wire::pow128, 10);
            }
        }
        result = result + low * mult;
        mult = mult * 128;
        pos = pos + 1;
        i = i + 1;
    }
    Err(EvlogError::VarintTooLong)
}

/// Reads `len` bytes as a big-endian number.
pub fn read_be(r: &mut ByteReader, len: usize) -> (res: Result<u128, EvlogError>)
    requires
        old(r).wf(),
        len <= 16,
    ensures
        final(r).wf(),
        final(r).data@ == old(r).data@,
        match wire::be_read(old(r).data@, old(r).pos as int, len as nat) {
            Ok((v, p)) => {
                &&& res is Ok
                &&& res->Ok_0 == v
                &&& v < octets::pow256(len as nat)
                &&& final(r).pos == p
            },
            Err(e) => res == Err::<u128, EvlogError>(e),
        },
{
    if r.data.len() - r.pos < len {
        r.pos = r.data.len();
        return Err(EvlogError::UnexpectedEof);
    }
    let ghost b = r.data@;
    let start: usize = r.pos;
    let mut v: u128 = 0;
    let mut i: usize = 0;
    while i < len
        invariant
            b == r.data@,
            start == r.pos,
            i <= len,
            len <= 16,
            start + len <= r.data.len(),
            v == octets::be_value(b, start as int, i as nat),
        decreases len - i,
    {
        proof {
            octets::lemma_be_value_bound(b, start as int, (i + 1) as nat);
            octets::lemma_pow256_mono((i + 1) as nat, 16);
            reveal_with_fuel(octets::pow256, 17);
        }
        v = v * 256 + r.data[start + i] as u128;
        i += 1;
    }
    proof {
        octets::lemma_be_value_bound(b, start as int, len as nat);
    }
    r.pos = start + len;
    Ok(v)
}

/// Reads one byte.
pub fn read_u8(r: &mut ByteReader) -> (res: Result<u8, EvlogError>)
    requires
        old(r).wf(),
    ensures
        final(r).wf(),
        final(r).data@ == old(r).data@,
        match wire::field_read(FieldKind::Byte, old(r).data@, old(r).pos as int) {
            Ok((v, p)) => res is Ok && v == FieldVal::Byte(res->Ok_0) && final(r).pos == p,
            Err(e) => res == Err::<u8, EvlogError>(e) && final(r).pos == final(r).data@.len(),
        },
        old(r).pos < old(r).data@.len() ==> res == Ok::<u8, EvlogError>(
            old(r).data@[old(r).pos as int],
        ) && final(r).pos == old(r).pos + 1,
        old(r).pos >= old(r).data@.len() ==> res is Err && final(r).pos == old(r).data@.len(),
{
    proof {
        reveal(wire::field_read);
    }
    if r.pos >= r.data.len() {
        return Err(EvlogError::UnexpectedEof);
    }
    let x: u8 = r.data[r.pos];
    r.pos = r.pos + 1;
    Ok(x)
}

/// Reads a byte that means false where it is zero.
pub fn read_flag(r: &mut ByteReader) -> (res: Result<bool, EvlogError>)
    requires
        old(r).wf(),
    ensures
        final(r).wf(),
        final(r).data@ == old(r).data@,
        match wire::flag_read(old(r).data@, old(r).pos as int) {
            Ok((v, p)) => res == Ok::<bool, EvlogError>(v) && final(r).pos == p,
            Err(e) => res == Err::<bool, EvlogError>(e),
        },
        match wire::field_read(FieldKind::Flag, old(r).data@, old(r).pos as int) {
            Ok((v, p)) => res is Ok && v == FieldVal::Flag(res->Ok_0) && final(r).pos == p,
            Err(e) => res == Err::<bool, EvlogError>(e),
        },
{
    proof {
        reveal(wire::field_read);
    }
    match read_u8(r) {
        Ok(x) => Ok(x != 0),
        Err(e) => Err(e),
    }
}

pub fn read_call_kind(r: &mut ByteReader) -> (res: Result<CallEvtKind, EvlogError>)
    requires
        old(r).wf(),
    ensures
        final(r).wf(),
        final(r).data@ == old(r).data@,
        match wire::field_read(FieldKind::CallKind, old(r).data@, old(r).pos as int) {
            Ok((v, p)) => res is Ok && v == FieldVal::CallKind(res->Ok_0) && final(r).pos == p,
            Err(e) => res == Err::<CallEvtKind, EvlogError>(e),
        },
{
    proof {
        reveal(wire::field_read);
    }
    match read_u8(r) {
        Ok(x) => if x == 3 {
            Ok(CallEvtKind::Teardown)
        } else if x == 2 {
            Ok(CallEvtKind::Update)
        } else {
            Ok(CallEvtKind::Setup)
        },
        Err(e) => Err(e),
    }
}

pub fn read_u32(r: &mut ByteReader) -> (res: Result<u32, EvlogError>)
    requires
        old(r).wf(),
    ensures
        final(r).wf(),
        final(r).data@ == old(r).data@,
        match wire::field_read(FieldKind::U32Be, old(r).data@, old(r).pos as int) {
            Ok((v, p)) => res is Ok && v == FieldVal::U32Be(res->Ok_0) && final(r).pos == p,
            Err(e) => res == Err::<u32, EvlogError>(e),
        },
{
    proof {
        reveal(wire::field_read);
        reveal_with_fuel(octets::pow256, 5);
    }
    match read_be(r, 4) {
        Ok(v) => Ok(v as u32),
        Err(e) => Err(e),
    }
}

pub fn read_f64(r: &mut ByteReader) -> (res: Result<Real64, EvlogError>)
    requires
        old(r).wf(),
    ensures
        final(r).wf(),
        final(r).data@ == old(r).data@,
        match wire::field_read(FieldKind::F64, old(r).data@, old(r).pos as int) {
            Ok((v, p)) => res is Ok && v == FieldVal::F64(res->Ok_0) && final(r).pos == p,
            Err(e) => res == Err::<Real64, EvlogError>(e),
        },
{
    proof {
        reveal(wire::field_read);
        reveal_with_fuel(octets::pow256, 9);
    }
    match read_be(r, 8) {
        Ok(v) => Ok(Real64 { bits: v as u64 }),
        Err(e) => Err(e),
    }
}

/// Takes `len` bytes.
pub fn read_exact(r: &mut ByteReader, len: u64) -> (res: Result<Vec<u8>, EvlogError>)
    requires
        old(r).wf(),
    ensures
        final(r).wf(),
        final(r).data@ == old(r).data@,
        match wire::take_read(old(r).data@, old(r).pos as int, len as nat) {
            Ok((v, p)) => res is Ok && res->Ok_0@ == v && final(r).pos == p,
            Err(e) => {
                &&& res == Err::<Vec<u8>, EvlogError>(e)
                &&& final(r).pos == final(r).data@.len()
            },
        },
{
    let left: usize = r.data.len() - r.pos;
    if len > left as u64 {
        r.pos = r.data.len();
        return Err(EvlogError::UnexpectedEof);
    }
    let n: usize = len as usize;
    let mut out: Vec<u8> = Vec::new();
    let mut i: usize = 0;
    let start: usize = r.pos;
    while i < n
        invariant
            i <= n,
            start + n <= r.data.len(),
            start == r.pos,
            out@ == r.data@.subrange(start as int, start + i),
        decreases n - i,
    {
        out.push(r.data[start + i]);
        i += 1;
        assert(out@ =~= r.data@.subrange(start as int, start + i));
    }
    r.pos = start + n;
    Ok(out)
}

pub fn read_bytes(r: &mut ByteReader) -> (res: Result<Vec<u8>, EvlogError>)
    requires
        old(r).wf(),
    ensures
        final(r).wf(),
        final(r).data@ == old(r).data@,
        match wire::blob_read(old(r).data@, old(r).pos as int) {
            Ok((v, p)) => res is Ok && res->Ok_0@ == v && final(r).pos == p,
            Err(e) => res == Err::<Vec<u8>, EvlogError>(e),
        },
        match wire::field_read(FieldKind::Blob, old(r).data@, old(r).pos as int) {
            Ok((v, p)) => res is Ok && v == FieldVal::Blob(res->Ok_0@) && final(r).pos == p,
            Err(e) => res == Err::<Vec<u8>, EvlogError>(e),
        },
{
    proof {
        reveal(wire::field_read);
    }
    match read_varint(r) {
        Ok(n) => read_exact(r, n),
        Err(e) => Err(e),
    }
}

pub fn read_string(r: &mut ByteReader) -> (res: Result<String, EvlogError>)
    requires
        old(r).wf(),
    ensures
        final(r).wf(),
        final(r).data@ == old(r).data@,
        match wire::field_read(FieldKind::Text, old(r).data@, old(r).pos as int) {
            Ok((v, p)) => res is Ok && v == FieldVal::Text(res->Ok_0@) && final(r).pos == p,
            Err(e) => res == Err::<String, EvlogError>(e),
        },
{
    proof {
        reveal(wire::field_read);
    }
    match read_bytes(r) {
        Ok(b) => Ok(lossy_string(b.as_slice())),
        Err(e) => Err(e),
    }
}

pub fn read_opt_string(r: &mut ByteReader) -> (res: Result<Option<String>, EvlogError>)
    requires
        old(r).wf(),
    ensures
        final(r).wf(),
        final(r).data@ == old(r).data@,
        match wire::field_read(FieldKind::OptText, old(r).data@, old(r).pos as int) {
            Ok((v, p)) => {
                &&& res is Ok
                &&& v == FieldVal::OptText(text::opt_text(res->Ok_0))
                &&& final(r).pos == p
            },
            Err(e) => res == Err::<Option<String>, EvlogError>(e),
        },
{
    proof {
        reveal(wire::field_read);
    }
    match read_varint(r) {
        Ok(n) => {
            if n == 0 {
                return Ok(None);
            }
            match read_exact(r, n - 1) {
                Ok(b) => Ok(Some(lossy_string(b.as_slice()))),
                Err(e) => Err(e),
            }
        },
        Err(e) => Err(e),
    }
}

/// Reads a presence flag and, where it is set, a variable-length integer.
fn read_opt_varint(r: &mut ByteReader) -> (res: Result<Option<u64>, EvlogError>)
    requires
        old(r).wf(),
    ensures
        final(r).wf(),
        final(r).data@ == old(r).data@,
        match wire::opt_varint_read(old(r).data@, old(r).pos as int) {
            Ok((v, p)) => res == Ok::<Option<u64>, EvlogError>(v) && final(r).pos == p,
            Err(e) => res == Err::<Option<u64>, EvlogError>(e),
        },
{
    match read_flag(r) {
        Ok(false) => Ok(None),
        Ok(true) => match read_varint(r) {
            Ok(v) => Ok(Some(v)),
            Err(e) => Err(e),
        },
        Err(e) => Err(e),
    }
}

pub fn read_opt_u32(r: &mut ByteReader) -> (res: Result<Option<u32>, EvlogError>)
    requires
        old(r).wf(),
    ensures
        final(r).wf(),
        final(r).data@ == old(r).data@,
        match wire::field_read(FieldKind::OptU32, old(r).data@, old(r).pos as int) {
            Ok((v, p)) => res is Ok && v == FieldVal::OptU32(res->Ok_0) && final(r).pos == p,
            Err(e) => res == Err::<Option<u32>, EvlogError>(e),
        },
{
    proof {
        reveal(wire::field_read);
    }
    match read_opt_varint(r) {
        Ok(Some(v)) => Ok(Some((v % 0x1_0000_0000) as u32)),
        Ok(None) => Ok(None),
        Err(e) => Err(e),
    }
}

pub fn read_opt_u64(r: &mut ByteReader) -> (res: Result<Option<u64>, EvlogError>)
    requires
        old(r).wf(),
    ensures
        final(r).wf(),
        final(r).data@ == old(r).data@,
        match wire::field_read(FieldKind::OptU64, old(r).data@, old(r).pos as int) {
            Ok((v, p)) => res is Ok && v == FieldVal::OptU64(res->Ok_0) && final(r).pos == p,
            Err(e) => res == Err::<Option<u64>, EvlogError>(e),
        },
{
    proof {
        reveal(wire::field_read);
    }
    read_opt_varint(r)
}

/// Reads a presence flag and, where it is set, a big-endian number.
fn read_opt_be(r: &mut ByteReader, len: usize) -> (res: Result<Option<u128>, EvlogError>)
    requires
        old(r).wf(),
        len <= 16,
    ensures
        final(r).wf(),
        final(r).data@ == old(r).data@,
        match wire::opt_be_read(old(r).data@, old(r).pos as int, len as nat) {
            Ok((None, p)) => res == Ok::<Option<u128>, EvlogError>(None) && final(r).pos == p,
            Ok((Some(v), p)) => {
                &&& res is Ok
                &&& res->Ok_0 is Some
                &&& res->Ok_0->Some_0 == v
                &&& v < octets::pow256(len as nat)
                &&& final(r).pos == p
            },
            Err(e) => res == Err::<Option<u128>, EvlogError>(e),
        },
{
    match read_flag(r) {
        Ok(false) => Ok(None),
        Ok(true) => match read_be(r, len) {
            Ok(v) => Ok(Some(v)),
            Err(e) => Err(e),
        },
        Err(e) => Err(e),
    }
}

pub fn read_opt_u16(r: &mut ByteReader) -> (res: Result<Option<u16>, EvlogError>)
    requires
        old(r).wf(),
    ensures
        final(r).wf(),
        final(r).data@ == old(r).data@,
        match wire::field_read(FieldKind::OptU16, old(r).data@, old(r).pos as int) {
            Ok((v, p)) => res is Ok && v == FieldVal::OptU16(res->Ok_0) && final(r).pos == p,
            Err(e) => res == Err::<Option<u16>, EvlogError>(e),
        },
{
    proof {
        reveal(wire::field_read);
        reveal_with_fuel(octets::pow256, 3);
    }
    match read_opt_be(r, 2) {
        Ok(Some(v)) => Ok(Some(v as u16)),
        Ok(None) => Ok(None),
        Err(e) => Err(e),
    }
}

pub fn read_opt_u8(r: &mut ByteReader) -> (res: Result<Option<u8>, EvlogError>)
    requires
        old(r).wf(),
    ensures
        final(r).wf(),
        final(r).data@ == old(r).data@,
        match wire::field_read(FieldKind::OptU8, old(r).data@, old(r).pos as int) {
            Ok((v, p)) => res is Ok && v == FieldVal::OptU8(res->Ok_0) && final(r).pos == p,
            Err(e) => res == Err::<Option<u8>, EvlogError>(e),
        },
{
    proof {
        reveal(wire::field_read);
        reveal_with_fuel(octets::pow256, 2);
    }
    match read_opt_be(r, 1) {
        Ok(Some(v)) => Ok(Some(v as u8)),
        Ok(None) => Ok(None),
        Err(e) => Err(e),
    }
}

pub fn read_opt_f64(r: &mut ByteReader) -> (res: Result<Option<Real64>, EvlogError>)
    requires
        old(r).wf(),
    ensures
        final(r).wf(),
        final(r).data@ == old(r).data@,
        match wire::field_read(FieldKind::OptF64, old(r).data@, old(r).pos as int) {
            Ok((v, p)) => res is Ok && v == FieldVal::OptF64(res->Ok_0) && final(r).pos == p,
            Err(e) => res == Err::<Option<Real64>, EvlogError>(e),
        },
{
    proof {
        reveal(wire::field_read);
        reveal_with_fuel(octets::pow256, 9);
    }
    match read_opt_be(r, 8) {
        Ok(Some(v)) => Ok(Some(Real64 { bits: v as u64 })),
        Ok(None) => Ok(None),
        Err(e) => Err(e),
    }
}

/// Reads a socket address.
pub fn read_sockaddr(r: &mut ByteReader) -> (res: Result<SocketAddr, EvlogError>)
    requires
        old(r).wf(),
    ensures
        final(r).wf(),
        final(r).data@ == old(r).data@,
        match wire::addr_read(old(r).data@, old(r).pos as int) {
            Ok((v, p)) => res == Ok::<SocketAddr, EvlogError>(v) && final(r).pos == p,
            Err(e) => res == Err::<SocketAddr, EvlogError>(e),
        },
{
    proof {
        reveal(wire::field_read);
        reveal_with_fuel(octets::pow256, 5);
    }
    let tag: u8 = match read_u8(r) {
        Ok(t) => t,
        Err(e) => return Err(e),
    };
    let ip = if tag == 4 {
        match read_be(r, 4) {
            Ok(v) => IpAddr::V4(v as u32),
            Err(e) => return Err(e),
        }
    } else {
        match read_be(r, 16) {
            Ok(v) => IpAddr::V6(v),
            Err(e) => return Err(e),
        }
    };
    match read_be(r, 2) {
        Ok(p) => Ok(SocketAddr { ip, port: p as u16 }),
        Err(e) => Err(e),
    }
}

pub fn read_flow(r: &mut ByteReader) -> (res: Result<Flow5Tuple, EvlogError>)
    requires
        old(r).wf(),
    ensures
        final(r).wf(),
        final(r).data@ == old(r).data@,
        match wire::field_read(FieldKind::Flow, old(r).data@, old(r).pos as int) {
            Ok((v, p)) => res is Ok && v == FieldVal::Flow(res->Ok_0) && final(r).pos == p,
            Err(e) => res == Err::<Flow5Tuple, EvlogError>(e),
        },
{
    proof {
        reveal(wire::field_read);
    }
    let pb: u8 = match read_u8(r) {
        Ok(t) => t,
        Err(e) => return Err(e),
    };
    let proto = if pb == 1 { Proto::Tcp } else { Proto::Udp };
    let src = match read_sockaddr(r) {
        Ok(a) => a,
        Err(e) => return Err(e),
    };
    match read_sockaddr(r) {
        Ok(dst) => Ok(Flow5Tuple { proto, src, dst }),
        Err(e) => Err(e),
    }
}

} // verus!
