//! Minimal STUN / TURN (RFC 5389 / 5766 / 8656) parser for passive diagnosis.
//!
//! Decodes the 20-byte STUN header, message class/method, common attributes
//! (XOR addresses, ERROR-CODE, CHANNEL-NUMBER, DATA, LIFETIME) and detects
//! TURN ChannelData frames (RFC 8656 demultiplexing).
use crate::model::addr::{IpAddr, SocketAddr};
use crate::octets;
use crate::octets::{be128, be16, be32, tail, to_vec};
use crate::text;
use crate::text::lossy_string;
use vstd::prelude::*;
use vstd::slice::slice_subrange;

verus! {

pub const MAGIC_COOKIE: u32 = 0x2112_A442;

pub const METHOD_BINDING: u16 = 0x001;

pub const METHOD_ALLOCATE: u16 = 0x003;

pub const METHOD_REFRESH: u16 = 0x004;

pub const METHOD_SEND: u16 = 0x006;

pub const METHOD_DATA: u16 = 0x007;

pub const METHOD_CREATE_PERMISSION: u16 = 0x008;

pub const METHOD_CHANNEL_BIND: u16 = 0x009;

pub const ATTR_MAPPED_ADDRESS: u16 = 0x0001;

pub const ATTR_USERNAME: u16 = 0x0006;

pub const ATTR_ERROR_CODE: u16 = 0x0009;

pub const ATTR_CHANNEL_NUMBER: u16 = 0x000C;

pub const ATTR_LIFETIME: u16 = 0x000D;

pub const ATTR_XOR_PEER_ADDRESS: u16 = 0x0012;

pub const ATTR_DATA: u16 = 0x0013;

pub const ATTR_XOR_RELAYED_ADDRESS: u16 = 0x0016;

pub const ATTR_XOR_MAPPED_ADDRESS: u16 = 0x0020;

#[derive(Debug, Clone, Copy, PartialEq, Eq, Structural)]
pub enum StunClass {
    Request,
    Indication,
    Success,
    Error,
}

/// The four bytes of the magic cookie, high half first.
pub open spec fn cookie_bytes() -> Seq<u8> {
    seq![0x21u8, 0x12u8, 0xA4u8, 0x42u8]
}

/// Byte-wise exclusive or with a key that is at least as long.
pub open spec fn xor_bytes(b: Seq<u8>, key: Seq<u8>) -> Seq<u8> {
    Seq::new(b.len(), |i: int| b[i] ^ key[i])
}

/// An attribute by its contents.
pub struct AttrView {
    pub typ: u16,
    pub value: Seq<u8>,
}

impl AttrView {
    /// ERROR-CODE: class and number as one code, and the reason phrase.
    pub open spec fn error_code(self) -> Option<(u16, Seq<char>)> {
        if self.typ == ATTR_ERROR_CODE && self.value.len() >= 4 {
            Some(
                (
                    (self.value[2] * 100 + self.value[3]) as u16,
                    text::utf8_lossy(self.value.skip(4)),
                ),
            )
        } else {
            None
        }
    }

    /// CHANNEL-NUMBER: the channel, before two reserved bytes.
    pub open spec fn channel(self) -> Option<u16> {
        if self.typ == ATTR_CHANNEL_NUMBER && self.value.len() >= 4 {
            Some(octets::be_value(self.value, 0, 2) as u16)
        } else {
            None
        }
    }

    /// LIFETIME: in seconds.
    pub open spec fn seconds(self) -> Option<u32> {
        if self.typ == ATTR_LIFETIME && self.value.len() >= 4 {
            Some(octets::be_value(self.value, 0, 4) as u32)
        } else {
            None
        }
    }

    pub open spec fn is_xor_address(self) -> bool {
        self.typ == ATTR_XOR_MAPPED_ADDRESS || self.typ == ATTR_XOR_RELAYED_ADDRESS || self.typ
            == ATTR_XOR_PEER_ADDRESS
    }

    /// XOR-* address: port and IP, exclusive-or'ed with the cookie and the
    /// transaction ID.
    pub open spec fn xor_address(self, txn_id: Seq<u8>) -> Option<SocketAddr> {
        let v = self.value;
        let key = cookie_bytes() + txn_id;
        if !self.is_xor_address() || v.len() < 4 {
            None
        } else {
            let port = octets::be_value(xor_bytes(v.subrange(2, 4), key), 0, 2) as u16;
            if v[1] == 1 && v.len() >= 8 {
                Some(
                    SocketAddr {
                        ip: IpAddr::V4(
                            octets::be_value(xor_bytes(v.subrange(4, 8), key), 0, 4) as u32,
                        ),
                        port,
                    },
                )
            } else if v[1] == 2 && v.len() >= 20 {
                Some(
                    SocketAddr {
                        ip: IpAddr::V6(
                            octets::be_value(xor_bytes(v.subrange(4, 20), key), 0, 16) as u128,
                        ),
                        port,
                    },
                )
            } else {
                None
            }
        }
    }
}

#[derive(Debug, Clone)]
pub struct StunAttribute {
    pub typ: u16,
    pub value: Vec<u8>,
}

impl View for StunAttribute {
    type V = AttrView;

    open spec fn view(&self) -> AttrView {
        AttrView { typ: self.typ, value: self.value@ }
    }
}

/// An error code by its contents.
pub open spec fn code_view(o: Option<(u16, String)>) -> Option<(u16, Seq<char>)> {
    match o {
        Some((c, s)) => Some((c, s@)),
        None => None,
    }
}

/// `b[i..j]` exclusive-or'ed with the cookie and the transaction ID.
fn xored(b: &[u8], i: usize, j: usize, txn_id: &[u8; 12]) -> (r: Vec<u8>)
    requires
        i <= j <= b@.len(),
        j - i <= 16,
    ensures
        r@ == xor_bytes(b@.subrange(i as int, j as int), cookie_bytes() + txn_id@),
{
    let cookie: [u8; 4] = [0x21, 0x12, 0xA4, 0x42];
    let mut out: Vec<u8> = Vec::new();
    let mut k: usize = 0;
    let ghost goal = xor_bytes(b@.subrange(i as int, j as int), cookie_bytes() + txn_id@);
    while k < j - i
        invariant
            k <= j - i,
            i <= j <= b.len(),
            j - i <= 16,
            cookie@ =~= cookie_bytes(),
            goal == xor_bytes(b@.subrange(i as int, j as int), cookie_bytes() + txn_id@),
            out@ =~= goal.take(k as int),
        decreases j - i - k,
    {
        let key: u8 = if k < 4 {
            cookie[k]
        } else {
            txn_id[k - 4]
        };
        assert(key == (cookie_bytes() + txn_id@)[k as int]);
        out.push(b[i + k] ^ key);
        k += 1;
        assert(out@ =~= goal.take(k as int));
    }
    assert(goal.take(k as int) =~= goal);
    out
}

impl StunAttribute {
    pub fn error_code(&self) -> (r: Option<(u16, String)>)
        ensures
            code_view(r) == self@.error_code(),
    {
        if self.typ != ATTR_ERROR_CODE || self.value.len() < 4 {
            return None;
        }
        let class: u16 = self.value[2] as u16;
        let number: u16 = self.value[3] as u16;
        let reason = lossy_string(tail(self.value.as_slice(), 4));
        Some((class * 100 + number, reason))
    }

    pub fn channel_number(&self) -> (r: Option<u16>)
        ensures
            r == self@.channel(),
    {
        if self.typ != ATTR_CHANNEL_NUMBER || self.value.len() < 4 {
            return None;
        }
        Some(be16(self.value.as_slice(), 0))
    }

    pub fn lifetime(&self) -> (r: Option<u32>)
        ensures
            r == self@.seconds(),
    {
        if self.typ != ATTR_LIFETIME || self.value.len() < 4 {
            return None;
        }
        Some(be32(self.value.as_slice(), 0))
    }

    pub fn data(&self) -> (r: Option<&[u8]>)
        ensures
            match r {
                Some(d) => self.typ == ATTR_DATA && d@ == self.value@,
                None => self.typ != ATTR_DATA,
            },
    {
        if self.typ == ATTR_DATA {
            Some(self.value.as_slice())
        } else {
            None
        }
    }

    /// Decodes an XOR-* address attribute using the transaction ID.
    pub fn xor_address(&self, txn_id: &[u8; 12]) -> (r: Option<SocketAddr>)
        ensures
            r == self@.xor_address(txn_id@),
    {
        if (self.typ != ATTR_XOR_MAPPED_ADDRESS && self.typ != ATTR_XOR_RELAYED_ADDRESS && self.typ
            != ATTR_XOR_PEER_ADDRESS) || self.value.len() < 4 {
            return None;
        }
        let v = self.value.as_slice();
        let family: u8 = v[1];
        let p = xored(v, 2, 4, txn_id);
        let port: u16 = be16(p.as_slice(), 0);
        if family == 1 {
            if v.len() < 8 {
                return None;
            }
            let ip = xored(v, 4, 8, txn_id);
            Some(SocketAddr { ip: IpAddr::V4(be32(ip.as_slice(), 0)), port })
        } else if family == 2 {
            if v.len() < 20 {
                return None;
            }
            let ip = xored(v, 4, 20, txn_id);
            Some(SocketAddr { ip: IpAddr::V6(be128(ip.as_slice(), 0)), port })
        } else {
            None
        }
    }
}

/// The value of an XOR-* address attribute for an address, family byte first.
pub open spec fn xor_value(a: SocketAddr, txn_id: Seq<u8>) -> Seq<u8> {
    let key = cookie_bytes() + txn_id;
    let port = xor_bytes(octets::be_bytes(a.port as nat, 2), key);
    match a.ip {
        IpAddr::V4(v) => seq![0u8, 1u8] + port + xor_bytes(octets::be_bytes(v as nat, 4), key),
        IpAddr::V6(v) => seq![0u8, 2u8] + port + xor_bytes(octets::be_bytes(v as nat, 16), key),
    }
}

proof fn lemma_xor_twice(b: Seq<u8>, key: Seq<u8>)
    ensures
        xor_bytes(xor_bytes(b, key), key) == b,
{
    assert forall|i: int| 0 <= i < b.len() implies xor_bytes(xor_bytes(b, key), key)[i] == b[i] by {
        let x = b[i];
        let k = key[i];
        assert((x ^ k) ^ k == x) by (bit_vector);
    }
    assert(xor_bytes(xor_bytes(b, key), key) =~= b);
}

proof fn lemma_be_alone(n: nat, len: nat)
    requires
        n < octets::pow256(len),
    ensures
        octets::be_value(octets::be_bytes(n, len), 0, len) == n,
        octets::be_bytes(n, len).len() == len,
{
    octets::lemma_be_bytes_len(n, len);
    let b = octets::be_bytes(n, len);
    assert(b.subrange(0, len as int) =~= b);
    octets::lemma_be_round(b, 0, n, len);
}

/// An address that was exclusive-or'ed into an attribute comes out again, with
/// the same transaction ID.
pub proof fn law_xor_address_round(typ: u16, a: SocketAddr, txn_id: Seq<u8>)
    requires
        txn_id.len() == 12,
        (AttrView { typ, value: Seq::empty() }).is_xor_address(),
    ensures
        (AttrView { typ, value: xor_value(a, txn_id) }).xor_address(txn_id) == Some(a),
{
    octets::lemma_pow256_values();
    let key = cookie_bytes() + txn_id;
    let v = xor_value(a, txn_id);
    let pb = octets::be_bytes(a.port as nat, 2);
    lemma_be_alone(a.port as nat, 2);
    lemma_xor_twice(pb, key);
    match a.ip {
        IpAddr::V4(x) => {
            let ib = octets::be_bytes(x as nat, 4);
            lemma_be_alone(x as nat, 4);
            lemma_xor_twice(ib, key);
            assert(v.subrange(2, 4) =~= xor_bytes(pb, key));
            assert(v.subrange(4, 8) =~= xor_bytes(ib, key));
        },
        IpAddr::V6(x) => {
            let ib = octets::be_bytes(x as nat, 16);
            lemma_be_alone(x as nat, 16);
            lemma_xor_twice(ib, key);
            assert(v.subrange(2, 4) =~= xor_bytes(pb, key));
            assert(v.subrange(4, 20) =~= xor_bytes(ib, key));
        },
    }
}

#[derive(Debug, Clone)]
pub struct StunMessage {
    pub method: u16,
    pub class: StunClass,
    pub txn_id: [u8; 12],
    pub attrs: Vec<StunAttribute>,
}

/// A STUN message by its contents.
pub struct StunView {
    pub method: u16,
    pub class: StunClass,
    pub txn_id: Seq<u8>,
    pub attrs: Seq<AttrView>,
}

pub open spec fn attr_views(v: Seq<StunAttribute>) -> Seq<AttrView> {
    v.map_values(|a: StunAttribute| a@)
}

impl View for StunMessage {
    type V = StunView;

    open spec fn view(&self) -> StunView {
        StunView {
            method: self.method,
            class: self.class,
            txn_id: self.txn_id@,
            attrs: attr_views(self.attrs@),
        }
    }
}

/// The first error code among the attributes from `i` on.
pub open spec fn first_error(attrs: Seq<AttrView>, i: int) -> Option<(u16, Seq<char>)>
    decreases attrs.len() - i,
{
    if i >= attrs.len() {
        None
    } else if attrs[i].error_code() is Some {
        attrs[i].error_code()
    } else {
        first_error(attrs, i + 1)
    }
}

/// The index of the first attribute of a type from `i` on.
pub open spec fn first_of(attrs: Seq<AttrView>, typ: u16, i: int) -> Option<int>
    decreases attrs.len() - i,
{
    if i >= attrs.len() {
        None
    } else if attrs[i].typ == typ {
        Some(i)
    } else {
        first_of(attrs, typ, i + 1)
    }
}

impl StunView {
    /// The address in the first attribute of a type.
    pub open spec fn address_of(self, typ: u16) -> Option<SocketAddr> {
        match first_of(self.attrs, typ, 0) {
            Some(i) => self.attrs[i].xor_address(self.txn_id),
            None => None,
        }
    }
}

impl StunMessage {
    pub fn is_allocate_error(&self) -> (r: bool)
        ensures
            r == (self.method == METHOD_ALLOCATE && self.class == StunClass::Error),
    {
        self.method == METHOD_ALLOCATE && self.class == StunClass::Error
    }

    /// The first error code that the message carries.
    pub fn error_code(&self) -> (r: Option<(u16, String)>)
        ensures
            code_view(r) == first_error(self@.attrs, 0),
    {
        let mut i: usize = 0;
        while i < self.attrs.len()
            invariant
                i <= self.attrs.len(),
                first_error(self@.attrs, 0) == first_error(self@.attrs, i as int),
            decreases self.attrs.len() - i,
        {
            assert(self@.attrs[i as int] == self.attrs@[i as int]@);
            let c = self.attrs[i].error_code();
            if c.is_some() {
                return c;
            }
            i += 1;
        }
        None
    }

    fn find_attr(&self, typ: u16) -> (r: Option<usize>)
        ensures
            match first_of(self@.attrs, typ, 0) {
                Some(k) => r is Some && r->Some_0 == k && k < self.attrs@.len(),
                None => r is None,
            },
            r matches Some(k) ==> k < self.attrs@.len() && self.attrs@[k as int].typ == typ,
    {
        let mut i: usize = 0;
        while i < self.attrs.len()
            invariant
                i <= self.attrs.len(),
                first_of(self@.attrs, typ, 0) == first_of(self@.attrs, typ, i as int),
            decreases self.attrs.len() - i,
        {
            assert(self@.attrs[i as int] == self.attrs@[i as int]@);
            if self.attrs[i].typ == typ {
                return Some(i);
            }
            i += 1;
        }
        None
    }

    /// The relay's address for the client.
    pub fn relayed_address(&self) -> (r: Option<SocketAddr>)
        ensures
            r == self@.address_of(ATTR_XOR_RELAYED_ADDRESS),
    {
        match self.find_attr(ATTR_XOR_RELAYED_ADDRESS) {
            Some(i) => {
                assert(self@.attrs[i as int] == self.attrs@[i as int]@);
                self.attrs[i].xor_address(&self.txn_id)
            },
            None => None,
        }
    }

    /// The address of the peer behind the relay.
    pub fn peer_address(&self) -> (r: Option<SocketAddr>)
        ensures
            r == self@.address_of(ATTR_XOR_PEER_ADDRESS),
    {
        match self.find_attr(ATTR_XOR_PEER_ADDRESS) {
            Some(i) => {
                assert(self@.attrs[i as int] == self.attrs@[i as int]@);
                self.attrs[i].xor_address(&self.txn_id)
            },
            None => None,
        }
    }

    /// The application data that the message carries.
    pub fn data_payload(&self) -> (r: Option<&[u8]>)
        ensures
            match first_of(self@.attrs, ATTR_DATA, 0) {
                Some(i) => r is Some && r->Some_0@ == self@.attrs[i].value,
                None => r is None,
            },
    {
        match self.find_attr(ATTR_DATA) {
            Some(i) => {
                assert(self@.attrs[i as int] == self.attrs@[i as int]@);
                Some(self.attrs[i].value.as_slice())
            },
            None => None,
        }
    }
}

pub open spec fn method_bits(typ: u16) -> u16 {
    (typ & 0x000F) | ((typ >> 1) & 0x0070)
}

pub fn stun_method(typ: u16) -> (r: u16)
    ensures
        r == method_bits(typ),
{
    (typ & 0x000F) | ((typ >> 1) & 0x0070)
}

/// The class: bit 8 is the high bit, bit 4 the low one.
pub open spec fn class_of(typ: u16) -> StunClass {
    let high = (typ / 0x100) % 2 == 1;
    let low = (typ / 0x10) % 2 == 1;
    if high {
        if low {
            StunClass::Error
        } else {
            StunClass::Success
        }
    } else if low {
        StunClass::Indication
    } else {
        StunClass::Request
    }
}

pub fn stun_class(typ: u16) -> (r: StunClass)
    ensures
        r == class_of(typ),
{
    let high: bool = (typ / 0x100) % 2 == 1;
    let low: bool = (typ / 0x10) % 2 == 1;
    if high {
        if low {
            StunClass::Error
        } else {
            StunClass::Success
        }
    } else if low {
        StunClass::Indication
    } else {
        StunClass::Request
    }
}

/// RFC 8656 demultiplexing: the first byte is at most 0x3F; and a header's length and
/// the magic cookie.
pub open spec fn looks_like_stun(b: Seq<u8>) -> bool {
    b.len() >= 20 && b[0] < 0x40 && octets::be_value(b, 4, 4) == MAGIC_COOKIE
}

/// True if `data` starts with a STUN message (20-byte header + magic cookie, and not
/// the first byte of ChannelData).
pub fn is_stun(data: &[u8]) -> (r: bool)
    ensures
        r == looks_like_stun(data@),
{
    data.len() >= 20 && data[0] < 0x40 && be32(data, 4) == MAGIC_COOKIE
}

/// RFC 8656 demultiplexing: the first byte is between 0x40 and 0x7F.
pub open spec fn looks_like_channel_data(b: Seq<u8>) -> bool {
    b.len() >= 4 && 0x40 <= b[0] < 0x80
}

pub fn is_channel_data(data: &[u8]) -> (r: bool)
    ensures
        r == looks_like_channel_data(data@),
{
    data.len() >= 4 && data[0] >= 0x40 && data[0] < 0x80
}

/// Nothing is both a STUN message and ChannelData.
pub proof fn law_demultiplexed(b: Seq<u8>)
    ensures
        !(looks_like_stun(b) && looks_like_channel_data(b)),
{
}

/// Channel number of a ChannelData frame: the first two bytes without the tag
/// bits.
pub open spec fn channel_of(b: Seq<u8>) -> Option<u16> {
    if looks_like_channel_data(b) {
        Some((octets::be_value(b, 0, 2) - 0x4000) as u16)
    } else {
        None
    }
}

/// What a ChannelData frame carries, if all of it is there.
pub open spec fn channel_payload(b: Seq<u8>) -> Option<Seq<u8>> {
    let n = octets::be_value(b, 2, 2) as int;
    if looks_like_channel_data(b) && 4 + n <= b.len() {
        Some(b.subrange(4, 4 + n))
    } else {
        None
    }
}

/// Reads the channel number of a ChannelData frame.
pub fn channel_number(data: &[u8]) -> (r: Option<u16>)
    ensures
        r == channel_of(data@),
{
    if !is_channel_data(data) {
        return None;
    }
    proof {
        reveal_with_fuel(octets::be_value, 3);
    }
    Some(be16(data, 0) - 0x4000)
}

/// Payload of a ChannelData frame (after the 4-byte header), if all of it is
/// there.
pub fn channel_data_payload<'a>(data: &'a [u8]) -> (r: Option<&'a [u8]>)
    ensures
        match channel_payload(data@) {
            Some(p) => r is Some && r->Some_0@ == p,
            None => r is None,
        },
{
    if !is_channel_data(data) {
        return None;
    }
    let len: usize = be16(data, 2) as usize;
    if 4 + len > data.len() {
        return None;
    }
    Some(slice_subrange(data, 4, 4 + len))
}

/// The attributes between `off` and `end`, each padded to a multiple of four
/// bytes; up to the first that is cut short.
pub open spec fn attrs_from(b: Seq<u8>, off: int, end: int) -> Seq<AttrView>
    decreases end + 4 - off,
{
    let n = octets::be_value(b, off + 2, 2) as int;
    if off + 4 + n <= end {
        seq![
            AttrView {
                typ: octets::be_value(b, off, 2) as u16,
                value: b.subrange(off + 4, off + 4 + n),
            },
        ] + attrs_from(b, off + 4 + (n + 3) / 4 * 4, end)
    } else {
        Seq::empty()
    }
}

/// A STUN message whose announced length is all there.
pub open spec fn stun_view(b: Seq<u8>) -> Option<StunView> {
    let n = octets::be_value(b, 2, 2) as int;
    if looks_like_stun(b) && 20 + n <= b.len() {
        let typ = octets::be_value(b, 0, 2) as u16;
        Some(
            StunView {
                method: method_bits(typ),
                class: class_of(typ),
                txn_id: b.subrange(8, 20),
                attrs: attrs_from(b, 20, 20 + n),
            },
        )
    } else {
        None
    }
}

/// Reads the attributes behind the header, up to `end`.
fn parse_attrs(data: &[u8], end: usize) -> (r: Vec<StunAttribute>)
    requires
        20 <= end <= data@.len(),
        end <= 20 + 0xffff,
    ensures
        attr_views(r@) == attrs_from(data@, 20, end as int),
{
    let mut attrs: Vec<StunAttribute> = Vec::new();
    let mut off: usize = 20;
    assert(attr_views(attrs@) + attrs_from(data@, 20, end as int) =~= attrs_from(
        data@,
        20,
        end as int,
    ));
    while off + 4 <= end
        invariant
            end <= data.len(),
            end <= 20 + 0xffff,
            off <= end + 3,
            attrs_from(data@, 20, end as int) == attr_views(attrs@) + attrs_from(
                data@,
                off as int,
                end as int,
            ),
        decreases end + 4 - off,
    {
        let n: usize = be16(data, off + 2) as usize;
        if off + 4 + n > end {
            assert(attr_views(attrs@) + Seq::<AttrView>::empty() =~= attr_views(attrs@));
            return attrs;
        }
        let a = StunAttribute {
            typ: be16(data, off),
            value: to_vec(slice_subrange(data, off + 4, off + 4 + n)),
        };
        let ghost before = attrs@;
        let ghost av = a@;
        attrs.push(a);
        proof {
            let next = off + 4 + (n + 3) / 4 * 4;
            assert(attr_views(attrs@) =~= attr_views(before) + seq![av]);
            assert(attr_views(before) + (seq![av] + attrs_from(data@, next, end as int))
                =~= attr_views(attrs@) + attrs_from(data@, next, end as int));
        }
        off = off + 4 + (n + 3) / 4 * 4;
    }
    proof {
        octets::lemma_be_value_bound(data@, off + 2, 2);
        assert(attrs_from(data@, off as int, end as int) =~= Seq::<AttrView>::empty());
        assert(attr_views(attrs@) + Seq::<AttrView>::empty() =~= attr_views(attrs@));
    }
    attrs
}

/// Parses a STUN message.
pub fn parse(data: &[u8]) -> (r: Option<StunMessage>)
    ensures
        match stun_view(data@) {
            Some(v) => r is Some && r->Some_0@ == v,
            None => r is None,
        },
{
    if !is_stun(data) {
        return None;
    }
    let typ: u16 = be16(data, 0);
    let len: usize = be16(data, 2) as usize;
    if 20 + len > data.len() {
        return None;
    }
    let txn_id: [u8; 12] = [
        data[8],
        data[9],
        data[10],
        data[11],
        data[12],
        data[13],
        data[14],
        data[15],
        data[16],
        data[17],
        data[18],
        data[19],
    ];
    assert(txn_id@ =~= data@.subrange(8, 20));
    let attrs = parse_attrs(data, 20 + len);
    Some(StunMessage { method: stun_method(typ), class: stun_class(typ), txn_id, attrs })
}

} // verus!
