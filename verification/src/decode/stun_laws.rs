//! STUN messages and TURN frames, by where their fields stand.
use crate::decode::media_laws::holds;
use crate::decode::stun::{
    attrs_from, channel_of, channel_payload, class_of, first_error, first_of, looks_like_channel_data,
    looks_like_stun, method_bits, stun_view, AttrView, StunClass, StunView,
};
use crate::octets;
use crate::octets::be_value;
use crate::text;
use vstd::prelude::*;

verus! {

proof fn lemma_two(b: Seq<u8>, at: int)
    ensures
        be_value(b, at, 2) == 256 * b[at] + b[at + 1],
{
    reveal_with_fuel(octets::be_value, 3);
}

proof fn lemma_four(b: Seq<u8>, at: int)
    ensures
        be_value(b, at, 4) == 0x100_0000 * b[at] + 0x1_0000 * b[at + 1] + 0x100 * b[at + 2] + b[at
            + 3],
{
    reveal_with_fuel(octets::be_value, 5);
}

// ----------------------------- telling apart -----------------------------

/// A STUN message has a header of 20 bytes whose first byte is below 0x40 and whose fourth to
/// seventh bytes are the magic cookie; ChannelData begins with a byte from 0x40 to 0x7f.
pub proof fn law_stun_told_apart(b: Seq<u8>)
    ensures
        looks_like_stun(b) <==> b.len() >= 20 && b[0] < 0x40 && b[4] == 0x21 && b[5] == 0x12 && b[6]
            == 0xa4 && b[7] == 0x42,
        looks_like_channel_data(b) <==> b.len() >= 4 && 0x40 <= b[0] <= 0x7f,
{
    lemma_four(b, 4);
}

/// A ChannelData frame carries as many bytes as its second pair says, on the channel that its first
/// pair names above 0x4000.
pub proof fn law_channel_data(h: Seq<u8>, payload: Seq<u8>, pad: Seq<u8>)
    requires
        h.len() == 4,
        0x40 <= h[0] <= 0x7f,
        256 * h[2] + h[3] == payload.len(),
    ensures
        channel_payload(h + payload + pad) == Some(payload),
        channel_of(h + payload + pad) == Some((256 * (h[0] - 0x40) + h[1]) as u16),
        payload.len() > 0 ==> channel_payload(h + payload.drop_last()) is None,
{
    let b = h + payload + pad;
    lemma_two(b, 0);
    lemma_two(b, 2);
    assert(b[0] == h[0] && b[1] == h[1] && b[2] == h[2] && b[3] == h[3]);
    assert(b.subrange(4, 4 + payload.len() as int) =~= payload);
    if payload.len() > 0 {
        let c = h + payload.drop_last();
        lemma_two(c, 2);
        assert(c[2] == h[2] && c[3] == h[3]);
    }
}

// ----------------------------- message type -----------------------------

/// The message type interleaves a method and a class: bit 4 is the low bit of the class and bit 8
/// the high one, and the method stands in the four bits below bit 4 and the three above.
pub proof fn law_message_type(typ: u16, low4: u16, high3: u16, c0: u16, c1: u16)
    requires
        low4 < 16,
        high3 < 8,
        c0 < 2,
        c1 < 2,
        typ == low4 + 16 * c0 + 32 * high3 + 256 * c1,
    ensures
        method_bits(typ) == low4 + 16 * high3,
        class_of(typ) == (if c1 == 0 && c0 == 0 {
            StunClass::Request
        } else if c1 == 0 {
            StunClass::Indication
        } else if c0 == 0 {
            StunClass::Success
        } else {
            StunClass::Error
        }),
{
    assert((typ & 0x000F) | ((typ >> 1) & 0x0070) == low4 + 16 * high3) by (bit_vector)
        requires
            low4 < 16,
            high3 < 8,
            c0 < 2,
            c1 < 2,
            typ == low4 + 16 * c0 + 32 * high3 + 256 * c1,
    ;
}

// ----------------------------- messages and attributes -----------------------------

proof fn lemma_value_within(a: Seq<u8>, b: Seq<u8>, at: int, len: nat)
    requires
        0 <= at,
        forall|k: int| at <= k < at + len ==> #[trigger] a[k] == b[k],
    ensures
        be_value(a, at, len) == be_value(b, at, len),
    decreases len,
{
    if len > 0 {
        lemma_value_within(a, b, at, (len - 1) as nat);
        assert(a[at + len - 1] == b[at + len - 1]);
    }
}

/// An attribute is its type, its length and its value, padded to a multiple of four bytes; the
/// others follow it.
pub proof fn law_attribute(b: Seq<u8>, off: int, end: int, a: AttrView)
    requires
        0 <= off,
        end <= b.len(),
        a.value.len() <= 0xffff,
        off + 4 + a.value.len() <= end,
        holds(b, off, a.typ as int, 2),
        holds(b, off + 2, a.value.len() as int, 2),
        b.subrange(off + 4, off + 4 + a.value.len() as int) == a.value,
    ensures
        ({
            let over = a.value.len() as int % 4;
            let pad: int = if over == 0 {
                0
            } else {
                4 - over
            };
            attrs_from(b, off, end) == seq![a] + attrs_from(
                b,
                off + 4 + a.value.len() + pad,
                end,
            )
        }),
{
    octets::lemma_pow256_values();
    octets::lemma_be_round(b, off, a.typ as nat, 2);
    octets::lemma_be_round(b, off + 2, a.value.len(), 2);
}

/// No attribute is read past the announced end, nor one that would reach past it.
pub proof fn law_attribute_cut_short(b: Seq<u8>, off: int, end: int)
    requires
        0 <= off,
    ensures
        off + 4 > end ==> attrs_from(b, off, end).len() == 0,
        off + 4 + 256 * b[off + 2] + b[off + 3] > end ==> attrs_from(b, off, end).len() == 0,
{
    lemma_two(b, off + 2);
}

/// A message is its header and the attributes in the announced length; it is none where they are
/// not all there, and what follows them does not matter.
pub proof fn law_message(b: Seq<u8>, n: int)
    requires
        looks_like_stun(b),
        0 <= n <= 0xffff,
        256 * b[2] + b[3] == n,
    ensures
        b.len() < 20 + n ==> stun_view(b) is None,
        b.len() >= 20 + n ==> stun_view(b) is Some && stun_view(b)->Some_0.attrs == attrs_from(
            b,
            20,
            20 + n,
        ) && stun_view(b)->Some_0.txn_id == b.subrange(8, 20) && stun_view(b)->Some_0.method
            == method_bits((256 * b[0] + b[1]) as u16) && stun_view(b)->Some_0.class == class_of(
            (256 * b[0] + b[1]) as u16,
        ),
{
    lemma_two(b, 2);
    lemma_two(b, 0);
}

/// Nothing else is a message.
pub proof fn law_no_message(b: Seq<u8>)
    requires
        b.len() < 20 || b[0] >= 0x40 || b[4] != 0x21 || b[5] != 0x12 || b[6] != 0xa4 || b[7] != 0x42,
    ensures
        stun_view(b) is None,
{
    law_stun_told_apart(b);
}

// ----------------------------- attributes -----------------------------

/// An error code is its class, in hundreds, and its number, in the third and fourth bytes; the rest is
/// the reason.
pub proof fn law_error_code(a: AttrView)
    ensures
        a.typ == 9 && a.value.len() >= 4 ==> a.error_code() == Some(
            ((100 * a.value[2] + a.value[3]) as u16, text::utf8_lossy(a.value.skip(4))),
        ),
        a.typ != 9 || a.value.len() < 4 ==> a.error_code() is None,
{
}

/// A channel number is in the first two bytes of attribute 12, a lifetime in the four of attribute 13.
pub proof fn law_numbers(a: AttrView)
    ensures
        a.typ == 12 && a.value.len() >= 4 ==> a.channel() == Some(
            (256 * a.value[0] + a.value[1]) as u16,
        ),
        a.typ != 12 || a.value.len() < 4 ==> a.channel() is None,
        a.typ == 13 && a.value.len() >= 4 ==> a.seconds() == Some(
            (0x100_0000 * a.value[0] + 0x1_0000 * a.value[1] + 0x100 * a.value[2]
                + a.value[3]) as u32,
        ),
        a.typ != 13 || a.value.len() < 4 ==> a.seconds() is None,
{
    lemma_two(a.value, 0);
    lemma_four(a.value, 0);
}

/// Attributes 0x12, 0x16 and 0x20 hold addresses; those of other types, of another family and those cut
/// short hold none.
pub proof fn law_address_attributes(a: AttrView, txn_id: Seq<u8>)
    ensures
        a.typ != 0x12 && a.typ != 0x16 && a.typ != 0x20 ==> a.xor_address(txn_id) is None,
        a.value.len() < 8 ==> a.xor_address(txn_id) is None,
        a.value.len() >= 4 && a.value[1] != 1 && a.value[1] != 2 ==> a.xor_address(txn_id) is None,
        a.value.len() >= 4 && a.value.len() < 20 && a.value[1] == 2 ==> a.xor_address(txn_id)
            is None,
        (a.typ == 0x12 || a.typ == 0x16 || a.typ == 0x20) && (a.value.len() >= 8 && a.value[1] == 1
            || a.value.len() >= 20 && a.value[1] == 2) ==> a.xor_address(txn_id) is Some,
{
}

/// The first attribute of a type is the one that counts.
pub proof fn law_first_attribute(attrs: Seq<AttrView>, typ: u16, i: int, k: int)
    requires
        0 <= i <= attrs.len(),
    ensures
        i <= k < attrs.len() && attrs[k].typ == typ && (forall|x: int|
            i <= x < k ==> (#[trigger] attrs[x]).typ != typ) ==> first_of(attrs, typ, i) == Some(k),
        (forall|x: int| i <= x < attrs.len() ==> (#[trigger] attrs[x]).typ != typ) ==> first_of(
            attrs,
            typ,
            i,
        ) is None,
    decreases attrs.len() - i,
{
    if i < attrs.len() && attrs[i].typ != typ {
        law_first_attribute(attrs, typ, i + 1, k);
    }
}

/// The first error code among the attributes is that of the message.
pub proof fn law_first_error(attrs: Seq<AttrView>, i: int, k: int)
    requires
        0 <= i <= attrs.len(),
    ensures
        i <= k < attrs.len() && attrs[k].error_code() is Some && (forall|x: int|
            i <= x < k ==> (#[trigger] attrs[x]).error_code() is None) ==> first_error(attrs, i)
            == attrs[k].error_code(),
        (forall|x: int| i <= x < attrs.len() ==> (#[trigger] attrs[x]).error_code() is None)
            ==> first_error(attrs, i) is None,
    decreases attrs.len() - i,
{
    if i < attrs.len() && attrs[i].error_code() is None {
        law_first_error(attrs, i + 1, k);
    }
}

/// An address of a message is that of its first attribute of the type, under its own transaction.
pub proof fn law_message_address(m: StunView, typ: u16, k: int)
    requires
        0 <= k < m.attrs.len(),
        m.attrs[k].typ == typ,
        forall|x: int| 0 <= x < k ==> (#[trigger] m.attrs[x]).typ != typ,
    ensures
        m.address_of(typ) == m.attrs[k].xor_address(m.txn_id),
{
    law_first_attribute(m.attrs, typ, 0, k);
}

} // verus!
