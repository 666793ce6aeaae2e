//! What the frames of each datalink type carry, and how IP packets are taken apart.
use crate::decode::frame::{
    ethernet_found, frame_walk, full_parse, ip_found, joined_parts, l4_walk, Walk,
};
use crate::model::addr::{IpAddr, SocketAddr};
use crate::model::packet::{Flow5Tuple, Proto};
use crate::octets;
use crate::octets::be_value;
use vstd::prelude::*;

verus! {

// ----------------------------- link layer -----------------------------

/// The ethertype of IPv4 or IPv6.
pub open spec fn ip_type(t: Seq<u8>) -> bool {
    t == seq![0x08u8, 0x00u8] || t == seq![0x86u8, 0xddu8]
}

/// The first two bytes of a VLAN tag.
pub open spec fn vlan_type(t: Seq<u8>) -> bool {
    t == seq![0x81u8, 0x00u8] || t == seq![0x88u8, 0xa8u8] || t == seq![0x91u8, 0x00u8]
}

proof fn lemma_two(b: Seq<u8>, at: int)
    ensures
        be_value(b, at, 2) == 256 * b[at] + b[at + 1],
{
    reveal_with_fuel(octets::be_value, 3);
}

proof fn lemma_four(b: Seq<u8>, at: int)
    ensures
        be_value(b, at, 4) == 0x100_0000 * b[at] + 0x1_0000 * b[at + 1] + 0x100 * b[at + 2] + b[at
            + 3],
{
    reveal_with_fuel(octets::be_value, 5);
}

/// A raw frame is the IP packet. A Linux cooked frame, v1, has the packet behind 14 bytes and
/// the ethertype.
pub proof fn law_cooked(h: Seq<u8>, t: Seq<u8>, p: Seq<u8>)
    requires
        h.len() == 14,
        t.len() == 2,
    ensures
        ip_type(t) ==> frame_walk(113, h + t + p) == frame_walk(12, p),
        !ip_type(t) ==> frame_walk(113, h + t + p) is Miss,
{
    let b = h + t + p;
    lemma_two(b, 14);
    assert(b[14] == t[0] && b[15] == t[1]);
    assert(b.skip(16) =~= p);
    if !ip_type(t) {
        assert(t =~= seq![t[0], t[1]]);
    }
}

/// A Linux cooked frame, v2, begins with the ethertype and has the packet behind 18 more bytes.
pub proof fn law_cooked_v2(t: Seq<u8>, h: Seq<u8>, p: Seq<u8>)
    requires
        t.len() == 2,
        h.len() == 18,
    ensures
        ip_type(t) ==> frame_walk(276, t + h + p) == frame_walk(12, p),
        !ip_type(t) ==> frame_walk(276, t + h + p) is Miss,
{
    let b = t + h + p;
    lemma_two(b, 0);
    assert(b[0] == t[0] && b[1] == t[1]);
    assert(b.skip(20) =~= p);
    if !ip_type(t) {
        assert(t =~= seq![t[0], t[1]]);
    }
}

/// An Ethernet frame has the packet behind two addresses and the ethertype.
pub proof fn law_ethernet(h: Seq<u8>, t: Seq<u8>, p: Seq<u8>)
    requires
        h.len() == 12,
        t.len() == 2,
    ensures
        ip_type(t) ==> frame_walk(1, h + t + p) == frame_walk(12, p),
        !ip_type(t) && !vlan_type(t) ==> frame_walk(1, h + t + p) is Miss,
{
    let b = h + t + p;
    lemma_two(b, 12);
    assert(b[12] == t[0] && b[13] == t[1]);
    assert(b.skip(14) =~= p);
    assert(t =~= seq![t[0], t[1]]);
}

/// One VLAN tag of four bytes, or two, may stand before the ethertype, whatever tags they are;
/// what follows is found as in the frame without them.
pub proof fn law_vlan(h: Seq<u8>, v: Seq<u8>, w: Seq<u8>, t: Seq<u8>, p: Seq<u8>)
    requires
        h.len() == 12,
        v.len() == 4,
        w.len() == 4,
        vlan_type(v.take(2)),
        vlan_type(w.take(2)),
        ip_type(t),
    ensures
        frame_walk(1, h + v + t + p) == frame_walk(12, p),
        frame_walk(1, h + v + w + t + p) == frame_walk(12, p),
{
    assert(t.len() == 2);
    let a = h + v + t + p;
    lemma_two(a, 12);
    lemma_two(a, 16);
    assert(v.take(2)[0] == v[0] && v.take(2)[1] == v[1]);
    assert(w.take(2)[0] == w[0] && w.take(2)[1] == w[1]);
    assert(a[12] == v[0] && a[13] == v[1] && a[16] == t[0] && a[17] == t[1]);
    assert(a.skip(18) =~= p);
    reveal_with_fuel(crate::decode::frame::ethernet_walk, 3);
    assert(frame_walk(1, a) == frame_walk(12, p));
    let b = h + v + w + t + p;
    lemma_two(b, 12);
    lemma_two(b, 16);
    lemma_two(b, 20);
    assert(b[12] == v[0] && b[13] == v[1] && b[16] == w[0] && b[17] == w[1]);
    assert(b[20] == t[0] && b[21] == t[1]);
    assert(b.skip(22) =~= p);
}

/// A third VLAN tag is not stepped over.
pub proof fn law_third_vlan(h: Seq<u8>, v: Seq<u8>, w: Seq<u8>, x: Seq<u8>, p: Seq<u8>)
    requires
        h.len() == 12,
        v.len() == 4,
        w.len() == 4,
        x.len() == 2,
        vlan_type(v.take(2)),
        vlan_type(w.take(2)),
        !ip_type(x),
    ensures
        frame_walk(1, h + v + w + x + p) is Miss,
{
    reveal_with_fuel(crate::decode::frame::ethernet_walk, 3);
    assert(v.take(2)[0] == v[0] && v.take(2)[1] == v[1]);
    assert(w.take(2)[0] == w[0] && w.take(2)[1] == w[1]);
    let b = h + v + w + x + p;
    lemma_two(b, 12);
    lemma_two(b, 16);
    lemma_two(b, 20);
    assert(b[12] == v[0] && b[13] == v[1] && b[16] == w[0] && b[17] == w[1]);
    assert(b[20] == x[0] && b[21] == x[1]);
    assert(x =~= seq![x[0], x[1]]);
}

/// A frame that ends within its link header is none; other datalink types are left to the
/// full parser, which reads them as Ethernet.
pub proof fn law_other_frames(linktype: u32, b: Seq<u8>)
    ensures
        b.len() < 14 ==> frame_walk(1, b) is Miss,
        b.len() < 16 ==> frame_walk(113, b) is Miss && full_parse(113, b) is None,
        b.len() < 20 ==> frame_walk(276, b) is Miss && full_parse(276, b) is None,
        b.len() == 0 ==> frame_walk(12, b) is Miss,
        linktype != 1 && linktype != 12 && linktype != 113 && linktype != 276 ==> frame_walk(
            linktype,
            b,
        ) is Fallback && full_parse(linktype, b) == joined_parts(ethernet_found(b)),
        full_parse(1, b) == joined_parts(ethernet_found(b)),
        full_parse(12, b) == joined_parts(ip_found(b)),
{
}

/// The full parser sees the packet behind a cooked header, as it sees a raw one.
pub proof fn law_cooked_full_parse(h: Seq<u8>, p: Seq<u8>)
    ensures
        h.len() == 16 ==> full_parse(113, h + p) == full_parse(12, p),
        h.len() == 20 ==> full_parse(276, h + p) == full_parse(12, p),
{
    if h.len() == 16 || h.len() == 20 {
        assert((h + p).skip(h.len() as int) =~= p);
    }
}

// ----------------------------- IP -----------------------------

/// The IPv4 address in four bytes.
pub open spec fn v4(b: Seq<u8>, at: int) -> IpAddr {
    IpAddr::V4(
        (0x100_0000 * b[at] + 0x1_0000 * b[at + 1] + 0x100 * b[at + 2] + b[at + 3]) as u32,
    )
}

/// The two bytes at `at` spell `n`.
pub open spec fn spells(b: Seq<u8>, at: int, n: int) -> bool {
    256 * b[at] + b[at + 1] == n
}

/// An IPv4 header of `4 * words` bytes, for a packet of `total` bytes that is no later
/// fragment.
pub open spec fn v4_header(h: Seq<u8>, words: int, proto: u8, total: int) -> bool {
    &&& 5 <= words <= 15
    &&& h.len() == 4 * words
    &&& h[0] == 0x40 + words
    &&& spells(h, 2, total)
    &&& h[6] % 32 == 0
    &&& h[7] == 0
    &&& h[9] == proto
}

/// The transport part of an IPv4 packet is what its header and its total length leave, padding
/// behind it is dropped; the addresses are at bytes 12 and 16 of the header.
pub proof fn law_ipv4_packet(h: Seq<u8>, words: int, proto: u8, l4: Seq<u8>, pad: Seq<u8>)
    requires
        v4_header(h, words, proto, (h.len() + l4.len()) as int),
    ensures
        frame_walk(12, h + l4 + pad) == l4_walk(proto, v4(h, 12), v4(h, 16), l4),
{
    let b = h + l4 + pad;
    lemma_two(b, 2);
    lemma_two(b, 6);
    lemma_four(b, 12);
    lemma_four(b, 16);
    assert(b[0] == h[0] && b[2] == h[2] && b[3] == h[3] && b[6] == h[6] && b[7] == h[7]);
    assert(b[9] == h[9] && b[12] == h[12] && b[13] == h[13] && b[14] == h[14] && b[15] == h[15]);
    assert(b[16] == h[16] && b[17] == h[17] && b[18] == h[18] && b[19] == h[19]);
    assert(b[0] / 16 == 4 && b[0] % 16 == words);
    assert(b.subrange(h.len() as int, (h.len() + l4.len()) as int) =~= l4);
    assert((256 * h[6]) % 0x2000 == 0);
}

/// A later fragment of an IPv4 packet, a packet whose header is cut short, and one of another
/// IP version, are none.
pub proof fn law_ipv4_refused(b: Seq<u8>)
    requires
        b.len() > 0,
    ensures
        b[0] / 16 == 4 && b.len() < 20 ==> frame_walk(12, b) is Miss,
        b[0] / 16 == 4 && (b[0] % 16 < 5 || b.len() < 4 * (b[0] % 16)) ==> frame_walk(12, b)
            is Miss,
        b[0] / 16 == 4 && b.len() >= 20 && (b[6] % 32 != 0 || b[7] != 0) ==> frame_walk(12, b)
            is Miss,
        b[0] / 16 != 4 && b[0] / 16 != 6 ==> frame_walk(12, b) is Miss,
{
    lemma_two(b, 6);
    if b.len() >= 20 && (b[6] % 32 != 0 || b[7] != 0) {
        let x = 256 * b[6] + b[7];
        assert(x % 0x2000 == 256 * (b[6] % 32) + b[7]);
    }
}

/// The transport part of an IPv6 packet without extension headers is what its payload length
/// says; the addresses are at bytes 8 and 24, most significant byte first.
pub proof fn law_ipv6_packet(
    h: Seq<u8>,
    proto: u8,
    src: u128,
    dst: u128,
    l4: Seq<u8>,
    pad: Seq<u8>,
)
    requires
        h.len() == 40,
        h[0] / 16 == 6,
        proto == 6 || proto == 17,
        h[6] == proto,
        l4.len() > 0,
        spells(h, 4, l4.len() as int),
        h.subrange(8, 24) == octets::be_bytes(src as nat, 16),
        h.subrange(24, 40) == octets::be_bytes(dst as nat, 16),
    ensures
        frame_walk(12, h + l4 + pad) == l4_walk(proto, IpAddr::V6(src), IpAddr::V6(dst), l4),
{
    let b = h + l4 + pad;
    lemma_two(b, 4);
    assert(b[0] == h[0] && b[4] == h[4] && b[5] == h[5] && b[6] == h[6]);
    assert(b.subrange(8, 24) =~= h.subrange(8, 24));
    assert(b.subrange(24, 40) =~= h.subrange(24, 40));
    octets::lemma_pow256_values();
    octets::lemma_be_round(b, 8, src as nat, 16);
    octets::lemma_be_round(b, 24, dst as nat, 16);
    assert(b.subrange(40, 40 + l4.len() as int) =~= l4);
}

/// An IPv6 packet of another next header is left to the full parser, except ICMPv6, which is
/// none; so is one shorter than its header. Without a payload length all the bytes count.
pub proof fn law_ipv6_rest(b: Seq<u8>)
    requires
        b.len() > 0,
        b[0] / 16 == 6,
    ensures
        b.len() < 40 ==> frame_walk(12, b) is Miss,
        b.len() >= 40 && b[6] == 58 ==> frame_walk(12, b) is Miss,
        b.len() >= 40 && b[6] != 58 && b[6] != 6 && b[6] != 17 ==> frame_walk(12, b) is Fallback,
        b.len() >= 40 && (b[6] == 6 || b[6] == 17) && (spells(b, 4, 0) || b.len() <= 40 + 256 * b[4]
            + b[5]) ==> exists|src: IpAddr, dst: IpAddr|
            frame_walk(12, b) == #[trigger] l4_walk(b[6], src, dst, b.skip(40)),
{
    lemma_two(b, 4);
    if b.len() >= 40 && (b[6] == 6 || b[6] == 17) && (spells(b, 4, 0) || b.len() <= 40 + 256 * b[4]
        + b[5]) {
        assert(b.subrange(40, b.len() as int) =~= b.skip(40));
        let src = IpAddr::V6(be_value(b, 8, 16) as u128);
        let dst = IpAddr::V6(be_value(b, 24, 16) as u128);
        assert(frame_walk(12, b) == l4_walk(b[6], src, dst, b.skip(40)));
    }
}

// ----------------------------- transport -----------------------------

/// The flow between two ports, each in two bytes, source first.
pub open spec fn flow_between(proto: Proto, src: IpAddr, dst: IpAddr, h: Seq<u8>) -> Flow5Tuple {
    Flow5Tuple {
        proto,
        src: SocketAddr { ip: src, port: (256 * h[0] + h[1]) as u16 },
        dst: SocketAddr { ip: dst, port: (256 * h[2] + h[3]) as u16 },
    }
}

/// A UDP datagram (protocol 17) gives the bytes behind its header of eight, as many as its
/// length says; where that does not fit, all of them.
pub proof fn law_udp(src: IpAddr, dst: IpAddr, h: Seq<u8>, payload: Seq<u8>, pad: Seq<u8>)
    requires
        h.len() == 8,
    ensures
        spells(h, 4, 8 + payload.len() as int) ==> l4_walk(17, src, dst, h + payload + pad) == Walk::Hit(
            (flow_between(Proto::Udp, src, dst, h), payload),
        ),
        256 * h[4] + h[5] < 8 || 256 * h[4] + h[5] > 8 + payload.len() ==> l4_walk(
            17,
            src,
            dst,
            h + payload,
        ) == Walk::Hit((flow_between(Proto::Udp, src, dst, h), payload)),
{
    let b = h + payload + pad;
    let c = h + payload;
    lemma_two(b, 0);
    lemma_two(b, 2);
    lemma_two(b, 4);
    lemma_two(c, 0);
    lemma_two(c, 2);
    lemma_two(c, 4);
    assert(forall|i: int| 0 <= i < 8 ==> b[i] == h[i] && c[i] == h[i]);
    assert(b[0] == h[0] && b[1] == h[1] && b[2] == h[2] && b[3] == h[3] && b[4] == h[4] && b[5]
        == h[5]);
    assert(c[0] == h[0] && c[1] == h[1] && c[2] == h[2] && c[3] == h[3] && c[4] == h[4] && c[5]
        == h[5]);
    assert(b.subrange(8, 8 + payload.len() as int) =~= payload);
    assert(c.skip(8) =~= payload);
}

/// A TCP segment (protocol 6) gives the bytes behind its header, whose length in words of four
/// bytes is in the upper half of byte 12.
pub proof fn law_tcp(src: IpAddr, dst: IpAddr, h: Seq<u8>, payload: Seq<u8>)
    requires
        20 <= h.len(),
        4 * (h[12] / 16) == h.len(),
    ensures
        l4_walk(6, src, dst, h + payload) == Walk::Hit(
            (flow_between(Proto::Tcp, src, dst, h), payload),
        ),
{
    let b = h + payload;
    lemma_two(b, 0);
    lemma_two(b, 2);
    assert(b[12] == h[12]);
    assert(b[0] == h[0] && b[1] == h[1] && b[2] == h[2] && b[3] == h[3]);
    assert(b.skip(h.len() as int) =~= payload);
}

/// A transport header that is cut short, and any other protocol, are none.
pub proof fn law_transport_refused(proto: u8, src: IpAddr, dst: IpAddr, b: Seq<u8>)
    ensures
        proto != 6 && proto != 17 ==> l4_walk(proto, src, dst, b) is Miss,
        proto == 17 && b.len() < 8 ==> l4_walk(proto, src, dst, b) is Miss,
        proto == 6 && b.len() < 20 ==> l4_walk(proto, src, dst, b) is Miss,
        proto == 6 && b.len() >= 20 && (b[12] / 16 < 5 || b.len() < 4 * (b[12] / 16)) ==> l4_walk(
            proto,
            src,
            dst,
            b,
        ) is Miss,
{
}

/// What the full parser finds becomes a flow with its ports as they are, from addresses of four
/// or sixteen bytes, most significant first, and the payload as it is; anything else is none.
pub proof fn law_found_joined(
    a: Seq<u8>,
    b: Seq<u8>,
    proto: Proto,
    s: u16,
    d: u16,
    payload: Seq<u8>,
    x: u128,
    y: u128,
)
    ensures
        joined_parts(None) is None,
        a.len() == 4 && b.len() == 4 ==> joined_parts(Some(((a, b), (proto, s, d, payload))))
            == Some(
            (
                Flow5Tuple {
                    proto,
                    src: SocketAddr { ip: v4(a, 0), port: s },
                    dst: SocketAddr { ip: v4(b, 0), port: d },
                },
                payload,
            ),
        ),
        a == octets::be_bytes(x as nat, 16) && b == octets::be_bytes(y as nat, 16) ==> joined_parts(
            Some(((a, b), (proto, s, d, payload))),
        ) == Some(
            (
                Flow5Tuple {
                    proto,
                    src: SocketAddr { ip: IpAddr::V6(x), port: s },
                    dst: SocketAddr { ip: IpAddr::V6(y), port: d },
                },
                payload,
            ),
        ),
        a.len() != 4 && a.len() != 16 || b.len() != 4 && b.len() != 16 ==> joined_parts(
            Some(((a, b), (proto, s, d, payload))),
        ) is None,
{
    lemma_four(a, 0);
    lemma_four(b, 0);
    octets::lemma_pow256_values();
    octets::lemma_be_bytes_len(x as nat, 16);
    octets::lemma_be_bytes_len(y as nat, 16);
    if a == octets::be_bytes(x as nat, 16) && b == octets::be_bytes(y as nat, 16) {
        assert(a.subrange(0, 16) =~= a);
        assert(b.subrange(0, 16) =~= b);
        octets::lemma_be_round(a, 0, x as nat, 16);
        octets::lemma_be_round(b, 0, y as nat, 16);
    }
}

} // verus!
