//! Link, network and transport headers of captured frames.
use crate::model::addr::{IpAddr, SocketAddr};
use crate::model::packet::{Flow5Tuple, Proto};
use crate::octets;
use crate::octets::{be128, be16, be32, tail};
use etherparse::{NetSlice, SlicedPacket, TransportSlice};
use vstd::prelude::*;
use vstd::slice::slice_subrange;

verus! {

/// Well-known pcap datalink types.
pub const DLT_EN10MB: u32 = 1;

pub const DLT_RAW: u32 = 12;

pub const DLT_LINUX_SLL: u32 = 113;

pub const DLT_LINUX_SLL2: u32 = 276;

/// The transport payload of a frame.
pub enum L4<'a> {
    Udp(&'a [u8]),
    Tcp(&'a [u8]),
}

/// A decoded frame. The payload borrows from the capture buffer.
pub struct Decoded<'a> {
    pub flow: Flow5Tuple,
    pub l4: L4<'a>,
}

impl<'a> Decoded<'a> {
    /// The flow and the payload; the payload's variant is the flow's protocol.
    pub open spec fn parts(self) -> (Flow5Tuple, Seq<u8>) {
        match self.l4 {
            L4::Udp(p) => (self.flow, p@),
            L4::Tcp(p) => (self.flow, p@),
        }
    }

    pub open spec fn wf(self) -> bool {
        match self.l4 {
            L4::Udp(_) => self.flow.proto == Proto::Udp,
            L4::Tcp(_) => self.flow.proto == Proto::Tcp,
        }
    }
}

/// What the header walk finds.
pub enum Walk<T> {
    Hit(T),
    /// Neither IP with UDP or TCP, nor anything that could hide it.
    Miss,
    /// Unusual encapsulation: the full parser decides.
    Fallback,
}

// ----------------------------- link layer -----------------------------

pub open spec fn is_ip_ethertype(t: nat) -> bool {
    t == 0x0800 || t == 0x86dd
}

pub open spec fn is_vlan_ethertype(t: nat) -> bool {
    t == 0x8100 || t == 0x88a8 || t == 0x9100
}

/// The payload behind an ethertype at `at`, which starts at `off`. At most
/// `tags` VLAN tags are stepped over.
pub open spec fn ethernet_walk(b: Seq<u8>, at: int, off: int, tags: nat) -> Walk<Seq<u8>>
    decreases tags,
{
    let t = octets::be_value(b, at, 2);
    if tags > 0 && is_vlan_ethertype(t) {
        if b.len() < off + 4 {
            Walk::Miss
        } else {
            ethernet_walk(b, off + 2, off + 4, (tags - 1) as nat)
        }
    } else if is_ip_ethertype(t) {
        Walk::Hit(b.skip(off))
    } else {
        Walk::Miss
    }
}

/// The IP packet in a frame of the given datalink type.
pub open spec fn l2_walk(linktype: u32, b: Seq<u8>) -> Walk<Seq<u8>> {
    if linktype == DLT_EN10MB {
        if b.len() < 14 {
            Walk::Miss
        } else {
            ethernet_walk(b, 12, 14, 2)
        }
    } else if linktype == DLT_RAW {
        Walk::Hit(b)
    } else if linktype == DLT_LINUX_SLL {
        if b.len() < 16 {
            Walk::Miss
        } else {
            ethernet_walk(b, 14, 16, 0)
        }
    } else if linktype == DLT_LINUX_SLL2 {
        if b.len() < 20 {
            Walk::Miss
        } else {
            ethernet_walk(b, 0, 20, 0)
        }
    } else {
        Walk::Fallback
    }
}

/// Two walks with the same outcome, one over slices.
pub open spec fn same_walk(w: Walk<&[u8]>, v: Walk<Seq<u8>>) -> bool {
    match v {
        Walk::Hit(s) => w is Hit && w->Hit_0@ == s,
        Walk::Miss => w is Miss,
        Walk::Fallback => w is Fallback,
    }
}

/// The IP packet behind an ethertype.
pub fn ethertype_payload<'a>(data: &'a [u8], at: usize, off: usize) -> (r: Walk<&'a [u8]>)
    requires
        at + 2 <= data@.len(),
        off <= data@.len(),
    ensures
        same_walk(r, ethernet_walk(data@, at as int, off as int, 0)),
{
    let t: u16 = be16(data, at);
    if t == 0x0800 || t == 0x86dd {
        Walk::Hit(tail(data, off))
    } else {
        Walk::Miss
    }
}

/// The IP packet in an Ethernet frame, behind at most two VLAN tags.
pub fn ethernet_payload<'a>(data: &'a [u8]) -> (r: Walk<&'a [u8]>)
    ensures
        same_walk(r, l2_walk(DLT_EN10MB, data@)),
{
    if data.len() < 14 {
        return Walk::Miss;
    }
    let mut at: usize = 12;
    let mut off: usize = 14;
    let mut tags: usize = 2;
    while tags > 0
        invariant
            tags <= 2,
            14 <= off <= data.len(),
            at + 2 <= off,
            off <= 22 - 4 * tags,
            ethernet_walk(data@, 12, 14, 2) == ethernet_walk(
                data@,
                at as int,
                off as int,
                tags as nat,
            ),
            l2_walk(DLT_EN10MB, data@) == ethernet_walk(data@, 12, 14, 2),
        decreases tags,
    {
        let t: u16 = be16(data, at);
        if t != 0x8100 && t != 0x88a8 && t != 0x9100 {
            return ethertype_payload(data, at, off);
        }
        if data.len() - off < 4 {
            return Walk::Miss;
        }
        at = off + 2;
        off = off + 4;
        tags = tags - 1;
    }
    ethertype_payload(data, at, off)
}

/// The IP packet in a frame.
pub fn l2_payload<'a>(linktype: u32, data: &'a [u8]) -> (r: Walk<&'a [u8]>)
    ensures
        same_walk(r, l2_walk(linktype, data@)),
{
    if linktype == DLT_EN10MB {
        ethernet_payload(data)
    } else if linktype == DLT_RAW {
        Walk::Hit(data)
    } else if linktype == DLT_LINUX_SLL {
        if data.len() < 16 {
            return Walk::Miss;
        }
        ethertype_payload(data, 14, 16)
    } else if linktype == DLT_LINUX_SLL2 {
        if data.len() < 20 {
            return Walk::Miss;
        }
        ethertype_payload(data, 0, 20)
    } else {
        Walk::Fallback
    }
}

// ----------------------------- transport -----------------------------

pub open spec fn flow_of(proto: Proto, src: IpAddr, dst: IpAddr, l4: Seq<u8>) -> Flow5Tuple {
    Flow5Tuple {
        proto,
        src: SocketAddr { ip: src, port: octets::be_value(l4, 0, 2) as u16 },
        dst: SocketAddr { ip: dst, port: octets::be_value(l4, 2, 2) as u16 },
    }
}

/// UDP (17) or TCP (6) header and payload. A UDP length that does not fit is
/// ignored.
pub open spec fn l4_walk(proto: u8, src: IpAddr, dst: IpAddr, l4: Seq<u8>) -> Walk<
    (Flow5Tuple, Seq<u8>),
> {
    if proto == 17 {
        if l4.len() < 8 {
            Walk::Miss
        } else {
            let ulen = octets::be_value(l4, 4, 2);
            Walk::Hit(
                (
                    flow_of(Proto::Udp, src, dst, l4),
                    if 8 <= ulen <= l4.len() {
                        l4.subrange(8, ulen as int)
                    } else {
                        l4.skip(8)
                    },
                ),
            )
        }
    } else if proto == 6 {
        let doff = 4 * (l4[12] / 16);
        if l4.len() < 20 || doff < 20 || l4.len() < doff {
            Walk::Miss
        } else {
            Walk::Hit((flow_of(Proto::Tcp, src, dst, l4), l4.skip(doff as int)))
        }
    } else {
        Walk::Miss
    }
}

pub open spec fn same_hit(w: Walk<Decoded>, v: Walk<(Flow5Tuple, Seq<u8>)>) -> bool {
    match v {
        Walk::Hit(p) => w is Hit && w->Hit_0.wf() && w->Hit_0.parts() == p,
        Walk::Miss => w is Miss,
        Walk::Fallback => w is Fallback,
    }
}

pub fn parse_l4<'a>(proto: u8, src_ip: IpAddr, dst_ip: IpAddr, l4: &'a [u8]) -> (r: Walk<
    Decoded<'a>,
>)
    ensures
        same_hit(r, l4_walk(proto, src_ip, dst_ip, l4@)),
{
    if proto == 17 {
        if l4.len() < 8 {
            return Walk::Miss;
        }
        let src = SocketAddr { ip: src_ip, port: be16(l4, 0) };
        let dst = SocketAddr { ip: dst_ip, port: be16(l4, 2) };
        let ulen: usize = be16(l4, 4) as usize;
        let payload = if ulen >= 8 && ulen <= l4.len() {
            slice_subrange(l4, 8, ulen)
        } else {
            tail(l4, 8)
        };
        Walk::Hit(Decoded { flow: Flow5Tuple { proto: Proto::Udp, src, dst }, l4: L4::Udp(payload) })
    } else if proto == 6 {
        if l4.len() < 20 {
            return Walk::Miss;
        }
        let src = SocketAddr { ip: src_ip, port: be16(l4, 0) };
        let dst = SocketAddr { ip: dst_ip, port: be16(l4, 2) };
        let doff: usize = (l4[12] / 16) as usize * 4;
        if doff < 20 || l4.len() < doff {
            return Walk::Miss;
        }
        Walk::Hit(
            Decoded {
                flow: Flow5Tuple { proto: Proto::Tcp, src, dst },
                l4: L4::Tcp(tail(l4, doff)),
            },
        )
    } else {
        Walk::Miss
    }
}

// ----------------------------- network -----------------------------

/// An IPv4 packet. Fragments other than the first carry no transport header. A
/// total length that does not fit is ignored.
pub open spec fn ipv4_walk(b: Seq<u8>) -> Walk<(Flow5Tuple, Seq<u8>)> {
    let ihl = 4 * (b[0] % 16);
    if b.len() < 20 || ihl < 20 || b.len() < ihl || octets::be_value(b, 6, 2) % 0x2000 != 0 {
        Walk::Miss
    } else {
        let total = octets::be_value(b, 2, 2);
        let end = if ihl <= total <= b.len() {
            total as int
        } else {
            b.len() as int
        };
        l4_walk(
            b[9],
            IpAddr::V4(octets::be_value(b, 12, 4) as u32),
            IpAddr::V4(octets::be_value(b, 16, 4) as u32),
            b.subrange(ihl as int, end),
        )
    }
}

pub fn parse_ipv4<'a>(data: &'a [u8]) -> (r: Walk<Decoded<'a>>)
    ensures
        same_hit(r, ipv4_walk(data@)),
{
    if data.len() < 20 {
        return Walk::Miss;
    }
    let ihl: usize = (data[0] % 16) as usize * 4;
    if ihl < 20 || data.len() < ihl {
        return Walk::Miss;
    }
    let frag: u16 = be16(data, 6);
    if frag % 0x2000 != 0 {
        return Walk::Miss;
    }
    let src = IpAddr::V4(be32(data, 12));
    let dst = IpAddr::V4(be32(data, 16));
    let total: usize = be16(data, 2) as usize;
    let end: usize = if total >= ihl && total <= data.len() {
        total
    } else {
        data.len()
    };
    parse_l4(data[9], src, dst, slice_subrange(data, ihl, end))
}

/// An IPv6 packet. Extension headers are left to the full parser; ICMPv6 (58)
/// is no media. A payload length of zero means everything.
pub open spec fn ipv6_walk(b: Seq<u8>) -> Walk<(Flow5Tuple, Seq<u8>)> {
    if b.len() < 40 || b[6] == 58 {
        Walk::Miss
    } else if b[6] != 6 && b[6] != 17 {
        Walk::Fallback
    } else {
        let n = octets::be_value(b, 4, 2);
        let end = if n > 0 && 40 + n < b.len() {
            40 + n as int
        } else {
            b.len() as int
        };
        l4_walk(
            b[6],
            IpAddr::V6(octets::be_value(b, 8, 16) as u128),
            IpAddr::V6(octets::be_value(b, 24, 16) as u128),
            b.subrange(40, end),
        )
    }
}

pub fn parse_ipv6<'a>(data: &'a [u8]) -> (r: Walk<Decoded<'a>>)
    ensures
        same_hit(r, ipv6_walk(data@)),
{
    if data.len() < 40 {
        return Walk::Miss;
    }
    let next: u8 = data[6];
    if next != 6 && next != 17 {
        return if next == 58 {
            Walk::Miss
        } else {
            Walk::Fallback
        };
    }
    let src = IpAddr::V6(be128(data, 8));
    let dst = IpAddr::V6(be128(data, 24));
    let n: usize = be16(data, 4) as usize;
    let end: usize = if n > 0 && 40 + n < data.len() {
        40 + n
    } else {
        data.len()
    };
    parse_l4(next, src, dst, slice_subrange(data, 40, end))
}

/// The whole header walk.
pub open spec fn frame_walk(linktype: u32, b: Seq<u8>) -> Walk<(Flow5Tuple, Seq<u8>)> {
    match l2_walk(linktype, b) {
        Walk::Miss => Walk::Miss,
        Walk::Fallback => Walk::Fallback,
        Walk::Hit(ip) => if ip.len() == 0 {
            Walk::Miss
        } else if ip[0] / 16 == 4 {
            ipv4_walk(ip)
        } else if ip[0] / 16 == 6 {
            ipv6_walk(ip)
        } else {
            Walk::Miss
        },
    }
}

pub fn decode_fast<'a>(linktype: u32, data: &'a [u8]) -> (r: Walk<Decoded<'a>>)
    ensures
        same_hit(r, frame_walk(linktype, data@)),
{
    let ip = match l2_payload(linktype, data) {
        Walk::Hit(p) => p,
        Walk::Miss => return Walk::Miss,
        Walk::Fallback => return Walk::Fallback,
    };
    if ip.len() == 0 {
        return Walk::Miss;
    }
    let version: u8 = ip[0] / 16;
    if version == 4 {
        parse_ipv4(ip)
    } else if version == 6 {
        parse_ipv6(ip)
    } else {
        Walk::Miss
    }
}

// ----------------------------- full parser -----------------------------

/// A flow and a payload, by their contents.
pub open spec fn opt_parts(o: Option<(Flow5Tuple, &[u8])>) -> Option<(Flow5Tuple, Seq<u8>)> {
    match o {
        Some((f, p)) => Some((f, p@)),
        None => None,
    }
}

/// The addresses, and the protocol, ports and payload, that `etherparse` finds in an
/// Ethernet frame.
pub uninterp spec fn ethernet_found(b: Seq<u8>) -> Option<
    ((Seq<u8>, Seq<u8>), (Proto, u16, u16, Seq<u8>)),
>;

/// The addresses, and the protocol, ports and payload, that `etherparse` finds in an
/// IP packet.
pub uninterp spec fn ip_found(b: Seq<u8>) -> Option<
    ((Seq<u8>, Seq<u8>), (Proto, u16, u16, Seq<u8>)),
>;

/// What was found, by its contents.
pub open spec fn found_parts(
    r: Option<((Vec<u8>, Vec<u8>), (Proto, u16, u16, &[u8]))>,
) -> Option<((Seq<u8>, Seq<u8>), (Proto, u16, u16, Seq<u8>))> {
    match r {
        Some(((a, b), (proto, s, d, payload))) => Some(((a@, b@), (proto, s, d, payload@))),
        None => None,
    }
}

/// The address in four or sixteen bytes.
pub open spec fn address(b: Seq<u8>) -> Option<IpAddr> {
    if b.len() == 4 {
        Some(IpAddr::V4(octets::be_value(b, 0, 4) as u32))
    } else if b.len() == 16 {
        Some(IpAddr::V6(octets::be_value(b, 0, 16) as u128))
    } else {
        None
    }
}

fn address_of(b: &[u8]) -> (r: Option<IpAddr>)
    ensures
        r == address(b@),
{
    if b.len() == 4 {
        Some(IpAddr::V4(be32(b, 0)))
    } else if b.len() == 16 {
        Some(IpAddr::V6(be128(b, 0)))
    } else {
        None
    }
}

/// The flow and the payload in what was found.
pub open spec fn joined_parts(
    found: Option<((Seq<u8>, Seq<u8>), (Proto, u16, u16, Seq<u8>))>,
) -> Option<(Flow5Tuple, Seq<u8>)> {
    match found {
        Some(((a, b), (proto, s, d, payload))) => match (address(a), address(b)) {
            (Some(src), Some(dst)) => Some(
                (
                    Flow5Tuple {
                        proto,
                        src: SocketAddr { ip: src, port: s },
                        dst: SocketAddr { ip: dst, port: d },
                    },
                    payload,
                ),
            ),
            _ => None,
        },
        None => None,
    }
}

pub open spec fn ethernet_sliced(b: Seq<u8>) -> Option<(Flow5Tuple, Seq<u8>)> {
    joined_parts(ethernet_found(b))
}

pub open spec fn ip_sliced(b: Seq<u8>) -> Option<(Flow5Tuple, Seq<u8>)> {
    joined_parts(ip_found(b))
}

/// Calls `etherparse::SlicedPacket::from_ethernet`, and takes the addresses of an IP header
/// and the ports and payload of UDP or TCP. Claimed of it: what it finds depends on
/// the frame alone.
#[verifier::external_body]
fn slice_ethernet<'a>(data: &'a [u8]) -> (r: Option<((Vec<u8>, Vec<u8>), (Proto, u16, u16, &'a [u8]))>)
    ensures
        found_parts(r) == ethernet_found(data@),
{
    let p = SlicedPacket::from_ethernet(data).ok()?;
    let ends = match p.net? {
        NetSlice::Ipv4(v) => (v.header().source().to_vec(), v.header().destination().to_vec()),
        NetSlice::Ipv6(v) => (v.header().source().to_vec(), v.header().destination().to_vec()),
        _ => return None,
    };
    let ports = match p.transport? {
        TransportSlice::Udp(u) => (Proto::Udp, u.source_port(), u.destination_port(), u.payload()),
        TransportSlice::Tcp(t) => (Proto::Tcp, t.source_port(), t.destination_port(), t.payload()),
        _ => return None,
    };
    Some((ends, ports))
}

/// Calls `etherparse::SlicedPacket::from_ip`, and takes the addresses of an IP header
/// and the ports and payload of UDP or TCP. Claimed of it: what it finds depends on
/// the packet alone.
#[verifier::external_body]
fn slice_ip<'a>(data: &'a [u8]) -> (r: Option<((Vec<u8>, Vec<u8>), (Proto, u16, u16, &'a [u8]))>)
    ensures
        found_parts(r) == ip_found(data@),
{
    let p = SlicedPacket::from_ip(data).ok()?;
    let ends = match p.net? {
        NetSlice::Ipv4(v) => (v.header().source().to_vec(), v.header().destination().to_vec()),
        NetSlice::Ipv6(v) => (v.header().source().to_vec(), v.header().destination().to_vec()),
        _ => return None,
    };
    let ports = match p.transport? {
        TransportSlice::Udp(u) => (Proto::Udp, u.source_port(), u.destination_port(), u.payload()),
        TransportSlice::Tcp(t) => (Proto::Tcp, t.source_port(), t.destination_port(), t.payload()),
        _ => return None,
    };
    Some((ends, ports))
}

/// The flow and the payload in what was found.
pub fn join_parts<'a>(
    found: Option<((Vec<u8>, Vec<u8>), (Proto, u16, u16, &'a [u8]))>,
) -> (r: Option<(Flow5Tuple, &'a [u8])>)
    ensures
        opt_parts(r) == joined_parts(found_parts(found)),
{
    match found {
        Some(((a, b), (proto, s, d, payload))) => match (
            address_of(a.as_slice()),
            address_of(b.as_slice()),
        ) {
            (Some(src), Some(dst)) => Some(
                (
                    Flow5Tuple {
                        proto,
                        src: SocketAddr { ip: src, port: s },
                        dst: SocketAddr { ip: dst, port: d },
                    },
                    payload,
                ),
            ),
            _ => None,
        },
        None => None,
    }
}

/// Where the full parser is set on, and what it finds there.
pub open spec fn full_parse(linktype: u32, b: Seq<u8>) -> Option<(Flow5Tuple, Seq<u8>)> {
    if linktype == DLT_RAW {
        ip_sliced(b)
    } else if linktype == DLT_LINUX_SLL {
        if b.len() < 16 {
            None
        } else {
            ip_sliced(b.skip(16))
        }
    } else if linktype == DLT_LINUX_SLL2 {
        if b.len() < 20 {
            None
        } else {
            ip_sliced(b.skip(20))
        }
    } else {
        ethernet_sliced(b)
    }
}

/// A decoded frame from a flow and its payload.
pub fn decoded_from<'a>(parts: Option<(Flow5Tuple, &'a [u8])>) -> (r: Option<Decoded<'a>>)
    ensures
        match opt_parts(parts) {
            Some(p) => r is Some && r->Some_0.wf() && r->Some_0.parts() == p,
            None => r is None,
        },
{
    match parts {
        Some((flow, p)) => match flow.proto {
            Proto::Udp => Some(Decoded { flow, l4: L4::Udp(p) }),
            Proto::Tcp => Some(Decoded { flow, l4: L4::Tcp(p) }),
        },
        None => None,
    }
}

pub fn decode_etherparse<'a>(linktype: u32, data: &'a [u8]) -> (r: Option<Decoded<'a>>)
    ensures
        match full_parse(linktype, data@) {
            Some(p) => r is Some && r->Some_0.wf() && r->Some_0.parts() == p,
            None => r is None,
        },
{
    if linktype == DLT_RAW {
        decoded_from(join_parts(slice_ip(data)))
    } else if linktype == DLT_LINUX_SLL {
        if data.len() < 16 {
            return None;
        }
        decoded_from(join_parts(slice_ip(tail(data, 16))))
    } else if linktype == DLT_LINUX_SLL2 {
        if data.len() < 20 {
            return None;
        }
        decoded_from(join_parts(slice_ip(tail(data, 20))))
    } else {
        decoded_from(join_parts(slice_ethernet(data)))
    }
}

/// Decodes one captured frame into a 5-tuple and the transport payload.
///
/// `linktype` is the pcap datalink type of the source: Ethernet (with VLAN
/// tags), Linux cooked v1/v2, raw IP; any other is tried as Ethernet. `None`
/// for what is not UDP or TCP over IP.
pub fn decode<'a>(linktype: u32, data: &'a [u8]) -> (r: Option<Decoded<'a>>)
    ensures
        r matches Some(d) ==> d.wf(),
        match frame_walk(linktype, data@) {
            Walk::Hit(p) => r is Some && r->Some_0.parts() == p,
            Walk::Miss => r is None,
            Walk::Fallback => match full_parse(linktype, data@) {
                Some(p) => r is Some && r->Some_0.parts() == p,
                None => r is None,
            },
        },
{
    match decode_fast(linktype, data) {
        Walk::Hit(d) => Some(d),
        Walk::Miss => None,
        Walk::Fallback => decode_etherparse(linktype, data),
    }
}

} // verus!
