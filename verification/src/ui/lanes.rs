//! The swimlanes of a call: who stands in which column, and the arrows between
//! them.
use crate::model::addr::{has_ip, IpAddr, SocketAddr};
use crate::model::addr_text;
use crate::model::addr_text::socket_string;
use crate::model::media;
use crate::model::media::{StreamSummary, SummaryView};
use crate::model::packet::Flow5Tuple;
use crate::model::sip;
use crate::model::sip::{MsgView, SipMsg};
use crate::numfmt;
use crate::numfmt::{push_left, push_right};
use crate::store::dialog;
use crate::store::dialog::shared_ips;
use crate::text;
use crate::text::{push_dec, text_exact};
use crate::ui::mask;
use crate::ui::mask::{mask_socket, mask_user};
use vstd::prelude::*;
use vstd::utf8::*;

verus! {

// ----------------------------- columns -----------------------------

/// Where the column of party `i` of `n` has its middle.
pub open spec fn center(n: int, width: int, i: int) -> int {
    let col = width / n;
    let start = i * col;
    let end = if i + 1 == n {
        width
    } else {
        start + col
    };
    start + (end - start) / 2
}

pub open spec fn centers(n: nat, width: nat) -> Seq<usize> {
    if n == 0 || width == 0 {
        Seq::empty()
    } else {
        Seq::new(n, |i: int| center(n as int, width as int, i) as usize)
    }
}

/// Every column has its middle on the canvas.
pub proof fn law_centers_on_canvas(n: int, width: int, i: int)
    requires
        0 < width,
        0 <= i < n,
    ensures
        0 <= center(n, width, i) < width,
        i + 1 < n ==> center(n, width, i) <= center(n, width, i + 1),
{
    let col = width / n;
    assert(n * col <= width) by (nonlinear_arith)
        requires
            col == width / n,
            n > 0,
    ;
    assert(0 <= i * col && i * col + col == (i + 1) * col && (i + 1) * col <= n * col && i * col
        + col + col == (i + 2) * col) by (nonlinear_arith)
        requires
            0 <= i < n,
            0 <= col,
    ;
    if i + 2 <= n {
        assert((i + 2) * col <= n * col) by (nonlinear_arith)
            requires
                i + 2 <= n,
                0 <= col,
        ;
    }
    if col == 0 {
        assert(i * col == 0) by (nonlinear_arith)
            requires
                col == 0,
        ;
    }
}

/// The middles of the columns of `n` parties on a canvas.
pub fn party_centers(n: usize, width: usize) -> (r: Vec<usize>)
    ensures
        r@ == centers(n as nat, width as nat),
        forall|i: int| 0 <= i < r@.len() ==> #[trigger] r@[i] < width,
{
    let mut out: Vec<usize> = Vec::new();
    if n == 0 || width == 0 {
        assert(out@ =~= centers(n as nat, width as nat));
        return out;
    }
    let col: usize = width / n;
    let mut i: usize = 0;
    while i < n
        invariant
            0 < n,
            0 < width,
            col == width / n,
            i <= n,
            out@.len() == i,
            forall|k: int|
                0 <= k < i ==> #[trigger] out@[k] == center(n as int, width as int, k) && out@[k]
                    < width,
        decreases n - i,
    {
        proof {
            law_centers_on_canvas(n as int, width as int, i as int);
            assert(i * col <= width && i * col + col <= width) by (nonlinear_arith)
                requires
                    col == width / n,
                    0 <= i < n,
            ;
        }
        let start: usize = i * col;
        let end: usize = if i + 1 == n {
            width
        } else {
            start + col
        };
        out.push(start + (end - start) / 2);
        i += 1;
    }
    assert(out@ =~= centers(n as nat, width as nat));
    out
}

/// A canvas with bytes painted on it from `start` on.
pub open spec fn painted(buf: Seq<u8>, start: int, b: Seq<u8>) -> Seq<u8> {
    Seq::new(
        buf.len(),
        |j: int|
            if start <= j < start + b.len() {
                b[j - start]
            } else {
                buf[j]
            },
    )
}

fn paint(buf: &mut Vec<u8>, start: usize, b: &[u8])
    ensures
        final(buf)@ == painted(old(buf)@, start as int, b@),
{
    let n: usize = buf.len();
    let mut i: usize = 0;
    while i < b.len() && start < n && i < n - start
        invariant
            n == buf@.len() == old(buf)@.len(),
            i <= b.len(),
            i > 0 ==> start < n && i <= n - start,
            forall|j: int|
                0 <= j < n ==> #[trigger] buf@[j] == (if start <= j < start + i {
                    b@[j - start]
                } else {
                    old(buf)@[j]
                }),
        decreases b.len() - i,
    {
        buf.set(start + i, b[i]);
        i += 1;
    }
    assert(buf@ =~= painted(old(buf)@, start as int, b@));
}

pub open spec fn blank(width: nat) -> Seq<u8> {
    Seq::new(width, |j: int| 32u8)
}

fn blank_canvas(width: usize) -> (r: Vec<u8>)
    ensures
        r@ == blank(width as nat),
{
    let mut v: Vec<u8> = Vec::new();
    let mut i: usize = 0;
    while i < width
        invariant
            i <= width,
            v@ == blank(i as nat),
        decreases width - i,
    {
        v.push(32);
        i += 1;
        assert(v@ =~= blank(i as nat));
    }
    v
}

/// The text of a canvas; nothing, where a character was cut apart.
pub open spec fn canvas_text(buf: Seq<u8>) -> Seq<char> {
    if valid_utf8(buf) {
        decode_utf8(buf)
    } else {
        Seq::empty()
    }
}

fn canvas_string(buf: &Vec<u8>) -> (r: String)
    ensures
        r@ == canvas_text(buf@),
{
    match text_exact(buf.as_slice()) {
        Some(t) => t,
        None => {
            let s = String::new();
            assert(s@ =~= Seq::<char>::empty());
            s
        },
    }
}

/// Where a label of `len` bytes over the column at `c` begins.
pub open spec fn label_start(c: int, len: int, width: int) -> int {
    let s = if c > len / 2 {
        c - len / 2
    } else {
        0
    };
    if s < width {
        s
    } else {
        width - 1
    }
}

/// The first `n` labels over their columns.
pub open spec fn header_canvas(labels: Seq<Seq<char>>, cs: Seq<usize>, width: nat, n: int) -> Seq<
    u8,
>
    decreases n,
{
    if n <= 0 {
        blank(width)
    } else {
        let b = encode_utf8(labels[n - 1]);
        painted(
            header_canvas(labels, cs, width, n - 1),
            label_start(cs[n - 1] as int, b.len() as int, width as int),
            b,
        )
    }
}

pub open spec fn header_text(labels: Seq<Seq<char>>, width: nat) -> Seq<char> {
    let cs = centers(labels.len(), width);
    canvas_text(header_canvas(labels, cs, width, cs.len() as int))
}

/// The heading of the swimlanes: each label over its column.
pub fn swim_header(labels: &Vec<String>, width: usize) -> (r: String)
    ensures
        r@ == header_text(text::texts(labels@), width as nat),
{
    let ghost ls = text::texts(labels@);
    let cs = party_centers(labels.len(), width);
    let mut buf = blank_canvas(width);
    let mut i: usize = 0;
    while i < cs.len()
        invariant
            i <= cs.len(),
            ls == text::texts(labels@),
            cs@ == centers(ls.len(), width as nat),
            forall|k: int| 0 <= k < cs@.len() ==> #[trigger] cs@[k] < width,
            buf@ == header_canvas(ls, cs@, width as nat, i as int),
        decreases cs.len() - i,
    {
        assert(ls[i as int] == labels@[i as int]@);
        let b = labels[i].as_str().as_bytes();
        let c: usize = cs[i];
        let half: usize = b.len() / 2;
        let start: usize = if c > half {
            c - half
        } else {
            0
        };
        paint(&mut buf, start, b);
        i += 1;
    }
    canvas_string(&buf)
}

/// Bars under the first `n` columns.
pub open spec fn bars(cs: Seq<usize>, width: nat, n: int) -> Seq<u8>
    decreases n,
{
    if n <= 0 {
        blank(width)
    } else {
        bars(cs, width, n - 1).update(cs[n - 1] as int, 124)
    }
}

/// The arrow of a message.
pub open spec fn glyph(label: Seq<char>, rightward: bool) -> Seq<char> {
    if rightward {
        "-- "@ + label + " ->"@
    } else {
        "<- "@ + label + " --"@
    }
}

/// The canvas of a message from one party to another: the arrow stands in the
/// middle between their bars, cut to the room there is.
pub open spec fn row_canvas(n: nat, from: int, to: int, label: Seq<char>, width: nat) -> Seq<u8> {
    let cs = centers(n, width);
    let base = bars(cs, width, cs.len() as int);
    if from >= cs.len() || to >= cs.len() || from == to {
        base
    } else {
        let a = cs[if from < to {
            from
        } else {
            to
        }] as int;
        let b = cs[if from < to {
            to
        } else {
            from
        }] as int;
        let gap = b - a - 1;
        if gap <= 0 {
            base
        } else {
            let g = encode_utf8(glyph(label, from < to));
            let cut = if g.len() <= gap {
                g
            } else {
                g.take(gap)
            };
            painted(base, a + 1 + (gap - cut.len()) / 2, cut)
        }
    }
}

fn draw_bars(cs: &Vec<usize>, width: usize) -> (r: Vec<u8>)
    requires
        forall|i: int| 0 <= i < cs@.len() ==> #[trigger] cs@[i] < width,
    ensures
        r@ == bars(cs@, width as nat, cs@.len() as int),
        r@.len() == width,
{
    let mut buf = blank_canvas(width);
    let mut i: usize = 0;
    while i < cs.len()
        invariant
            i <= cs.len(),
            forall|k: int| 0 <= k < cs@.len() ==> #[trigger] cs@[k] < width,
            buf@ == bars(cs@, width as nat, i as int),
            buf@.len() == width,
        decreases cs.len() - i,
    {
        buf.set(cs[i], 124);
        i += 1;
    }
    buf
}

/// One row of the swimlanes: a bar under every party, and the arrow of a message
/// between two of them.
pub fn swim_row(n: usize, from: usize, to: usize, label: &str, width: usize) -> (r: String)
    ensures
        r@ == canvas_text(row_canvas(n as nat, from as int, to as int, label@, width as nat)),
{
    let cs = party_centers(n, width);
    let mut buf = draw_bars(&cs, width);
    if from >= cs.len() || to >= cs.len() || from == to {
        return canvas_string(&buf);
    }
    let rightward: bool = from < to;
    let (a, b): (usize, usize) = if rightward {
        (cs[from], cs[to])
    } else {
        (cs[to], cs[from])
    };
    if b <= a || b - a <= 1 {
        return canvas_string(&buf);
    }
    let mut g = String::new();
    if rightward {
        g.push_str("-- ");
        g.push_str(label);
        g.push_str(" ->");
    } else {
        g.push_str("<- ");
        g.push_str(label);
        g.push_str(" --");
    }
    assert(g@ =~= glyph(label@, rightward));
    let gap: usize = b - a - 1;
    let bytes = g.as_str().as_bytes();
    if bytes.len() <= gap {
        paint(&mut buf, a + 1 + (gap - bytes.len()) / 2, bytes);
    } else {
        let cut = crate::octets::to_vec(bytes);
        let mut cut = cut;
        cut.truncate(gap);
        paint(&mut buf, a + 1, cut.as_slice());
    }
    canvas_string(&buf)
}

// ----------------------------- parties -----------------------------

/// The first party from `i` on with this address, or with `loose` its IP.
pub open spec fn party_from(ps: Seq<SocketAddr>, a: SocketAddr, loose: bool, i: int) -> Option<int>
    decreases ps.len() - i,
{
    if i >= ps.len() {
        None
    } else if ps[i] == a || (loose && ps[i].ip == a.ip) {
        Some(i)
    } else {
        party_from(ps, a, loose, i + 1)
    }
}

/// The column of an address: where it stands itself, or else where its IP does.
pub open spec fn column_of(ps: Seq<SocketAddr>, a: SocketAddr) -> Option<int> {
    match party_from(ps, a, false, 0) {
        Some(i) => Some(i),
        None => party_from(ps, a, true, 0),
    }
}

fn find_party(ps: &Vec<SocketAddr>, a: SocketAddr, loose: bool) -> (r: Option<usize>)
    ensures
        match party_from(ps@, a, loose, 0) {
            Some(i) => r is Some && r->Some_0 == i && 0 <= i < ps@.len(),
            None => r is None,
        },
{
    let mut i: usize = 0;
    while i < ps.len()
        invariant
            i <= ps.len(),
            party_from(ps@, a, loose, 0) == party_from(ps@, a, loose, i as int),
        decreases ps.len() - i,
    {
        if ps[i] == a || (loose && ps[i].ip == a.ip) {
            return Some(i);
        }
        i += 1;
    }
    None
}

pub fn party_index(ps: &Vec<SocketAddr>, a: SocketAddr) -> (r: Option<usize>)
    ensures
        match column_of(ps@, a) {
            Some(i) => r is Some && r->Some_0 == i && 0 <= i < ps@.len(),
            None => r is None,
        },
{
    match find_party(ps, a, false) {
        Some(i) => Some(i),
        None => find_party(ps, a, true),
    }
}

/// From which column to which a message goes. Where an end has no column, the leg
/// tells: the first one runs between the first two columns, the second one
/// between the last two.
pub open spec fn ends_of(flow: Flow5Tuple, ps: Seq<SocketAddr>, leg: Option<u8>) -> (int, int) {
    let s = column_of(ps, flow.src);
    let d = column_of(ps, flow.dst);
    if s is Some && d is Some {
        (s->Some_0, d->Some_0)
    } else if ps.len() == 3 {
        let inward = d == Some(1int) || flow.dst.ip == ps[1].ip;
        if leg == Some(0u8) && !inward {
            (1, 0)
        } else if leg == Some(1u8) {
            if inward {
                (2, 1)
            } else {
                (1, 2)
            }
        } else {
            (0, 1)
        }
    } else if ps.len() >= 2 {
        (0, 1)
    } else {
        (0, 0)
    }
}

pub fn resolve_party_pair(flow: Flow5Tuple, ps: &Vec<SocketAddr>, leg: Option<u8>) -> (r: (
    usize,
    usize,
))
    ensures
        r.0 == ends_of(flow, ps@, leg).0,
        r.1 == ends_of(flow, ps@, leg).1,
{
    let s: Option<usize> = party_index(ps, flow.src);
    let d: Option<usize> = party_index(ps, flow.dst);
    if let (Some(x), Some(y)) = (s, d) {
        return (x, y);
    }
    if ps.len() == 3 {
        let mid: bool = match d {
            Some(k) => k == 1,
            None => false,
        };
        let inward: bool = mid || flow.dst.ip == ps[1].ip;
        match leg {
            Some(0) => if inward {
                (0, 1)
            } else {
                (1, 0)
            },
            Some(1) => if inward {
                (2, 1)
            } else {
                (1, 2)
            },
            _ => (0, 1),
        }
    } else if ps.len() >= 2 {
        (0, 1)
    } else {
        (0, 0)
    }
}

/// The address under which an IP is first seen, from message `i` on; port 5060,
/// if it never is.
pub open spec fn seen_as(msgs: Seq<MsgView>, ip: IpAddr, i: int) -> SocketAddr
    decreases msgs.len() - i,
{
    if i >= msgs.len() {
        SocketAddr { ip, port: 5060 }
    } else if msgs[i].flow.src.ip == ip {
        msgs[i].flow.src
    } else if msgs[i].flow.dst.ip == ip {
        msgs[i].flow.dst
    } else {
        seen_as(msgs, ip, i + 1)
    }
}

/// The address of the middle column.
pub fn mid_socket(pbx: IpAddr, msgs: &Vec<SipMsg>) -> (r: SocketAddr)
    ensures
        r == seen_as(sip::msg_views(msgs@), pbx, 0),
{
    let ghost mv = sip::msg_views(msgs@);
    let mut i: usize = 0;
    while i < msgs.len()
        invariant
            i <= msgs.len(),
            mv == sip::msg_views(msgs@),
            seen_as(mv, pbx, 0) == seen_as(mv, pbx, i as int),
        decreases msgs.len() - i,
    {
        assert(mv[i as int] == msgs@[i as int]@);
        let f = msgs[i].flow;
        if f.src.ip == pbx {
            return f.src;
        }
        if f.dst.ip == pbx {
            return f.dst;
        }
        i += 1;
    }
    SocketAddr { ip: pbx, port: 5060 }
}

/// The first message from `i` on that opens a dialog.
pub open spec fn opening(msgs: Seq<MsgView>, i: int) -> Option<int>
    decreases msgs.len() - i,
{
    if i >= msgs.len() {
        None
    } else if msgs[i].is_initial_invite() {
        Some(i)
    } else {
        opening(msgs, i + 1)
    }
}

/// The ends of the message that opens the dialog, or else of the first one.
pub open spec fn two_ends(msgs: Seq<MsgView>) -> Option<(SocketAddr, SocketAddr)> {
    match opening(msgs, 0) {
        Some(k) => Some((msgs[k].flow.src, msgs[k].flow.dst)),
        None => if msgs.len() > 0 {
            Some((msgs[0].flow.src, msgs[0].flow.dst))
        } else {
            None
        },
    }
}

/// The two columns of a call with one dialog.
pub fn two_parties(msgs: &Vec<SipMsg>) -> (r: Option<(SocketAddr, SocketAddr)>)
    ensures
        r == two_ends(sip::msg_views(msgs@)),
{
    let ghost mv = sip::msg_views(msgs@);
    let mut i: usize = 0;
    while i < msgs.len()
        invariant
            i <= msgs.len(),
            mv == sip::msg_views(msgs@),
            opening(mv, 0) == opening(mv, i as int),
        decreases msgs.len() - i,
    {
        assert(mv[i as int] == msgs@[i as int]@);
        if msgs[i].is_initial_invite() {
            return Some((msgs[i].flow.src, msgs[i].flow.dst));
        }
        i += 1;
    }
    if msgs.len() > 0 {
        assert(mv[0] == msgs@[0]@);
        Some((msgs[0].flow.src, msgs[0].flow.dst))
    } else {
        None
    }
}

// ----------------------------- two dialogs -----------------------------

/// Two dialogs of one call: one that comes in and one that goes out, with the box
/// between them.
#[derive(Debug, Clone, Copy, PartialEq, Eq, Structural)]
pub struct Lanes {
    pub a_leg: u8,
    pub b_leg: u8,
    pub a_remote: SocketAddr,
    pub b_remote: SocketAddr,
    pub pbx: IpAddr,
}

/// The first INVITE of a leg from `i` on, among messages with a leg.
pub open spec fn leg_invite(msgs: Seq<MsgView>, legs: Seq<u8>, leg: u8, i: int) -> Option<int>
    decreases msgs.len() - i,
{
    if i >= msgs.len() || i >= legs.len() {
        None
    } else if legs[i] == leg && msgs[i].is_initial_invite() {
        Some(i)
    } else {
        leg_invite(msgs, legs, leg, i + 1)
    }
}

fn find_leg_invite(msgs: &Vec<SipMsg>, legs: &Vec<u8>, leg: u8) -> (r: Option<usize>)
    ensures
        match leg_invite(sip::msg_views(msgs@), legs@, leg, 0) {
            Some(k) => r is Some && r->Some_0 == k && 0 <= k < msgs@.len(),
            None => r is None,
        },
{
    let ghost mv = sip::msg_views(msgs@);
    let mut i: usize = 0;
    while i < msgs.len() && i < legs.len()
        invariant
            i <= msgs.len(),
            mv == sip::msg_views(msgs@),
            leg_invite(mv, legs@, leg, 0) == leg_invite(mv, legs@, leg, i as int),
        decreases msgs.len() - i,
    {
        assert(mv[i as int] == msgs@[i as int]@);
        if legs[i] == leg && msgs[i].is_initial_invite() {
            return Some(i);
        }
        i += 1;
    }
    None
}

/// Whether the legs are exactly the first two, as far as the highest one tells.
pub open spec fn splits_in_two(legs: Seq<u8>) -> bool {
    &&& exists|i: int| 0 <= i < legs.len() && legs[i] == 1
    &&& forall|i: int| 0 <= i < legs.len() ==> #[trigger] legs[i] <= 1
}

fn is_split_in_two(legs: &Vec<u8>) -> (r: bool)
    ensures
        r == splits_in_two(legs@),
{
    let mut any: bool = false;
    let mut i: usize = 0;
    while i < legs.len()
        invariant
            i <= legs.len(),
            any == exists|k: int| 0 <= k < i && legs@[k] == 1,
            forall|k: int| 0 <= k < i ==> #[trigger] legs@[k] <= 1,
        decreases legs.len() - i,
    {
        if legs[i] > 1 {
            assert(legs@[i as int] > 1);
            return false;
        }
        if legs[i] == 1 {
            any = true;
        }
        i += 1;
    }
    any
}

/// The other end of an INVITE than the box in the middle.
pub open spec fn far_end(f: Flow5Tuple, mid: IpAddr) -> SocketAddr {
    if f.dst.ip == mid {
        f.src
    } else {
        f.dst
    }
}

fn far_end_of(f: Flow5Tuple, mid: IpAddr) -> (r: SocketAddr)
    ensures
        r == far_end(f, mid),
{
    if f.dst.ip == mid {
        f.src
    } else {
        f.dst
    }
}

pub open spec fn touches(f: Flow5Tuple, ip: IpAddr) -> bool {
    f.src.ip == ip || f.dst.ip == ip
}

/// The first local IP from `i` on that both INVITEs touch.
pub open spec fn local_mid(local: Seq<IpAddr>, a: Flow5Tuple, b: Flow5Tuple, i: int) -> Option<
    IpAddr,
>
    decreases local.len() - i,
{
    if i >= local.len() {
        None
    } else if touches(a, local[i]) && touches(b, local[i]) {
        Some(local[i])
    } else {
        local_mid(local, a, b, i + 1)
    }
}

fn find_local_mid(local: &Vec<IpAddr>, a: Flow5Tuple, b: Flow5Tuple) -> (r: Option<IpAddr>)
    ensures
        r == local_mid(local@, a, b, 0),
{
    let mut i: usize = 0;
    while i < local.len()
        invariant
            i <= local.len(),
            local_mid(local@, a, b, 0) == local_mid(local@, a, b, i as int),
        decreases local.len() - i,
    {
        let ip = local[i];
        if (a.src.ip == ip || a.dst.ip == ip) && (b.src.ip == ip || b.dst.ip == ip) {
            return Some(ip);
        }
        i += 1;
    }
    None
}

/// The only IP that both legs share.
pub open spec fn mid_ip(msgs: Seq<MsgView>, legs: Seq<u8>) -> Option<IpAddr> {
    let s = dialog::shared_mentions(msgs, legs);
    if s.len() > 0 && forall|i: int| 0 <= i < s.len() ==> #[trigger] s[i] == s[0] {
        Some(s[0])
    } else {
        None
    }
}

pub fn common_flow_ip_for_lanes(msgs: &Vec<SipMsg>, legs: &Vec<u8>) -> (r: Option<IpAddr>)
    ensures
        r == mid_ip(sip::msg_views(msgs@), legs@),
{
    let s = shared_ips(msgs, legs);
    if s.len() == 0 {
        return None;
    }
    let mut i: usize = 1;
    while i < s.len()
        invariant
            1 <= i <= s.len(),
            s@ == dialog::shared_mentions(sip::msg_views(msgs@), legs@),
            forall|k: int| 0 <= k < i ==> #[trigger] s@[k] == s@[0],
        decreases s.len() - i,
    {
        if s[i] != s[0] {
            assert(s@[i as int] != s@[0]);
            return None;
        }
        i += 1;
    }
    Some(s[0])
}

/// The lanes of legs `x` (coming in) and `y` (going out) around a box.
pub open spec fn lanes_around(x: u8, y: u8, f: Flow5Tuple, g: Flow5Tuple, pbx: IpAddr) -> Lanes {
    Lanes { a_leg: x, b_leg: y, a_remote: far_end(f, pbx), b_remote: far_end(g, pbx), pbx }
}

/// The lanes that the two INVITEs give. With local IPs, the leg that comes in is
/// the one whose INVITE goes to one of them; without, the one whose INVITE goes
/// to the only IP that both share, and if both do, the earlier one.
pub open spec fn lanes_of(
    msgs: Seq<MsgView>,
    legs: Seq<u8>,
    local: Seq<IpAddr>,
    p: MsgView,
    q: MsgView,
) -> Option<Lanes> {
    if local.len() > 0 {
        let in0 = local.contains(p.flow.dst.ip);
        let in1 = local.contains(q.flow.dst.ip);
        if in0 == in1 {
            None
        } else if in0 {
            match local_mid(local, p.flow, q.flow, 0) {
                Some(ip) => Some(lanes_around(0, 1, p.flow, q.flow, ip)),
                None => None,
            }
        } else {
            match local_mid(local, q.flow, p.flow, 0) {
                Some(ip) => Some(lanes_around(1, 0, q.flow, p.flow, ip)),
                None => None,
            }
        }
    } else {
        match mid_ip(msgs, legs) {
            None => None,
            Some(ip) => {
                let in0 = p.flow.dst.ip == ip;
                let in1 = q.flow.dst.ip == ip;
                if !in0 && !in1 {
                    None
                } else if in0 && (!in1 || p.ts_us <= q.ts_us) {
                    Some(lanes_around(0, 1, p.flow, q.flow, ip))
                } else {
                    Some(lanes_around(1, 0, q.flow, p.flow, ip))
                }
            },
        }
    }
}

/// The lanes of a call, if it is split into two dialogs that can be told apart.
pub open spec fn classified(msgs: Seq<MsgView>, legs: Seq<u8>, local: Seq<IpAddr>) -> Option<
    Lanes,
> {
    match (leg_invite(msgs, legs, 0, 0), leg_invite(msgs, legs, 1, 0)) {
        (Some(i), Some(j)) => if splits_in_two(legs) {
            lanes_of(msgs, legs, local, msgs[i], msgs[j])
        } else {
            None
        },
        _ => None,
    }
}

fn lanes_at(x: u8, y: u8, f: Flow5Tuple, g: Flow5Tuple, pbx: IpAddr) -> (r: Lanes)
    ensures
        r == lanes_around(x, y, f, g, pbx),
{
    Lanes { a_leg: x, b_leg: y, a_remote: far_end_of(f, pbx), b_remote: far_end_of(g, pbx), pbx }
}

/// Tells the dialog that comes in from the one that goes out.
pub fn classify_lanes(msgs: &Vec<SipMsg>, legs: &Vec<u8>, local: &Vec<IpAddr>) -> (r: Option<
    Lanes,
>)
    ensures
        r == classified(sip::msg_views(msgs@), legs@, local@),
{
    if !is_split_in_two(legs) {
        return None;
    }
    let ghost mv = sip::msg_views(msgs@);
    let i: usize = match find_leg_invite(msgs, legs, 0) {
        Some(i) => i,
        None => {
            return None;
        },
    };
    let j: usize = match find_leg_invite(msgs, legs, 1) {
        Some(j) => j,
        None => {
            return None;
        },
    };
    assert(mv[i as int] == msgs@[i as int]@);
    assert(mv[j as int] == msgs@[j as int]@);
    let f = msgs[i].flow;
    let g = msgs[j].flow;
    if local.len() > 0 {
        let in0: bool = has_ip(local, f.dst.ip);
        let in1: bool = has_ip(local, g.dst.ip);
        if in0 == in1 {
            return None;
        }
        if in0 {
            match find_local_mid(local, f, g) {
                Some(ip) => Some(lanes_at(0, 1, f, g, ip)),
                None => None,
            }
        } else {
            match find_local_mid(local, g, f) {
                Some(ip) => Some(lanes_at(1, 0, g, f, ip)),
                None => None,
            }
        }
    } else {
        match common_flow_ip_for_lanes(msgs, legs) {
            None => None,
            Some(ip) => {
                let in0: bool = f.dst.ip == ip;
                let in1: bool = g.dst.ip == ip;
                if !in0 && !in1 {
                    None
                } else if in0 && (!in1 || msgs[i].ts_us <= msgs[j].ts_us) {
                    Some(lanes_at(0, 1, f, g, ip))
                } else {
                    Some(lanes_at(1, 0, g, f, ip))
                }
            },
        }
    }
}

/// The columns of a call: three for two dialogs around a box, else the two ends.
pub open spec fn columns(msgs: Seq<MsgView>, legs: Seq<u8>, local: Seq<IpAddr>) -> Seq<
    SocketAddr,
> {
    match classified(msgs, legs, local) {
        Some(l) => seq![l.a_remote, seen_as(msgs, l.pbx, 0), l.b_remote],
        None => match two_ends(msgs) {
            Some((a, b)) => seq![a, b],
            None => seq![
                SocketAddr { ip: IpAddr::V4(0), port: 0 },
                SocketAddr { ip: IpAddr::V4(0), port: 0 },
            ],
        },
    }
}

pub fn flow_parties(msgs: &Vec<SipMsg>, legs: &Vec<u8>, local: &Vec<IpAddr>) -> (r: Vec<SocketAddr>)
    ensures
        r@ == columns(sip::msg_views(msgs@), legs@, local@),
{
    let mut out: Vec<SocketAddr> = Vec::new();
    match classify_lanes(msgs, legs, local) {
        Some(l) => {
            out.push(l.a_remote);
            out.push(mid_socket(l.pbx, msgs));
            out.push(l.b_remote);
        },
        None => match two_parties(msgs) {
            Some((a, b)) => {
                out.push(a);
                out.push(b);
            },
            None => {
                out.push(SocketAddr { ip: IpAddr::V4(0), port: 0 });
                out.push(SocketAddr { ip: IpAddr::V4(0), port: 0 });
            },
        },
    }
    assert(out@ =~= columns(sip::msg_views(msgs@), legs@, local@));
    out
}

// ----------------------------- labels -----------------------------

/// What stands on the arrow of a message: the method, or the status.
pub open spec fn label_text(m: MsgView) -> Seq<char> {
    if m.is_request {
        match m.method {
            Some(x) => x.spec_name(),
            None => "?"@,
        }
    } else {
        text::dec(
            (match m.status {
                Some(s) => s,
                None => 0,
            }) as nat,
        )
    }
}

pub fn label_of(m: &SipMsg) -> (r: String)
    ensures
        r@ == label_text(m@),
{
    let mut s = String::new();
    if m.is_request {
        match m.method {
            Some(x) => {
                s.push_str(x.name());
            },
            None => {
                s.push_str("?");
            },
        }
    } else {
        push_dec(
            &mut s,
            (match m.status {
                Some(c) => c,
                None => 0,
            }) as u64,
        );
    }
    assert(s@ =~= label_text(m@));
    s
}

pub open spec fn user_text(v: Option<Seq<char>>, privacy: bool, fallback: Seq<char>) -> Seq<char> {
    match v {
        Some(u) => if privacy {
            mask::masked_user(u)
        } else {
            u
        },
        None => fallback,
    }
}

/// A user as it is shown.
pub fn display_user(v: &Option<String>, privacy: bool, fallback: &str) -> (r: String)
    ensures
        r@ == user_text(text::opt_text(*v), privacy, fallback@),
{
    match v {
        Some(u) => if privacy {
            mask_user(u.as_str())
        } else {
            u.clone()
        },
        None => {
            let mut s = String::new();
            s.push_str(fallback);
            assert(s@ =~= fallback@);
            s
        },
    }
}

pub open spec fn shown_socket(a: SocketAddr, privacy: bool) -> Seq<char> {
    if privacy {
        mask::masked_socket(addr_text::socket_text(a))
    } else {
        addr_text::socket_text(a)
    }
}

/// An address as it is shown.
pub fn display_socket(a: SocketAddr, privacy: bool) -> (r: String)
    ensures
        r@ == shown_socket(a, privacy),
{
    let s = socket_string(a);
    if privacy {
        mask_socket(s.as_str())
    } else {
        s
    }
}

/// Two ends and the arrow between them. A local end stands at the right, and the
/// arrow points to where it goes; without exactly one local end they stand as
/// they come.
pub open spec fn directed(
    src: IpAddr,
    dst: IpAddr,
    a: Seq<char>,
    b: Seq<char>,
    local: Seq<IpAddr>,
    w: int,
) -> Seq<char> {
    let from = local.contains(src);
    let to = local.contains(dst);
    if !from && to {
        numfmt::left(a, w) + " -> "@ + numfmt::right(b, w)
    } else if from && !to {
        numfmt::left(b, w) + " <- "@ + numfmt::right(a, w)
    } else {
        numfmt::left(a, w) + " → "@ + numfmt::right(b, w)
    }
}

pub fn dir_flow(src: IpAddr, dst: IpAddr, a: &str, b: &str, local: &Vec<IpAddr>, w: usize) -> (r:
    String)
    ensures
        r@ == directed(src, dst, a@, b@, local@, w as int),
{
    let from: bool = has_ip(local, src);
    let to: bool = has_ip(local, dst);
    let mut s = String::new();
    if !from && to {
        push_left(&mut s, a, w);
        s.push_str(" -> ");
        push_right(&mut s, b, w);
    } else if from && !to {
        push_left(&mut s, b, w);
        s.push_str(" <- ");
        push_right(&mut s, a, w);
    } else {
        push_left(&mut s, a, w);
        s.push_str(" → ");
        push_right(&mut s, b, w);
    }
    assert(s@ =~= directed(src, dst, a@, b@, local@, w as int));
    s
}

pub open spec fn flow_text(f: Option<Flow5Tuple>, privacy: bool, local: Seq<IpAddr>, w: int) -> Seq<
    char,
> {
    match f {
        Some(f) => directed(
            f.src.ip,
            f.dst.ip,
            shown_socket(f.src, privacy),
            shown_socket(f.dst, privacy),
            local,
            w,
        ),
        None => "-"@,
    }
}

/// The two ends of a media flow.
pub fn flow_ip(f: Option<Flow5Tuple>, privacy: bool, local: &Vec<IpAddr>, w: usize) -> (r: String)
    ensures
        r@ == flow_text(f, privacy, local@, w as int),
{
    match f {
        Some(f) => {
            let a = display_socket(f.src, privacy);
            let b = display_socket(f.dst, privacy);
            dir_flow(f.src.ip, f.dst.ip, a.as_str(), b.as_str(), local, w)
        },
        None => {
            let mut s = String::new();
            s.push_str("-");
            assert(s@ =~= "-"@);
            s
        },
    }
}

// ----------------------------- sent and received -----------------------------

/// Whether the source of a stream is the caller.
pub open spec fn from_caller(s: SummaryView, caller: Option<IpAddr>) -> bool {
    match s.flow {
        Some(f) => caller == Some(f.src.ip),
        None => caller is None,
    }
}

/// The first stream from `j` on whose flow is the reverse of this one's.
pub open spec fn reverse_from(v: Seq<SummaryView>, s: SummaryView, j: int) -> Option<int>
    decreases v.len() - j,
{
    if j >= v.len() {
        None
    } else if v[j].flow == reversed(s.flow) {
        Some(j)
    } else {
        reverse_from(v, s, j + 1)
    }
}

pub open spec fn reversed(f: Option<Flow5Tuple>) -> Option<Flow5Tuple> {
    match f {
        Some(f) => Some(f.spec_reverse()),
        None => None,
    }
}

/// Which streams the caller sends, when the first `n` have been paired with their
/// reverse: unknown for those without one.
pub open spec fn sides(v: Seq<SummaryView>, caller: Option<IpAddr>, n: int) -> Seq<Option<bool>>
    decreases n,
{
    if n <= 0 {
        Seq::new(v.len(), |i: int| None::<bool>)
    } else {
        let s = sides(v, caller, n - 1);
        let i = n - 1;
        match reverse_from(v, v[i], 0) {
            Some(j) => if s[i] is None && j != i {
                let tx = caller is None || from_caller(v[i], caller);
                s.update(i, Some(tx)).update(j, Some(!tx))
            } else {
                s
            },
            None => s,
        }
    }
}

/// Which streams the caller sends.
pub open spec fn sent_by_caller(v: Seq<SummaryView>, caller: Option<IpAddr>) -> Seq<bool> {
    let s = sides(v, caller, v.len() as int);
    Seq::new(
        v.len(),
        |i: int|
            match s[i] {
                Some(tx) => tx,
                None => from_caller(v[i], caller),
            },
    )
}

fn is_from_caller(s: &StreamSummary, caller: Option<IpAddr>) -> (r: bool)
    ensures
        r == from_caller(s@, caller),
{
    match (s.flow, caller) {
        (Some(f), Some(ip)) => f.src.ip == ip,
        (None, None) => true,
        _ => false,
    }
}

fn find_reverse(v: &Vec<StreamSummary>, i: usize) -> (r: Option<usize>)
    requires
        i < v@.len(),
    ensures
        match reverse_from(media::summary_views(v@), v@[i as int]@, 0) {
            Some(j) => r is Some && r->Some_0 == j && 0 <= j < v@.len(),
            None => r is None,
        },
{
    let ghost sv = media::summary_views(v@);
    let ghost me = v@[i as int]@;
    let want: Option<Flow5Tuple> = match v[i].flow {
        Some(f) => Some(f.reverse()),
        None => None,
    };
    let mut j: usize = 0;
    while j < v.len()
        invariant
            j <= v.len(),
            sv == media::summary_views(v@),
            i < v.len(),
            me == v@[i as int]@,
            want == reversed(me.flow),
            reverse_from(sv, me, 0) == reverse_from(sv, me, j as int),
        decreases v.len() - j,
    {
        assert(sv[j as int] == v@[j as int]@);
        let same: bool = match (v[j].flow, want) {
            (Some(a), Some(b)) => a == b,
            (None, None) => true,
            _ => false,
        };
        if same {
            return Some(j);
        }
        j += 1;
    }
    None
}

/// Tells the streams that the caller sends from those that it receives. Streams
/// that are each other's reverse fall on different sides, also where both parties
/// have the same IP.
pub fn tx_streams(v: &Vec<StreamSummary>, caller: Option<IpAddr>) -> (r: Vec<bool>)
    ensures
        r@ == sent_by_caller(media::summary_views(v@), caller),
{
    let ghost sv = media::summary_views(v@);
    let n: usize = v.len();
    let mut sides_of: Vec<Option<bool>> = Vec::new();
    let mut i: usize = 0;
    while i < n
        invariant
            i <= n,
            sides_of@ == Seq::new(i as nat, |k: int| None::<bool>),
        decreases n - i,
    {
        sides_of.push(None);
        i += 1;
        assert(sides_of@ =~= Seq::new(i as nat, |k: int| None::<bool>));
    }
    assert(sides_of@ =~= sides(sv, caller, 0));
    let mut i: usize = 0;
    while i < n
        invariant
            i <= n == v@.len(),
            sv == media::summary_views(v@),
            sides_of@.len() == n,
            sides_of@ == sides(sv, caller, i as int),
        decreases n - i,
    {
        assert(sv[i as int] == v@[i as int]@);
        if sides_of[i].is_none() {
            if let Some(j) = find_reverse(v, i) {
                if j != i {
                    let tx: bool = caller.is_none() || is_from_caller(&v[i], caller);
                    sides_of.set(i, Some(tx));
                    sides_of.set(j, Some(!tx));
                }
            }
        }
        i += 1;
    }
    let mut out: Vec<bool> = Vec::new();
    let mut i: usize = 0;
    while i < n
        invariant
            i <= n == v@.len(),
            sv == media::summary_views(v@),
            sides_of@.len() == n,
            sides_of@ == sides(sv, caller, n as int),
            out@ == sent_by_caller(sv, caller).take(i as int),
        decreases n - i,
    {
        assert(sv[i as int] == v@[i as int]@);
        let tx: bool = match sides_of[i] {
            Some(tx) => tx,
            None => is_from_caller(&v[i], caller),
        };
        out.push(tx);
        i += 1;
        assert(out@ =~= sent_by_caller(sv, caller).take(i as int));
    }
    assert(out@ =~= sent_by_caller(sv, caller));
    out
}

// ----------------------------- timeline -----------------------------

/// A phase of a call, between two times.
#[derive(Debug, Clone, Copy, PartialEq, Eq, Structural)]
pub enum Phase {
    /// INVITE to the first provisional response.
    Dial(u64, u64),
    Ring(u64, u64),
    Setup(u64, u64),
    Talk(u64, u64),
    Total(u64, u64),
}

/// The times of a call that the timeline shows.
#[derive(Debug, Clone, Copy, PartialEq, Eq, Structural)]
pub struct CallTimes {
    pub invite_ts: Option<u64>,
    pub trying_ts: Option<u64>,
    pub ringing_ts: Option<u64>,
    pub answer_ts: Option<u64>,
    pub bye_ts: Option<u64>,
    pub end_ts: Option<u64>,
}

pub open spec fn either(a: Option<u64>, b: Option<u64>) -> Option<u64> {
    if a is Some {
        a
    } else {
        b
    }
}

fn first_of(a: Option<u64>, b: Option<u64>) -> (r: Option<u64>)
    ensures
        r == either(a, b),
{
    match a {
        Some(x) => Some(x),
        None => b,
    }
}

pub open spec fn or_zero(a: Option<u64>) -> u64 {
    match a {
        Some(x) => x,
        None => 0,
    }
}

impl CallTimes {
    /// When the timeline begins.
    pub open spec fn anchor(self) -> u64 {
        or_zero(either(self.invite_ts, self.ringing_ts))
    }

    /// When the timeline ends.
    pub open spec fn stop(self) -> u64 {
        match either(either(self.end_ts, self.bye_ts), self.answer_ts) {
            Some(x) => x,
            None => self.anchor(),
        }
    }

    /// The first provisional response.
    pub open spec fn provisional(self) -> Option<u64> {
        match (self.trying_ts, self.ringing_ts) {
            (Some(t), Some(r)) => if t < r {
                Some(t)
            } else {
                Some(r)
            },
            _ => either(self.trying_ts, self.ringing_ts),
        }
    }

    /// The phases, in the order in which they are shown.
    pub open spec fn spec_phases(self) -> Seq<Phase> {
        let a = match (self.invite_ts, self.provisional()) {
            (Some(x), Some(y)) => seq![Phase::Dial(x, y)],
            _ => Seq::empty(),
        };
        let b = match (self.ringing_ts, self.answer_ts) {
            (Some(x), Some(y)) => a.push(Phase::Ring(x, y)),
            _ => a,
        };
        let c = match (self.invite_ts, self.answer_ts) {
            (Some(x), Some(y)) => b.push(Phase::Setup(x, y)),
            _ => b,
        };
        let d = match (self.answer_ts, either(self.bye_ts, self.end_ts)) {
            (Some(x), Some(y)) => c.push(Phase::Talk(x, y)),
            _ => c,
        };
        if self.stop() > self.anchor() {
            d.push(Phase::Total(self.anchor(), self.stop()))
        } else {
            d
        }
    }

    pub fn phases(&self) -> (r: Vec<Phase>)
        ensures
            r@ == self.spec_phases(),
    {
        let anchor: u64 = match first_of(self.invite_ts, self.ringing_ts) {
            Some(x) => x,
            None => 0,
        };
        let stop: u64 = match first_of(first_of(self.end_ts, self.bye_ts), self.answer_ts) {
            Some(x) => x,
            None => anchor,
        };
        let provisional: Option<u64> = match (self.trying_ts, self.ringing_ts) {
            (Some(t), Some(r)) => if t < r {
                Some(t)
            } else {
                Some(r)
            },
            _ => first_of(self.trying_ts, self.ringing_ts),
        };
        let mut out: Vec<Phase> = Vec::new();
        if let (Some(x), Some(y)) = (self.invite_ts, provisional) {
            out.push(Phase::Dial(x, y));
        }
        assert(out@ =~= match (self.invite_ts, self.provisional()) {
            (Some(x), Some(y)) => seq![Phase::Dial(x, y)],
            _ => Seq::empty(),
        });
        if let (Some(x), Some(y)) = (self.ringing_ts, self.answer_ts) {
            out.push(Phase::Ring(x, y));
        }
        if let (Some(x), Some(y)) = (self.invite_ts, self.answer_ts) {
            out.push(Phase::Setup(x, y));
        }
        if let (Some(x), Some(y)) = (self.answer_ts, first_of(self.bye_ts, self.end_ts)) {
            out.push(Phase::Talk(x, y));
        }
        if stop > anchor {
            out.push(Phase::Total(anchor, stop));
        }
        out
    }
}

} // verus!
