//! Addresses as text: what they look like and what text spells one.
use crate::model::addr::{IpAddr, SocketAddr};
use crate::text;
use crate::text::{chars_of, find, find_class, parse_uint, push_dec, slice_of, split, Class};
use vstd::prelude::*;

verus! {

// ----------------------------- writing -----------------------------

/// The `i`-th octet of an IPv4 address, from the left.
pub open spec fn octet(v: u32, i: int) -> nat {
    if i == 0 {
        (v / 0x100_0000) as nat
    } else if i == 1 {
        (v / 0x1_0000 % 0x100) as nat
    } else if i == 2 {
        (v / 0x100 % 0x100) as nat
    } else {
        (v % 0x100) as nat
    }
}

/// Dotted decimal.
pub open spec fn v4_text(v: u32) -> Seq<char> {
    text::dec(octet(v, 0)) + seq!['.'] + text::dec(octet(v, 1)) + seq!['.'] + text::dec(
        octet(v, 2),
    ) + seq!['.'] + text::dec(octet(v, 3))
}

pub open spec fn hex_digit(d: nat) -> char {
    if d < 10 {
        (48 + d) as char
    } else {
        (87 + d) as char
    }
}

/// Lower-case hexadecimal spelling of a number.
pub open spec fn hex(n: nat) -> Seq<char>
    decreases n,
{
    if n < 16 {
        seq![hex_digit(n)]
    } else {
        hex(n / 16).push(hex_digit(n % 16))
    }
}

/// `2^(16 * n)`.
pub open spec fn pow16bit(n: nat) -> nat
    decreases n,
{
    if n == 0 {
        1
    } else {
        0x1_0000 * pow16bit((n - 1) as nat)
    }
}

/// The eight 16-bit groups of an IPv6 address, from the left.
pub open spec fn groups(v: u128) -> Seq<nat> {
    Seq::new(8, |i: int| v as nat / pow16bit((7 - i) as nat) % 0x1_0000)
}

/// How many groups from `i` on are zero.
pub open spec fn zero_run(g: Seq<nat>, i: int) -> nat
    decreases g.len() - i,
{
    if i < 0 || i >= g.len() || g[i] != 0 {
        0
    } else {
        1 + zero_run(g, i + 1)
    }
}

/// Where, from `i` on, the first of the longest runs of zeros begins.
pub open spec fn longest_from(g: Seq<nat>, i: int) -> int
    decreases g.len() - i,
{
    if i + 1 >= g.len() {
        i
    } else {
        let r = longest_from(g, i + 1);
        if zero_run(g, i) >= zero_run(g, r) {
            i
        } else {
            r
        }
    }
}

/// Groups `i` to `j`, with colons between them.
pub open spec fn joined(g: Seq<nat>, i: int, j: int) -> Seq<char>
    decreases j - i,
{
    if i >= j {
        Seq::empty()
    } else if i + 1 == j {
        hex(g[i])
    } else {
        joined(g, i, j - 1) + seq![':'] + hex(g[j - 1])
    }
}

/// The canonical text of an IPv6 address: mapped IPv4 addresses in dotted
/// decimal, otherwise the first longest run of two or more zero groups as a
/// double colon.
pub open spec fn v6_text(v: u128) -> Seq<char> {
    let g = groups(v);
    let s = longest_from(g, 0);
    let n = zero_run(g, s) as int;
    if v / 0x1_0000_0000 == 0xffff {
        "::ffff:"@ + v4_text((v % 0x1_0000_0000) as u32)
    } else if n > 1 {
        joined(g, 0, s) + "::"@ + joined(g, s + n, 8)
    } else {
        joined(g, 0, 8)
    }
}

/// The text of an IP address.
pub open spec fn ip_text(ip: IpAddr) -> Seq<char> {
    match ip {
        IpAddr::V4(v) => v4_text(v),
        IpAddr::V6(v) => v6_text(v),
    }
}

/// The text of a socket address; IPv6 in brackets.
pub open spec fn socket_text(a: SocketAddr) -> Seq<char> {
    match a.ip {
        IpAddr::V4(v) => v4_text(v) + seq![':'] + text::dec(a.port as nat),
        IpAddr::V6(v) => seq!['['] + v6_text(v) + "]:"@ + text::dec(a.port as nat),
    }
}

/// Appends an IPv4 address.
pub fn push_v4(s: &mut String, v: u32)
    ensures
        final(s)@ == old(s)@ + v4_text(v),
{
    push_dec(s, (v / 0x100_0000) as u64);
    s.push('.');
    push_dec(s, (v / 0x1_0000 % 0x100) as u64);
    s.push('.');
    push_dec(s, (v / 0x100 % 0x100) as u64);
    s.push('.');
    push_dec(s, (v % 0x100) as u64);
    assert(s@ =~= old(s)@ + v4_text(v));
}

/// Appends a number in lower-case hexadecimal.
pub fn push_hex(s: &mut String, n: u64)
    ensures
        final(s)@ == old(s)@ + hex(n as nat),
    decreases n,
{
    if n >= 16 {
        push_hex(s, n / 16);
    }
    let d: u8 = (n % 16) as u8;
    let c: u8 = if d < 10 {
        48 + d
    } else {
        87 + d
    };
    s.push(c as char);
    assert(s@ =~= old(s)@ + hex(n as nat));
}

proof fn lemma_groups(v: u128)
    ensures
        groups(v).len() == 8,
        groups(v)[0] == v / 0x1_0000_0000_0000_0000_0000_0000_0000 % 0x1_0000,
        groups(v)[1] == v / 0x1_0000_0000_0000_0000_0000_0000 % 0x1_0000,
        groups(v)[2] == v / 0x1_0000_0000_0000_0000_0000 % 0x1_0000,
        groups(v)[3] == v / 0x1_0000_0000_0000_0000 % 0x1_0000,
        groups(v)[4] == v / 0x1_0000_0000_0000 % 0x1_0000,
        groups(v)[5] == v / 0x1_0000_0000 % 0x1_0000,
        groups(v)[6] == v / 0x1_0000 % 0x1_0000,
        groups(v)[7] == v % 0x1_0000,
{
    reveal_with_fuel(pow16bit, 9);
    assert(v as nat / 1nat == v as nat);
}

/// The groups as numbers.
fn group_vec(v: u128) -> (r: Vec<u64>)
    ensures
        r@.map_values(|x: u64| x as nat) == groups(v),
        r@.len() == 8,
{
    let r: Vec<u64> = vec![
        (v / 0x1_0000_0000_0000_0000_0000_0000_0000 % 0x1_0000) as u64,
        (v / 0x1_0000_0000_0000_0000_0000_0000 % 0x1_0000) as u64,
        (v / 0x1_0000_0000_0000_0000_0000 % 0x1_0000) as u64,
        (v / 0x1_0000_0000_0000_0000 % 0x1_0000) as u64,
        (v / 0x1_0000_0000_0000 % 0x1_0000) as u64,
        (v / 0x1_0000_0000 % 0x1_0000) as u64,
        (v / 0x1_0000 % 0x1_0000) as u64,
        (v % 0x1_0000) as u64,
    ];
    proof {
        lemma_groups(v);
        assert(r@.map_values(|x: u64| x as nat) =~= groups(v));
    }
    r
}

/// The first and the last group of an IPv6 address.
pub proof fn lemma_outer_groups(v: u128)
    ensures
        groups(v)[0] == v / 0x1_0000_0000_0000_0000_0000_0000_0000,
        groups(v)[7] == v % 0x1_0000,
{
    lemma_groups(v);
}

pub open spec fn nats(v: Seq<u64>) -> Seq<nat> {
    v.map_values(|x: u64| x as nat)
}

proof fn lemma_zero_run(g: Seq<nat>, i: int)
    requires
        0 <= i <= g.len(),
    ensures
        i + zero_run(g, i) <= g.len(),
    decreases g.len() - i,
{
    if i < g.len() && g[i] == 0 {
        lemma_zero_run(g, i + 1);
    }
}

proof fn lemma_longest(g: Seq<nat>, i: int)
    requires
        0 <= i < g.len(),
    ensures
        i <= longest_from(g, i) < g.len(),
    decreases g.len() - i,
{
    if i + 1 < g.len() {
        lemma_longest(g, i + 1);
    }
}

fn count_zeros(g: &Vec<u64>, i: usize) -> (r: usize)
    requires
        i <= g@.len(),
    ensures
        r == zero_run(nats(g@), i as int),
    decreases g@.len() - i,
{
    proof {
        lemma_zero_run(nats(g@), i as int);
    }
    if i < g.len() && g[i] == 0 {
        1 + count_zeros(g, i + 1)
    } else {
        0
    }
}

fn push_joined(s: &mut String, g: &Vec<u64>, i: usize, j: usize)
    requires
        i <= j <= g@.len(),
    ensures
        final(s)@ == old(s)@ + joined(nats(g@), i as int, j as int),
    decreases j - i,
{
    if i < j {
        if i + 1 < j {
            push_joined(s, g, i, j - 1);
            s.push(':');
        }
        push_hex(s, g[j - 1]);
    }
    assert(s@ =~= old(s)@ + joined(nats(g@), i as int, j as int));
}

/// Appends an IPv6 address.
pub fn push_v6(s: &mut String, v: u128)
    ensures
        final(s)@ == old(s)@ + v6_text(v),
{
    if v / 0x1_0000_0000 == 0xffff {
        s.push_str("::ffff:");
        push_v4(s, (v % 0x1_0000_0000) as u32);
        assert(s@ =~= old(s)@ + v6_text(v));
        return;
    }
    let g = group_vec(v);
    let mut best: usize = 7;
    let mut i: usize = 7;
    proof {
        lemma_longest(nats(g@), 7);
    }
    while i > 0
        invariant
            i <= 7,
            g@.len() == 8,
            i <= best < 8,
            best == longest_from(nats(g@), i as int),
        decreases i,
    {
        i -= 1;
        if count_zeros(&g, i) >= count_zeros(&g, best) {
            best = i;
        }
    }
    let n: usize = count_zeros(&g, best);
    proof {
        assert(nats(g@) =~= groups(v));
        lemma_zero_run(nats(g@), best as int);
    }
    if n > 1 {
        push_joined(s, &g, 0, best);
        s.push_str("::");
        push_joined(s, &g, best + n, 8);
    } else {
        push_joined(s, &g, 0, 8);
    }
    assert(s@ =~= old(s)@ + v6_text(v));
}

/// Appends an IP address.
pub fn push_ip(s: &mut String, ip: IpAddr)
    ensures
        final(s)@ == old(s)@ + ip_text(ip),
{
    match ip {
        IpAddr::V4(v) => push_v4(s, v),
        IpAddr::V6(v) => push_v6(s, v),
    }
}

/// The text of an IP address.
pub fn ip_string(ip: IpAddr) -> (r: String)
    ensures
        r@ == ip_text(ip),
{
    let mut s = String::new();
    push_ip(&mut s, ip);
    assert(s@ =~= ip_text(ip));
    s
}

/// Appends a socket address.
pub fn push_socket(s: &mut String, a: SocketAddr)
    ensures
        final(s)@ == old(s)@ + socket_text(a),
{
    match a.ip {
        IpAddr::V4(v) => {
            push_v4(s, v);
            s.push(':');
            push_dec(s, a.port as u64);
        },
        IpAddr::V6(v) => {
            s.push('[');
            push_v6(s, v);
            s.push_str("]:");
            push_dec(s, a.port as u64);
        },
    }
    assert(s@ =~= old(s)@ + socket_text(a));
}

/// The text of a socket address.
pub fn socket_string(a: SocketAddr) -> (r: String)
    ensures
        r@ == socket_text(a),
{
    let mut s = String::new();
    push_socket(&mut s, a);
    assert(s@ =~= socket_text(a));
    s
}

// ----------------------------- reading -----------------------------

/// A decimal octet: up to three digits, no leading zero, at most 255.
pub open spec fn octet_of(t: Seq<char>) -> Option<nat> {
    if 1 <= t.len() <= 3 && text::all_digits(t) && (t.len() == 1 || t[0] != '0')
        && text::dec_value(t) <= 255 {
        Some(text::dec_value(t))
    } else {
        None
    }
}

/// The IPv4 address that a text spells.
pub open spec fn v4_of(t: Seq<char>) -> Option<u32> {
    let p = text::split_all(t, '.');
    if p.len() == 4 {
        match (octet_of(p[0]), octet_of(p[1]), octet_of(p[2]), octet_of(p[3])) {
            (Some(a), Some(b), Some(c), Some(d)) => Some(
                (a * 0x100_0000 + b * 0x1_0000 + c * 0x100 + d) as u32,
            ),
            _ => None,
        }
    } else {
        None
    }
}

pub fn parse_octet(t: &Vec<char>) -> (r: Option<u32>)
    ensures
        match octet_of(t@) {
            Some(v) => r is Some && r->Some_0 == v && v <= 255,
            None => r is None,
        },
{
    if t.len() == 0 || t.len() > 3 || (t.len() > 1 && t[0] == '0') {
        return None;
    }
    if t[0] == '+' {
        assert(!text::is_digit(t@[0]));
        return None;
    }
    match parse_uint(t.as_slice(), 255) {
        Some(v) => Some(v as u32),
        None => None,
    }
}

/// Reads an IPv4 address.
pub fn parse_v4(t: &[char]) -> (r: Option<u32>)
    ensures
        r == v4_of(t@),
{
    let p = split(t, '.');
    assert(text::split_all(t@, '.').len() == p@.len());
    if p.len() != 4 {
        return None;
    }
    assert(text::split_all(t@, '.')[0] == p@[0]@);
    assert(text::split_all(t@, '.')[1] == p@[1]@);
    assert(text::split_all(t@, '.')[2] == p@[2]@);
    assert(text::split_all(t@, '.')[3] == p@[3]@);
    match (parse_octet(&p[0]), parse_octet(&p[1]), parse_octet(&p[2]), parse_octet(&p[3])) {
        (Some(a), Some(b), Some(c), Some(d)) => Some(a * 0x100_0000 + b * 0x1_0000 + c * 0x100 + d),
        _ => None,
    }
}

pub open spec fn hex_val(c: char) -> Option<nat> {
    if '0' <= c <= '9' {
        Some((c as u32 - 48) as nat)
    } else if 'a' <= c <= 'f' {
        Some((c as u32 - 87) as nat)
    } else if 'A' <= c <= 'F' {
        Some((c as u32 - 55) as nat)
    } else {
        None
    }
}

/// The number that hexadecimal digits spell.
pub open spec fn hex_value(t: Seq<char>) -> Option<nat>
    decreases t.len(),
{
    if t.len() == 0 {
        Some(0)
    } else {
        match (hex_value(t.drop_last()), hex_val(t.last())) {
            (Some(v), Some(d)) => Some(16 * v + d),
            _ => None,
        }
    }
}

/// A group: one to four hexadecimal digits.
pub open spec fn group_of(t: Seq<char>) -> Option<nat> {
    if 1 <= t.len() <= 4 {
        hex_value(t)
    } else {
        None
    }
}

/// The groups that the first `n` parts spell, each one group.
pub open spec fn plain_groups(p: Seq<Seq<char>>, n: nat) -> Option<Seq<nat>>
    decreases n,
{
    if n == 0 {
        Some(Seq::empty())
    } else {
        match (plain_groups(p, (n - 1) as nat), group_of(p[n - 1])) {
            (Some(g), Some(v)) => Some(g.push(v)),
            _ => None,
        }
    }
}

/// The groups that a text spells, separated by colons; where `v4` is set, the
/// last part may be an IPv4 address, which makes two groups.
pub open spec fn groups_of(t: Seq<char>, v4: bool) -> Option<Seq<nat>> {
    let p = text::split_all(t, ':');
    if t.len() == 0 {
        Some(Seq::empty())
    } else if v4 && v4_of(p.last()) is Some {
        let q = v4_of(p.last())->Some_0 as nat;
        match plain_groups(p, (p.len() - 1) as nat) {
            Some(g) => Some(g.push(q / 0x1_0000).push(q % 0x1_0000)),
            None => None,
        }
    } else {
        plain_groups(p, p.len())
    }
}

/// The number that groups spell, the first being the highest.
pub open spec fn groups_value(g: Seq<nat>) -> nat
    decreases g.len(),
{
    if g.len() == 0 {
        0
    } else {
        0x1_0000 * groups_value(g.drop_last()) + g.last()
    }
}

/// The IPv6 address that a text spells: eight groups, or fewer around one
/// double colon, which stands for at least one group of zeros.
pub open spec fn v6_of(t: Seq<char>) -> Option<u128> {
    match text::find_from(t, seq![':', ':'], 0) {
        None => match groups_of(t, true) {
            Some(g) => if g.len() == 8 {
                Some(groups_value(g) as u128)
            } else {
                None
            },
            None => None,
        },
        Some(i) => match (groups_of(t.take(i), false), groups_of(t.skip(i + 2), true)) {
            (Some(a), Some(b)) => if a.len() + b.len() <= 7 {
                Some(
                    groups_value(a + Seq::new((8 - a.len() - b.len()) as nat, |k: int| 0nat) + b)
                        as u128,
                )
            } else {
                None
            },
            _ => None,
        },
    }
}

fn parse_group(t: &Vec<char>) -> (r: Option<u64>)
    ensures
        match group_of(t@) {
            Some(v) => r is Some && r->Some_0 == v && v <= 0xffff,
            None => r is None,
        },
{
    if t.len() == 0 || t.len() > 4 {
        return None;
    }
    let mut v: u64 = 0;
    let mut i: usize = 0;
    assert(t@.take(0) =~= Seq::<char>::empty());
    while i < t.len()
        invariant
            i <= t.len() <= 4,
            hex_value(t@.take(i as int)) == Some(v as nat),
            i == 0 ==> v == 0,
            i <= 1 ==> v < 0x10,
            i <= 2 ==> v < 0x100,
            i <= 3 ==> v < 0x1000,
            v < 0x1_0000,
        decreases t.len() - i,
    {
        let c: char = t[i];
        let ghost u = t@.take(i + 1);
        assert(u.drop_last() =~= t@.take(i as int));
        assert(u.last() == c);
        let d: u64 = if c >= '0' && c <= '9' {
            (c as u8 - 48) as u64
        } else if c >= 'a' && c <= 'f' {
            (c as u8 - 87) as u64
        } else if c >= 'A' && c <= 'F' {
            (c as u8 - 55) as u64
        } else {
            proof {
                lemma_hex_prefix(t@, i + 1);
            }
            return None;
        };
        v = v * 16 + d;
        i += 1;
    }
    assert(t@.take(i as int) =~= t@);
    Some(v)
}

proof fn lemma_hex_prefix(t: Seq<char>, i: int)
    requires
        0 <= i <= t.len(),
        hex_value(t.take(i)) is None,
    ensures
        hex_value(t) is None,
    decreases t.len() - i,
{
    if i < t.len() {
        assert(t.take(i + 1).drop_last() =~= t.take(i));
        lemma_hex_prefix(t, i + 1);
    } else {
        assert(t.take(i) =~= t);
    }
}

proof fn lemma_plain_prefix(p: Seq<Seq<char>>, n: nat, m: nat)
    requires
        n <= m,
        plain_groups(p, n) is None,
    ensures
        plain_groups(p, m) is None,
    decreases m - n,
{
    if n < m {
        lemma_plain_prefix(p, n, (m - 1) as nat);
    }
}

pub open spec fn small(g: Seq<u64>) -> bool {
    forall|i: int| 0 <= i < g.len() ==> #[trigger] g[i] <= 0xffff
}

fn parse_plain(p: &Vec<Vec<char>>, n: usize) -> (r: Option<Vec<u64>>)
    requires
        n <= p@.len(),
    ensures
        match plain_groups(text::deep(p@), n as nat) {
            Some(g) => r is Some && nats(r->Some_0@) == g && r->Some_0@.len() == n,
            None => r is None,
        },
        r matches Some(g) ==> small(g@),
{
    let mut out: Vec<u64> = Vec::new();
    let mut i: usize = 0;
    assert(nats(out@) =~= Seq::<nat>::empty());
    while i < n
        invariant
            i <= n <= p@.len(),
            out@.len() == i,
            small(out@),
            plain_groups(text::deep(p@), i as nat) == Some(nats(out@)),
        decreases n - i,
    {
        assert(text::deep(p@)[i as int] == p@[i as int]@);
        match parse_group(&p[i]) {
            Some(v) => {
                let ghost before = out@;
                out.push(v);
                assert(nats(out@) =~= nats(before).push(v as nat));
            },
            None => {
                proof {
                    lemma_plain_prefix(text::deep(p@), (i + 1) as nat, n as nat);
                }
                return None;
            },
        }
        i += 1;
    }
    Some(out)
}

fn parse_groups(t: &[char], v4: bool) -> (r: Option<Vec<u64>>)
    ensures
        match groups_of(t@, v4) {
            Some(g) => r is Some && nats(r->Some_0@) == g,
            None => r is None,
        },
        r matches Some(g) ==> small(g@),
{
    if t.len() == 0 {
        let r: Vec<u64> = Vec::new();
        assert(nats(r@) =~= Seq::<nat>::empty());
        return Some(r);
    }
    let p = split(t, ':');
    let ghost q = text::split_all(t@, ':');
    assert(q.len() == p@.len());
    let last: usize = p.len() - 1;
    assert(q.last() == p@[last as int]@);
    if v4 {
        if let Some(a) = parse_v4(p[last].as_slice()) {
            return match parse_plain(&p, last) {
                Some(mut g) => {
                    let ghost before = g@;
                    g.push((a / 0x1_0000) as u64);
                    g.push((a % 0x1_0000) as u64);
                    assert(nats(g@) =~= nats(before).push((a / 0x1_0000) as nat).push(
                        (a % 0x1_0000) as nat,
                    ));
                    Some(g)
                },
                None => None,
            };
        }
    }
    parse_plain(&p, p.len())
}

proof fn lemma_groups_value(g: Seq<nat>)
    requires
        g.len() <= 8,
        forall|i: int| 0 <= i < g.len() ==> #[trigger] g[i] <= 0xffff,
    ensures
        groups_value(g) < pow16bit(g.len()),
    decreases g.len(),
{
    if g.len() > 0 {
        lemma_groups_value(g.drop_last());
    }
}

fn group_number(g: &Vec<u64>) -> (r: u128)
    requires
        g@.len() == 8,
        small(g@),
    ensures
        r == groups_value(nats(g@)),
{
    let mut v: u128 = 0;
    let mut i: usize = 0;
    let ghost n = nats(g@);
    assert(n.take(0) =~= Seq::<nat>::empty());
    while i < 8
        invariant
            i <= 8,
            g@.len() == 8,
            small(g@),
            n == nats(g@),
            v == groups_value(n.take(i as int)),
        decreases 8 - i,
    {
        proof {
            let u = n.take(i + 1);
            assert(u.drop_last() =~= n.take(i as int));
            assert(u.last() == n[i as int]);
            lemma_groups_value(u);
            reveal_with_fuel(pow16bit, 9);
        }
        v = v * 0x1_0000 + g[i] as u128;
        i += 1;
    }
    assert(n.take(8) =~= n);
    v
}

/// Reads an IPv6 address.
pub fn parse_v6(t: &[char]) -> (r: Option<u128>)
    ensures
        r == v6_of(t@),
{
    let colons: Vec<char> = vec![':', ':'];
    assert(colons@ =~= seq![':', ':']);
    match find(t, colons.as_slice(), 0) {
        None => match parse_groups(t, true) {
            Some(g) => if g.len() == 8 {
                Some(group_number(&g))
            } else {
                None
            },
            None => None,
        },
        Some(i) => {
            let n: usize = t.len();
            assert(i + 2 <= n);
            let head = slice_of(t, 0, i);
            let rest = slice_of(t, i + 2, n);
            assert(head@ =~= t@.take(i as int));
            assert(rest@ =~= t@.skip(i + 2));
            let a = match parse_groups(head.as_slice(), false) {
                Some(a) => a,
                None => return None,
            };
            let b = match parse_groups(rest.as_slice(), true) {
                Some(b) => b,
                None => return None,
            };
            if a.len() > 7 || b.len() > 7 || a.len() + b.len() > 7 {
                return None;
            }
            let ghost ga = a@;
            let ghost gb = b@;
            let total: usize = 8 - b.len();
            let mut g = a;
            while g.len() < total
                invariant
                    ga.len() <= g@.len() <= total,
                    total == 8 - gb.len(),
                    ga.len() + gb.len() <= 7,
                    small(g@),
                    nats(g@) == nats(ga) + Seq::new((g@.len() - ga.len()) as nat, |k: int| 0nat),
                decreases total - g@.len(),
            {
                let ghost before = g@;
                g.push(0);
                assert(nats(g@) =~= nats(before).push(0));
                assert(nats(g@) =~= nats(ga) + Seq::new(
                    (g@.len() - ga.len()) as nat,
                    |k: int| 0nat,
                ));
            }
            let mut k: usize = 0;
            let ghost mid = g@;
            while k < b.len()
                invariant
                    k <= b.len(),
                    b@ == gb,
                    small(gb),
                    small(g@),
                    mid.len() == total,
                    total == 8 - gb.len(),
                    gb.len() <= 7,
                    g@.len() == total + k,
                    nats(g@) == nats(mid) + nats(gb).take(k as int),
                decreases b.len() - k,
            {
                let ghost before = g@;
                g.push(b[k]);
                assert(nats(g@) =~= nats(before).push(nats(gb)[k as int]));
                k += 1;
                assert(nats(g@) =~= nats(mid) + nats(gb).take(k as int));
            }
            proof {
                assert(nats(gb).take(k as int) =~= nats(gb));
                assert(nats(g@) =~= nats(ga) + Seq::new(
                    (8 - ga.len() - gb.len()) as nat,
                    |j: int| 0nat,
                ) + nats(gb));
            }
            Some(group_number(&g))
        },
    }
}

/// The IP address that a text spells.
pub open spec fn ip_of(t: Seq<char>) -> Option<IpAddr> {
    match v4_of(t) {
        Some(v) => Some(IpAddr::V4(v)),
        None => match v6_of(t) {
            Some(v) => Some(IpAddr::V6(v)),
            None => None,
        },
    }
}

/// Reads an IP address.
pub fn parse_ip_addr(t: &[char]) -> (r: Option<IpAddr>)
    ensures
        r == ip_of(t@),
{
    match parse_v4(t) {
        Some(v) => Some(IpAddr::V4(v)),
        None => match parse_v6(t) {
            Some(v) => Some(IpAddr::V6(v)),
            None => None,
        },
    }
}

/// One or more digits that spell at most `max`.
pub open spec fn digits_of(t: Seq<char>, max: nat) -> Option<nat> {
    if t.len() > 0 && text::all_digits(t) && text::dec_value(t) <= max {
        Some(text::dec_value(t))
    } else {
        None
    }
}

fn parse_digits(t: &[char], max: u64) -> (r: Option<u64>)
    ensures
        match digits_of(t@, max as nat) {
            Some(v) => r is Some && r->Some_0 == v,
            None => r is None,
        },
{
    if t.len() == 0 {
        return None;
    }
    if t[0] == '+' {
        assert(!text::is_digit(t@[0]));
        return None;
    }
    parse_uint(t, max)
}

/// What stands in the brackets of an IPv6 socket address: an address and
/// perhaps a numeric scope.
pub open spec fn scoped_v6_of(t: Seq<char>) -> Option<u128> {
    match text::split_once_at(t, '%') {
        None => v6_of(t),
        Some((a, s)) => if digits_of(s, 0xffff_ffff) is Some {
            v6_of(a)
        } else {
            None
        },
    }
}

/// The socket address that a text spells: `a.b.c.d:port` or `[v6]:port`. A
/// scope is read and forgotten.
pub open spec fn socket_of(t: Seq<char>) -> Option<SocketAddr> {
    if t.len() > 0 && t[0] == '[' {
        let j = text::scan(t, 0, Class::Is(']'), true);
        if j + 1 < t.len() && t[j + 1] == ':' {
            match (scoped_v6_of(t.subrange(1, j)), digits_of(t.skip(j + 2), 0xffff)) {
                (Some(v), Some(p)) => Some(SocketAddr { ip: IpAddr::V6(v), port: p as u16 }),
                _ => None,
            }
        } else {
            None
        }
    } else {
        match text::split_once_at(t, ':') {
            Some((a, b)) => match (v4_of(a), digits_of(b, 0xffff)) {
                (Some(v), Some(p)) => Some(SocketAddr { ip: IpAddr::V4(v), port: p as u16 }),
                _ => None,
            },
            None => None,
        }
    }
}

/// Reads a socket address.
pub fn parse_socket(t: &[char]) -> (r: Option<SocketAddr>)
    ensures
        r == socket_of(t@),
{
    if t.len() > 0 && t[0] == '[' {
        let j: usize = find_class(t, 0, Class::Is(']'), true);
        assert(j >= 1) by {
            text::lemma_scan(t@, 0, Class::Is(']'), true);
        }
        if j >= t.len() || j + 1 >= t.len() || t[j + 1] != ':' {
            return None;
        }
        let inner = slice_of(t, 1, j);
        let rest = slice_of(t, j + 2, t.len());
        assert(rest@ =~= t@.skip(j + 2));
        let ip: Option<u128> = match text::split_once(inner.as_slice(), '%') {
            None => parse_v6(inner.as_slice()),
            Some((a, s)) => match parse_digits(s.as_slice(), 0xffff_ffff) {
                Some(_) => parse_v6(a.as_slice()),
                None => None,
            },
        };
        match (ip, parse_digits(rest.as_slice(), 0xffff)) {
            (Some(v), Some(p)) => Some(SocketAddr { ip: IpAddr::V6(v), port: p as u16 }),
            _ => None,
        }
    } else {
        match text::split_once(t, ':') {
            Some((a, b)) => match (parse_v4(a.as_slice()), parse_digits(b.as_slice(), 0xffff)) {
                (Some(v), Some(p)) => Some(SocketAddr { ip: IpAddr::V4(v), port: p as u16 }),
                _ => None,
            },
            None => None,
        }
    }
}

/// Reads an IP address from a string.
pub fn ip_from_str(s: &str) -> (r: Option<IpAddr>)
    ensures
        r == ip_of(s@),
{
    let t = chars_of(s);
    parse_ip_addr(t.as_slice())
}

/// Reads a socket address from a string.
pub fn socket_from_str(s: &str) -> (r: Option<SocketAddr>)
    ensures
        r == socket_of(s@),
{
    let t = chars_of(s);
    parse_socket(t.as_slice())
}

} // verus!
