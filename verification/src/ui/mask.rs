//! Privacy: users, numbers and addresses with their middle left out.
use crate::model::addr::IpAddr;
use crate::model::addr_text;
use crate::model::addr_text::{parse_ip_addr, parse_socket, parse_v4, parse_v6, push_hex};
use crate::text;
use crate::text::{
    append_chars, begins_with, chars_of, eq_ignore_case, find, find_class, lines, push_dec,
    slice_of, split_once, string_of, Class,
};
use vstd::prelude::*;

verus! {

// ----------------------------- users -----------------------------

/// A user: the first three and last four characters, or of a short one only the
/// first.
pub open spec fn masked_user(t: Seq<char>) -> Seq<char> {
    let n = t.len() as int;
    if n <= 4 {
        Seq::new(
            t.len(),
            |i: int|
                if i == 0 {
                    t[0]
                } else {
                    '*'
                },
        )
    } else if n > 7 {
        t.take(3) + seq!['…'] + t.skip(n - 4)
    } else {
        t.take(3) + seq!['*'] + t.skip(3)
    }
}

pub fn mask_chars(t: &[char]) -> (r: Vec<char>)
    ensures
        r@ == masked_user(t@),
{
    let n: usize = t.len();
    let mut out: Vec<char> = Vec::new();
    if n <= 4 {
        let mut i: usize = 0;
        while i < n
            invariant
                i <= n,
                n == t@.len() <= 4,
                out@ == masked_user(t@).take(i as int),
            decreases n - i,
        {
            out.push(
                if i == 0 {
                    t[0]
                } else {
                    '*'
                },
            );
            i += 1;
            assert(out@ =~= masked_user(t@).take(i as int));
        }
        assert(out@ =~= masked_user(t@));
        return out;
    }
    let front = slice_of(t, 0, 3);
    let back = slice_of(
        t,
        if n > 7 {
            n - 4
        } else {
            3
        },
        n,
    );
    append_chars(&mut out, front.as_slice());
    out.push(
        if n > 7 {
            '…'
        } else {
            '*'
        },
    );
    append_chars(&mut out, back.as_slice());
    assert(out@ =~= masked_user(t@));
    out
}

/// Masks a user or number.
pub fn mask_user(s: &str) -> (r: String)
    ensures
        r@ == masked_user(s@),
{
    let t = chars_of(s);
    let m = mask_chars(t.as_slice());
    string_of(m.as_slice())
}

// ----------------------------- addresses -----------------------------

/// An address: its first and last octet, or group.
pub open spec fn masked_ip(ip: IpAddr) -> Seq<char> {
    match ip {
        IpAddr::V4(v) => text::dec(addr_text::octet(v, 0)) + ".*.*."@ + text::dec(
            addr_text::octet(v, 3),
        ),
        IpAddr::V6(v) => addr_text::hex(addr_text::groups(v)[0]) + ":…:"@ + addr_text::hex(
            addr_text::groups(v)[7],
        ),
    }
}

/// Masks an address.
pub fn mask_ip(ip: IpAddr) -> (r: String)
    ensures
        r@ == masked_ip(ip),
{
    let mut s = String::new();
    match ip {
        IpAddr::V4(v) => {
            push_dec(&mut s, (v / 0x100_0000) as u64);
            s.push_str(".*.*.");
            push_dec(&mut s, (v % 0x100) as u64);
        },
        IpAddr::V6(v) => {
            proof {
                addr_text::lemma_outer_groups(v);
            }
            push_hex(&mut s, (v / 0x1_0000_0000_0000_0000_0000_0000_0000) as u64);
            s.push_str(":…:");
            push_hex(&mut s, (v % 0x1_0000) as u64);
        },
    }
    assert(s@ =~= masked_ip(ip));
    s
}

/// An address and port: the address masked, the port kept; anything else as it
/// is.
pub open spec fn masked_socket(t: Seq<char>) -> Seq<char> {
    match addr_text::ip_of(t) {
        Some(ip) => masked_ip(ip),
        None => match addr_text::socket_of(t) {
            Some(a) => masked_ip(a.ip) + ":"@ + text::dec(a.port as nat),
            None => t,
        },
    }
}

/// Masks the text of an address, with or without a port.
pub fn mask_socket(s: &str) -> (r: String)
    ensures
        r@ == masked_socket(s@),
{
    let t = chars_of(s);
    if let Some(ip) = parse_ip_addr(t.as_slice()) {
        return mask_ip(ip);
    }
    match parse_socket(t.as_slice()) {
        Some(a) => {
            let mut m = mask_ip(a.ip);
            m.push_str(":");
            push_dec(&mut m, a.port as u64);
            m
        },
        None => string_of(t.as_slice()),
    }
}

// ----------------------------- display names -----------------------------

/// From `i` on, with what stands in quotes masked.
pub open spec fn names_from(t: Seq<char>, i: int) -> Seq<char>
    decreases t.len() - i,
{
    let a = text::scan(t, i, Class::Is('"'), true);
    let b = text::scan(t, a + 1, Class::Is('"'), true);
    if 0 <= i <= a < b < t.len() {
        t.subrange(i, a) + seq!['"'] + masked_user(t.subrange(a + 1, b)) + seq!['"'] + names_from(
            t,
            b + 1,
        )
    } else {
        t.skip(i)
    }
}

/// Masks quoted display names.
pub fn mask_display_names(t: &[char]) -> (r: Vec<char>)
    ensures
        r@ == names_from(t@, 0),
{
    let mut out: Vec<char> = Vec::new();
    let mut i: usize = 0;
    let ghost all = names_from(t@, 0);
    assert(all =~= out@ + names_from(t@, 0));
    loop
        invariant
            i <= t@.len(),
            all == names_from(t@, 0),
            all == out@ + names_from(t@, i as int),
        decreases t@.len() - i,
    {
        proof {
            text::lemma_scan(t@, i as int, Class::Is('"'), true);
        }
        let a: usize = find_class(t, i, Class::Is('"'), true);
        if a < t.len() {
            proof {
                text::lemma_scan(t@, a + 1, Class::Is('"'), true);
            }
            let b: usize = find_class(t, a + 1, Class::Is('"'), true);
            if b < t.len() {
                let ghost before = out@;
                let head = slice_of(t, i, a);
                let name = slice_of(t, a + 1, b);
                let m = mask_chars(name.as_slice());
                append_chars(&mut out, head.as_slice());
                out.push('"');
                append_chars(&mut out, m.as_slice());
                out.push('"');
                assert(out@ + names_from(t@, b + 1) =~= before + names_from(t@, i as int));
                i = b + 1;
                continue ;
            }
        }
        let rest = slice_of(t, i, t.len());
        append_chars(&mut out, rest.as_slice());
        assert(rest@ =~= t@.skip(i as int));
        return out;
    }
}

// ----------------------------- URIs -----------------------------

/// The host of a URI: an address masked, a port kept; names as they are.
pub open spec fn masked_host(t: Seq<char>) -> Seq<char> {
    match addr_text::socket_of(t) {
        Some(a) => masked_ip(a.ip) + ":"@ + text::dec(a.port as nat),
        None => match addr_text::ip_of(t) {
            Some(ip) => masked_ip(ip),
            None => match bracketed(t) {
                Some(v) => "["@ + masked_ip(IpAddr::V6(v)) + "]"@,
                None => t,
            },
        },
    }
}

/// The IPv6 address that a text holds in square brackets.
pub open spec fn bracketed(t: Seq<char>) -> Option<u128> {
    if t.len() >= 2 && t[0] == '[' && t.last() == ']' {
        addr_text::v6_of(t.subrange(1, t.len() - 1))
    } else {
        None
    }
}

fn mask_host(t: &[char]) -> (r: Vec<char>)
    ensures
        r@ == masked_host(t@),
{
    if let Some(a) = parse_socket(t) {
        let mut m = mask_ip(a.ip);
        m.push_str(":");
        push_dec(&mut m, a.port as u64);
        return chars_of(m.as_str());
    }
    if let Some(ip) = parse_ip_addr(t) {
        let m = mask_ip(ip);
        return chars_of(m.as_str());
    }
    let n: usize = t.len();
    if n >= 2 && t[0] == '[' && t[n - 1] == ']' {
        let inner = slice_of(t, 1, n - 1);
        if let Some(v) = parse_v6(inner.as_slice()) {
            let mut m = String::new();
            m.push_str("[");
            let a = mask_ip(IpAddr::V6(v));
            m.push_str(a.as_str());
            m.push_str("]");
            assert(m@ =~= masked_host(t@));
            return chars_of(m.as_str());
        }
    }
    let r = slice_of(t, 0, n);
    assert(r@ =~= t@);
    r
}

/// What stands between scheme and parameters: user and host masked.
pub open spec fn masked_addr(t: Seq<char>) -> Seq<char> {
    match text::split_once_at(t, '@') {
        Some((user, host)) => masked_user(user) + seq!['@'] + masked_host(host),
        None => masked_host(t),
    }
}

fn mask_addr(t: &[char]) -> (r: Vec<char>)
    ensures
        r@ == masked_addr(t@),
{
    match split_once(t, '@') {
        Some((user, host)) => {
            let mut m = mask_chars(user.as_slice());
            m.push('@');
            let h = mask_host(host.as_slice());
            append_chars(&mut m, h.as_slice());
            m
        },
        None => mask_host(t),
    }
}

/// How long the scheme of a SIP URI is; nothing, if it is none.
pub open spec fn scheme_len(t: Seq<char>) -> int {
    if text::occurs_at(t, "sips:"@, 0) {
        5
    } else if text::occurs_at(t, "sip:"@, 0) {
        4
    } else {
        0
    }
}

fn scheme_of(t: &[char]) -> (r: usize)
    ensures
        r == scheme_len(t@),
        r <= t@.len(),
{
    proof {
        reveal_strlit("sips:");
        reveal_strlit("sip:");
    }
    if begins_with(t, "sips:") {
        5
    } else if begins_with(t, "sip:") {
        4
    } else {
        0
    }
}

/// A URI with user and host masked, parameters kept.
#[verifier::opaque]
pub open spec fn masked_uri(t: Seq<char>) -> Seq<char> {
    let n = scheme_len(t);
    if n == 0 {
        t
    } else {
        match text::split_once_at(t.skip(n), ';') {
            Some((addr, params)) => t.take(n) + masked_addr(addr) + seq![';'] + params,
            None => t.take(n) + masked_addr(t.skip(n)),
        }
    }
}

/// Masks the user and host of a `sip:` or `sips:` URI.
pub fn mask_uri(t: &[char]) -> (r: Vec<char>)
    ensures
        r@ == masked_uri(t@),
{
    proof {
        reveal(masked_uri);
    }
    let n: usize = scheme_of(t);
    if n == 0 {
        let r = slice_of(t, 0, t.len());
        assert(r@ =~= t@);
        return r;
    }
    let mut out = slice_of(t, 0, n);
    assert(out@ =~= t@.take(n as int));
    let rest = slice_of(t, n, t.len());
    assert(rest@ =~= t@.skip(n as int));
    match split_once(rest.as_slice(), ';') {
        Some((addr, params)) => {
            let m = mask_addr(addr.as_slice());
            append_chars(&mut out, m.as_slice());
            out.push(';');
            append_chars(&mut out, params.as_slice());
        },
        None => {
            let m = mask_addr(rest.as_slice());
            append_chars(&mut out, m.as_slice());
        },
    }
    assert(out@ =~= masked_uri(t@));
    out
}

/// Where the next SIP URI begins, from `i` on; the length, if there is none.
pub open spec fn next_uri(t: Seq<char>, i: int) -> int {
    let a = match text::find_from(t, "sips:"@, i) {
        Some(k) => k,
        None => t.len() as int,
    };
    let b = match text::find_from(t, "sip:"@, i) {
        Some(k) => k,
        None => t.len() as int,
    };
    if a < b {
        a
    } else {
        b
    }
}

/// Where a URI that begins at `a` ends.
pub open spec fn uri_stop(t: Seq<char>, a: int) -> int {
    text::scan(
        t,
        a + if text::occurs_at(t, "sips:"@, a) {
            5int
        } else {
            4int
        },
        Class::UriEnd,
        true,
    )
}

/// From `i` on, with every SIP URI masked.
pub open spec fn uris_from(t: Seq<char>, i: int) -> Seq<char>
    decreases t.len() - i,
{
    let a = next_uri(t, i);
    let b = uri_stop(t, a);
    if 0 <= i <= a < b <= t.len() {
        t.subrange(i, a) + masked_uri(t.subrange(a, b)) + uris_from(t, b)
    } else {
        t.skip(i)
    }
}

/// Where the next SIP URI from `i` on begins and ends.
fn find_uri(t: &[char], i: usize) -> (r: Option<(usize, usize)>)
    requires
        i <= t@.len(),
    ensures
        match r {
            Some((a, b)) => i <= a < b <= t@.len() && a == next_uri(t@, i as int) && b == uri_stop(
                t@,
                a as int,
            ),
            None => next_uri(t@, i as int) == t@.len(),
        },
{
    proof {
        reveal_strlit("sips:");
        reveal_strlit("sip:");
        text::lemma_find_from(t@, "sips:"@, i as int);
        text::lemma_find_from(t@, "sip:"@, i as int);
    }
    let sips = chars_of("sips:");
    let sip = chars_of("sip:");
    let n: usize = t.len();
    let x: usize = match find(t, sips.as_slice(), i) {
        Some(k) => k,
        None => n,
    };
    let y: usize = match find(t, sip.as_slice(), i) {
        Some(k) => k,
        None => n,
    };
    let a: usize = if x < y {
        x
    } else {
        y
    };
    if a >= n {
        return None;
    }
    let len: usize = if text::stands_at(t, sips.as_slice(), a) {
        5
    } else {
        4
    };
    proof {
        text::lemma_scan(t@, a + len, Class::UriEnd, true);
    }
    let b: usize = find_class(t, a + len, Class::UriEnd, true);
    Some((a, b))
}

/// Masks every `sip:` and `sips:` URI.
pub fn mask_sip_uris(t: &[char]) -> (r: Vec<char>)
    ensures
        r@ == uris_from(t@, 0),
{
    let mut out: Vec<char> = Vec::new();
    let mut i: usize = 0;
    let ghost all = uris_from(t@, 0);
    assert(all =~= out@ + uris_from(t@, 0));
    loop
        invariant
            i <= t@.len(),
            all == uris_from(t@, 0),
            all == out@ + uris_from(t@, i as int),
        decreases t@.len() - i,
    {
        match find_uri(t, i) {
            Some((a, b)) => {
                let ghost before = out@;
                let head = slice_of(t, i, a);
                let uri = slice_of(t, a, b);
                let m = mask_uri(uri.as_slice());
                append_chars(&mut out, head.as_slice());
                append_chars(&mut out, m.as_slice());
                proof {
                    let x = t@.subrange(i as int, a as int);
                    let y = masked_uri(t@.subrange(a as int, b as int));
                    assert(uris_from(t@, i as int) == x + y + uris_from(t@, b as int));
                    assert(out@ == before + x + y);
                    assert(before + x + y + uris_from(t@, b as int) =~= before + (x + y
                        + uris_from(t@, b as int)));
                }
                i = b;
            },
            None => {
                let rest = slice_of(t, i, t.len());
                append_chars(&mut out, rest.as_slice());
                assert(rest@ =~= t@.skip(i as int));
                return out;
            },
        }
    }
}

// ----------------------------- bare addresses -----------------------------

/// Where a dotted quad that begins at `i` ends, if one does; `part` octets have
/// been read.
pub open spec fn quad_end(t: Seq<char>, i: int, part: nat) -> Option<int>
    decreases 4 - part,
{
    let e = text::scan(t, i, Class::Digit, false);
    if part > 3 || !(0 <= i <= e) || addr_text::octet_of(t.subrange(i, e)) is None {
        None
    } else if part == 3 {
        Some(e)
    } else if e < t.len() && t[e] == '.' {
        quad_end(t, e + 1, part + 1)
    } else {
        None
    }
}

/// Where the dotted quad at `i` ends, if one stands there.
pub fn ipv4_end(t: &[char], i: usize) -> (r: Option<usize>)
    requires
        i <= t@.len(),
    ensures
        match quad_end(t@, i as int, 0) {
            Some(e) => r == Some(e as usize) && i <= e <= t@.len(),
            None => r is None,
        },
{
    let mut at: usize = i;
    let mut part: usize = 0;
    loop
        invariant
            i <= at <= t@.len(),
            part <= 3,
            quad_end(t@, i as int, 0) == quad_end(t@, at as int, part as nat),
        decreases 4 - part,
    {
        proof {
            text::lemma_scan(t@, at as int, Class::Digit, false);
        }
        let e: usize = find_class(t, at, Class::Digit, false);
        let o = slice_of(t, at, e);
        match addr_text::parse_octet(&o) {
            Some(_) => {},
            None => {
                return None;
            },
        }
        if part == 3 {
            return Some(e);
        }
        if e >= t.len() || t[e] != '.' {
            return None;
        }
        at = e + 1;
        part += 1;
    }
}

/// Where a port that follows at `i` ends; `i`, if none does.
pub open spec fn port_end(t: Seq<char>, i: int) -> int {
    if 0 <= i && i + 1 < t.len() && t[i] == ':' && text::is_digit(t[i + 1]) {
        text::scan(t, i + 1, Class::Digit, false)
    } else {
        i
    }
}

fn port_stop(t: &[char], i: usize) -> (r: usize)
    requires
        i <= t@.len(),
    ensures
        r == port_end(t@, i as int),
        i <= r <= t@.len(),
{
    if i < t.len() && t.len() - i >= 2 && t[i] == ':' && t[i + 1] >= '0' && t[i + 1] <= '9' {
        proof {
            text::lemma_scan(t@, i + 1, Class::Digit, false);
        }
        find_class(t, i + 1, Class::Digit, false)
    } else {
        i
    }
}

/// Whether an address without brackets may begin at `i`: not within a word or another
/// address, but behind the colon of a name.
pub open spec fn may_begin(t: Seq<char>, i: int) -> bool {
    ||| i == 0
    ||| !Class::Word.has(t[i - 1]) && !Class::AddrPart.has(t[i - 1])
    ||| t[i - 1] == ':' && t[i] != ':' && (i == 1 || !Class::AddrPart.has(t[i - 2]))
}

fn begins_addr(t: &[char], i: usize) -> (r: bool)
    requires
        i < t@.len(),
    ensures
        r == may_begin(t@, i as int),
{
    if i == 0 {
        return true;
    }
    let c = t[i - 1];
    if !Class::Word.holds(c) && !Class::AddrPart.holds(c) {
        return true;
    }
    c == ':' && t[i] != ':' && (i == 1 || !Class::AddrPart.holds(t[i - 2]))
}

/// The IPv6 address that stands between `i` and `e`, or up to the full stop or colon
/// before `e`, if no word goes on behind it.
pub open spec fn v6_between(t: Seq<char>, i: int, e: int) -> Option<(IpAddr, int)> {
    if e < t.len() && Class::Word.has(t[e]) {
        None
    } else {
        match addr_text::v6_of(t.subrange(i, e)) {
            Some(v) => Some((IpAddr::V6(v), e)),
            None => if i + 1 < e && (t[e - 1] == '.' || t[e - 1] == ':') {
                match addr_text::v6_of(t.subrange(i, e - 1)) {
                    Some(v) => Some((IpAddr::V6(v), e - 1)),
                    None => None,
                }
            } else {
                None
            },
        }
    }
}

/// The IPv6 address without brackets that begins at `i`, and where it ends.
pub open spec fn bare_v6_at(t: Seq<char>, i: int) -> Option<(IpAddr, int)> {
    let e = text::scan(t, i, Class::AddrPart, false);
    if i < e && may_begin(t, i) {
        v6_between(t, i, e)
    } else {
        None
    }
}

fn read_bare_v6(t: &[char], i: usize) -> (r: Option<(IpAddr, usize)>)
    requires
        i < t@.len(),
    ensures
        match bare_v6_at(t@, i as int) {
            Some((ip, e)) => r == Some((ip, e as usize)) && i < e <= t@.len(),
            None => r is None,
        },
{
    proof {
        text::lemma_scan(t@, i as int, Class::AddrPart, false);
    }
    let e: usize = find_class(t, i, Class::AddrPart, false);
    if i >= e || !begins_addr(t, i) {
        return None;
    }
    if e < t.len() && Class::Word.holds(t[e]) {
        return None;
    }
    let all = slice_of(t, i, e);
    if let Some(v) = parse_v6(all.as_slice()) {
        return Some((IpAddr::V6(v), e));
    }
    if i + 1 < e && (t[e - 1] == '.' || t[e - 1] == ':') {
        let most = slice_of(t, i, e - 1);
        if let Some(v) = parse_v6(most.as_slice()) {
            return Some((IpAddr::V6(v), e - 1));
        }
    }
    None
}

/// The address that begins at `i`, and where it ends: IPv6, in square brackets or
/// without, or a dotted quad.
pub open spec fn addr_at(t: Seq<char>, i: int) -> Option<(IpAddr, int)> {
    let close = text::scan(t, i + 1, Class::Is(']'), true);
    if t[i] == '[' && close < t.len() && addr_text::v6_of(t.subrange(i + 1, close)) is Some {
        Some((IpAddr::V6(addr_text::v6_of(t.subrange(i + 1, close))->Some_0), close + 1))
    } else if bare_v6_at(t, i) is Some {
        bare_v6_at(t, i)
    } else if text::is_digit(t[i]) {
        match quad_end(t, i, 0) {
            Some(e) => match addr_text::v4_of(t.subrange(i, e)) {
                Some(v) => Some((IpAddr::V4(v), e)),
                None => None,
            },
            None => None,
        }
    } else {
        None
    }
}

fn read_addr(t: &[char], i: usize) -> (r: Option<(IpAddr, usize)>)
    requires
        i < t@.len(),
    ensures
        match addr_at(t@, i as int) {
            Some((ip, e)) => r == Some((ip, e as usize)) && i < e <= t@.len(),
            None => r is None,
        },
{
    if t[i] == '[' {
        proof {
            text::lemma_scan(t@, i + 1, Class::Is(']'), true);
        }
        let close: usize = find_class(t, i + 1, Class::Is(']'), true);
        if close < t.len() {
            let inner = slice_of(t, i + 1, close);
            if let Some(v) = parse_v6(inner.as_slice()) {
                return Some((IpAddr::V6(v), close + 1));
            }
        }
    }
    if let Some(found) = read_bare_v6(t, i) {
        return Some(found);
    }
    if t[i] >= '0' && t[i] <= '9' {
        proof {
            lemma_quad_end(t@, i as int, 0);
        }
        if let Some(e) = ipv4_end(t, i) {
            let quad = slice_of(t, i, e);
            if let Some(v) = parse_v4(quad.as_slice()) {
                return Some((IpAddr::V4(v), e));
            }
        }
    }
    None
}

proof fn lemma_quad_end(t: Seq<char>, i: int, part: nat)
    requires
        0 <= i <= t.len(),
    ensures
        quad_end(t, i, part) matches Some(e) ==> i < e <= t.len(),
    decreases 4 - part,
{
    text::lemma_scan(t, i, Class::Digit, false);
    let e = text::scan(t, i, Class::Digit, false);
    if part < 3 && e < t.len() && t[e] == '.' {
        lemma_quad_end(t, e + 1, part + 1);
    }
}

/// From `i` on, with every address masked; a port behind one is kept.
pub open spec fn ips_from(t: Seq<char>, i: int) -> Seq<char>
    decreases t.len() - i,
{
    if i < 0 || i >= t.len() {
        Seq::empty()
    } else {
        match addr_at(t, i) {
            Some((ip, e)) => {
                let p = port_end(t, e);
                if i < e <= p <= t.len() {
                    masked_ip(ip) + t.subrange(e, p) + ips_from(t, p)
                } else {
                    Seq::empty()
                }
            },
            None => seq![t[i]] + ips_from(t, i + 1),
        }
    }
}

/// Masks every address, keeping the ports.
pub fn mask_ips(t: &[char]) -> (r: Vec<char>)
    ensures
        r@ == ips_from(t@, 0),
{
    let mut out: Vec<char> = Vec::new();
    let mut i: usize = 0;
    let ghost all = ips_from(t@, 0);
    assert(all =~= out@ + ips_from(t@, 0));
    while i < t.len()
        invariant
            i <= t@.len(),
            all == out@ + ips_from(t@, i as int),
        decreases t@.len() - i,
    {
        let ghost before = out@;
        match read_addr(t, i) {
            Some((ip, e)) => {
                let p: usize = port_stop(t, e);
                let m = mask_ip(ip);
                let m = chars_of(m.as_str());
                append_chars(&mut out, m.as_slice());
                let port = slice_of(t, e, p);
                append_chars(&mut out, port.as_slice());
                assert(out@ + ips_from(t@, p as int) =~= before + ips_from(t@, i as int));
                i = p;
            },
            None => {
                out.push(t[i]);
                assert(out@ + ips_from(t@, i + 1) =~= before + ips_from(t@, i as int));
                i += 1;
            },
        }
    }
    assert(out@ + ips_from(t@, i as int) =~= out@);
    out
}

// ----------------------------- messages -----------------------------

/// Text without the white space at its beginning.
pub open spec fn left_trimmed(t: Seq<char>) -> Seq<char> {
    t.skip(text::scan(t, 0, Class::Space, false))
}

/// Whether a line is a header that names a person.
pub open spec fn names_person(t: Seq<char>) -> bool {
    match text::split_once_at(left_trimmed(t), ':') {
        Some((h, _)) => {
            ||| text::same_word(h, "FROM"@)
            ||| text::same_word(h, "TO"@)
            ||| text::same_word(h, "P-ASSERTED-IDENTITY"@)
            ||| text::same_word(h, "REMOTE-PARTY-ID"@)
        },
        None => false,
    }
}

fn is_identity(t: &[char]) -> (r: bool)
    ensures
        r == names_person(t@),
{
    proof {
        text::lemma_scan(t@, 0, Class::Space, false);
    }
    let i: usize = find_class(t, 0, Class::Space, false);
    let l = slice_of(t, i, t.len());
    assert(l@ =~= left_trimmed(t@));
    match split_once(l.as_slice(), ':') {
        Some((h, _)) => {
            let h = h.as_slice();
            eq_ignore_case(h, "FROM") || eq_ignore_case(h, "TO") || eq_ignore_case(
                h,
                "P-ASSERTED-IDENTITY",
            ) || eq_ignore_case(h, "REMOTE-PARTY-ID")
        },
        None => false,
    }
}

/// A line of a message, masked.
#[verifier::opaque]
pub open spec fn masked_line(t: Seq<char>) -> Seq<char> {
    let u = uris_from(t, 0);
    ips_from(
        if names_person(t) {
            names_from(u, 0)
        } else {
            u
        },
        0,
    )
}

fn mask_line(t: &[char]) -> (r: Vec<char>)
    ensures
        r@ == masked_line(t@),
{
    proof {
        reveal(masked_line);
    }
    let person: bool = is_identity(t);
    let u = mask_sip_uris(t);
    if person {
        let v = mask_display_names(u.as_slice());
        mask_ips(v.as_slice())
    } else {
        mask_ips(u.as_slice())
    }
}

/// The first `n` lines, masked, with line feeds between them.
pub open spec fn masked_lines(v: Seq<Seq<char>>, n: int) -> Seq<char>
    decreases n,
{
    if n <= 0 {
        Seq::empty()
    } else if n == 1 {
        masked_line(v[0])
    } else {
        masked_lines(v, n - 1) + seq!['\n'] + masked_line(v[n - 1])
    }
}

/// A message, masked line by line.
pub open spec fn masked_raw(t: Seq<char>) -> Seq<char> {
    masked_lines(text::lines_of(t), text::lines_of(t).len() as int)
}

/// Masks a SIP message: users and hosts of URIs, display names in the headers
/// that name a person, and every address.
pub fn mask_raw(s: &str) -> (r: String)
    ensures
        r@ == masked_raw(s@),
{
    let t = chars_of(s);
    let v = lines(t.as_slice());
    let ghost vs = text::lines_of(s@);
    let mut out: Vec<char> = Vec::new();
    let mut i: usize = 0;
    while i < v.len()
        invariant
            i <= v.len(),
            text::deep(v@) == vs,
            out@ == masked_lines(vs, i as int),
        decreases v.len() - i,
    {
        assert(vs[i as int] == v@[i as int]@);
        if i > 0 {
            out.push('\n');
        }
        let m = mask_line(v[i].as_slice());
        append_chars(&mut out, m.as_slice());
        i += 1;
        assert(out@ =~= masked_lines(vs, i as int));
    }
    assert(vs.len() == v@.len());
    string_of(out.as_slice())
}

// ----------------------------- laws -----------------------------

/// Of a user with more than seven characters nothing but the first three and the
/// last four shows.
pub proof fn law_user_hidden(a: Seq<char>, b: Seq<char>)
    requires
        a.len() > 7,
        b.len() > 7,
        a.take(3) == b.take(3),
        a.skip(a.len() - 4) == b.skip(b.len() - 4),
    ensures
        masked_user(a) == masked_user(b),
        masked_user(a).len() == 8,
{
}

/// Of an IPv4 address nothing but the first and the last octet shows.
pub proof fn law_ip_hidden(a: u32, b: u32)
    requires
        addr_text::octet(a, 0) == addr_text::octet(b, 0),
        addr_text::octet(a, 3) == addr_text::octet(b, 3),
    ensures
        masked_ip(IpAddr::V4(a)) == masked_ip(IpAddr::V4(b)),
{
}

/// An address that stands in a text shows only in its masked form.
pub proof fn law_address_masked(t: Seq<char>, i: int)
    requires
        0 <= i < t.len(),
        addr_at(t, i) is Some,
    ensures
        ({
            let (ip, e) = addr_at(t, i)->Some_0;
            let p = port_end(t, e);
            ips_from(t, i) == masked_ip(ip) + t.subrange(e, p) + ips_from(t, p)
        }),
{
    let (ip, e) = addr_at(t, i)->Some_0;
    text::lemma_scan(t, i + 1, Class::Is(']'), true);
    text::lemma_scan(t, i, Class::AddrPart, false);
    lemma_quad_end(t, i, 0);
    if e <= t.len() - 2 {
        text::lemma_scan(t, e + 1, Class::Digit, false);
    }
}

/// An IPv6 address that stands in a text by itself, with no word or address part
/// around it, shows only its first and last group.
pub proof fn law_bare_v6_masked(t: Seq<char>, i: int, e: int)
    requires
        0 <= i < e <= t.len(),
        may_begin(t, i),
        forall|k: int| i <= k < e ==> Class::AddrPart.has(#[trigger] t[k]),
        e < t.len() ==> !Class::AddrPart.has(t[e]) && !Class::Word.has(t[e]),
        addr_text::v6_of(t.subrange(i, e)) is Some,
    ensures
        ips_from(t, i) == masked_ip(
            IpAddr::V6(addr_text::v6_of(t.subrange(i, e))->Some_0),
        ) + ips_from(t, e),
{
    text::lemma_scan(t, i, Class::AddrPart, false);
    let s = text::scan(t, i, Class::AddrPart, false);
    assert(s == e) by {
        if s < e {
            assert(Class::AddrPart.has(t[s]));
        }
        if s > e {
            assert(Class::AddrPart.has(t[e]));
        }
    }
    assert(t[i] != '[') by {
        assert(Class::AddrPart.has(t[i]));
    }
    assert(t.subrange(e, e) =~= Seq::empty());
    let m = masked_ip(IpAddr::V6(addr_text::v6_of(t.subrange(i, e))->Some_0));
    assert(m + Seq::<char>::empty() =~= m);
}

} // verus!
