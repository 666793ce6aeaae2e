//! SIP messages on the wire.
use crate::correlate::call;
use crate::correlate::call::extract_attr;
use crate::decode::tcp_reasm;
use crate::decode::tcp_reasm::find_double_crlf;
use crate::export::tables;
use crate::export::tables::parse_method;
use crate::model::addr::SocketAddr;
use crate::model::addr_text;
use crate::model::addr_text::{parse_ip_addr, parse_socket};
use crate::model::packet::Flow5Tuple;
use crate::model::sip::{Method, MsgView, SipMsg};
use crate::octets::to_vec;
use crate::text;
use crate::text::{
    begins_with, chars_of, contains, eq_ignore_case, find_class, is_word, lines, lossy_string,
    parse_uint, slice_of, split_once, string_of, take_before, to_lower, trim, words, Class,
};
use vstd::prelude::*;
use vstd::slice::slice_subrange;

verus! {

// ----------------------------- the first line -----------------------------

/// What the first line of a message says.
#[derive(Debug, Clone, Copy, PartialEq, Eq, Structural)]
pub enum Start {
    Request(Method),
    Response(u16),
}

/// A status line has the version and a status from 100 to 699; a request line
/// has a method, a URI and the version.
pub open spec fn start_of(l: Seq<char>) -> Option<Start> {
    let w = text::words_of(l);
    if w.len() >= 2 && w[0] == "SIP/2.0"@ {
        match text::uint_of(w[1], 699) {
            Some(n) => if n >= 100 {
                Some(Start::Response(n as u16))
            } else {
                None
            },
            None => None,
        }
    } else if w.len() == 3 && w[2] == "SIP/2.0"@ {
        Some(Start::Request(tables::method_of(w[0])))
    } else {
        None
    }
}

/// Reads the first line of a message.
pub fn parse_start(l: &[char]) -> (r: Option<Start>)
    ensures
        r == start_of(l@),
{
    let w = words(l);
    let ghost wv = text::words_of(l@);
    assert(wv.len() == w@.len());
    if w.len() >= 2 {
        assert(wv[0] == w@[0]@ && wv[1] == w@[1]@);
        if is_word(w[0].as_slice(), "SIP/2.0") {
            return match parse_uint(w[1].as_slice(), 699) {
                Some(n) => if n >= 100 {
                    Some(Start::Response(n as u16))
                } else {
                    None
                },
                None => None,
            };
        }
    }
    if w.len() == 3 {
        assert(wv[2] == w@[2]@);
        if is_word(w[2].as_slice(), "SIP/2.0") {
            let m = string_of(w[0].as_slice());
            return Some(Start::Request(parse_method(m.as_str())));
        }
    }
    None
}

// ----------------------------- headers -----------------------------

/// The value of a header line, if it has the long or the short name.
pub open spec fn named_value(line: Seq<char>, long: Seq<char>, short: Seq<char>) -> Option<
    Seq<char>,
> {
    match text::split_once_at(line, ':') {
        Some((n, v)) => if text::same_word(text::trimmed(n), long) || text::same_word(
            text::trimmed(n),
            short,
        ) {
            Some(text::trimmed(v))
        } else {
            None
        },
        None => None,
    }
}

/// The first value of a header in the lines from `i` on.
pub open spec fn first_value(
    ls: Seq<Seq<char>>,
    long: Seq<char>,
    short: Seq<char>,
    i: int,
) -> Option<Seq<char>>
    decreases ls.len() - i,
{
    if i >= ls.len() {
        None
    } else if named_value(ls[i], long, short) is Some {
        named_value(ls[i], long, short)
    } else {
        first_value(ls, long, short, i + 1)
    }
}

/// How many of the first `n` lines are that header.
pub open spec fn count_of(ls: Seq<Seq<char>>, name: Seq<char>, n: int) -> int
    decreases n,
{
    if n <= 0 {
        0
    } else {
        count_of(ls, name, n - 1) + if named_value(ls[n - 1], name, name) is Some {
            1int
        } else {
            0
        }
    }
}

fn read_value(line: &Vec<char>, long: &str, short: &str) -> (r: Option<Vec<char>>)
    ensures
        match named_value(line@, long@, short@) {
            Some(v) => r is Some && r->Some_0@ == v,
            None => r is None,
        },
{
    match split_once(line.as_slice(), ':') {
        Some((n, v)) => {
            let n = trim(n.as_slice());
            if eq_ignore_case(n.as_slice(), long) || eq_ignore_case(n.as_slice(), short) {
                Some(trim(v.as_slice()))
            } else {
                None
            }
        },
        None => None,
    }
}

fn header(ls: &Vec<Vec<char>>, long: &str, short: &str) -> (r: Option<Vec<char>>)
    ensures
        match first_value(text::deep(ls@), long@, short@, 0) {
            Some(v) => r is Some && r->Some_0@ == v,
            None => r is None,
        },
{
    let ghost lv = text::deep(ls@);
    let mut i: usize = 0;
    while i < ls.len()
        invariant
            i <= ls.len(),
            lv == text::deep(ls@),
            first_value(lv, long@, short@, 0) == first_value(lv, long@, short@, i as int),
        decreases ls.len() - i,
    {
        assert(lv[i as int] == ls@[i as int]@);
        let r = read_value(&ls[i], long, short);
        if r.is_some() {
            return r;
        }
        i += 1;
    }
    None
}

fn count(ls: &Vec<Vec<char>>, name: &str) -> (r: usize)
    ensures
        r == count_of(text::deep(ls@), name@, ls@.len() as int),
{
    let ghost lv = text::deep(ls@);
    let mut n: usize = 0;
    let mut i: usize = 0;
    while i < ls.len()
        invariant
            i <= ls.len(),
            lv == text::deep(ls@),
            n == count_of(lv, name@, i as int),
            n <= i,
        decreases ls.len() - i,
    {
        assert(lv[i as int] == ls@[i as int]@);
        if read_value(&ls[i], name, name).is_some() {
            n += 1;
        }
        i += 1;
    }
    n
}

// ----------------------------- values -----------------------------

/// A From or To value without its parameters.
pub open spec fn name_addr(v: Seq<char>) -> Seq<char> {
    let j = text::scan(v, 0, Class::Is('>'), true);
    if j < v.len() {
        v.take(j + 1)
    } else {
        text::trimmed(text::before(v, ';'))
    }
}

fn without_params(v: &[char]) -> (r: Vec<char>)
    ensures
        r@ == name_addr(v@),
{
    let j: usize = find_class(v, 0, Class::Is('>'), true);
    if j < v.len() {
        let r = slice_of(v, 0, j + 1);
        assert(r@ =~= v@.take(j + 1));
        r
    } else {
        let b = take_before(v, ';');
        trim(b.as_slice())
    }
}

/// Where the host begins in a URI without its scheme: behind the last `@`, if
/// there is one.
pub open spec fn host_at(t: Seq<char>) -> int {
    let n = call::last_before(t, '@', t.len() as int);
    if n < t.len() {
        n + 1
    } else {
        0
    }
}

/// The host and port in a Contact value.
pub open spec fn host_in(v: Seq<char>) -> Seq<char> {
    let uri = call::header_uri(v);
    let after = match call::without_prefix(uri, "sips:"@) {
        Some(r) => r,
        None => match call::without_prefix(uri, "sip:"@) {
            Some(r) => r,
            None => uri,
        },
    };
    let bare = text::before(after, ';');
    text::trimmed(bare.skip(host_at(bare)))
}

/// The address that a Contact value names; port 5060, if it has none.
pub open spec fn contact_of(v: Seq<char>) -> Option<SocketAddr> {
    let h = host_in(v);
    match addr_text::socket_of(h) {
        Some(a) => Some(a),
        None => match addr_text::ip_of(h) {
            Some(ip) => Some(SocketAddr { ip, port: 5060 }),
            None => None,
        },
    }
}

fn strip_prefix(t: &[char], p: &str) -> (r: Option<Vec<char>>)
    ensures
        match call::without_prefix(t@, p@) {
            Some(x) => r is Some && r->Some_0@ == x,
            None => r is None,
        },
{
    if begins_with(t, p) {
        let n: usize = chars_of(p).len();
        let x = slice_of(t, n, t.len());
        assert(x@ =~= t@.skip(p@.len() as int));
        Some(x)
    } else {
        None
    }
}

/// Reads the address in a Contact value.
pub fn contact_addr(v: &[char]) -> (r: Option<SocketAddr>)
    ensures
        r == contact_of(v@),
{
    let i: usize = find_class(v, 0, Class::Is('<'), true);
    let uri = if i < v.len() {
        let rest = slice_of(v, i + 1, v.len());
        assert(rest@ =~= v@.skip(i + 1));
        take_before(rest.as_slice(), '>')
    } else {
        let all = slice_of(v, 0, v.len());
        assert(all@ =~= v@);
        all
    };
    let after = match strip_prefix(uri.as_slice(), "sips:") {
        Some(a) => a,
        None => match strip_prefix(uri.as_slice(), "sip:") {
            Some(a) => a,
            None => uri,
        },
    };
    let bare = take_before(after.as_slice(), ';');
    let mut n: usize = bare.len();
    while n > 0 && bare[n - 1] != '@'
        invariant
            n <= bare.len(),
            call::last_before(bare@, '@', bare@.len() as int) == call::last_before(
                bare@,
                '@',
                n as int,
            ),
        decreases n,
    {
        n -= 1;
    }
    assert(n == host_at(bare@));
    let tail = slice_of(bare.as_slice(), n, bare.len());
    assert(tail@ =~= bare@.skip(n as int));
    let h = trim(tail.as_slice());
    match parse_socket(h.as_slice()) {
        Some(a) => Some(a),
        None => match parse_ip_addr(h.as_slice()) {
            Some(ip) => Some(SocketAddr { ip, port: 5060 }),
            None => None,
        },
    }
}

/// Number and method of a CSeq value.
pub open spec fn cseq_of(v: Seq<char>) -> (Option<u32>, Option<Seq<char>>) {
    let w = text::words_of(v);
    (
        if w.len() > 0 {
            match text::uint_of(w[0], 0xffff_ffff) {
                Some(n) => Some(n as u32),
                None => None,
            }
        } else {
            None
        },
        if w.len() > 1 {
            Some(w[1])
        } else {
            None
        },
    )
}

fn read_cseq(v: &[char]) -> (r: (Option<u32>, Option<String>))
    ensures
        r.0 == cseq_of(v@).0,
        text::opt_text(r.1) == cseq_of(v@).1,
{
    let w = words(v);
    let ghost wv = text::words_of(v@);
    assert(wv.len() == w@.len());
    let n: Option<u32> = if w.len() > 0 {
        assert(wv[0] == w@[0]@);
        match parse_uint(w[0].as_slice(), 0xffff_ffff) {
            Some(n) => Some(n as u32),
            None => None,
        }
    } else {
        None
    };
    let m: Option<String> = if w.len() > 1 {
        assert(wv[1] == w@[1]@);
        Some(string_of(w[1].as_slice()))
    } else {
        None
    };
    (n, m)
}

// ----------------------------- messages -----------------------------

/// The header part of a message: what stands before the first empty line.
pub open spec fn head_of(b: Seq<u8>) -> Seq<u8> {
    match tcp_reasm::blank_line_from(b, 0) {
        Some(i) => b.take(i),
        None => b,
    }
}

/// The bytes that are kept of a message.
pub open spec fn kept(b: Seq<u8>, limit: Option<usize>) -> Seq<u8> {
    match limit {
        Some(n) => if n < b.len() {
            b.take(n as int)
        } else {
            b
        },
        None => b,
    }
}

pub open spec fn on_value(v: Option<Seq<char>>, f: spec_fn(Seq<char>) -> Option<Seq<char>>) -> Option<
    Seq<char>,
> {
    match v {
        Some(v) => f(v),
        None => None,
    }
}

/// What the header lines of a message mean. A message without a proper first
/// line or without a Call-ID is none.
pub open spec fn message_of(
    ts_us: u64,
    flow: Flow5Tuple,
    b: Seq<u8>,
    limit: Option<usize>,
    ls: Seq<Seq<char>>,
) -> Option<MsgView> {
    let id = first_value(ls, "call-id"@, "i"@, 0);
    let from = first_value(ls, "from"@, "f"@, 0);
    let to = first_value(ls, "to"@, "t"@, 0);
    let via = first_value(ls, "via"@, "v"@, 0);
    let cseq = first_value(ls, "cseq"@, "cseq"@, 0);
    let kind = first_value(ls, "content-type"@, "c"@, 0);
    let contact = first_value(ls, "contact"@, "m"@, 0);
    let start = if ls.len() > 0 {
        start_of(ls[0])
    } else {
        None
    };
    match (start, id) {
        (Some(s), Some(id)) => Some(
            MsgView {
                ts_us,
                flow,
                is_request: s is Request,
                method: match s {
                    Start::Request(m) => Some(m),
                    Start::Response(_) => None,
                },
                status: match s {
                    Start::Request(_) => None,
                    Start::Response(n) => Some(n),
                },
                call_id: id,
                cseq: match cseq {
                    Some(v) => cseq_of(v).0,
                    None => None,
                },
                cseq_method: match cseq {
                    Some(v) => cseq_of(v).1,
                    None => None,
                },
                branch: on_value(via, |v: Seq<char>| call::attr_in(v, ";branch"@)),
                from_tag: on_value(from, |v: Seq<char>| call::attr_in(v, ";tag"@)),
                to_tag: on_value(to, |v: Seq<char>| call::attr_in(v, ";tag"@)),
                from_uri: on_value(from, |v: Seq<char>| Some(name_addr(v))),
                to_uri: on_value(to, |v: Seq<char>| Some(name_addr(v))),
                raw: kept(b, limit),
                contact_addr: match contact {
                    Some(v) => contact_of(v),
                    None => None,
                },
                route_count: count_of(ls, "route"@, ls.len() as int) as usize,
                record_route_count: count_of(ls, "record-route"@, ls.len() as int) as usize,
                has_sdp: match kind {
                    Some(v) => text::has_sub(text::lower(v), "application/sdp"@),
                    None => false,
                },
            },
        ),
        _ => None,
    }
}

/// The message in a datagram or a reassembled frame.
pub open spec fn sip_message(ts_us: u64, flow: Flow5Tuple, b: Seq<u8>, limit: Option<usize>) -> Option<
    MsgView,
> {
    message_of(ts_us, flow, b, limit, text::lines_of(text::utf8_lossy(head_of(b))))
}

fn keep(b: &[u8], limit: Option<usize>) -> (r: Vec<u8>)
    ensures
        r@ == kept(b@, limit),
{
    match limit {
        Some(n) => if n < b.len() {
            let v = to_vec(slice_subrange(b, 0, n));
            assert(v@ =~= b@.take(n as int));
            v
        } else {
            to_vec(b)
        },
        None => to_vec(b),
    }
}

fn head_lines(b: &[u8]) -> (r: Vec<Vec<char>>)
    ensures
        text::deep(r@) == text::lines_of(text::utf8_lossy(head_of(b@))),
{
    let n: usize = match find_double_crlf(b) {
        Some(i) => i,
        None => b.len(),
    };
    let h = slice_subrange(b, 0, n);
    assert(h@ =~= head_of(b@));
    let s = lossy_string(h);
    let c = chars_of(s.as_str());
    lines(c.as_slice())
}

fn attr(v: &Option<Vec<char>>, name: &str) -> (r: Option<String>)
    ensures
        text::opt_text(r) == match *v {
            Some(v) => call::attr_in(v@, name@),
            None => None,
        },
{
    match v {
        Some(v) => match extract_attr(v.as_slice(), name) {
            Some(x) => Some(string_of(x.as_slice())),
            None => None,
        },
        None => None,
    }
}

fn uri(v: &Option<Vec<char>>) -> (r: Option<String>)
    ensures
        text::opt_text(r) == match *v {
            Some(v) => Some(name_addr(v@)),
            None => None,
        },
{
    match v {
        Some(v) => {
            let x = without_params(v.as_slice());
            Some(string_of(x.as_slice()))
        },
        None => None,
    }
}

fn is_sdp(v: &Option<Vec<char>>) -> (r: bool)
    ensures
        r == match *v {
            Some(v) => text::has_sub(text::lower(v@), "application/sdp"@),
            None => false,
        },
{
    match v {
        Some(v) => {
            let l = to_lower(v.as_slice());
            let p = chars_of("application/sdp");
            contains(l.as_slice(), p.as_slice())
        },
        None => false,
    }
}

/// Parses a SIP message; at most `raw_truncate` of its bytes are kept.
pub fn parse_sip(ts_us: u64, flow: Flow5Tuple, b: &[u8], raw_truncate: Option<usize>) -> (r: Option<
    SipMsg,
>)
    ensures
        match sip_message(ts_us, flow, b@, raw_truncate) {
            Some(m) => r is Some && r->Some_0@ == m,
            None => r is None,
        },
{
    let ls = head_lines(b);
    let ghost lv = text::lines_of(text::utf8_lossy(head_of(b@)));
    assert(lv.len() == ls@.len());
    if ls.len() == 0 {
        return None;
    }
    assert(lv[0] == ls@[0]@);
    let start = match parse_start(ls[0].as_slice()) {
        Some(s) => s,
        None => return None,
    };
    let call_id = match header(&ls, "call-id", "i") {
        Some(id) => string_of(id.as_slice()),
        None => return None,
    };
    let from = header(&ls, "from", "f");
    let to = header(&ls, "to", "t");
    let via = header(&ls, "via", "v");
    let kind = header(&ls, "content-type", "c");
    let (cseq, cseq_method): (Option<u32>, Option<String>) = match header(&ls, "cseq", "cseq") {
        Some(v) => read_cseq(v.as_slice()),
        None => (None, None),
    };
    let contact: Option<SocketAddr> = match header(&ls, "contact", "m") {
        Some(v) => contact_addr(v.as_slice()),
        None => None,
    };
    let (is_request, method, status): (bool, Option<Method>, Option<u16>) = match start {
        Start::Request(m) => (true, Some(m), None),
        Start::Response(n) => (false, None, Some(n)),
    };
    let m = SipMsg {
        ts_us,
        flow,
        is_request,
        method,
        status,
        call_id,
        cseq,
        cseq_method,
        branch: attr(&via, ";branch"),
        from_tag: attr(&from, ";tag"),
        to_tag: attr(&to, ";tag"),
        from_uri: uri(&from),
        to_uri: uri(&to),
        raw: keep(b, raw_truncate),
        contact_addr: contact,
        route_count: count(&ls, "route"),
        record_route_count: count(&ls, "record-route"),
        has_sdp: is_sdp(&kind),
    };
    assert(m@ == sip_message(ts_us, flow, b@, raw_truncate)->Some_0);
    Some(m)
}

/// Whether bytes begin with a text of ASCII characters.
pub open spec fn opens_with(b: Seq<u8>, s: Seq<char>) -> bool {
    s.len() <= b.len() && forall|i: int| 0 <= i < s.len() ==> #[trigger] b[i] as u32 == s[i] as u32
}

/// Whether bytes begin as a SIP message does: with the version of a status line,
/// or with a method.
pub open spec fn begins_as_sip(b: Seq<u8>) -> bool {
    opens_with(b, "SIP/2.0 "@) || opens_with(b, "INVITE "@) || opens_with(b, "ACK "@)
    || opens_with(b, "BYE "@) || opens_with(b, "CANCEL "@) || opens_with(b, "REGISTER "@)
    || opens_with(b, "OPTIONS "@) || opens_with(b, "PRACK "@) || opens_with(b, "UPDATE "@)
    || opens_with(b, "SUBSCRIBE "@) || opens_with(b, "NOTIFY "@) || opens_with(b, "PUBLISH "@)
    || opens_with(b, "INFO "@) || opens_with(b, "REFER "@) || opens_with(b, "MESSAGE "@)
}

fn opens(b: &[u8], s: &str) -> (r: bool)
    ensures
        r == opens_with(b@, s@),
{
    let t = chars_of(s);
    if t.len() > b.len() {
        return false;
    }
    let mut i: usize = 0;
    while i < t.len()
        invariant
            i <= t.len() <= b.len(),
            t@ == s@,
            forall|k: int| 0 <= k < i ==> #[trigger] b@[k] as u32 == s@[k] as u32,
        decreases t.len() - i,
    {
        if b[i] as u32 != t[i] as u32 {
            assert(b@[i as int] as u32 != s@[i as int] as u32);
            return false;
        }
        i += 1;
    }
    true
}

/// Whether a datagram holds a SIP message, judged by how it begins.
pub fn looks_like_sip(b: &[u8]) -> (r: bool)
    ensures
        r == begins_as_sip(b@),
{
    opens(b, "SIP/2.0 ") || opens(b, "INVITE ") || opens(b, "ACK ") || opens(b, "BYE ")
    || opens(b, "CANCEL ") || opens(b, "REGISTER ") || opens(b, "OPTIONS ") || opens(b, "PRACK ")
    || opens(b, "UPDATE ") || opens(b, "SUBSCRIBE ") || opens(b, "NOTIFY ")
    || opens(b, "PUBLISH ") || opens(b, "INFO ") || opens(b, "REFER ") || opens(b, "MESSAGE ")
}

} // verus!
