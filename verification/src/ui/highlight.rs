//! Colours of a raw SIP message: start line, headers, and the body.
use crate::model::sip::{Method, MsgView, SipMsg};
use crate::text;
use crate::text::{
    append_chars, begins_with, chars_of, find, find_class, is_word, lines, parse_uint, push_dec,
    slice_of, split_once, string_of, trim, words, Class,
};
use vstd::prelude::*;

verus! {

/// What a piece of text is drawn with.
#[derive(Debug, Clone, Copy, PartialEq, Eq, Structural)]
pub enum Ink {
    /// No colour of its own.
    Bare,
    Plain,
    Muted,
    Info,
    Success,
    Warning,
    Error,
    Accent,
}

/// A piece of a line.
#[derive(Debug)]
pub struct Span {
    pub content: String,
    pub ink: Ink,
    pub bold: bool,
}

/// A piece of a line by its contents.
pub struct SpanView {
    pub content: Seq<char>,
    pub ink: Ink,
    pub bold: bool,
}

impl View for Span {
    type V = SpanView;

    open spec fn view(&self) -> SpanView {
        SpanView { content: self.content@, ink: self.ink, bold: self.bold }
    }
}

pub open spec fn span_views(v: Seq<Span>) -> Seq<SpanView> {
    v.map_values(|s: Span| s@)
}

pub open spec fn line_views(v: Seq<Vec<Span>>) -> Seq<Seq<SpanView>> {
    v.map_values(|l: Vec<Span>| span_views(l@))
}

pub open spec fn piece(t: Seq<char>, ink: Ink) -> SpanView {
    SpanView { content: t, ink, bold: false }
}

pub open spec fn bold_piece(t: Seq<char>, ink: Ink) -> SpanView {
    SpanView { content: t, ink, bold: true }
}

fn put(out: &mut Vec<Span>, t: &[char], ink: Ink, bold: bool)
    ensures
        span_views(final(out)@) == span_views(old(out)@).push(
            SpanView { content: t@, ink, bold },
        ),
{
    let ghost before = out@;
    out.push(Span { content: string_of(t), ink, bold });
    assert(span_views(out@) =~= span_views(before).push(SpanView { content: t@, ink, bold }));
}

fn put_str(out: &mut Vec<Span>, t: &str, ink: Ink)
    ensures
        span_views(final(out)@) == span_views(old(out)@).push(piece(t@, ink)),
{
    let c = chars_of(t);
    put(out, c.as_slice(), ink, false);
}

// ----------------------------- tokens -----------------------------

/// What a token of a header value is.
#[derive(Debug, Clone, Copy, PartialEq, Eq, Structural)]
pub enum TokenKind {
    Uri,
    Branch,
    Tag,
}

impl TokenKind {
    pub open spec fn spec_ink(self) -> Ink {
        match self {
            TokenKind::Uri => Ink::Info,
            TokenKind::Branch => Ink::Warning,
            TokenKind::Tag => Ink::Accent,
        }
    }

    pub fn ink(self) -> (r: Ink)
        ensures
            r == self.spec_ink(),
    {
        match self {
            TokenKind::Uri => Ink::Info,
            TokenKind::Branch => Ink::Warning,
            TokenKind::Tag => Ink::Accent,
        }
    }
}

/// The first token from `i` on that begins with `p` and ends where the class
/// says.
pub open spec fn token_like(
    t: Seq<char>,
    i: int,
    p: Seq<char>,
    end: Class,
    kind: TokenKind,
) -> Option<(int, int, TokenKind)> {
    match text::find_from(t, p, i) {
        Some(a) => Some((a, text::scan(t, a + p.len(), end, true), kind)),
        None => None,
    }
}

/// The earlier of two tokens; of two at the same place the longer one.
pub open spec fn better(
    a: Option<(int, int, TokenKind)>,
    b: Option<(int, int, TokenKind)>,
) -> Option<(int, int, TokenKind)> {
    match (a, b) {
        (None, _) => b,
        (_, None) => a,
        (Some(x), Some(y)) => if y.0 < x.0 || (y.0 == x.0 && y.1 > x.1) {
            b
        } else {
            a
        },
    }
}

/// The next token from `i` on: a URI, a branch or a tag.
pub open spec fn token_from(t: Seq<char>, i: int) -> Option<(int, int, TokenKind)> {
    better(
        better(
            better(
                token_like(t, i, "sips:"@, Class::BareUriEnd, TokenKind::Uri),
                token_like(t, i, "sip:"@, Class::BareUriEnd, TokenKind::Uri),
            ),
            token_like(t, i, ";branch="@, Class::ParamEnd, TokenKind::Branch),
        ),
        token_like(t, i, ";tag="@, Class::ParamEnd, TokenKind::Tag),
    )
}

pub open spec fn as_ints(r: Option<(usize, usize, TokenKind)>) -> Option<(int, int, TokenKind)> {
    match r {
        Some((a, b, k)) => Some((a as int, b as int, k)),
        None => None,
    }
}

/// A token that begins with `p`.
fn find_like(t: &[char], i: usize, p: &str, end: Class, kind: TokenKind) -> (r: Option<
    (usize, usize, TokenKind),
>)
    requires
        i <= t@.len(),
        p@.len() > 0,
    ensures
        as_ints(r) == token_like(t@, i as int, p@, end, kind),
        r matches Some((a, b, _)) ==> i <= a < b <= t@.len(),
{
    let c = chars_of(p);
    let n: usize = t.len();
    match find(t, c.as_slice(), i) {
        Some(a) => {
            assert(a + p@.len() <= n);
            proof {
                text::lemma_scan(t@, a + p@.len(), end, true);
            }
            let b: usize = find_class(t, a + c.len(), end, true);
            Some((a, b, kind))
        },
        None => None,
    }
}

fn better_of(
    a: Option<(usize, usize, TokenKind)>,
    b: Option<(usize, usize, TokenKind)>,
) -> (r: Option<(usize, usize, TokenKind)>)
    ensures
        as_ints(r) == better(as_ints(a), as_ints(b)),
        r == a || r == b,
{
    match (a, b) {
        (None, _) => b,
        (_, None) => a,
        (Some(x), Some(y)) => if y.0 < x.0 || (y.0 == x.0 && y.1 > x.1) {
            b
        } else {
            a
        },
    }
}

/// Finds the next token to be coloured, from `i` on.
pub fn next_token(t: &[char], i: usize) -> (r: Option<(usize, usize, TokenKind)>)
    requires
        i <= t@.len(),
    ensures
        as_ints(r) == token_from(t@, i as int),
        r matches Some((a, b, _)) ==> i <= a < b <= t@.len(),
{
    proof {
        reveal_strlit("sips:");
        reveal_strlit("sip:");
        reveal_strlit(";branch=");
        reveal_strlit(";tag=");
    }
    let w = find_like(t, i, "sips:", Class::BareUriEnd, TokenKind::Uri);
    let x = find_like(t, i, "sip:", Class::BareUriEnd, TokenKind::Uri);
    let y = find_like(t, i, ";branch=", Class::ParamEnd, TokenKind::Branch);
    let z = find_like(t, i, ";tag=", Class::ParamEnd, TokenKind::Tag);
    better_of(better_of(better_of(w, x), y), z)
}

/// A header value from `i` on, token by token, after some pieces.
pub open spec fn value_spans(out: Seq<SpanView>, t: Seq<char>, i: int) -> Seq<SpanView>
    decreases t.len() - i,
{
    match token_from(t, i) {
        Some((a, b, k)) => if 0 <= i <= a < b <= t.len() {
            let head = if a > i {
                out.push(piece(t.subrange(i, a), Ink::Plain))
            } else {
                out
            };
            value_spans(head.push(piece(t.subrange(a, b), k.spec_ink())), t, b)
        } else {
            out
        },
        None => if i < t.len() {
            out.push(piece(t.skip(i), Ink::Plain))
        } else {
            out
        },
    }
}

fn put_value(out: &mut Vec<Span>, t: &[char])
    ensures
        span_views(final(out)@) == value_spans(span_views(old(out)@), t@, 0),
{
    let ghost goal = value_spans(span_views(out@), t@, 0);
    let mut i: usize = 0;
    loop
        invariant
            i <= t@.len(),
            goal == value_spans(span_views(old(out)@), t@, 0),
            goal == value_spans(span_views(out@), t@, i as int),
        decreases t@.len() - i,
    {
        match next_token(t, i) {
            Some((a, b, k)) => {
                assert(token_from(t@, i as int) == Some((a as int, b as int, k)));
                if a > i {
                    let head = slice_of(t, i, a);
                    put(out, head.as_slice(), Ink::Plain, false);
                }
                let tok = slice_of(t, a, b);
                put(out, tok.as_slice(), k.ink(), false);
                i = b;
            },
            None => {
                assert(token_from(t@, i as int) is None);
                if i < t.len() {
                    let rest = slice_of(t, i, t.len());
                    assert(rest@ =~= t@.skip(i as int));
                    put(out, rest.as_slice(), Ink::Plain, false);
                }
                return ;
            },
        }
    }
}

// ----------------------------- lines -----------------------------

pub open spec fn sip_method(t: Seq<char>) -> bool {
    ||| t == "INVITE"@
    ||| t == "ACK"@
    ||| t == "BYE"@
    ||| t == "CANCEL"@
    ||| t == "REGISTER"@
    ||| t == "OPTIONS"@
    ||| t == "PRACK"@
    ||| t == "UPDATE"@
    ||| t == "SUBSCRIBE"@
    ||| t == "NOTIFY"@
    ||| t == "PUBLISH"@
    ||| t == "INFO"@
    ||| t == "REFER"@
    ||| t == "MESSAGE"@
}

pub fn is_sip_method(t: &[char]) -> (r: bool)
    ensures
        r == sip_method(t@),
{
    is_word(t, "INVITE") || is_word(t, "ACK") || is_word(t, "BYE") || is_word(t, "CANCEL")
        || is_word(t, "REGISTER") || is_word(t, "OPTIONS") || is_word(t, "PRACK") || is_word(
        t,
        "UPDATE",
    ) || is_word(t, "SUBSCRIBE") || is_word(t, "NOTIFY") || is_word(t, "PUBLISH") || is_word(
        t,
        "INFO",
    ) || is_word(t, "REFER") || is_word(t, "MESSAGE")
}

/// The colour of a status code by its class.
pub open spec fn status_ink(code: nat) -> Ink {
    if 100 <= code < 200 {
        Ink::Info
    } else if 200 <= code < 300 {
        Ink::Success
    } else if 300 <= code < 400 {
        Ink::Warning
    } else {
        Ink::Error
    }
}

fn status_colour(code: u64) -> (r: Ink)
    ensures
        r == status_ink(code as nat),
{
    if code >= 100 && code < 200 {
        Ink::Info
    } else if code >= 200 && code < 300 {
        Ink::Success
    } else if code >= 300 && code < 400 {
        Ink::Warning
    } else {
        Ink::Error
    }
}

/// The colour of a message in the flow.
pub open spec fn message_ink(m: MsgView) -> Ink {
    if m.is_request {
        match m.method {
            Some(Method::Invite) => Ink::Success,
            Some(Method::Bye) | Some(Method::Cancel) => Ink::Error,
            _ => Ink::Info,
        }
    } else {
        match m.status {
            Some(s) => if 200 <= s < 300 {
                Ink::Success
            } else if s >= 300 {
                Ink::Error
            } else {
                Ink::Warning
            },
            None => Ink::Warning,
        }
    }
}

pub fn msg_ink(m: &SipMsg) -> (r: Ink)
    ensures
        r == message_ink(m@),
{
    if m.is_request {
        match m.method {
            Some(Method::Invite) => Ink::Success,
            Some(Method::Bye) | Some(Method::Cancel) => Ink::Error,
            _ => Ink::Info,
        }
    } else {
        match m.status {
            Some(s) => if s >= 200 && s < 300 {
                Ink::Success
            } else if s >= 300 {
                Ink::Error
            } else {
                Ink::Warning
            },
            None => Ink::Warning,
        }
    }
}

/// Words from `i` on, with a space before each.
pub open spec fn spaced(w: Seq<Seq<char>>, i: int) -> Seq<char>
    decreases w.len() - i,
{
    if i >= w.len() {
        Seq::empty()
    } else {
        seq![' '] + w[i] + spaced(w, i + 1)
    }
}

fn join_spaced(w: &Vec<Vec<char>>, i: usize) -> (r: Vec<char>)
    requires
        i <= w@.len(),
    ensures
        r@ == spaced(text::deep(w@), i as int),
    decreases w@.len() - i,
{
    let mut out: Vec<char> = Vec::new();
    if i < w.len() {
        out.push(' ');
        append_chars(&mut out, w[i].as_slice());
        let rest = join_spaced(w, i + 1);
        append_chars(&mut out, rest.as_slice());
    }
    assert(out@ =~= spaced(text::deep(w@), i as int));
    out
}

/// A request line: `METHOD uri SIP/2.0`.
pub open spec fn is_request_line(w: Seq<Seq<char>>) -> bool {
    w.len() == 3 && sip_method(w[0]) && text::occurs_at(w[2], "SIP/"@, 0)
}

/// The code of a status line: `SIP/2.0 200 OK`.
pub open spec fn status_of(w: Seq<Seq<char>>) -> Option<nat> {
    if w.len() >= 2 && text::occurs_at(w[0], "SIP/"@, 0) {
        text::uint_of(w[1], 0xffff)
    } else {
        None
    }
}

/// A line before the body: a request line, a status line, a header, or neither.
pub open spec fn head_spans(l: Seq<char>) -> Seq<SpanView> {
    let w = text::words_of(l);
    if is_request_line(w) {
        seq![
            bold_piece(w[0], Ink::Success),
            piece(" "@, Ink::Bare),
            piece(w[1], Ink::Info),
            piece(" "@, Ink::Bare),
            piece(w[2], Ink::Muted),
        ]
    } else {
        match status_of(w) {
            Some(code) => {
                let s = seq![
                    piece(w[0], Ink::Muted),
                    piece(" "@, Ink::Bare),
                    piece(text::dec(code), status_ink(code)),
                ];
                if w.len() > 2 {
                    s.push(piece(spaced(w, 2), Ink::Plain))
                } else {
                    s
                }
            },
            None => match text::split_once_at(l, ':') {
                Some((name, value)) => value_spans(
                    seq![bold_piece(name + seq![':'], Ink::Accent)],
                    value,
                    0,
                ),
                None => seq![piece(l, Ink::Plain)],
            },
        }
    }
}

fn head_line(l: &[char]) -> (r: Vec<Span>)
    ensures
        span_views(r@) == head_spans(l@),
{
    let w = words(l);
    let ghost ws = text::words_of(l@);
    assert(text::deep(w@) == ws);
    assert(ws.len() == w@.len());
    let mut out: Vec<Span> = Vec::new();
    assert(span_views(out@) =~= Seq::<SpanView>::empty());
    if w.len() == 3 {
        assert(ws[0] == w@[0]@ && ws[1] == w@[1]@ && ws[2] == w@[2]@);
        if is_sip_method(w[0].as_slice()) && begins_with(w[2].as_slice(), "SIP/") {
            put(&mut out, w[0].as_slice(), Ink::Success, true);
            put_str(&mut out, " ", Ink::Bare);
            put(&mut out, w[1].as_slice(), Ink::Info, false);
            put_str(&mut out, " ", Ink::Bare);
            put(&mut out, w[2].as_slice(), Ink::Muted, false);
            assert(span_views(out@) =~= head_spans(l@));
            return out;
        }
    }
    if w.len() >= 2 {
        assert(ws[0] == w@[0]@ && ws[1] == w@[1]@);
        if begins_with(w[0].as_slice(), "SIP/") {
            if let Some(code) = parse_uint(w[1].as_slice(), 0xffff) {
                put(&mut out, w[0].as_slice(), Ink::Muted, false);
                put_str(&mut out, " ", Ink::Bare);
                let mut c = String::new();
                push_dec(&mut c, code);
                assert(c@ =~= text::dec(code as nat));
                put_str(&mut out, c.as_str(), status_colour(code));
                if w.len() > 2 {
                    let reason = join_spaced(&w, 2);
                    put(&mut out, reason.as_slice(), Ink::Plain, false);
                }
                assert(span_views(out@) =~= head_spans(l@));
                return out;
            }
        }
    }
    assert(!is_request_line(ws));
    assert(status_of(ws) is None);
    match split_once(l, ':') {
        Some((name, value)) => {
            let ghost bare = name@;
            let mut n = name;
            n.push(':');
            assert(n@ =~= bare + seq![':']);
            put(&mut out, n.as_slice(), Ink::Accent, true);
            assert(span_views(out@) =~= seq![bold_piece(n@, Ink::Accent)]);
            put_value(&mut out, value.as_slice());
        },
        None => {
            put(&mut out, l, Ink::Plain, false);
            assert(span_views(out@) =~= seq![piece(l@, Ink::Plain)]);
        },
    }
    out
}

/// The colour of the key of a body line.
pub open spec fn key_ink(key: Seq<char>) -> Ink {
    if text::trimmed(key) == "m"@ {
        Ink::Warning
    } else if text::trimmed(key) == "a"@ {
        Ink::Info
    } else {
        Ink::Muted
    }
}

/// A line of the body: `key=value`, or anything.
pub open spec fn body_spans(l: Seq<char>) -> Seq<SpanView> {
    match text::split_once_at(l, '=') {
        Some((key, value)) => seq![
            bold_piece(key + seq!['='], key_ink(key)),
            piece(value, Ink::Plain),
        ],
        None => seq![piece(l, Ink::Muted)],
    }
}

fn body_line(l: &[char]) -> (r: Vec<Span>)
    ensures
        span_views(r@) == body_spans(l@),
{
    let mut out: Vec<Span> = Vec::new();
    match split_once(l, '=') {
        Some((key, value)) => {
            let k = trim(key.as_slice());
            let ink: Ink = if is_word(k.as_slice(), "m") {
                Ink::Warning
            } else if is_word(k.as_slice(), "a") {
                Ink::Info
            } else {
                Ink::Muted
            };
            let ghost bare = key@;
            let mut n = key;
            n.push('=');
            assert(n@ =~= bare + seq!['=']);
            put(&mut out, n.as_slice(), ink, true);
            put(&mut out, value.as_slice(), Ink::Plain, false);
        },
        None => {
            put(&mut out, l, Ink::Muted, false);
        },
    }
    assert(span_views(out@) =~= body_spans(l@));
    out
}

/// The line that ends the headers: blank, and drawn as it is.
pub open spec fn blank_spans(l: Seq<char>) -> Seq<SpanView> {
    if l.len() == 0 {
        Seq::empty()
    } else {
        seq![piece(l, Ink::Bare)]
    }
}

/// Whether one of the first `n` lines is blank, so that the body has begun.
pub open spec fn body_begun(ls: Seq<Seq<char>>, n: int) -> bool {
    exists|k: int| 0 <= k < n && text::trimmed(#[trigger] ls[k]).len() == 0
}

/// Line `i` of a message.
pub open spec fn line_spans(ls: Seq<Seq<char>>, i: int) -> Seq<SpanView> {
    if body_begun(ls, i) {
        body_spans(ls[i])
    } else if text::trimmed(ls[i]).len() == 0 {
        blank_spans(ls[i])
    } else {
        head_spans(ls[i])
    }
}

pub open spec fn message_spans(t: Seq<char>) -> Seq<Seq<SpanView>> {
    let ls = text::lines_of(t);
    Seq::new(ls.len(), |i: int| line_spans(ls, i))
}

/// Colours a raw message, line by line.
pub fn highlight_raw(s: &str) -> (r: Vec<Vec<Span>>)
    ensures
        line_views(r@) == message_spans(s@),
{
    let t = chars_of(s);
    let v = lines(t.as_slice());
    let ghost ls = text::lines_of(s@);
    assert(ls.len() == v@.len());
    let mut out: Vec<Vec<Span>> = Vec::new();
    let mut body: bool = false;
    let mut i: usize = 0;
    while i < v.len()
        invariant
            i <= v.len(),
            ls.len() == v@.len(),
            text::deep(v@) == ls,
            body == body_begun(ls, i as int),
            out@.len() == i,
            forall|k: int| 0 <= k < i ==> span_views((#[trigger] out@[k])@) == line_spans(ls, k),
        decreases v.len() - i,
    {
        let l = v[i].as_slice();
        assert(ls[i as int] == l@);
        let line: Vec<Span> = if body {
            body_line(l)
        } else {
            let bare = trim(l);
            if bare.len() == 0 {
                body = true;
                assert(text::trimmed(ls[i as int]).len() == 0);
                let mut b: Vec<Span> = Vec::new();
                if l.len() > 0 {
                    put(&mut b, l, Ink::Bare, false);
                }
                assert(span_views(b@) =~= blank_spans(l@));
                b
            } else {
                head_line(l)
            }
        };
        out.push(line);
        i += 1;
    }
    assert(line_views(out@) =~= message_spans(s@));
    out
}

// ----------------------------- laws -----------------------------

/// The text of some pieces.
pub open spec fn content_of(v: Seq<SpanView>) -> Seq<char>
    decreases v.len(),
{
    if v.len() == 0 {
        Seq::empty()
    } else {
        content_of(v.drop_last()) + v.last().content
    }
}

proof fn lemma_content_push(v: Seq<SpanView>, s: SpanView)
    ensures
        content_of(v.push(s)) == content_of(v) + s.content,
{
    assert(v.push(s).drop_last() =~= v);
}

proof fn lemma_token(t: Seq<char>, i: int)
    requires
        0 <= i <= t.len(),
    ensures
        token_from(t, i) matches Some((a, b, _)) ==> i <= a < b <= t.len(),
{
    reveal_strlit("sips:");
    reveal_strlit("sip:");
    reveal_strlit(";branch=");
    reveal_strlit(";tag=");
    text::lemma_find_from(t, "sips:"@, i);
    text::lemma_find_from(t, "sip:"@, i);
    text::lemma_find_from(t, ";branch="@, i);
    text::lemma_find_from(t, ";tag="@, i);
    if let Some(a) = text::find_from(t, "sips:"@, i) {
        text::lemma_scan(t, a + 5, Class::BareUriEnd, true);
    }
    if let Some(a) = text::find_from(t, "sip:"@, i) {
        text::lemma_scan(t, a + 4, Class::BareUriEnd, true);
    }
    if let Some(a) = text::find_from(t, ";branch="@, i) {
        text::lemma_scan(t, a + 8, Class::ParamEnd, true);
    }
    if let Some(a) = text::find_from(t, ";tag="@, i) {
        text::lemma_scan(t, a + 5, Class::ParamEnd, true);
    }
}

/// Colouring a header value changes no character of it.
pub proof fn law_value_kept(out: Seq<SpanView>, t: Seq<char>, i: int)
    requires
        0 <= i <= t.len(),
    ensures
        content_of(value_spans(out, t, i)) == content_of(out) + t.skip(i),
    decreases t.len() - i,
{
    lemma_token(t, i);
    match token_from(t, i) {
        Some((a, b, k)) => {
            let head = if a > i {
                out.push(piece(t.subrange(i, a), Ink::Plain))
            } else {
                out
            };
            if a > i {
                lemma_content_push(out, piece(t.subrange(i, a), Ink::Plain));
            }
            let tok = piece(t.subrange(a, b), k.spec_ink());
            lemma_content_push(head, tok);
            law_value_kept(head.push(tok), t, b);
            assert(content_of(head) + t.subrange(a, b) + t.skip(b) =~= content_of(out) + t.skip(i));
        },
        None => {
            if i < t.len() {
                lemma_content_push(out, piece(t.skip(i), Ink::Plain));
            } else {
                assert(content_of(out) + t.skip(i) =~= content_of(out));
            }
        },
    }
}

} // verus!
