//! Lines, words, numbers and attributes are read back from the texts that hold them.
use crate::correlate::call::{attr_in, header_uri, last_before, user_in, without_prefix};
use crate::correlate::call::{reason_in_line, reason_in_lines};
use crate::model::addr_laws::{lacks, lemma_dec, lemma_scan_first, lemma_scan_lacking};
use crate::text;
use crate::text::{
    before, dec, find_from, is_space, lines_from, lines_of, occurs_at, rscan, scan, split_once_at,
    strip_cr, trim_class, trimmed, uint_of, words_from, words_of, Class,
};
use vstd::prelude::*;

verus! {

// ----------------------------- classes -----------------------------

/// Blank, tab, carriage return and line feed are white space; visible ASCII characters are not.
pub proof fn law_white_space(c: char)
    ensures
        is_space(' '),
        is_space('\t'),
        is_space('\r'),
        is_space('\n'),
        0x21 <= c as u32 <= 0x7e ==> !is_space(c),
{
}

/// Every character is of the class.
pub open spec fn all_of(t: Seq<char>, cls: Class) -> bool {
    forall|i: int| 0 <= i < t.len() ==> cls.has(#[trigger] t[i])
}

/// No character is of the class.
pub open spec fn none_of(t: Seq<char>, cls: Class) -> bool {
    forall|i: int| 0 <= i < t.len() ==> !cls.has(#[trigger] t[i])
}

/// Where each kind of value ends.
pub proof fn law_ends(c: char)
    ensures
        Class::AttrEnd.has(c) <==> c == ';' || c == ' ' || c == '\t' || c == '\r' || c == '\n',
        Class::ParamEnd.has(c) <==> c == ';' || c == ' ' || c == '\t',
        Class::UriEnd.has(c) <==> c == '>' || c == ' ' || c == '\t' || c == ',' || c == '\r' || c == '\n',
        Class::BareUriEnd.has(c) <==> c == ';' || c == ' ' || c == '\t' || c == '>' || c == '<' || c == ',',
        Class::Digit.has(c) <==> '0' <= c <= '9',
        Class::Word.has(c) <==> ('0' <= c <= '9' || 'a' <= c <= 'z' || 'A' <= c <= 'Z' || c == '_'),
        Class::AddrPart.has(c) <==> ('0' <= c <= '9' || 'a' <= c <= 'f' || 'A' <= c <= 'F' || c == ':' || c
            == '.'),
{
}

proof fn lemma_scan_at(t: Seq<char>, i: int, cls: Class, want: bool, k: int)
    requires
        0 <= i <= k <= t.len(),
        k == t.len() || cls.has(t[k]) == want,
        forall|x: int| i <= x < k ==> cls.has(#[trigger] t[x]) != want,
    ensures
        scan(t, i, cls, want) == k,
{
    text::lemma_scan(t, i, cls, want);
    let s = scan(t, i, cls, want);
    if s > k {
        assert(cls.has(t[k]) != want);
    }
    if s < k {
        assert(cls.has(t[s]) == want);
    }
}

proof fn lemma_scan_shift(a: Seq<char>, t: Seq<char>, i: int, cls: Class, want: bool)
    requires
        0 <= i <= t.len(),
    ensures
        scan(a + t, a.len() + i, cls, want) == a.len() + scan(t, i, cls, want),
{
    text::lemma_scan(t, i, cls, want);
    let k = scan(t, i, cls, want);
    let n = a.len() as int;
    assert forall|x: int| n + i <= x < n + k implies cls.has(#[trigger] (a + t)[x]) != want by {
        assert((a + t)[x] == t[x - n]);
    }
    if k < t.len() {
        assert((a + t)[n + k] == t[k]);
    }
    lemma_scan_at(a + t, n + i, cls, want, n + k);
}

// ----------------------------- trimming -----------------------------

proof fn lemma_rscan_at(t: Seq<char>, n: int, cls: Class, k: int)
    requires
        0 <= k <= n <= t.len(),
        k > 0 ==> !cls.has(t[k - 1]),
        forall|x: int| k <= x < n ==> cls.has(#[trigger] t[x]),
    ensures
        rscan(t, n, cls) == k,
    decreases n,
{
    if n > k {
        assert(cls.has(t[n - 1]));
        lemma_rscan_at(t, n - 1, cls, k);
    }
}

/// Trimming takes off what is of the class at both ends, and nothing of what lies between.
pub proof fn law_trimmed(a: Seq<char>, t: Seq<char>, b: Seq<char>, cls: Class)
    requires
        all_of(a, cls),
        all_of(b, cls),
        t.len() > 0,
        !cls.has(t[0]),
        !cls.has(t.last()),
    ensures
        trim_class(a + t + b, cls) == t,
{
    let all = a + t + b;
    let n = a.len() as int;
    let m = (a.len() + t.len()) as int;
    assert(all[n] == t[0]);
    assert(all[m - 1] == t.last());
    assert forall|x: int| 0 <= x < n implies cls.has(#[trigger] all[x]) != false by {
        assert(all[x] == a[x]);
    }
    assert forall|x: int| m <= x < all.len() implies cls.has(#[trigger] all[x]) by {
        assert(all[x] == b[x - m]);
    }
    lemma_scan_at(all, 0, cls, false, n);
    lemma_rscan_at(all, all.len() as int, cls, m);
    assert(all.subrange(n, m) =~= t);
}

/// A text that is all of the class leaves nothing.
pub proof fn law_trimmed_away(a: Seq<char>, cls: Class)
    requires
        all_of(a, cls),
    ensures
        trim_class(a, cls) == Seq::<char>::empty(),
{
    lemma_scan_at(a, 0, cls, false, a.len() as int);
    lemma_rscan_at(a, a.len() as int, cls, 0);
}

// ----------------------------- parts -----------------------------

/// A text is cut at the first separator, and kept whole where there is none.
pub proof fn law_cut(a: Seq<char>, c: char, b: Seq<char>)
    requires
        lacks(a, c),
    ensures
        before(a + seq![c] + b, c) == a,
        before(a, c) == a,
        split_once_at(a + seq![c] + b, c) == Some((a, b)),
        split_once_at(a, c) is None,
{
    let t = a + seq![c] + b;
    let n = a.len() as int;
    assert forall|x: int| 0 <= x < n implies #[trigger] t[x] != c by {
        assert(t[x] == a[x]);
    }
    assert(t[n] == c);
    lemma_scan_first(t, 0, c, n);
    lemma_scan_lacking(a, 0, c);
    assert(t.take(n) =~= a);
    assert(t.skip(n + 1) =~= b);
    assert(a.take(n) =~= a);
}

proof fn lemma_lines_shift(a: Seq<char>, t: Seq<char>, i: int)
    requires
        0 <= i <= t.len(),
    ensures
        lines_from(a + t, a.len() + i) == lines_from(t, i),
    decreases t.len() - i,
{
    let cls = Class::Is('\n');
    let n = a.len() as int;
    lemma_scan_shift(a, t, i, cls, true);
    text::lemma_scan(t, i, cls, true);
    let j = scan(t, i, cls, true);
    if i < t.len() {
        if j < t.len() {
            assert((a + t).subrange(n + i, n + j) =~= t.subrange(i, j));
            lemma_lines_shift(a, t, j + 1);
        } else {
            assert((a + t).skip(n + i) =~= t.skip(i));
        }
    }
}

/// A line ends at its line feed, with the carriage return before it where there is one, and the others
/// follow; the last needs no line feed.
pub proof fn law_lines(l: Seq<char>, rest: Seq<char>)
    requires
        lacks(l, '\n'),
    ensures
        lines_of(l + "\n"@ + rest) == seq![strip_cr(l)] + lines_of(rest),
        l.len() > 0 ==> lines_of(l) == seq![l],
        lines_of(Seq::empty()).len() == 0,
        strip_cr(l + "\r"@) == l,
        l.len() > 0 && l.last() != '\r' ==> strip_cr(l) == l,
{
    reveal_strlit("\n");
    reveal_strlit("\r");
    let t = l + "\n"@ + rest;
    let n = l.len() as int;
    assert forall|x: int| 0 <= x < n implies #[trigger] t[x] != '\n' by {
        assert(t[x] == l[x]);
    }
    assert(t[n] == '\n');
    lemma_scan_first(t, 0, '\n', n);
    lemma_scan_lacking(l, 0, '\n');
    assert(t.subrange(0, n) =~= l);
    lemma_lines_shift(l + "\n"@, rest, 0);
    assert(l.skip(0) =~= l);
    assert((l + "\r"@).drop_last() =~= l);
}

proof fn lemma_words_shift(a: Seq<char>, t: Seq<char>, i: int)
    requires
        0 <= i <= t.len(),
    ensures
        words_from(a + t, a.len() + i) == words_from(t, i),
    decreases t.len() - i,
{
    let n = a.len() as int;
    lemma_scan_shift(a, t, i, Class::Space, false);
    text::lemma_scan(t, i, Class::Space, false);
    let p = scan(t, i, Class::Space, false);
    lemma_scan_shift(a, t, p, Class::Space, true);
    text::lemma_scan(t, p, Class::Space, true);
    let q = scan(t, p, Class::Space, true);
    if p < q {
        assert((a + t).subrange(n + p, n + q) =~= t.subrange(p, q));
        lemma_words_shift(a, t, q);
    }
}

/// A word is what stands between white space, and the others follow; white space alone holds none.
pub proof fn law_words(s: Seq<char>, w: Seq<char>, rest: Seq<char>)
    requires
        all_of(s, Class::Space),
        w.len() > 0,
        none_of(w, Class::Space),
        rest.len() == 0 || is_space(rest[0]),
    ensures
        words_of(s + w + rest) == seq![w] + words_of(rest),
        words_of(s).len() == 0,
{
    let t = s + w + rest;
    let a = s.len() as int;
    let b = (s.len() + w.len()) as int;
    assert forall|x: int| 0 <= x < a implies Class::Space.has(#[trigger] t[x]) != false by {
        assert(t[x] == s[x]);
    }
    assert(t[a] == w[0]);
    lemma_scan_at(t, 0, Class::Space, false, a);
    assert forall|x: int| a <= x < b implies Class::Space.has(#[trigger] t[x]) != true by {
        assert(t[x] == w[x - a]);
    }
    if rest.len() > 0 {
        assert(t[b] == rest[0]);
    }
    lemma_scan_at(t, a, Class::Space, true, b);
    assert(t.subrange(a, b) =~= w);
    lemma_words_shift(s + w, rest, 0);
    lemma_scan_at(s, 0, Class::Space, false, a);
    lemma_scan_at(s, a, Class::Space, true, a);
}

proof fn lemma_words_lead(s: Seq<char>, t: Seq<char>)
    requires
        all_of(s, Class::Space),
    ensures
        words_of(s + t) == words_of(t),
{
    let n = s.len() as int;
    let all = s + t;
    lemma_words_shift(s, t, 0);
    text::lemma_scan(all, n, Class::Space, false);
    let k = scan(all, n, Class::Space, false);
    assert forall|x: int| 0 <= x < k implies Class::Space.has(#[trigger] all[x]) != false by {
        if x < n {
            assert(all[x] == s[x]);
        }
    }
    lemma_scan_at(all, 0, Class::Space, false, k);
    text::lemma_scan(all, k, Class::Space, true);
}

/// A word alone, and a word with a blank and more behind it.
pub proof fn law_word_and_rest(w: Seq<char>, t: Seq<char>)
    requires
        w.len() > 0,
        none_of(w, Class::Space),
    ensures
        words_of(w) == seq![w],
        words_of(w + " "@ + t) == seq![w] + words_of(t),
{
    reveal_strlit(" ");
    let e = Seq::<char>::empty();
    let r = " "@ + t;
    assert(r[0] == ' ');
    law_words(e, w, r);
    assert(e + w + r =~= w + " "@ + t);
    assert(all_of(" "@, Class::Space));
    lemma_words_lead(" "@, t);
    law_words(e, w, e);
    assert(e + w + e =~= w);
    assert(seq![w] + words_of(e) =~= seq![w]);
}

// ----------------------------- numbers -----------------------------

/// A number is read back from its decimal spelling, with or without a plus sign, up to what is allowed.
pub proof fn law_number(n: nat, max: nat)
    ensures
        n <= max ==> uint_of(dec(n), max) == Some(n),
        n <= max ==> uint_of("+"@ + dec(n), max) == Some(n),
        n > max ==> uint_of(dec(n), max) is None,
        uint_of(Seq::empty(), max) is None,
{
    reveal_strlit("+");
    lemma_dec(n);
    assert(text::is_digit(dec(n)[0]));
    let p = "+"@ + dec(n);
    assert(p.skip(1) =~= dec(n));
    assert(p[0] == '+');
}

/// Nothing else than digits is a number.
pub proof fn law_not_a_number(t: Seq<char>, k: int, max: nat)
    requires
        0 <= k < t.len(),
        !('0' <= t[k] <= '9'),
        k > 0 || t[k] != '+',
    ensures
        uint_of(t, max) is None,
{
    if t[0] == '+' {
        assert(t.skip(1)[k - 1] == t[k]);
    }
}

// ----------------------------- attributes -----------------------------

proof fn lemma_find_at(t: Seq<char>, p: Seq<char>, i: int, k: int)
    requires
        0 <= i <= k,
        occurs_at(t, p, k),
        forall|j: int| i <= j < k ==> !#[trigger] occurs_at(t, p, j),
    ensures
        find_from(t, p, i) == Some(k),
{
    text::lemma_find_from(t, p, i);
    if let Some(x) = find_from(t, p, i) {
        if x < k {
            assert(!occurs_at(t, p, x));
        }
        if x > k {
            assert(!occurs_at(t, p, k));
        }
    } else {
        assert(!occurs_at(t, p, k));
    }
}

/// An attribute is read where its name first stands before an equals sign: its value reaches to the next
/// semicolon, blank or line end, and quotes around it do not count.
pub proof fn law_attribute(a: Seq<char>, name: Seq<char>, value: Seq<char>, rest: Seq<char>)
    requires
        none_of(value, Class::AttrEnd),
        rest.len() == 0 || Class::AttrEnd.has(rest[0]),
        forall|j: int|
            0 <= j < a.len() ==> !#[trigger] occurs_at(
                a + name + seq!['='] + value + rest,
                name + seq!['='],
                j,
            ),
    ensures
        attr_in(a + name + seq!['='] + value + rest, name) == Some(
            trim_class(value, Class::Is('"')),
        ),
{
    let t = a + name + seq!['='] + value + rest;
    let needle = name.push('=');
    assert(needle =~= name + seq!['=']);
    let n = a.len() as int;
    assert(t.subrange(n, n + needle.len()) =~= needle);
    lemma_find_at(t, needle, 0, n);
    let tail = t.skip(n + needle.len());
    assert(tail =~= value + rest);
    let m = value.len() as int;
    assert forall|x: int| 0 <= x < m implies Class::AttrEnd.has(#[trigger] tail[x]) != true by {
        assert(tail[x] == value[x]);
    }
    if rest.len() > 0 {
        assert(tail[m] == rest[0]);
    }
    lemma_scan_at(tail, 0, Class::AttrEnd, true, m);
    assert(tail.take(m) =~= value);
}

/// A header without the name and an equals sign has no such attribute.
pub proof fn law_no_attribute(t: Seq<char>, name: Seq<char>)
    requires
        forall|j: int| 0 <= j ==> !#[trigger] occurs_at(t, name.push('='), j),
    ensures
        attr_in(t, name) is None,
{
    text::lemma_find_from(t, name.push('='), 0);
}

/// The cause of a Reason header is the number of its `cause` attribute, and its text that of its `text`
/// attribute, empty where there is none; a line of another name, or without a number, has none.
pub proof fn law_reason_line(body: Seq<char>, n: u32)
    ensures
        attr_in(trimmed(body), "cause"@) == Some(dec(n as nat)) ==> {
            let r = reason_in_line("Reason:"@ + body);
            &&& r is Some
            &&& r->Some_0.0 == n
            &&& attr_in(trimmed(body), "text"@) is None ==> r->Some_0.1 == Seq::<char>::empty()
            &&& attr_in(trimmed(body), "text"@) matches Some(t) ==> r->Some_0.1 == trim_class(
                t,
                Class::Is('"'),
            )
        },
        attr_in(trimmed(body), "cause"@) is None ==> reason_in_line("Reason:"@ + body) is None,
{
    let l = "Reason:"@ + body;
    let k = "Reason:"@.len() as int;
    assert(l.subrange(0, 0 + k) =~= "Reason:"@);
    assert(l.skip(k) =~= body);
    law_number(n as nat, 0xffff_ffff);
}

/// The first line with a cause is the one that counts.
pub proof fn law_first_reason(ls: Seq<Seq<char>>, i: int, k: int)
    requires
        0 <= i <= ls.len(),
    ensures
        i <= k < ls.len() && reason_in_line(ls[k]) is Some && (forall|x: int|
            i <= x < k ==> reason_in_line(#[trigger] ls[x]) is None) ==> reason_in_lines(ls, i)
            == reason_in_line(ls[k]),
        (forall|x: int| i <= x < ls.len() ==> reason_in_line(#[trigger] ls[x]) is None)
            ==> reason_in_lines(ls, i) is None,
    decreases ls.len() - i,
{
    if i < ls.len() && reason_in_line(ls[i]) is None {
        law_first_reason(ls, i + 1, k);
    }
}

// ----------------------------- users -----------------------------

proof fn lemma_last_before(t: Seq<char>, c: char, n: int, k: int)
    requires
        0 <= k < n <= t.len(),
        t[k] == c,
        forall|x: int| k < x < n ==> #[trigger] t[x] != c,
    ensures
        last_before(t, c, n) == k,
    decreases n,
{
    if n - 1 > k {
        assert(t[n - 1] != c);
        lemma_last_before(t, c, n - 1, k);
    }
}

proof fn lemma_none_before(t: Seq<char>, c: char, n: int)
    requires
        0 <= n <= t.len(),
        forall|x: int| 0 <= x < n ==> #[trigger] t[x] != c,
    ensures
        last_before(t, c, n) == t.len(),
    decreases n,
{
    if n > 0 {
        assert(t[n - 1] != c);
        lemma_none_before(t, c, n - 1);
    }
}

/// The URI of a header is what stands in its first angle brackets, or all of it.
pub proof fn law_header_uri(a: Seq<char>, uri: Seq<char>, b: Seq<char>)
    requires
        lacks(a, '<'),
        lacks(uri, '>'),
    ensures
        header_uri(a + seq!['<'] + uri + seq!['>'] + b) == uri,
        lacks(uri, '<') ==> header_uri(uri) == uri,
{
    let v = a + seq!['<'] + uri + seq!['>'] + b;
    let n = a.len() as int;
    assert forall|x: int| 0 <= x < n implies #[trigger] v[x] != '<' by {
        assert(v[x] == a[x]);
    }
    assert(v[n] == '<');
    lemma_scan_first(v, 0, '<', n);
    assert(v.skip(n + 1) =~= uri + seq!['>'] + b);
    law_cut(uri, '>', b);
    if lacks(uri, '<') {
        lemma_scan_lacking(uri, 0, '<');
    }
}

/// The user of a SIP URI is what stands before the last at sign of it, parameters aside.
pub proof fn law_user(scheme: Seq<char>, user: Seq<char>, host: Seq<char>, params: Seq<char>, v: Seq<char>)
    requires
        scheme == "sip:"@ || scheme == "sips:"@,
        user.len() > 0,
        !is_space(user[0]),
        !is_space(user.last()),
        lacks(user, ';'),
        lacks(host, ';'),
        lacks(host, '@'),
        params.len() == 0 || params[0] == ';',
        header_uri(v) == scheme + user + seq!['@'] + host + params,
    ensures
        user_in(v) == Some(user),
{
    reveal_strlit("sip:");
    reveal_strlit("sips:");
    let uri = header_uri(v);
    let bare = user + seq!['@'] + host;
    let after = bare + params;
    let k = scheme.len() as int;
    assert(uri =~= scheme + after);
    assert(uri.subrange(0, 0 + k) =~= scheme);
    assert(uri.skip(k) =~= after);
    if scheme == "sip:"@ {
        if occurs_at(uri, "sips:"@, 0) {
            assert(uri.subrange(0, 5)[3] == uri[3]);
            assert(uri[3] == ':');
            assert("sips:"@[3] == 's');
        }
    }
    assert(forall|x: int| 0 <= x < bare.len() ==> #[trigger] bare[x] != ';') by {
        assert forall|x: int| 0 <= x < bare.len() implies #[trigger] bare[x] != ';' by {
            if x < user.len() {
                assert(bare[x] == user[x]);
            } else if x > user.len() {
                assert(bare[x] == host[x - user.len() - 1]);
            }
        }
    }
    if params.len() == 0 {
        assert(after =~= bare);
        lemma_scan_lacking(bare, 0, ';');
        assert(bare.take(bare.len() as int) =~= bare);
    } else {
        law_cut(bare, ';', params.skip(1));
        assert(after =~= bare + seq![';'] + params.skip(1));
    }
    let n = user.len() as int;
    assert(bare[n] == '@');
    assert forall|x: int| n < x < bare.len() implies #[trigger] bare[x] != '@' by {
        assert(bare[x] == host[x - n - 1]);
    }
    lemma_last_before(bare, '@', bare.len() as int, n);
    assert(bare.take(n) =~= user);
    law_trimmed(Seq::empty(), user, Seq::empty(), Class::Space);
    assert(Seq::<char>::empty() + user + Seq::<char>::empty() =~= user);
}

/// A prefix is taken off a text that begins with it; any other text has none.
pub proof fn law_prefix(p: Seq<char>, t: Seq<char>)
    ensures
        without_prefix(p + t, p) == Some(t),
        t.len() < p.len() ==> without_prefix(t, p) is None,
{
    assert((p + t).subrange(0, 0 + p.len() as int) =~= p);
    assert((p + t).skip(p.len() as int) =~= t);
}

} // verus!
