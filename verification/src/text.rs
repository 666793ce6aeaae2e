//! Text helpers: the few string operations of std that the library leans on,
//! and verified functions built from them.
use vstd::prelude::*;
use vstd::utf8::*;

verus! {

/// `String::push` appends one character.
pub assume_specification[ String::push ](s: &mut String, c: char)
    ensures
        final(s)@ == old(s)@.push(c),
;

/// `String::push_str` appends a string slice.
pub assume_specification[ String::push_str ](s: &mut String, t: &str)
    ensures
        final(s)@ == old(s)@ + t@,
;

/// What `String::from_utf8_lossy` makes of bytes that are not valid UTF-8.
pub uninterp spec fn lossy_text(b: Seq<u8>) -> Seq<char>;

/// The text of a byte string: decoded where it is valid UTF-8, otherwise with
/// replacement characters.
pub open spec fn utf8_lossy(b: Seq<u8>) -> Seq<char> {
    if valid_utf8(b) {
        decode_utf8(b)
    } else {
        lossy_text(b)
    }
}

/// Calls `String::from_utf8_lossy`. Claimed of it: valid UTF-8 decodes to
/// itself, and on any other input the result depends on the bytes alone.
#[verifier::external_body]
pub(crate) fn text_lossy(b: &[u8]) -> (r: String)
    ensures
        valid_utf8(b@) ==> r@ == decode_utf8(b@),
        !valid_utf8(b@) ==> r@ == lossy_text(b@),
{
    String::from_utf8_lossy(b).into_owned()
}

/// Calls `std::str::from_utf8`. Claimed of it: valid UTF-8, and nothing else,
/// is decoded.
#[verifier::external_body]
pub(crate) fn text_exact(b: &[u8]) -> (r: Option<String>)
    ensures
        valid_utf8(b@) ==> r is Some && r->Some_0@ == decode_utf8(b@),
        !valid_utf8(b@) ==> r is None,
{
    std::str::from_utf8(b).ok().map(String::from)
}

/// UTF-8 encoding loses nothing: two texts with the same bytes are the same.
pub proof fn lemma_encode_utf8_injective(a: Seq<char>, b: Seq<char>)
    requires
        encode_utf8(a) == encode_utf8(b),
    ensures
        a == b,
{
    vstd::utf8::encode_utf8_decode_utf8(a);
    vstd::utf8::encode_utf8_decode_utf8(b);
}

/// Byte-wise equality of two slices.
pub fn bytes_eq(a: &[u8], b: &[u8]) -> (r: bool)
    ensures
        r == (a@ == b@),
{
    if a.len() != b.len() {
        return false;
    }
    let mut i: usize = 0;
    while i < a.len()
        invariant
            i <= a.len(),
            a.len() == b.len(),
            forall|k: int| 0 <= k < i ==> a@[k] == b@[k],
        decreases a.len() - i,
    {
        if a[i] != b[i] {
            return false;
        }
        i += 1;
    }
    assert(a@ =~= b@);
    true
}

/// Equality of two string slices.
pub fn str_eq(a: &str, b: &str) -> (r: bool)
    ensures
        r == (a@ == b@),
{
    let r = bytes_eq(a.as_bytes(), b.as_bytes());
    proof {
        if r {
            lemma_encode_utf8_injective(a@, b@);
        }
    }
    r
}

/// The character of a decimal digit.
pub open spec fn digit_char(d: nat) -> char {
    (48 + d) as char
}

/// Decimal spelling of a number.
pub open spec fn dec(n: nat) -> Seq<char>
    decreases n,
{
    if n < 10 {
        seq![digit_char(n)]
    } else {
        dec(n / 10).push(digit_char(n % 10))
    }
}

/// Appends the decimal spelling of `n`.
pub fn push_dec(s: &mut String, n: u64)
    ensures
        final(s)@ == old(s)@ + dec(n as nat),
    decreases n,
{
    if n >= 10 {
        push_dec(s, n / 10);
    }
    let d: u8 = 48u8 + (n % 10) as u8;
    s.push(d as char);
    assert(s@ =~= old(s)@ + dec(n as nat));
}

/// The text of a byte string, with replacement characters where it is not
/// valid UTF-8.
pub fn lossy_string(b: &[u8]) -> (r: String)
    ensures
        r@ == utf8_lossy(b@),
{
    text_lossy(b)
}

/// The characters of an optional string.
pub open spec fn opt_text(o: Option<String>) -> Option<Seq<char>> {
    match o {
        Some(s) => Some(s@),
        None => None,
    }
}

/// The contents of a vector of strings.
pub open spec fn texts(v: Seq<String>) -> Seq<Seq<char>> {
    v.map_values(|x: String| x@)
}

/// A copy of an optional string.
pub fn clone_opt(o: &Option<String>) -> (r: Option<String>)
    ensures
        opt_text(r) == opt_text(*o),
{
    match o {
        Some(s) => Some(s.clone()),
        None => None,
    }
}

// ----------------------------- characters -----------------------------

/// A copy of a list of texts.
pub fn copy_texts(v: &Vec<String>) -> (r: Vec<String>)
    ensures
        texts(r@) == texts(v@),
{
    let mut out: Vec<String> = Vec::new();
    let mut i: usize = 0;
    while i < v.len()
        invariant
            i <= v.len(),
            texts(out@) == texts(v@.take(i as int)),
        decreases v.len() - i,
    {
        let ghost before = out@;
        let t = v[i].clone();
        out.push(t);
        i += 1;
        assert(texts(out@) =~= texts(before).push(t@));
        assert(v@.take(i as int) =~= v@.take(i - 1).push(v@[i - 1]));
        assert(texts(v@.take(i as int)) =~= texts(v@.take(i - 1)).push(t@));
    }
    assert(v@.take(i as int) =~= v@);
    out
}

/// The characters of a string.
pub fn chars_of(s: &str) -> (r: Vec<char>)
    ensures
        r@ == s@,
{
    let mut out: Vec<char> = Vec::new();
    for c in it: s.chars()
        invariant
            it.seq() == s@,
            out@ == s@.take(it.index() as int),
    {
        out.push(c);
        assert(out@ =~= s@.take(it.index() as int + 1));
    }
    assert(out@ =~= s@);
    out
}

/// Appends characters to a string.
pub fn push_chars(s: &mut String, t: &[char])
    ensures
        final(s)@ == old(s)@ + t@,
{
    let mut i: usize = 0;
    assert(s@ =~= old(s)@ + t@.take(0));
    while i < t.len()
        invariant
            i <= t.len(),
            s@ == old(s)@ + t@.take(i as int),
        decreases t.len() - i,
    {
        s.push(t[i]);
        i += 1;
        assert(s@ =~= old(s)@ + t@.take(i as int));
    }
    assert(t@.take(i as int) =~= t@);
}

/// The string made of the given characters.
pub fn string_of(t: &[char]) -> (r: String)
    ensures
        r@ == t@,
{
    let mut s = String::new();
    push_chars(&mut s, t);
    assert(s@ =~= t@);
    s
}

/// A copy of the characters from `i` to `j`.
pub fn slice_of(t: &[char], i: usize, j: usize) -> (r: Vec<char>)
    requires
        i <= j <= t@.len(),
    ensures
        r@ == t@.subrange(i as int, j as int),
{
    let mut out: Vec<char> = Vec::new();
    let mut k: usize = i;
    while k < j
        invariant
            i <= k <= j <= t@.len(),
            out@ == t@.subrange(i as int, k as int),
        decreases j - k,
    {
        out.push(t[k]);
        k += 1;
        assert(out@ =~= t@.subrange(i as int, k as int));
    }
    out
}

/// Appends characters to a vector.
pub fn append_chars(v: &mut Vec<char>, t: &[char])
    ensures
        final(v)@ == old(v)@ + t@,
{
    let mut i: usize = 0;
    assert(v@ =~= old(v)@ + t@.take(0));
    while i < t.len()
        invariant
            i <= t.len(),
            v@ == old(v)@ + t@.take(i as int),
        decreases t.len() - i,
    {
        v.push(t[i]);
        i += 1;
        assert(v@ =~= old(v)@ + t@.take(i as int));
    }
    assert(t@.take(i as int) =~= t@);
}

/// Equality of two character sequences.
pub fn chars_eq(a: &[char], b: &[char]) -> (r: bool)
    ensures
        r == (a@ == b@),
{
    if a.len() != b.len() {
        return false;
    }
    let mut i: usize = 0;
    while i < a.len()
        invariant
            i <= a.len(),
            a.len() == b.len(),
            forall|k: int| 0 <= k < i ==> a@[k] == b@[k],
        decreases a.len() - i,
    {
        if a[i] != b[i] {
            return false;
        }
        i += 1;
    }
    assert(a@ =~= b@);
    true
}

/// Whether characters spell a given string.
pub fn is_word(a: &[char], s: &str) -> (r: bool)
    ensures
        r == (a@ == s@),
{
    let b = chars_of(s);
    chars_eq(a, b.as_slice())
}

/// A set of characters.
#[derive(Debug, Clone, Copy)]
pub enum Class {
    /// One character.
    Is(char),
    /// Unicode white space.
    Space,
    /// Decimal digits.
    Digit,
    /// What ends a header parameter's value: `;`, blanks and line ends.
    AttrEnd,
    /// What ends a SIP URI inside a header: `>`, `,`, blanks and line ends.
    UriEnd,
    /// What ends a SIP URI up to its parameters: `;`, `<`, `>`, `,` and blanks.
    BareUriEnd,
    /// What ends a parameter within a line: `;` and blanks.
    ParamEnd,
    /// ASCII letters and digits, and `_`.
    Word,
    /// What an IPv6 address is written with: hexadecimal digits, `:` and `.`.
    AddrPart,
}

/// Unicode white space.
pub open spec fn is_space(c: char) -> bool {
    let n = c as u32;
    ||| 0x09 <= n <= 0x0d
    ||| n == 0x20
    ||| n == 0x85
    ||| n == 0xa0
    ||| n == 0x1680
    ||| 0x2000 <= n <= 0x200a
    ||| n == 0x2028
    ||| n == 0x2029
    ||| n == 0x202f
    ||| n == 0x205f
    ||| n == 0x3000
}

pub open spec fn is_digit(c: char) -> bool {
    '0' <= c <= '9'
}

impl Class {
    pub open spec fn has(self, c: char) -> bool {
        match self {
            Class::Is(d) => c == d,
            Class::Space => is_space(c),
            Class::Digit => is_digit(c),
            Class::AttrEnd => c == ';' || c == ' ' || c == '\t' || c == '\r' || c == '\n',
            Class::UriEnd => c == '>' || c == ' ' || c == '\t' || c == ',' || c == '\r' || c == '\n',
            Class::BareUriEnd => c == ';' || c == ' ' || c == '\t' || c == '>' || c == '<' || c == ',',
            Class::ParamEnd => c == ';' || c == ' ' || c == '\t',
            Class::Word => is_digit(c) || 'a' <= c <= 'z' || 'A' <= c <= 'Z' || c == '_',
            Class::AddrPart => is_digit(c) || 'a' <= c <= 'f' || 'A' <= c <= 'F' || c == ':' || c
                == '.',
        }
    }

    /// Whether `c` is in the set.
    pub fn holds(self, c: char) -> (r: bool)
        ensures
            r == self.has(c),
    {
        match self {
            Class::Is(d) => c == d,
            Class::Space => {
                let n: u32 = c as u32;
                (n >= 0x09 && n <= 0x0d) || n == 0x20 || n == 0x85 || n == 0xa0 || n == 0x1680 || (n
                    >= 0x2000 && n <= 0x200a) || n == 0x2028 || n == 0x2029 || n == 0x202f || n
                    == 0x205f || n == 0x3000
            },
            Class::Digit => c >= '0' && c <= '9',
            Class::AttrEnd => c == ';' || c == ' ' || c == '\t' || c == '\r' || c == '\n',
            Class::UriEnd => c == '>' || c == ' ' || c == '\t' || c == ',' || c == '\r' || c == '\n',
            Class::BareUriEnd => c == ';' || c == ' ' || c == '\t' || c == '>' || c == '<' || c == ',',
            Class::ParamEnd => c == ';' || c == ' ' || c == '\t',
            Class::Word => (c >= '0' && c <= '9') || (c >= 'a' && c <= 'z') || (c >= 'A' && c <= 'Z')
                || c == '_',
            Class::AddrPart => (c >= '0' && c <= '9') || (c >= 'a' && c <= 'f') || (c >= 'A' && c
                <= 'F') || c == ':' || c == '.',
        }
    }
}

// ----------------------------- searching -----------------------------

/// The first index from `i` on whose character is in the set (or, with `want`
/// false, outside it); the length if there is none.
pub open spec fn scan(t: Seq<char>, i: int, cls: Class, want: bool) -> int
    decreases t.len() - i,
{
    if i >= t.len() {
        t.len() as int
    } else if cls.has(t[i]) == want {
        i
    } else {
        scan(t, i + 1, cls, want)
    }
}

pub proof fn lemma_scan(t: Seq<char>, i: int, cls: Class, want: bool)
    requires
        0 <= i <= t.len(),
    ensures
        i <= scan(t, i, cls, want) <= t.len(),
        scan(t, i, cls, want) < t.len() ==> cls.has(t[scan(t, i, cls, want)]) == want,
        forall|k: int| i <= k < scan(t, i, cls, want) ==> cls.has(#[trigger] t[k]) != want,
    decreases t.len() - i,
{
    if i < t.len() && cls.has(t[i]) != want {
        lemma_scan(t, i + 1, cls, want);
    }
}

/// Finds the first character from `i` on in (or outside) a set.
pub fn find_class(t: &[char], i: usize, cls: Class, want: bool) -> (r: usize)
    requires
        i <= t@.len(),
    ensures
        r == scan(t@, i as int, cls, want),
        i <= r <= t@.len(),
{
    let mut k: usize = i;
    while k < t.len() && cls.holds(t[k]) != want
        invariant
            i <= k <= t.len(),
            scan(t@, i as int, cls, want) == scan(t@, k as int, cls, want),
        decreases t.len() - k,
    {
        k += 1;
    }
    k
}

/// How much of the first `n` characters is left without those of the set at
/// the end.
pub open spec fn rscan(t: Seq<char>, n: int, cls: Class) -> int
    decreases n,
{
    if n <= 0 {
        0
    } else if cls.has(t[n - 1]) {
        rscan(t, n - 1, cls)
    } else {
        n
    }
}

/// Without the characters of the set at both ends.
pub open spec fn trim_class(t: Seq<char>, cls: Class) -> Seq<char> {
    let a = scan(t, 0, cls, false);
    let b = rscan(t, t.len() as int, cls);
    if a < b {
        t.subrange(a, b)
    } else {
        Seq::empty()
    }
}

/// Without white space at both ends.
pub open spec fn trimmed(t: Seq<char>) -> Seq<char> {
    trim_class(t, Class::Space)
}

/// Takes the characters of the set off both ends.
pub fn trim_by(t: &[char], cls: Class) -> (r: Vec<char>)
    ensures
        r@ == trim_class(t@, cls),
{
    let a: usize = find_class(t, 0, cls, false);
    let mut b: usize = t.len();
    while b > 0 && cls.holds(t[b - 1])
        invariant
            b <= t.len(),
            rscan(t@, t@.len() as int, cls) == rscan(t@, b as int, cls),
        decreases b,
    {
        b -= 1;
    }
    if a < b {
        slice_of(t, a, b)
    } else {
        Vec::new()
    }
}

/// Takes white space off both ends.
pub fn trim(t: &[char]) -> (r: Vec<char>)
    ensures
        r@ == trimmed(t@),
{
    trim_by(t, Class::Space)
}

/// `p` stands in `t` at `i`.
pub open spec fn occurs_at(t: Seq<char>, p: Seq<char>, i: int) -> bool {
    0 <= i && i + p.len() <= t.len() && t.subrange(i, i + p.len()) == p
}

pub fn stands_at(t: &[char], p: &[char], i: usize) -> (r: bool)
    ensures
        r == occurs_at(t@, p@, i as int),
{
    if i > t.len() || t.len() - i < p.len() {
        return false;
    }
    let mut k: usize = 0;
    while k < p.len()
        invariant
            k <= p.len(),
            i + p.len() <= t.len(),
            forall|j: int| 0 <= j < k ==> #[trigger] t@[i + j] == p@[j],
        decreases p.len() - k,
    {
        if t[i + k] != p[k] {
            proof {
                assert(t@.subrange(i as int, i + p@.len())[k as int] == t@[i + k]);
            }
            return false;
        }
        k += 1;
    }
    proof {
        assert forall|j: int| 0 <= j < p@.len() implies t@.subrange(
            i as int,
            i + p@.len(),
        )[j] == p@[j] by {
            assert(t@[i + j] == p@[j]);
        }
        assert(t@.subrange(i as int, i + p@.len()) =~= p@);
    }
    true
}

/// The first place from `i` on where `p` stands in `t`.
pub open spec fn find_from(t: Seq<char>, p: Seq<char>, i: int) -> Option<int>
    decreases t.len() + 1 - i,
{
    if i + p.len() > t.len() {
        None
    } else if occurs_at(t, p, i) {
        Some(i)
    } else {
        find_from(t, p, i + 1)
    }
}

pub proof fn lemma_find_from(t: Seq<char>, p: Seq<char>, i: int)
    requires
        0 <= i <= t.len() + 1,
    ensures
        find_from(t, p, i) matches Some(k) ==> i <= k && k + p.len() <= t.len() && occurs_at(
            t,
            p,
            k,
        ),
        find_from(t, p, i) matches Some(k) ==> forall|j: int|
            i <= j < k ==> !#[trigger] occurs_at(t, p, j),
        find_from(t, p, i) is None ==> forall|j: int| i <= j ==> !#[trigger] occurs_at(t, p, j),
    decreases t.len() + 1 - i,
{
    if i + p.len() <= t.len() && !occurs_at(t, p, i) {
        lemma_find_from(t, p, i + 1);
    }
}

/// Whether `p` stands somewhere in `t`.
pub open spec fn has_sub(t: Seq<char>, p: Seq<char>) -> bool {
    find_from(t, p, 0) is Some
}

pub fn find(t: &[char], p: &[char], i: usize) -> (r: Option<usize>)
    requires
        i <= t@.len(),
    ensures
        match find_from(t@, p@, i as int) {
            Some(k) => r == Some(k as usize) && i <= k && k + p@.len() <= t@.len(),
            None => r is None,
        },
{
    proof {
        lemma_find_from(t@, p@, i as int);
    }
    let mut k: usize = i;
    while k <= t.len() && t.len() - k >= p.len()
        invariant
            i <= k <= t.len() + 1,
            k == t.len() + 1 ==> find_from(t@, p@, i as int) is None,
            k <= t.len() ==> find_from(t@, p@, i as int) == find_from(t@, p@, k as int),
        decreases t.len() + 1 - k,
    {
        if stands_at(t, p, k) {
            return Some(k);
        }
        if k == t.len() {
            assert(find_from(t@, p@, k + 1) is None);
            return None;
        }
        k += 1;
    }
    None
}

/// Whether `p` stands somewhere in `t`.
pub fn contains(t: &[char], p: &[char]) -> (r: bool)
    ensures
        r == has_sub(t@, p@),
{
    match find(t, p, 0) {
        Some(_) => true,
        None => false,
    }
}

/// Whether `t` begins with a given string.
pub fn begins_with(t: &[char], s: &str) -> (r: bool)
    ensures
        r == occurs_at(t@, s@, 0),
        r ==> s@.len() <= t@.len(),
{
    let p = chars_of(s);
    stands_at(t, p.as_slice(), 0)
}

// ----------------------------- splitting -----------------------------

/// The contents of a vector of character vectors.
pub open spec fn deep(v: Seq<Vec<char>>) -> Seq<Seq<char>> {
    v.map_values(|x: Vec<char>| x@)
}

/// Before and after the first `c`, if there is one.
pub open spec fn split_once_at(t: Seq<char>, c: char) -> Option<(Seq<char>, Seq<char>)> {
    let i = scan(t, 0, Class::Is(c), true);
    if i < t.len() {
        Some((t.take(i), t.skip(i + 1)))
    } else {
        None
    }
}

pub fn split_once(t: &[char], c: char) -> (r: Option<(Vec<char>, Vec<char>)>)
    ensures
        match split_once_at(t@, c) {
            Some((a, b)) => r is Some && r->Some_0.0@ == a && r->Some_0.1@ == b,
            None => r is None,
        },
{
    let i: usize = find_class(t, 0, Class::Is(c), true);
    if i < t.len() {
        let a = slice_of(t, 0, i);
        let b = slice_of(t, i + 1, t.len());
        assert(a@ =~= t@.take(i as int));
        assert(b@ =~= t@.skip(i + 1));
        Some((a, b))
    } else {
        None
    }
}

/// What stands before the first `c`, or everything.
pub open spec fn before(t: Seq<char>, c: char) -> Seq<char> {
    t.take(scan(t, 0, Class::Is(c), true))
}

pub fn take_before(t: &[char], c: char) -> (r: Vec<char>)
    ensures
        r@ == before(t@, c),
{
    let i: usize = find_class(t, 0, Class::Is(c), true);
    let r = slice_of(t, 0, i);
    assert(r@ =~= t@.take(i as int));
    r
}

/// The parts of `t[i..]` between the characters `c`, empty ones too.
pub open spec fn split_from(t: Seq<char>, c: char, i: int) -> Seq<Seq<char>>
    decreases t.len() - i,
{
    let j = scan(t, i, Class::Is(c), true);
    if 0 <= i <= j < t.len() {
        seq![t.subrange(i, j)] + split_from(t, c, j + 1)
    } else {
        seq![t.skip(i)]
    }
}

/// The parts between the characters `c`.
pub open spec fn split_all(t: Seq<char>, c: char) -> Seq<Seq<char>> {
    split_from(t, c, 0)
}

pub fn split(t: &[char], c: char) -> (r: Vec<Vec<char>>)
    ensures
        deep(r@) == split_all(t@, c),
        r@.len() >= 1,
{
    let mut out: Vec<Vec<char>> = Vec::new();
    let mut i: usize = 0;
    assert(deep(out@) + split_from(t@, c, 0) =~= split_all(t@, c));
    loop
        invariant
            i <= t@.len(),
            split_all(t@, c) == deep(out@) + split_from(t@, c, i as int),
        decreases t@.len() - i,
    {
        let j: usize = find_class(t, i, Class::Is(c), true);
        if j >= t.len() {
            let last = slice_of(t, i, t.len());
            assert(last@ =~= t@.skip(i as int));
            let ghost before = out@;
            out.push(last);
            assert(deep(out@) =~= deep(before) + seq![t@.skip(i as int)]);
            return out;
        }
        let part = slice_of(t, i, j);
        let ghost before = out@;
        out.push(part);
        assert(deep(out@) =~= deep(before) + seq![t@.subrange(i as int, j as int)]);
        assert(deep(before) + (seq![t@.subrange(i as int, j as int)] + split_from(t@, c, j + 1))
            =~= deep(out@) + split_from(t@, c, j + 1));
        i = j + 1;
    }
}

/// A line without the carriage return before its line feed.
pub open spec fn strip_cr(t: Seq<char>) -> Seq<char> {
    if t.len() > 0 && t.last() == '\r' {
        t.drop_last()
    } else {
        t
    }
}

/// The lines of `t[i..]`: each ends at a line feed, with or without a carriage
/// return before it, and the last one may lack it.
pub open spec fn lines_from(t: Seq<char>, i: int) -> Seq<Seq<char>>
    decreases t.len() - i,
{
    let j = scan(t, i, Class::Is('\n'), true);
    if i >= t.len() {
        Seq::empty()
    } else if 0 <= i <= j < t.len() {
        seq![strip_cr(t.subrange(i, j))] + lines_from(t, j + 1)
    } else {
        seq![t.skip(i)]
    }
}

/// The lines of a text.
pub open spec fn lines_of(t: Seq<char>) -> Seq<Seq<char>> {
    lines_from(t, 0)
}

pub fn lines(t: &[char]) -> (r: Vec<Vec<char>>)
    ensures
        deep(r@) == lines_of(t@),
{
    let mut out: Vec<Vec<char>> = Vec::new();
    let mut i: usize = 0;
    assert(deep(out@) + lines_from(t@, 0) =~= lines_of(t@));
    while i < t.len()
        invariant
            i <= t@.len(),
            lines_of(t@) == deep(out@) + lines_from(t@, i as int),
        decreases t@.len() - i,
    {
        let j: usize = find_class(t, i, Class::Is('\n'), true);
        let ghost before = out@;
        if j >= t.len() {
            let last = slice_of(t, i, t.len());
            assert(last@ =~= t@.skip(i as int));
            out.push(last);
            assert(deep(out@) =~= deep(before) + seq![t@.skip(i as int)]);
            return out;
        }
        let e: usize = if j > i && t[j - 1] == '\r' {
            j - 1
        } else {
            j
        };
        let part = slice_of(t, i, e);
        assert(part@ =~= strip_cr(t@.subrange(i as int, j as int)));
        out.push(part);
        assert(deep(out@) =~= deep(before) + seq![strip_cr(t@.subrange(i as int, j as int))]);
        assert(deep(before) + (seq![strip_cr(t@.subrange(i as int, j as int))] + lines_from(
            t@,
            j + 1,
        )) =~= deep(out@) + lines_from(t@, j + 1));
        i = j + 1;
    }
    assert(deep(out@) + lines_from(t@, i as int) =~= deep(out@));
    out
}

/// The words of `t[i..]`, separated by white space.
pub open spec fn words_from(t: Seq<char>, i: int) -> Seq<Seq<char>>
    decreases t.len() - i,
{
    let a = scan(t, i, Class::Space, false);
    let b = scan(t, a, Class::Space, true);
    if 0 <= i <= a < b <= t.len() {
        seq![t.subrange(a, b)] + words_from(t, b)
    } else {
        Seq::empty()
    }
}

/// The words of a text.
pub open spec fn words_of(t: Seq<char>) -> Seq<Seq<char>> {
    words_from(t, 0)
}

pub fn words(t: &[char]) -> (r: Vec<Vec<char>>)
    ensures
        deep(r@) == words_of(t@),
{
    let mut out: Vec<Vec<char>> = Vec::new();
    let mut i: usize = 0;
    assert(deep(out@) + words_from(t@, 0) =~= words_of(t@));
    loop
        invariant
            i <= t@.len(),
            words_of(t@) == deep(out@) + words_from(t@, i as int),
        decreases t@.len() - i,
    {
        let a: usize = find_class(t, i, Class::Space, false);
        let b: usize = find_class(t, a, Class::Space, true);
        proof {
            lemma_scan(t@, i as int, Class::Space, false);
            lemma_scan(t@, a as int, Class::Space, true);
        }
        if a >= t.len() {
            assert(deep(out@) + words_from(t@, i as int) =~= deep(out@));
            return out;
        }
        let part = slice_of(t, a, b);
        let ghost before = out@;
        out.push(part);
        assert(deep(out@) =~= deep(before) + seq![t@.subrange(a as int, b as int)]);
        assert(deep(before) + (seq![t@.subrange(a as int, b as int)] + words_from(t@, b as int))
            =~= deep(out@) + words_from(t@, b as int));
        i = b;
    }
}

// ----------------------------- case and numbers -----------------------------

pub open spec fn lower_char(c: char) -> char {
    if 'A' <= c <= 'Z' {
        (c as u32 + 32) as char
    } else {
        c
    }
}

/// ASCII letters in lower case.
pub open spec fn lower(t: Seq<char>) -> Seq<char> {
    t.map_values(|c: char| lower_char(c))
}

/// Puts ASCII letters in lower case.
pub fn to_lower(t: &[char]) -> (r: Vec<char>)
    ensures
        r@ == lower(t@),
{
    let mut out: Vec<char> = Vec::new();
    let mut i: usize = 0;
    while i < t.len()
        invariant
            i <= t.len(),
            out@ == lower(t@.take(i as int)),
        decreases t.len() - i,
    {
        let c: char = t[i];
        let d: char = if c >= 'A' && c <= 'Z' {
            (c as u8 + 32) as char
        } else {
            c
        };
        out.push(d);
        i += 1;
        assert(out@ =~= lower(t@.take(i as int)));
    }
    assert(t@.take(i as int) =~= t@);
    out
}

/// Equality up to the case of ASCII letters.
pub open spec fn same_word(a: Seq<char>, b: Seq<char>) -> bool {
    lower(a) == lower(b)
}

/// Whether two texts are equal up to the case of ASCII letters.
pub fn eq_ignore_case(a: &[char], s: &str) -> (r: bool)
    ensures
        r == same_word(a@, s@),
{
    let b = chars_of(s);
    let x = to_lower(a);
    let y = to_lower(b.as_slice());
    chars_eq(x.as_slice(), y.as_slice())
}

/// The number that decimal digits spell.
pub open spec fn dec_value(t: Seq<char>) -> nat
    decreases t.len(),
{
    if t.len() == 0 {
        0
    } else {
        10 * dec_value(t.drop_last()) + (t.last() as u32 - 48) as nat
    }
}

pub open spec fn all_digits(t: Seq<char>) -> bool {
    forall|i: int| 0 <= i < t.len() ==> is_digit(#[trigger] t[i])
}

/// The number that a text spells in decimal: an optional plus sign, then one
/// or more digits; at most `max`.
pub open spec fn uint_of(t: Seq<char>, max: nat) -> Option<nat> {
    let s = if t.len() > 0 && t[0] == '+' {
        t.skip(1)
    } else {
        t
    };
    if s.len() > 0 && all_digits(s) && dec_value(s) <= max {
        Some(dec_value(s))
    } else {
        None
    }
}

pub proof fn lemma_dec_value_mono(t: Seq<char>, i: int)
    requires
        0 <= i <= t.len(),
        all_digits(t),
    ensures
        dec_value(t.take(i)) <= dec_value(t),
    decreases t.len() - i,
{
    if i < t.len() {
        lemma_dec_value_mono(t, i + 1);
        assert(t.take(i + 1).drop_last() =~= t.take(i));
        assert(is_digit(t[i]));
        assert(t.take(i + 1).last() == t[i]);
    } else {
        assert(t.take(i) =~= t);
    }
}

/// Reads a decimal number of at most `max`.
pub fn parse_uint(t: &[char], max: u64) -> (r: Option<u64>)
    ensures
        match uint_of(t@, max as nat) {
            Some(v) => r is Some && r->Some_0 == v,
            None => r is None,
        },
{
    let start: usize = if t.len() > 0 && t[0] == '+' {
        1
    } else {
        0
    };
    let ghost s = if t@.len() > 0 && t@[0] == '+' {
        t@.skip(1)
    } else {
        t@
    };
    if start >= t.len() {
        return None;
    }
    let mut v: u64 = 0;
    let mut i: usize = start;
    assert(s.take(0) =~= Seq::<char>::empty());
    while i < t.len()
        invariant
            start <= i <= t.len(),
            start == 0 || start == 1,
            start == 1 ==> t@.len() > 0 && t@[0] == '+' && s == t@.skip(1),
            start == 0 ==> s == t@ && !(t@.len() > 0 && t@[0] == '+'),
            start < t.len(),
            s.len() == t@.len() - start,
            forall|k: int| 0 <= k < i - start ==> is_digit(#[trigger] s[k]),
            v == dec_value(s.take(i - start)),
            v <= max,
        decreases t.len() - i,
    {
        let c: char = t[i];
        assert(s[i - start] == c);
        if !(c >= '0' && c <= '9') {
            return None;
        }
        let d: u64 = (c as u8 - 48) as u64;
        proof {
            let u = s.take(i - start + 1);
            assert(u.drop_last() =~= s.take(i - start));
            assert(u.last() == c);
            assert(dec_value(u) == 10 * v + d);
            if all_digits(s) {
                lemma_dec_value_mono(s, i - start + 1);
            }
        }
        if d > max || v > (max - d) / 10 {
            return None;
        }
        v = v * 10 + d;
        i += 1;
    }
    assert(s.take(i - start) =~= s);
    Some(v)
}

} // verus!
