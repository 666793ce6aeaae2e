//! Addresses are read back from their texts.
use crate::model::addr::{IpAddr, SocketAddr};
use crate::model::addr_text::{
    digits_of, group_of, groups, groups_of, groups_value, hex, hex_digit, hex_val, hex_value,
    ip_of, ip_text, joined, longest_from, octet, octet_of, plain_groups, pow16bit, scoped_v6_of,
    socket_of, socket_text, v4_of, v4_text, v6_of, v6_text, zero_run,
};
use crate::text;
use crate::text::{
    dec, dec_value, find_from, is_digit, occurs_at, scan, split_all, split_from, Class,
};
use vstd::prelude::*;

verus! {

// ----------------------------- splitting -----------------------------

pub open spec fn lacks(t: Seq<char>, c: char) -> bool {
    forall|i: int| 0 <= i < t.len() ==> #[trigger] t[i] != c
}

pub proof fn lemma_scan_lacking(t: Seq<char>, i: int, c: char)
    requires
        0 <= i <= t.len(),
        lacks(t, c),
    ensures
        scan(t, i, Class::Is(c), true) == t.len(),
{
    text::lemma_scan(t, i, Class::Is(c), true);
}

/// The first of two places where a character can stand.
pub proof fn lemma_scan_first(t: Seq<char>, i: int, c: char, k: int)
    requires
        0 <= i <= k < t.len(),
        t[k] == c,
        forall|x: int| i <= x < k ==> #[trigger] t[x] != c,
    ensures
        scan(t, i, Class::Is(c), true) == k,
{
    let cls = Class::Is(c);
    text::lemma_scan(t, i, cls, true);
    let s = scan(t, i, cls, true);
    if s > k {
        assert(cls.has(t[k]) != true);
    }
    if s < k {
        assert(cls.has(t[s]));
    }
}

pub proof fn lemma_split_push(a: Seq<char>, c: char, b: Seq<char>, i: int)
    requires
        0 <= i <= a.len(),
        lacks(b, c),
    ensures
        split_from(a + seq![c] + b, c, i) == split_from(a, c, i).push(b),
    decreases a.len() - i,
{
    let t = a + seq![c] + b;
    let n = a.len() as int;
    let cls = Class::Is(c);
    text::lemma_scan(a, i, cls, true);
    let j = scan(a, i, cls, true);
    assert forall|x: int| 0 <= x < n implies #[trigger] t[x] == a[x] by {
    }
    assert(t[n] == c);
    if j < n {
        assert forall|x: int| i <= x < j implies #[trigger] t[x] != c by {
            assert(cls.has(a[x]) != true);
        }
        assert(cls.has(a[j]));
        lemma_scan_first(t, i, c, j);
        lemma_split_push(a, c, b, j + 1);
        assert(t.subrange(i, j) =~= a.subrange(i, j));
        assert((seq![a.subrange(i, j)] + split_from(a, c, j + 1)).push(b) =~= seq![a.subrange(i, j)]
            + split_from(a, c, j + 1).push(b));
    } else {
        assert forall|x: int| i <= x < n implies #[trigger] t[x] != c by {
            assert(cls.has(a[x]) != true);
        }
        lemma_scan_first(t, i, c, n);
        assert(t.subrange(i, n) =~= a.skip(i));
        let rest = t.skip(n + 1);
        assert(rest =~= b);
        assert(split_from(t, c, n + 1) == seq![b]) by {
            text::lemma_scan(t, n + 1, cls, true);
            let s = scan(t, n + 1, cls, true);
            if s < t.len() {
                assert(cls.has(t[s]));
                assert(t[s] == b[s - n - 1]);
            }
        }
        assert(seq![a.skip(i)].push(b) =~= seq![a.skip(i)] + seq![b]);
    }
}

pub proof fn lemma_split_one(b: Seq<char>, c: char)
    requires
        lacks(b, c),
    ensures
        split_all(b, c) == seq![b],
{
    lemma_scan_lacking(b, 0, c);
    assert(b.skip(0) =~= b);
}

// ----------------------------- decimals -----------------------------

pub proof fn lemma_dec(n: nat)
    ensures
        dec(n).len() >= 1,
        text::all_digits(dec(n)),
        dec_value(dec(n)) == n,
        n >= 1 ==> dec(n)[0] != '0',
        n < 10 ==> dec(n).len() == 1,
        n < 100 ==> dec(n).len() <= 2,
        n < 1000 ==> dec(n).len() <= 3,
    decreases n,
{
    let t = dec(n);
    if n < 10 {
        assert(t == seq![text::digit_char(n)]);
        assert(t.drop_last() =~= Seq::<char>::empty());
        assert(dec_value(t.drop_last()) == 0);
        assert(t.last() as u32 == 48 + n);
    } else {
        lemma_dec(n / 10);
        let h = dec(n / 10);
        assert(t == h.push(text::digit_char(n % 10)));
        assert(t.drop_last() =~= h);
        assert(t.last() as u32 == 48 + n % 10);
        assert(t[0] == h[0]);
        assert forall|i: int| 0 <= i < t.len() implies is_digit(#[trigger] t[i]) by {
            if i < h.len() {
                assert(t[i] == h[i]);
            }
        }
    }
}

proof fn lemma_octet(n: nat)
    requires
        n <= 255,
    ensures
        octet_of(dec(n)) == Some(n),
        lacks(dec(n), '.'),
        lacks(dec(n), ':'),
{
    lemma_dec(n);
    assert forall|i: int| 0 <= i < dec(n).len() implies #[trigger] dec(n)[i] != '.' && dec(n)[i]
        != ':' by {
        assert(is_digit(dec(n)[i]));
    }
}

/// Digits and dots.
pub open spec fn dotted(t: Seq<char>) -> bool {
    forall|i: int| 0 <= i < t.len() ==> is_digit(#[trigger] t[i]) || t[i] == '.'
}

proof fn lemma_dotted(a: Seq<char>, b: Seq<char>)
    requires
        dotted(a),
        text::all_digits(b),
    ensures
        dotted(a + seq!['.'] + b),
{
    let t = a + seq!['.'] + b;
    let n = a.len() as int;
    assert forall|i: int| 0 <= i < t.len() implies is_digit(#[trigger] t[i]) || t[i] == '.' by {
        if i < n {
            assert(t[i] == a[i]);
        } else if i > n {
            assert(t[i] == b[i - n - 1]);
        }
    }
}

proof fn lemma_v4_chars_of(v: u32)
    ensures
        v4_text(v).len() >= 7,
        is_digit(v4_text(v)[0]),
        dotted(v4_text(v)),
{
    let (a, b, c, d) = (dec(octet(v, 0)), dec(octet(v, 1)), dec(octet(v, 2)), dec(octet(v, 3)));
    lemma_dec(octet(v, 0));
    lemma_dec(octet(v, 1));
    lemma_dec(octet(v, 2));
    lemma_dec(octet(v, 3));
    let t2 = a + seq!['.'] + b;
    let t3 = t2 + seq!['.'] + c;
    lemma_dotted(a, b);
    lemma_dotted(t2, c);
    lemma_dotted(t3, d);
    assert(v4_text(v)[0] == a[0]);
}

proof fn lemma_v4_parts(a: Seq<char>, b: Seq<char>, c: Seq<char>, d: Seq<char>)
    requires
        lacks(a, '.'),
        lacks(b, '.'),
        lacks(c, '.'),
        lacks(d, '.'),
    ensures
        split_all(a + seq!['.'] + b + seq!['.'] + c + seq!['.'] + d, '.') == seq![a, b, c, d],
{
    let t2 = a + seq!['.'] + b;
    let t3 = t2 + seq!['.'] + c;
    lemma_split_one(a, '.');
    lemma_split_push(a, '.', b, 0);
    lemma_split_push(t2, '.', c, 0);
    lemma_split_push(t3, '.', d, 0);
    assert(split_all(t3 + seq!['.'] + d, '.') =~= seq![a, b, c, d]);
}

proof fn lemma_v4_text(v: u32)
    ensures
        v4_of(v4_text(v)) == Some(v),
        v4_text(v).len() >= 7,
        is_digit(v4_text(v)[0]),
        dotted(v4_text(v)),
{
    lemma_v4_chars_of(v);
    lemma_octet(octet(v, 0));
    lemma_octet(octet(v, 1));
    lemma_octet(octet(v, 2));
    lemma_octet(octet(v, 3));
    lemma_v4_parts(dec(octet(v, 0)), dec(octet(v, 1)), dec(octet(v, 2)), dec(octet(v, 3)));
    assert(octet(v, 0) * 0x100_0000 + octet(v, 1) * 0x1_0000 + octet(v, 2) * 0x100 + octet(v, 3)
        == v);
}

proof fn lemma_port(p: u16)
    ensures
        digits_of(dec(p as nat), 0xffff) == Some(p as nat),
{
    lemma_dec(p as nat);
}

// ----------------------------- groups -----------------------------

/// A number is read back from its hexadecimal spelling.
pub proof fn lemma_hex(n: nat)
    ensures
        hex_value(hex(n)) == Some(n),
        hex(n).len() >= 1,
        forall|i: int| 0 <= i < hex(n).len() ==> hex_val(#[trigger] hex(n)[i]) is Some,
        n < 0x10 ==> hex(n).len() <= 1,
        n < 0x100 ==> hex(n).len() <= 2,
        n < 0x1000 ==> hex(n).len() <= 3,
        n < 0x1_0000 ==> hex(n).len() <= 4,
    decreases n,
{
    let t = hex(n);
    if n < 16 {
        assert(t == seq![hex_digit(n)]);
        assert(hex_val(hex_digit(n)) == Some(n));
        assert(t.drop_last() =~= Seq::<char>::empty());
        assert(hex_value(t.drop_last()) == Some(0nat));
        assert(hex_val(t.last()) == Some(n));
    } else {
        lemma_hex(n / 16);
        let h = hex(n / 16);
        assert(hex_val(hex_digit(n % 16)) == Some(n % 16));
        assert(t == h.push(hex_digit(n % 16)));
        assert(t.drop_last() =~= h);
        assert(hex_val(t.last()) == Some(n % 16));
        assert(16 * (n / 16) + n % 16 == n);
        assert forall|i: int| 0 <= i < t.len() implies hex_val(#[trigger] t[i]) is Some by {
            if i < h.len() {
                assert(t[i] == h[i]);
            }
        }
    }
}

/// Every group fits its sixteen bits.
pub open spec fn fit(g: Seq<nat>) -> bool {
    forall|i: int| 0 <= i < g.len() ==> #[trigger] g[i] < 0x1_0000
}

pub open spec fn hex_parts(g: Seq<nat>, i: int, j: int) -> Seq<Seq<char>> {
    Seq::new((j - i) as nat, |k: int| hex(g[i + k]))
}

/// No two colons stand together in what is joined, nor one at either end.
pub open spec fn single_colons(t: Seq<char>) -> bool {
    &&& forall|i: int| 0 <= i < t.len() ==> hex_val(#[trigger] t[i]) is Some || t[i] == ':'
    &&& t.len() > 0 ==> t[0] != ':' && t.last() != ':'
    &&& forall|i: int| 0 <= i < t.len() - 1 && #[trigger] t[i] == ':' ==> t[i + 1] != ':'
}

proof fn lemma_joined(g: Seq<nat>, i: int, j: int)
    requires
        0 <= i < j <= g.len(),
    ensures
        split_all(joined(g, i, j), ':') == hex_parts(g, i, j),
        single_colons(joined(g, i, j)),
        joined(g, i, j).len() >= 1,
    decreases j - i,
{
    let t = joined(g, i, j);
    let b = hex(g[j - 1]);
    lemma_hex(g[j - 1]);
    assert forall|x: int| 0 <= x < b.len() implies #[trigger] b[x] != ':' by {
        assert(hex_val(b[x]) is Some);
    }
    if i + 1 == j {
        lemma_split_one(b, ':');
        assert(hex_parts(g, i, j) =~= seq![b]);
    } else {
        lemma_joined(g, i, j - 1);
        let a = joined(g, i, j - 1);
        assert(t == a + seq![':'] + b);
        lemma_split_push(a, ':', b, 0);
        assert(hex_parts(g, i, j) =~= hex_parts(g, i, j - 1).push(b));
        let n = a.len() as int;
        assert forall|x: int| 0 <= x < t.len() implies hex_val(#[trigger] t[x]) is Some || t[x]
            == ':' by {
            if x < n {
                assert(t[x] == a[x]);
            } else if x > n {
                assert(t[x] == b[x - n - 1]);
            }
        }
        assert(t[0] == a[0]);
        assert(t.last() == b.last());
        assert forall|x: int| 0 <= x < t.len() - 1 && #[trigger] t[x] == ':' implies t[x + 1]
            != ':' by {
            if x < n - 1 {
                assert(t[x] == a[x] && t[x + 1] == a[x + 1]);
            } else if x == n - 1 {
                assert(t[x] == a.last());
            } else if x == n {
                assert(t[x + 1] == b[0]);
            } else {
                assert(t[x] == b[x - n - 1]);
            }
        }
    }
}

proof fn lemma_plain(p: Seq<Seq<char>>, g: Seq<nat>, i: int, n: nat)
    requires
        0 <= i,
        i + n <= g.len(),
        n <= p.len(),
        fit(g),
        forall|k: int| 0 <= k < n ==> #[trigger] p[k] == hex(g[i + k]),
    ensures
        plain_groups(p, n) == Some(g.subrange(i, i + n)),
    decreases n,
{
    if n == 0 {
        assert(g.subrange(i, i + n) =~= Seq::<nat>::empty());
    } else {
        lemma_plain(p, g, i, (n - 1) as nat);
        assert(p[n - 1] == hex(g[i + n - 1]));
        lemma_hex(g[i + n - 1]);
        assert(group_of(p[n - 1]) == Some(g[i + n - 1]));
        assert(g.subrange(i, i + n - 1).push(g[i + n - 1]) =~= g.subrange(i, i + n));
    }
}

/// Joined groups are read back, whether an IPv4 address is looked for or not.
proof fn lemma_groups_back(g: Seq<nat>, i: int, j: int, v4: bool)
    requires
        0 <= i <= j <= g.len(),
        fit(g),
    ensures
        groups_of(joined(g, i, j), v4) == Some(g.subrange(i, j)),
{
    let t = joined(g, i, j);
    if i == j {
        assert(g.subrange(i, j) =~= Seq::<nat>::empty());
    } else {
        lemma_joined(g, i, j);
        let p = split_all(t, ':');
        let last = hex(g[j - 1]);
        lemma_hex(g[j - 1]);
        assert(p.last() == last);
        assert forall|x: int| 0 <= x < last.len() implies #[trigger] last[x] != '.' by {
            assert(hex_val(last[x]) is Some);
        }
        lemma_split_one(last, '.');
        assert(v4_of(last) is None);
        lemma_plain(p, g, i, p.len());
    }
}

proof fn lemma_value(v: u128)
    ensures
        groups_value(groups(v)) == v,
        fit(groups(v)),
        groups(v).len() == 8,
{
    let g = groups(v);
    lemma_value_prefix(v, 8);
    assert(g.take(8) =~= g);
    assert(pow16bit(0) == 1);
    assert(v as nat / 1 == v as nat);
    assert forall|i: int| 0 <= i < g.len() implies #[trigger] g[i] < 0x1_0000 by {
    }
}

proof fn lemma_value_prefix(v: u128, k: nat)
    requires
        k <= 8,
    ensures
        groups_value(groups(v).take(k as int)) == v as nat / pow16bit((8 - k) as nat),
        pow16bit((8 - k) as nat) > 0,
    decreases k,
{
    let g = groups(v);
    reveal_with_fuel(pow16bit, 9);
    if k == 0 {
        assert(g.take(0) =~= Seq::<nat>::empty());
        assert(pow16bit(8) == 0x1_0000_0000_0000_0000_0000_0000_0000_0000);
    } else {
        lemma_value_prefix(v, (k - 1) as nat);
        let p = pow16bit((8 - k) as nat);
        assert(pow16bit((8 - (k - 1)) as nat) == 0x1_0000 * p);
        let u = g.take(k as int);
        assert(u.drop_last() =~= g.take(k - 1));
        assert(u.last() == v as nat / p % 0x1_0000);
        vstd::arithmetic::div_mod::lemma_div_denominator(v as int, p as int, 0x1_0000);
        assert(p * 0x1_0000 == 0x1_0000 * p);
        let q = v as nat / p;
        assert(q / 0x1_0000 == v as nat / (0x1_0000 * p));
        assert(0x1_0000 * (q / 0x1_0000) + q % 0x1_0000 == q);
    }
}

// ----------------------------- IPv6 -----------------------------

proof fn lemma_run_is_zero(g: Seq<nat>, i: int)
    requires
        0 <= i <= g.len(),
    ensures
        i + zero_run(g, i) <= g.len(),
        forall|k: int| i <= k < i + zero_run(g, i) ==> #[trigger] g[k] == 0,
    decreases g.len() - i,
{
    if i < g.len() && g[i] == 0 {
        lemma_run_is_zero(g, i + 1);
    }
}

proof fn lemma_longest_within(g: Seq<nat>, i: int)
    requires
        0 <= i < g.len(),
    ensures
        i <= longest_from(g, i) < g.len(),
    decreases g.len() - i,
{
    if i + 1 < g.len() {
        lemma_longest_within(g, i + 1);
    }
}

pub open spec fn colons() -> Seq<char> {
    seq![':', ':']
}

/// Without a double colon, there is none to find.
proof fn lemma_no_double(t: Seq<char>)
    requires
        single_colons(t),
    ensures
        find_from(t, colons(), 0) is None,
{
    text::lemma_find_from(t, colons(), 0);
    if let Some(k) = find_from(t, colons(), 0) {
        assert(t.subrange(k, k + 2)[0] == ':');
        assert(t.subrange(k, k + 2)[1] == ':');
        assert(t[k] == ':' && t[k + 1] == ':');
    }
}

/// The double colon behind what is joined is the first.
proof fn lemma_first_double(a: Seq<char>, b: Seq<char>)
    requires
        single_colons(a),
    ensures
        find_from(a + "::"@ + b, colons(), 0) == Some(a.len() as int),
        (a + "::"@ + b).take(a.len() as int) == a,
        (a + "::"@ + b).skip(a.len() as int + 2) == b,
{
    reveal_strlit("::");
    let n = a.len() as int;
    let t = a + "::"@ + b;
    assert(t.subrange(n, n + 2) =~= colons());
    assert(occurs_at(t, colons(), n));
    text::lemma_find_from(t, colons(), 0);
    let k = find_from(t, colons(), 0);
    assert(k is Some);
    let x = k->Some_0;
    if x < n {
        assert(t.subrange(x, x + 2)[0] == t[x]);
        assert(t.subrange(x, x + 2)[1] == t[x + 1]);
        assert(t[x] == a[x]);
        if x + 1 < n {
            assert(t[x + 1] == a[x + 1]);
        } else {
            assert(a[x] == a.last());
        }
    }
    assert(t.take(n) =~= a);
    assert(t.skip(n + 2) =~= b);
}

pub open spec fn is_v6_char(c: char) -> bool {
    hex_val(c) is Some || c == ':' || c == '.'
}

pub open spec fn v6_chars(t: Seq<char>) -> bool {
    forall|i: int| 0 <= i < t.len() ==> is_v6_char(#[trigger] t[i])
}

proof fn lemma_v6_compressed(v: u128)
    requires
        v / 0x1_0000_0000 != 0xffff,
        zero_run(groups(v), longest_from(groups(v), 0)) > 1,
    ensures
        v6_of(v6_text(v)) == Some(v),
        v6_chars(v6_text(v)),
{
    let g = groups(v);
    lemma_value(v);
    lemma_longest_within(g, 0);
    let s = longest_from(g, 0);
    lemma_run_is_zero(g, s);
    let n = zero_run(g, s) as int;
    let a = joined(g, 0, s);
    let b = joined(g, s + n, 8);
    if s > 0 {
        lemma_joined(g, 0, s);
    }
    if s + n < 8 {
        lemma_joined(g, s + n, 8);
    }
    lemma_first_double(a, b);
    lemma_groups_back(g, 0, s, false);
    lemma_groups_back(g, s + n, 8, true);
    let x = g.subrange(0, s);
    let y = g.subrange(s + n, 8);
    let z = Seq::new((8 - x.len() - y.len()) as nat, |k: int| 0nat);
    assert(x + z + y =~= g);
    reveal_strlit("::");
    let t = v6_text(v);
    assert(t == a + "::"@ + b);
    assert forall|i: int| 0 <= i < t.len() implies is_v6_char(#[trigger] t[i]) by {
        if i < a.len() {
            assert(t[i] == a[i]);
        } else if i >= a.len() + 2 {
            assert(t[i] == b[i - a.len() - 2]);
        } else {
            assert(t[i] == "::"@[i - a.len()]);
        }
    }
}

proof fn lemma_v6_full(v: u128)
    requires
        v / 0x1_0000_0000 != 0xffff,
        zero_run(groups(v), longest_from(groups(v), 0)) <= 1,
    ensures
        v6_of(v6_text(v)) == Some(v),
        v6_chars(v6_text(v)),
{
    let g = groups(v);
    lemma_value(v);
    lemma_joined(g, 0, 8);
    lemma_no_double(joined(g, 0, 8));
    lemma_groups_back(g, 0, 8, true);
    assert(g.subrange(0, 8) =~= g);
    let t = v6_text(v);
    assert(t == joined(g, 0, 8));
    assert forall|i: int| 0 <= i < t.len() implies is_v6_char(#[trigger] t[i]) by {
    }
}

proof fn lemma_v6_mapped(v: u128)
    requires
        v / 0x1_0000_0000 == 0xffff,
    ensures
        v6_of(v6_text(v)) == Some(v),
        v6_chars(v6_text(v)),
{
    let q = (v % 0x1_0000_0000) as u32;
    let t = v6_text(v);
    let w = v4_text(q);
    reveal_strlit("::ffff:");
    reveal_strlit("::");
    lemma_v4_text(q);
    let f = seq!['f', 'f', 'f', 'f'];
    let e = Seq::<char>::empty();
    let b = f + seq![':'] + w;
    assert(t =~= e + "::"@ + b);
    lemma_first_double(e, b);
    assert forall|i: int| 0 <= i < w.len() implies #[trigger] w[i] != ':' by {
        assert(is_digit(w[i]) || w[i] == '.');
    }
    lemma_split_one(f, ':');
    lemma_split_push(f, ':', w, 0);
    let p = split_all(b, ':');
    assert(p =~= seq![f, w]);
    assert(hex(0xffff) =~= f) by {
        reveal_with_fuel(hex, 5);
        assert(hex_digit(15) == 'f');
    }
    lemma_hex(0xffff);
    assert(group_of(f) == Some(0xffffnat));
    reveal_with_fuel(plain_groups, 2);
    assert(plain_groups(p, 1) == Some(Seq::<nat>::empty().push(0xffff)));
    let g = Seq::<nat>::empty().push(0xffff).push(q as nat / 0x1_0000).push(q as nat % 0x1_0000);
    assert(groups_of(b, true) == Some(g));
    assert(groups_of(e, false) == Some(Seq::<nat>::empty()));
    let all = Seq::<nat>::empty() + Seq::new(5, |k: int| 0nat) + g;
    assert(all =~= seq![0nat, 0, 0, 0, 0, 0xffff, q as nat / 0x1_0000, q as nat % 0x1_0000]);
    assert(groups_value(all) == v) by {
        lemma_mapped_value(q as nat, all);
    }
    assert forall|i: int| 0 <= i < t.len() implies is_v6_char(#[trigger] t[i]) by {
        if i >= 7 {
            assert(t[i] == w[i - 7]);
        } else {
            assert(t[i] == "::ffff:"@[i]);
        }
    }
}

proof fn lemma_mapped_value(q: nat, all: Seq<nat>)
    requires
        all == seq![0nat, 0, 0, 0, 0, 0xffff, q / 0x1_0000, q % 0x1_0000],
    ensures
        groups_value(all) == 0xffff * 0x1_0000_0000 + q,
{
    let a7 = all.drop_last();
    let a6 = a7.drop_last();
    let a5 = a6.drop_last();
    assert(all.last() == q % 0x1_0000);
    assert(a7.last() == q / 0x1_0000);
    assert(a6.last() == 0xffff);
    assert(a5 =~= seq![0nat, 0, 0, 0, 0]);
    assert(groups_value(a5) == 0) by {
        let a4 = a5.drop_last();
        let a3 = a4.drop_last();
        let a2 = a3.drop_last();
        let a1 = a2.drop_last();
        assert(a1.drop_last() =~= Seq::<nat>::empty());
        assert(groups_value(a1.drop_last()) == 0);
        assert(groups_value(a1) == 0);
        assert(groups_value(a2) == 0);
        assert(groups_value(a3) == 0);
        assert(groups_value(a4) == 0);
    }
    assert(groups_value(a6) == 0xffff);
    assert(groups_value(a7) == 0x1_0000 * 0xffff + q / 0x1_0000);
    assert(0x1_0000 * (q / 0x1_0000) + q % 0x1_0000 == q);
}

proof fn lemma_v6_text(v: u128)
    ensures
        v6_of(v6_text(v)) == Some(v),
        v6_chars(v6_text(v)),
{
    if v / 0x1_0000_0000 == 0xffff {
        lemma_v6_mapped(v);
    } else if zero_run(groups(v), longest_from(groups(v), 0)) > 1 {
        lemma_v6_compressed(v);
    } else {
        lemma_v6_full(v);
    }
}

// ----------------------------- laws -----------------------------

/// A socket address is read back from its text.
pub proof fn law_socket_read_back(a: SocketAddr)
    ensures
        socket_of(socket_text(a)) == Some(a),
{
    let t = socket_text(a);
    let port = dec(a.port as nat);
    lemma_port(a.port);
    match a.ip {
        IpAddr::V4(v) => {
            let w = v4_text(v);
            lemma_v4_text(v);
            let n = w.len() as int;
            assert(t == w + seq![':'] + port);
            assert(t[0] == w[0]);
            assert forall|x: int| 0 <= x < n implies #[trigger] t[x] != ':' by {
                assert(t[x] == w[x]);
            }
            assert(t[n] == ':');
            lemma_scan_first(t, 0, ':', n);
            assert(t.take(n) =~= w);
            assert(t.skip(n + 1) =~= port);
        },
        IpAddr::V6(v) => {
            let w = v6_text(v);
            lemma_v6_text(v);
            reveal_strlit("]:");
            let n = w.len() as int;
            assert(t == seq!['['] + w + "]:"@ + port);
            assert(t[0] == '[');
            assert forall|x: int| 0 <= x < n + 1 implies #[trigger] t[x] != ']' by {
                if x > 0 {
                    assert(t[x] == w[x - 1]);
                    assert(is_v6_char(w[x - 1]));
                }
            }
            assert(t[n + 1] == "]:"@[0]);
            assert(t[n + 2] == "]:"@[1]);
            lemma_scan_first(t, 0, ']', n + 1);
            assert(t.subrange(1, n + 1) =~= w);
            assert(t.skip(n + 3) =~= port);
            assert forall|x: int| 0 <= x < n implies #[trigger] w[x] != '%' by {
                assert(is_v6_char(w[x]));
            }
            lemma_scan_lacking(w, 0, '%');
            assert(scoped_v6_of(w) == Some(v));
        },
    }
}

/// An IP address is read back from its text.
pub proof fn law_ip_read_back(ip: IpAddr)
    ensures
        ip_of(ip_text(ip)) == Some(ip),
{
    match ip {
        IpAddr::V4(v) => {
            lemma_v4_text(v);
        },
        IpAddr::V6(v) => {
            lemma_v6_text(v);
            lemma_v6_is_no_v4(v);
        },
    }
}

/// The text of an IPv6 address holds a colon before any dot, so that it spells no
/// IPv4 address.
proof fn lemma_v6_is_no_v4(v: u128)
    ensures
        v4_of(v6_text(v)) is None,
{
    let t = v6_text(v);
    assert(exists|k: int| 0 <= k < t.len() && t[k] == ':') by {
        lemma_colon(v);
    }
    let k = choose|k: int| 0 <= k < t.len() && t[k] == ':';
    if v4_of(t) is Some {
        lemma_v4_chars(t, k);
    }
}

proof fn lemma_colon(v: u128)
    ensures
        exists|k: int| 0 <= k < v6_text(v).len() && v6_text(v)[k] == ':',
{
    let t = v6_text(v);
    let g = groups(v);
    lemma_value(v);
    reveal_strlit("::ffff:");
    reveal_strlit("::");
    if v / 0x1_0000_0000 == 0xffff {
        assert(t[0] == "::ffff:"@[0]);
    } else if zero_run(g, longest_from(g, 0)) > 1 {
        let a = joined(g, 0, longest_from(g, 0));
        assert(t[a.len() as int] == "::"@[0]);
    } else {
        let a = joined(g, 0, 7);
        assert(t == a + seq![':'] + hex(g[7]));
        assert(t[a.len() as int] == ':');
    }
}

/// An IPv4 address is made of digits and dots.
proof fn lemma_v4_chars(t: Seq<char>, k: int)
    requires
        v4_of(t) is Some,
        0 <= k < t.len(),
    ensures
        t[k] != ':',
{
    let p = split_all(t, '.');
    assert forall|i: int| 0 <= i < p.len() implies #[trigger] lacks(p[i], ':') by {
        assert(text::all_digits(p[i]));
        assert forall|x: int| 0 <= x < p[i].len() implies #[trigger] p[i][x] != ':' by {
            assert(is_digit(p[i][x]));
        }
    }
    lemma_parts_lack(t, '.', ':', 0, k);
}

proof fn lemma_parts_lack(t: Seq<char>, c: char, x: char, i: int, k: int)
    requires
        0 <= i <= k < t.len(),
        c != x,
        forall|m: int|
            0 <= m < split_from(t, c, i).len() ==> #[trigger] lacks(split_from(t, c, i)[m], x),
    ensures
        t[k] != x,
    decreases t.len() - i,
{
    let cls = Class::Is(c);
    text::lemma_scan(t, i, cls, true);
    let j = scan(t, i, cls, true);
    let p = split_from(t, c, i);
    assert(lacks(p[0], x));
    if j < t.len() {
        assert(p[0] == t.subrange(i, j));
        if k < j {
            assert(p[0][k - i] == t[k]);
        } else if k > j {
            let r = split_from(t, c, j + 1);
            assert forall|m: int| 0 <= m < r.len() implies #[trigger] lacks(r[m], x) by {
                assert(p[m + 1] == r[m]);
                assert(lacks(p[m + 1], x));
            }
            lemma_parts_lack(t, c, x, j + 1, k);
        } else {
            assert(cls.has(t[j]));
        }
    } else {
        assert(p[0] == t.skip(i));
        assert(p[0][k - i] == t[k]);
    }
}

} // verus!
