//! How numbers, sizes and times are written.
use crate::numfmt::{
    bucket_text, bytes_text, clock_text, count_text, dur_text, elapsed_text, half_even, hundredths,
    left, one_decimal, right, rounded53, scaled, secs_text, short_bytes_text, since, size_text,
    span_text, stretched, tenths, time_delta_text, time_text, two_decimals, two_digits, unit53,
};
use crate::text;
use crate::ui::pages;
use vstd::prelude::*;

verus! {

/// A text in a column keeps its characters and is filled up with spaces: behind it at the left of the column,
/// before it at the right.
pub proof fn law_columns(t: Seq<char>, w: int)
    ensures
        w >= t.len() ==> left(t, w).len() == w && right(t, w).len() == w,
        w < t.len() ==> left(t, w) == t && right(t, w) == t,
        left(t, w).subrange(0, t.len() as int) == t,
        right(t, w).subrange(right(t, w).len() - t.len(), right(t, w).len() as int) == t,
        forall|i: int| t.len() <= i < left(t, w).len() ==> #[trigger] left(t, w)[i] == ' ',
        forall|i: int|
            0 <= i < right(t, w).len() - t.len() ==> #[trigger] right(t, w)[i] == ' ',
{
    assert(left(t, w).subrange(0, t.len() as int) =~= t);
    assert(right(t, w).subrange(right(t, w).len() - t.len(), right(t, w).len() as int) =~= t);
    if w < t.len() {
        assert(left(t, w) =~= t);
        assert(right(t, w) =~= t);
    }
}

/// Numbers below ten get a zero before them.
pub proof fn law_two_digits(n: nat)
    ensures
        n < 10 ==> two_digits(n) == seq!['0'] + text::dec(n),
        10 <= n ==> two_digits(n) == text::dec(n),
{
}

/// A quotient is rounded to the nearest integer, and a half to the even one.
pub proof fn law_rounding(num: nat, den: nat)
    requires
        den > 0,
    ensures
        -(den as int) <= 2 * (half_even(num, den) * den - num) <= den,
        2 * (half_even(num, den) * den - num) == den ==> half_even(num, den) % 2 == 0,
        2 * (half_even(num, den) * den - num) == -(den as int) ==> half_even(num, den) % 2 == 0,
{
    let q = num / den;
    let r = num % den;
    vstd::arithmetic::div_mod::lemma_fundamental_div_mod(num as int, den as int);
    assert(den * q == q * den) by (nonlinear_arith);
    assert((q + 1) * den == q * den + den) by (nonlinear_arith);
}

/// What is divided without a rest is divided exactly.
proof fn lemma_exact(q: nat, den: nat)
    requires
        den > 0,
    ensures
        half_even(q * den, den) == q,
{
    vstd::arithmetic::div_mod::lemma_fundamental_div_mod_converse(
        (q * den) as int,
        den as int,
        q as int,
        0,
    );
}

proof fn lemma_stretched(x: nat, t: nat, d: nat, m: nat)
    requires
        d > 0,
        x == m * d * t,
        t > 0,
    ensures
        stretched(x, t, d).0 == m * d * stretched(x, t, d).1,
        stretched(x, t, d).1 > 0,
    decreases 0x20_0000_0000_0000 * d - x,
{
    if !(x == 0 || x >= 0x10_0000_0000_0000 * d) {
        assert(2 * x == m * d * (2 * t)) by (nonlinear_arith)
            requires
                x == m * d * t,
        ;
        lemma_stretched(2 * x, 2 * t, d, m);
    }
}

/// A whole number of units is that number in tenths, hundredths or any other parts.
pub proof fn law_whole_units(m: nat, d: nat, k: nat)
    requires
        d > 0,
        m * d < 0x20_0000_0000_0000,
    ensures
        scaled(m * d, d, k) == m * k,
        tenths(m * d, d) == 10 * m,
        hundredths(m * d, d) == 100 * m,
        rounded53(m * d) == m * d,
{
    lemma_whole(m, d, k);
    lemma_whole(m, d, 10);
    lemma_whole(m, d, 100);
}

proof fn lemma_whole(m: nat, d: nat, k: nat)
    requires
        d > 0,
        m * d < 0x20_0000_0000_0000,
    ensures
        scaled(m * d, d, k) == m * k,
        rounded53(m * d) == m * d,
{
    let n = m * d;
    assert(unit53(n) == 1);
    lemma_exact(n, 1);
    assert(n * 1 == n);
    assert(rounded53(n) == n);
    assert(n == m * d * 1) by (nonlinear_arith)
        requires
            n == m * d,
    ;
    lemma_stretched(n, 1, d, m);
    let x = stretched(n, 1, d).0;
    let t = stretched(n, 1, d).1;
    assert(m * d * t == (m * t) * d) by (nonlinear_arith);
    lemma_exact(m * t, d);
    assert(half_even(x, d) == m * t);
    assert(m * t * k == (m * k) * t) by (nonlinear_arith);
    lemma_exact(m * k, t);
}

/// Sizes: bytes below 1024, then kilobytes and megabytes of 1024 each with one decimal, and gigabytes with two.
pub proof fn law_sizes(n: u64)
    ensures
        n < 1024 ==> bytes_text(n) == text::dec(n as nat) + " B"@,
        1024 <= n < 1024 * 1024 ==> bytes_text(n) == one_decimal(tenths(n as nat, 1024)) + " KB"@,
        1024 * 1024 <= n ==> bytes_text(n) == one_decimal(tenths(n as nat, 1024 * 1024)) + " MB"@,
        n < 1024 * 1024 * 1024 ==> size_text(n) == bytes_text(n),
        n >= 1024 * 1024 * 1024 ==> size_text(n) == two_decimals(
            hundredths(n as nat, 1024 * 1024 * 1024),
        ) + " GB"@,
        n < 1024 ==> short_bytes_text(n) == text::dec(n as nat),
        1024 <= n < 1024 * 1024 ==> short_bytes_text(n) == text::dec(scaled(n as nat, 1024, 1))
            + "K"@,
        1024 * 1024 <= n ==> short_bytes_text(n) == one_decimal(tenths(n as nat, 1024 * 1024))
            + "M"@,
{
}

/// Decimals stand behind a point.
pub proof fn law_decimals(a: nat, b: nat)
    ensures
        b < 10 ==> one_decimal(10 * a + b) == text::dec(a) + "."@ + text::dec(b),
        b < 100 ==> two_decimals(100 * a + b) == text::dec(a) + "."@ + two_digits(b),
{
    if b < 10 {
        assert((10 * a + b) / 10 == a);
    }
    if b < 100 {
        assert((100 * a + b) / 100 == a);
    }
}

/// A span of time: seconds, or minutes and seconds, or hours and minutes.
pub proof fn law_span_text(h: nat, m: nat, s: nat, us: nat)
    requires
        m < 60,
        s < 60,
        us < 1_000_000,
        (3600 * h + 60 * m + s) * 1_000_000 + us <= u64::MAX,
    ensures
        ({
            let t = span_text(((3600 * h + 60 * m + s) * 1_000_000 + us) as u64);
            &&& h == 0 && m == 0 ==> t == text::dec(s) + "s"@
            &&& h == 0 && m > 0 ==> t == text::dec(m) + "m"@ + two_digits(s) + "s"@
            &&& h > 0 ==> t == text::dec(h) + "h"@ + two_digits(m) + "m"@
        }),
{
    let u = 3600 * h + 60 * m + s;
    assert((u * 1_000_000 + us) / 1_000_000 == u);
    assert(u / 3600 == h);
    assert(u % 3600 == 60 * m + s);
    assert((60 * m + s) / 60 == m);
    if h == 0 {
        assert(u / 60 == m);
        assert(u % 60 == s);
    }
}

/// Seconds with two decimals; a call's length with one, or in minutes and seconds.
pub proof fn law_seconds(s: nat, c: nat, r: nat, m: nat)
    requires
        c < 100,
        r < 10,
        1000 * (60 * m + s) + 10 * c + r <= u64::MAX,
    ensures
        secs_text(Some((1000 * s + 10 * c + r) as u64)) == text::dec(s) + "."@ + two_digits(c)
            + "s"@,
        secs_text(None) == "-"@,
        dur_text(None) == "-"@,
        s < 60 ==> dur_text(Some((1000 * s + 10 * c + r) as u64)) == text::dec(s) + "."@
            + text::dec(c / 10) + "s"@,
        s < 60 && m > 0 ==> dur_text(Some((1000 * (60 * m + s) + 10 * c + r) as u64))
            == text::dec(m) + "m"@ + text::dec(s) + "s"@,
{
    let n = 1000 * s + 10 * c + r;
    assert(n / 1000 == s);
    assert(n % 1000 == 10 * c + r);
    assert((10 * c + r) / 10 == c);
    assert((10 * c + r) / 100 == c / 10);
    if s < 60 {
        let k = 1000 * (60 * m + s) + 10 * c + r;
        assert(k / 60_000 == m);
        assert(k % 60_000 == n);
    }
}

/// The clock: hours, minutes and seconds of the day, with two digits each.
pub proof fn law_clock(days: int, h: nat, m: nat, s: nat)
    requires
        h < 24,
        m < 60,
        s < 60,
    ensures
        clock_text(86_400 * days + 3600 * h + 60 * m + s) == two_digits(h) + ":"@ + two_digits(m)
            + ":"@ + two_digits(s),
{
    let d = 3600 * h + 60 * m + s;
    assert((86_400 * days + d) % 86_400 == d);
    assert(d / 3600 == h);
    assert(d / 60 == 60 * h + m);
    assert((60 * h + m) % 60 == m);
    assert(d % 60 == s);
}

/// A time is shown on the clock of its zone: an offset moves it by as many seconds.
pub proof fn law_time_text(ts_us: u64, offset: i32)
    requires
        ts_us <= 0x20_0000_0000_0000,
    ensures
        time_text(ts_us, offset) == clock_text(ts_us / 1_000_000 + offset),
        time_text(ts_us, 0) == clock_text((ts_us / 1_000_000) as int),
        time_text(u64::MAX, offset) == "??:??:??"@,
{
}

/// The time since another, none before it; a time shown with it.
pub proof fn law_since(ts: u64, base: u64, offset: i32)
    ensures
        ts >= base ==> since(ts, base) == ts - base,
        ts < base ==> since(ts, base) == 0,
        time_delta_text(ts, base, offset) == time_text(ts, offset) + "(+"@ + elapsed_text(
            since(ts, base),
        ) + ")"@,
{
}

/// How long something has gone on: below a minute in seconds, below an hour in minutes and seconds, and else in
/// hours and minutes.
pub proof fn law_elapsed(h: nat, m: nat, s: nat, us: nat)
    requires
        m < 60,
        s < 60,
        us < 1_000_000,
        (3600 * h + 60 * m + s) * 1_000_000 + us <= u64::MAX,
        h > 0 || m > 0,
    ensures
        ({
            let t = elapsed_text(((3600 * h + 60 * m + s) * 1_000_000 + us) as u64);
            &&& h == 0 ==> t == text::dec(m) + "m"@ + two_digits(s) + "s"@
            &&& h > 0 ==> t == text::dec(h) + "h"@ + two_digits(m) + "m"@
        }),
{
    let u = 3600 * h + 60 * m + s;
    let ms = (u * 1_000_000 + us) / 1000;
    assert(ms == 1000 * u + us / 1000);
    assert(ms / 3_600_000 == h);
    assert(ms % 3_600_000 == 60_000 * m + 1000 * s + us / 1000);
    assert((60_000 * m + 1000 * s + us / 1000) / 60_000 == m);
    if h == 0 {
        assert(ms / 60_000 == m);
        assert(ms % 60_000 == 1000 * s + us / 1000);
        assert((1000 * s + us / 1000) / 1000 == s);
    }
}

/// Counts in a cell: a dot for none, the number below ten thousand, and then thousands and millions.
pub proof fn law_counts(v: u64)
    ensures
        v == 0 ==> count_text(v) == "\u{b7}"@,
        0 < v < 10_000 ==> count_text(v) == text::dec(v as nat),
        10_000 <= v < 1_000_000 ==> count_text(v) == one_decimal(tenths(v as nat, 1000)) + "k"@,
        v >= 1_000_000 ==> count_text(v) == one_decimal(tenths(v as nat, 1_000_000)) + "M"@,
        bucket_text(60) == "1m"@,
        bucket_text(300) == "5m"@,
        bucket_text(900) == "15m"@,
{
}

/// The time that a capture has gone on, in the form of a call's length.
pub proof fn law_elapsed_time(us: u64)
    ensures
        pages::elapsed_text(None) == "-"@,
        pages::elapsed_text(Some(us)) == dur_text(Some((us / 1000) as u64)),
{
}

} // verus!
