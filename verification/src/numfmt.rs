//! Numbers as text: padding, byte counts, durations and wall-clock times.
//!
//! Scaled figures are those of IEEE-754 arithmetic: a count is first rounded to
//! 53 significant bits, and the digits shown are rounded to even on a tie.
use crate::text;
use crate::text::push_dec;
use vstd::prelude::*;

verus! {

// ----------------------------- padding -----------------------------

pub open spec fn spaces(n: int) -> Seq<char> {
    Seq::new(
        if n > 0 {
            n as nat
        } else {
            0
        },
        |i: int| ' ',
    )
}

/// A text at the left of a column of `w` characters.
pub open spec fn left(t: Seq<char>, w: int) -> Seq<char> {
    t + spaces(w - t.len())
}

/// A text at the right of a column of `w` characters.
pub open spec fn right(t: Seq<char>, w: int) -> Seq<char> {
    spaces(w - t.len()) + t
}

fn push_spaces(s: &mut String, n: usize)
    ensures
        final(s)@ == old(s)@ + spaces(n as int),
{
    let mut i: usize = 0;
    assert(s@ =~= old(s)@ + spaces(0));
    while i < n
        invariant
            i <= n,
            s@ == old(s)@ + spaces(i as int),
        decreases n - i,
    {
        s.push(' ');
        assert(s@ =~= old(s)@ + spaces(i + 1));
        i += 1;
    }
}

/// How many columns are left of `w`.
fn rest_of(t: &str, w: usize) -> (r: usize)
    ensures
        spaces(r as int) == spaces(w - t@.len()),
{
    let n: usize = t.unicode_len();
    let r: usize = if w > n {
        w - n
    } else {
        0
    };
    assert(spaces(r as int) =~= spaces(w - t@.len()));
    r
}

pub fn push_left(s: &mut String, t: &str, w: usize)
    ensures
        final(s)@ == old(s)@ + left(t@, w as int),
{
    let n: usize = rest_of(t, w);
    s.push_str(t);
    push_spaces(s, n);
    assert(s@ =~= old(s)@ + left(t@, w as int));
}

pub fn push_right(s: &mut String, t: &str, w: usize)
    ensures
        final(s)@ == old(s)@ + right(t@, w as int),
{
    let n: usize = rest_of(t, w);
    push_spaces(s, n);
    s.push_str(t);
    assert(s@ =~= old(s)@ + right(t@, w as int));
}

pub fn dec_string(n: u64) -> (r: String)
    ensures
        r@ == text::dec(n as nat),
{
    let mut s = String::new();
    push_dec(&mut s, n);
    assert(s@ =~= text::dec(n as nat));
    s
}

pub fn push_dec_right(s: &mut String, n: u64, w: usize)
    ensures
        final(s)@ == old(s)@ + right(text::dec(n as nat), w as int),
{
    let t = dec_string(n);
    push_right(s, t.as_str(), w);
}

/// At least two digits.
pub open spec fn two_digits(n: nat) -> Seq<char> {
    if n < 10 {
        seq!['0'] + text::dec(n)
    } else {
        text::dec(n)
    }
}

pub fn push_two(s: &mut String, n: u64)
    ensures
        final(s)@ == old(s)@ + two_digits(n as nat),
{
    if n < 10 {
        s.push('0');
    }
    push_dec(s, n);
    assert(s@ =~= old(s)@ + two_digits(n as nat));
}

// ----------------------------- scaled figures -----------------------------

/// A quotient rounded to the nearest integer, to the even one on a tie.
pub open spec fn half_even(num: nat, den: nat) -> nat {
    let q = num / den;
    let r = num % den;
    if 2 * r > den || (2 * r == den && q % 2 == 1) {
        q + 1
    } else {
        q
    }
}

fn round_half_even(num: u128, den: u128) -> (r: u128)
    requires
        0 < den < 0x1_0000_0000_0000_0000_0000_0000_0000,
        num < 0x1_0000_0000_0000_0000_0000_0000_0000,
    ensures
        r == half_even(num as nat, den as nat),
{
    let q: u128 = num / den;
    let m: u128 = num % den;
    assert(q <= num) by (nonlinear_arith)
        requires
            q == num / den,
            den > 0,
    ;
    if 2 * m > den || (2 * m == den && q % 2 == 1) {
        q + 1
    } else {
        q
    }
}

/// Weight of the last of 53 significant bits.
pub open spec fn unit53(n: nat) -> nat
    decreases n,
{
    if n < 0x20_0000_0000_0000 {
        1
    } else {
        2 * unit53(n / 2)
    }
}

/// A count rounded to 53 significant bits.
pub open spec fn rounded53(n: nat) -> nat {
    half_even(n, unit53(n)) * unit53(n)
}

fn unit_of(n: u64) -> (r: u128)
    ensures
        r == unit53(n as nat),
        1 <= r <= 0x800,
{
    reveal_with_fuel(unit53, 13);
    if n < 0x20_0000_0000_0000 {
        1
    } else if n < 0x40_0000_0000_0000 {
        2
    } else if n < 0x80_0000_0000_0000 {
        4
    } else if n < 0x100_0000_0000_0000 {
        8
    } else if n < 0x200_0000_0000_0000 {
        16
    } else if n < 0x400_0000_0000_0000 {
        32
    } else if n < 0x800_0000_0000_0000 {
        64
    } else if n < 0x1000_0000_0000_0000 {
        128
    } else if n < 0x2000_0000_0000_0000 {
        256
    } else if n < 0x4000_0000_0000_0000 {
        512
    } else if n < 0x8000_0000_0000_0000 {
        1024
    } else {
        2048
    }
}

fn round_53(n: u64) -> (r: u128)
    ensures
        r == rounded53(n as nat),
        r < 0x2_0000_0000_0000_0000,
{
    let u: u128 = unit_of(n);
    let w: u128 = n as u128;
    let q: u128 = round_half_even(w, u);
    assert(q * u <= w + u) by (nonlinear_arith)
        requires
            q <= w / u + 1,
            1 <= u,
    ;
    q * u
}

/// A dividend and a power of two, both doubled until the quotient by `d` has 53
/// bits.
pub open spec fn stretched(x: nat, t: nat, d: nat) -> (nat, nat)
    decreases 0x20_0000_0000_0000 * d - x,
{
    if x == 0 || x >= 0x10_0000_0000_0000 * d {
        (x, t)
    } else {
        stretched(2 * x, 2 * t, d)
    }
}

/// A count over `d`, in units of one `k`-th: the count, and then the quotient,
/// are rounded to 53 bits, and the result to an integer.
pub open spec fn scaled(n: nat, d: nat, k: nat) -> nat {
    let (x, t) = stretched(rounded53(n), 1, d);
    half_even(half_even(x, d) * k, t)
}

proof fn lemma_half_even(num: nat, den: nat)
    requires
        den > 0,
    ensures
        half_even(num, den) <= num / den + 1,
        num / den <= num,
{
    assert(num / den <= num) by (nonlinear_arith)
        requires
            den > 0,
    ;
}

fn scale(n: u64, d: u64, k: u64) -> (r: u128)
    requires
        0 < d <= 0x4000_0000,
        k <= 100,
    ensures
        r == scaled(n as nat, d as nat, k as nat),
{
    let m: u128 = round_53(n);
    let lim: u128 = 0x10_0000_0000_0000 * d as u128;
    let mut x: u128 = m;
    let mut t: u128 = 1;
    while x != 0 && x < lim
        invariant
            lim == 0x10_0000_0000_0000 * d,
            0 < d <= 0x4000_0000,
            stretched(m as nat, 1, d as nat) == stretched(x as nat, t as nat, d as nat),
            x == m || x < 2 * lim,
            m < 0x2_0000_0000_0000_0000,
            x != 0 ==> t <= x,
            t >= 1,
            x == 0 ==> t == 1,
        decreases 2 * lim - x,
    {
        x = 2 * x;
        t = 2 * t;
    }
    proof {
        lemma_half_even(x as nat, d as nat);
        assert(x / d as u128 <= x) by (nonlinear_arith)
            requires
                d > 0,
        ;
    }
    let q: u128 = round_half_even(x, d as u128);
    assert(q <= x + 1);
    assert(q * k <= (x + 1) * 100) by (nonlinear_arith)
        requires
            q <= x + 1,
            k <= 100,
    ;
    round_half_even(q * k as u128, t)
}

/// A count over `den`, in tenths.
pub open spec fn tenths(n: nat, den: nat) -> nat {
    scaled(n, den, 10)
}

/// A count over `den`, in hundredths.
pub open spec fn hundredths(n: nat, den: nat) -> nat {
    scaled(n, den, 100)
}

pub open spec fn one_decimal(t: nat) -> Seq<char> {
    text::dec(t / 10) + "."@ + text::dec(t % 10)
}

pub open spec fn two_decimals(t: nat) -> Seq<char> {
    text::dec(t / 100) + "."@ + two_digits(t % 100)
}

fn push_dec128(s: &mut String, n: u128)
    ensures
        final(s)@ == old(s)@ + text::dec(n as nat),
    decreases n,
{
    if n >= 10 {
        push_dec128(s, n / 10);
    }
    let d: u8 = 48u8 + (n % 10) as u8;
    s.push(d as char);
    assert(s@ =~= old(s)@ + text::dec(n as nat));
}

fn push_one_decimal(s: &mut String, t: u128)
    ensures
        final(s)@ == old(s)@ + one_decimal(t as nat),
{
    push_dec128(s, t / 10);
    s.push_str(".");
    push_dec128(s, t % 10);
    assert(s@ =~= old(s)@ + one_decimal(t as nat));
}

fn push_two_decimals(s: &mut String, t: u128)
    ensures
        final(s)@ == old(s)@ + two_decimals(t as nat),
{
    push_dec128(s, t / 100);
    s.push_str(".");
    push_two(s, (t % 100) as u64);
    assert(s@ =~= old(s)@ + two_decimals(t as nat));
}

fn push_tenths(s: &mut String, n: u64, den: u64)
    requires
        0 < den <= 0x4000_0000,
    ensures
        final(s)@ == old(s)@ + one_decimal(tenths(n as nat, den as nat)),
{
    let t: u128 = scale(n, den, 10);
    push_one_decimal(s, t);
}

fn push_hundredths(s: &mut String, n: u64, den: u64)
    requires
        0 < den <= 0x4000_0000,
    ensures
        final(s)@ == old(s)@ + two_decimals(hundredths(n as nat, den as nat)),
{
    let t: u128 = scale(n, den, 100);
    push_two_decimals(s, t);
}

pub const KB: u64 = 1024;

pub const MB: u64 = 1_048_576;

pub const GB: u64 = 1_073_741_824;

/// A byte count with its unit, up to megabytes.
pub open spec fn bytes_text(n: u64) -> Seq<char> {
    if n >= MB {
        one_decimal(tenths(n as nat, MB as nat)) + " MB"@
    } else if n >= KB {
        one_decimal(tenths(n as nat, KB as nat)) + " KB"@
    } else {
        text::dec(n as nat) + " B"@
    }
}

/// A byte count with its unit: B, KB or MB.
pub fn fmt_bytes(n: u64) -> (r: String)
    ensures
        r@ == bytes_text(n),
{
    let mut s = String::new();
    if n >= MB {
        push_tenths(&mut s, n, MB);
        s.push_str(" MB");
    } else if n >= KB {
        push_tenths(&mut s, n, KB);
        s.push_str(" KB");
    } else {
        push_dec(&mut s, n);
        s.push_str(" B");
    }
    assert(s@ =~= bytes_text(n));
    s
}

/// A byte count with its unit, up to gigabytes.
pub open spec fn size_text(n: u64) -> Seq<char> {
    if n >= GB {
        two_decimals(hundredths(n as nat, GB as nat)) + " GB"@
    } else {
        bytes_text(n)
    }
}

/// A byte count with its unit: B, KB, MB or GB.
pub fn fmt_size(n: u64) -> (r: String)
    ensures
        r@ == size_text(n),
{
    if n >= GB {
        let mut s = String::new();
        push_hundredths(&mut s, n, GB);
        s.push_str(" GB");
        assert(s@ =~= size_text(n));
        s
    } else {
        fmt_bytes(n)
    }
}

/// A byte count in little room: whole kilobytes, or megabytes.
pub open spec fn short_bytes_text(n: u64) -> Seq<char> {
    if n >= MB {
        one_decimal(tenths(n as nat, MB as nat)) + "M"@
    } else if n >= KB {
        text::dec(scaled(n as nat, KB as nat, 1)) + "K"@
    } else {
        text::dec(n as nat)
    }
}

pub fn fmt_bytes_short(n: u64) -> (r: String)
    ensures
        r@ == short_bytes_text(n),
{
    let mut s = String::new();
    if n >= MB {
        push_tenths(&mut s, n, MB);
        s.push_str("M");
    } else if n >= KB {
        let q: u128 = scale(n, KB, 1);
        push_dec128(&mut s, q);
        s.push_str("K");
    } else {
        push_dec(&mut s, n);
    }
    assert(s@ =~= short_bytes_text(n));
    s
}

// ----------------------------- durations -----------------------------

/// Seconds, minutes and seconds, or hours and minutes.
pub open spec fn span_text(us: u64) -> Seq<char> {
    let s = us as nat / 1_000_000;
    if s < 60 {
        text::dec(s) + "s"@
    } else if s < 3600 {
        text::dec(s / 60) + "m"@ + two_digits(s % 60) + "s"@
    } else {
        text::dec(s / 3600) + "h"@ + two_digits(s % 3600 / 60) + "m"@
    }
}

/// The span of a log.
pub fn fmt_span(us: u64) -> (r: String)
    ensures
        r@ == span_text(us),
{
    let s: u64 = us / 1_000_000;
    let mut t = String::new();
    if s < 60 {
        push_dec(&mut t, s);
        t.push_str("s");
    } else if s < 3600 {
        push_dec(&mut t, s / 60);
        t.push_str("m");
        push_two(&mut t, s % 60);
        t.push_str("s");
    } else {
        push_dec(&mut t, s / 3600);
        t.push_str("h");
        push_two(&mut t, s % 3600 / 60);
        t.push_str("m");
    }
    assert(t@ =~= span_text(us));
    t
}

/// Milliseconds as seconds with two decimals, cut off.
pub open spec fn secs_text(ms: Option<u64>) -> Seq<char> {
    match ms {
        None => "-"@,
        Some(ms) => text::dec(ms as nat / 1000) + "."@ + two_digits(ms as nat % 1000 / 10) + "s"@,
    }
}

pub fn fmt_secs(ms: Option<u64>) -> (r: String)
    ensures
        r@ == secs_text(ms),
{
    let mut s = String::new();
    match ms {
        None => {
            s.push_str("-");
        },
        Some(ms) => {
            push_dec(&mut s, ms / 1000);
            s.push_str(".");
            push_two(&mut s, ms % 1000 / 10);
            s.push_str("s");
        },
    }
    assert(s@ =~= secs_text(ms));
    s
}

/// Seconds with one decimal, or minutes and seconds.
pub open spec fn dur_text(ms: Option<u64>) -> Seq<char> {
    match ms {
        None => "-"@,
        Some(ms) => if ms < 60_000 {
            text::dec(ms as nat / 1000) + "."@ + text::dec(ms as nat % 1000 / 100) + "s"@
        } else {
            text::dec(ms as nat / 60_000) + "m"@ + text::dec(ms as nat % 60_000 / 1000) + "s"@
        },
    }
}

pub fn fmt_dur(ms: Option<u64>) -> (r: String)
    ensures
        r@ == dur_text(ms),
{
    let mut s = String::new();
    match ms {
        None => {
            s.push_str("-");
        },
        Some(ms) => {
            if ms < 60_000 {
                push_dec(&mut s, ms / 1000);
                s.push_str(".");
                push_dec(&mut s, ms % 1000 / 100);
            } else {
                push_dec(&mut s, ms / 60_000);
                s.push_str("m");
                push_dec(&mut s, ms % 60_000 / 1000);
            }
            s.push_str("s");
        },
    }
    assert(s@ =~= dur_text(ms));
    s
}

// ----------------------------- wall clock -----------------------------

/// The last second that has a date.
pub const LAST_SECOND: i64 = 8_210_266_876_799;

/// Hours, minutes and seconds of a day.
pub open spec fn clock_text(secs: int) -> Seq<char> {
    let d = secs % 86_400;
    two_digits((d / 3600) as nat) + ":"@ + two_digits((d / 60 % 60) as nat) + ":"@ + two_digits(
        (d % 60) as nat,
    )
}

/// Calls `chrono::DateTime::from_timestamp`, adds the offset as a
/// `chrono::Duration`, and formats the sum with `%H:%M:%S`.
///
/// Claimed of chrono: a time has a date exactly if it is not after the year
/// 262142, its days have 86400 seconds, and the format shows the hour, minute
/// and second with two digits each.
#[verifier::external_body]
fn wall_clock(secs: i64, offset: i32) -> (r: Option<String>)
    requires
        0 <= secs,
        secs <= LAST_SECOND ==> secs + offset <= LAST_SECOND,
    ensures
        r is Some <==> secs <= LAST_SECOND,
        r matches Some(t) ==> t@ == clock_text(secs + offset),
{
    chrono::DateTime::from_timestamp(secs, 0).map(
        |utc| (utc + chrono::Duration::seconds(offset as i64)).format("%H:%M:%S").to_string(),
    )
}

/// Whether the clock of a machine with this offset can show a time.
pub open spec fn has_clock(ts_us: u64, offset: i32) -> bool {
    ts_us / 1_000_000 <= LAST_SECOND ==> ts_us / 1_000_000 + offset <= LAST_SECOND
}

pub open spec fn time_text(ts_us: u64, offset: i32) -> Seq<char> {
    if ts_us / 1_000_000 <= LAST_SECOND {
        clock_text(ts_us / 1_000_000 + offset)
    } else {
        "??:??:??"@
    }
}

/// The time of day, in hours, minutes and seconds, at an offset from UTC in
/// seconds.
pub fn fmt_time_tz(ts_us: u64, offset: i32) -> (r: String)
    requires
        has_clock(ts_us, offset),
    ensures
        r@ == time_text(ts_us, offset),
{
    let secs: i64 = (ts_us / 1_000_000) as i64;
    match wall_clock(secs, offset) {
        Some(t) => t,
        None => {
            let mut s = String::new();
            s.push_str("??:??:??");
            assert(s@ =~= "??:??:??"@);
            s
        },
    }
}

/// How long a recording has run: below a second in hundredths, below a minute in
/// tenths, then minutes and seconds or hours and minutes.
pub open spec fn elapsed_text(us: u64) -> Seq<char> {
    let ms = us as nat / 1000;
    if ms < 1000 {
        two_decimals(hundredths(ms, 1000)) + "s"@
    } else if ms < 60_000 {
        one_decimal(tenths(ms, 1000)) + "s"@
    } else if ms < 3_600_000 {
        text::dec(ms / 60_000) + "m"@ + two_digits(ms % 60_000 / 1000) + "s"@
    } else {
        text::dec(ms / 3_600_000) + "h"@ + two_digits(ms % 3_600_000 / 60_000) + "m"@
    }
}

pub fn fmt_elapsed(us: u64) -> (r: String)
    ensures
        r@ == elapsed_text(us),
{
    let ms: u64 = us / 1000;
    let mut s = String::new();
    if ms < 1000 {
        push_hundredths(&mut s, ms, 1000);
        s.push_str("s");
    } else if ms < 60_000 {
        push_tenths(&mut s, ms, 1000);
        s.push_str("s");
    } else if ms < 3_600_000 {
        push_dec(&mut s, ms / 60_000);
        s.push_str("m");
        push_two(&mut s, ms % 60_000 / 1000);
        s.push_str("s");
    } else {
        push_dec(&mut s, ms / 3_600_000);
        s.push_str("h");
        push_two(&mut s, ms % 3_600_000 / 60_000);
        s.push_str("m");
    }
    assert(s@ =~= elapsed_text(us));
    s
}

/// From one time to another; nothing, if it is not later.
pub open spec fn since(ts: u64, base: u64) -> u64 {
    if ts > base {
        (ts - base) as u64
    } else {
        0
    }
}

pub open spec fn time_delta_text(ts_us: u64, base_us: u64, offset: i32) -> Seq<char> {
    time_text(ts_us, offset) + "(+"@ + elapsed_text(since(ts_us, base_us)) + ")"@
}

/// The time of day, and how far into the recording it is.
pub fn fmt_time_delta(ts_us: u64, base_us: u64, offset: i32) -> (r: String)
    requires
        has_clock(ts_us, offset),
    ensures
        r@ == time_delta_text(ts_us, base_us, offset),
{
    let mut s = fmt_time_tz(ts_us, offset);
    let e = fmt_elapsed(ts_us.saturating_sub(base_us));
    s.push_str("(+");
    s.push_str(e.as_str());
    s.push_str(")");
    s
}

// ----------------------------- counters -----------------------------

/// A counter in little room: a dot for none, `k` and `M` from ten thousand on.
pub open spec fn count_text(v: u64) -> Seq<char> {
    if v == 0 {
        "\u{b7}"@
    } else if v < 10_000 {
        text::dec(v as nat)
    } else if v < 1_000_000 {
        one_decimal(tenths(v as nat, 1000)) + "k"@
    } else {
        one_decimal(tenths(v as nat, 1_000_000)) + "M"@
    }
}

pub fn fmt_count(v: u64) -> (r: String)
    ensures
        r@ == count_text(v),
{
    let mut s = String::new();
    if v == 0 {
        s.push_str("\u{b7}");
    } else if v < 10_000 {
        push_dec(&mut s, v);
    } else if v < 1_000_000 {
        push_tenths(&mut s, v, 1000);
        s.push_str("k");
    } else {
        push_tenths(&mut s, v, 1_000_000);
        s.push_str("M");
    }
    assert(s@ =~= count_text(v));
    s
}

/// The width of a bucket of the answer-rate map.
pub open spec fn bucket_text(secs: u64) -> Seq<char> {
    if secs == 300 {
        "5m"@
    } else if secs == 900 {
        "15m"@
    } else {
        "1m"@
    }
}

pub fn bucket_label(secs: u64) -> (r: &'static str)
    ensures
        r@ == bucket_text(secs),
{
    match secs {
        300 => "5m",
        900 => "15m",
        _ => "1m",
    }
}

} // verus!
