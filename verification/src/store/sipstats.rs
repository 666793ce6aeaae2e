//! Per-IP SIP signaling statistics: a request/response distribution and an
//! INVITE answer-rate time series (1/5/15-minute buckets). Answers are credited
//! back to the initial INVITE's source IP.
use crate::model::addr::IpAddr;
use crate::model::sip::Method;
use vstd::prelude::*;

verus! {

/// Request columns.
pub const REQ_N: usize = 9;

/// Response columns.
pub const RESP_N: usize = 15;

pub open spec fn req_label_at(i: int) -> Seq<char> {
    if i == 0 {
        "INVITE"@
    } else if i == 1 {
        "ACK"@
    } else if i == 2 {
        "BYE"@
    } else if i == 3 {
        "CANCEL"@
    } else if i == 4 {
        "OPTION"@
    } else if i == 5 {
        "INFO"@
    } else if i == 6 {
        "REGISTER"@
    } else if i == 7 {
        "MESSAGE"@
    } else {
        "oth"@
    }
}

/// The heading of a request column.
pub fn req_label(i: usize) -> (r: &'static str)
    ensures
        r@ == req_label_at(i as int),
{
    match i {
        0 => "INVITE",
        1 => "ACK",
        2 => "BYE",
        3 => "CANCEL",
        4 => "OPTION",
        5 => "INFO",
        6 => "REGISTER",
        7 => "MESSAGE",
        _ => "oth",
    }
}

pub open spec fn resp_label_at(i: int) -> Seq<char> {
    if i == 0 {
        "100"@
    } else if i == 1 {
        "180"@
    } else if i == 2 {
        "183"@
    } else if i == 3 {
        "200"@
    } else if i == 4 {
        "486"@
    } else if i == 5 {
        "404"@
    } else if i == 6 {
        "403"@
    } else if i == 7 {
        "408"@
    } else if i == 8 {
        "480"@
    } else if i == 9 {
        "487"@
    } else if i == 10 {
        "3xx"@
    } else if i == 11 {
        "4xx"@
    } else if i == 12 {
        "5xx"@
    } else if i == 13 {
        "6xx"@
    } else {
        "oth"@
    }
}

/// The heading of a response column.
pub fn resp_label(i: usize) -> (r: &'static str)
    ensures
        r@ == resp_label_at(i as int),
{
    match i {
        0 => "100",
        1 => "180",
        2 => "183",
        3 => "200",
        4 => "486",
        5 => "404",
        6 => "403",
        7 => "408",
        8 => "480",
        9 => "487",
        10 => "3xx",
        11 => "4xx",
        12 => "5xx",
        13 => "6xx",
        _ => "oth",
    }
}

/// The column of a request method.
pub open spec fn req_col(m: Method) -> usize {
    match m {
        Method::Invite => 0,
        Method::Ack => 1,
        Method::Bye => 2,
        Method::Cancel => 3,
        Method::Options => 4,
        Method::Info => 5,
        Method::Register => 6,
        Method::Message => 7,
        _ => 8,
    }
}

/// Column index of a request method.
pub fn req_idx(method: Method) -> (r: usize)
    ensures
        r == req_col(method),
        r < REQ_N,
{
    match method {
        Method::Invite => 0,
        Method::Ack => 1,
        Method::Bye => 2,
        Method::Cancel => 3,
        Method::Options => 4,
        Method::Info => 5,
        Method::Register => 6,
        Method::Message => 7,
        _ => 8,
    }
}

/// The column of a status code: the codes that operators look for first, then
/// classes, then everything else. 487 is the normal CANCEL response.
pub open spec fn resp_col(status: u16) -> usize {
    if status == 100 {
        0
    } else if status == 180 {
        1
    } else if status == 183 {
        2
    } else if status == 200 {
        3
    } else if status == 486 {
        4
    } else if status == 404 {
        5
    } else if status == 403 {
        6
    } else if status == 408 {
        7
    } else if status == 480 {
        8
    } else if status == 487 {
        9
    } else if 300 <= status < 400 {
        10
    } else if 400 <= status < 500 {
        11
    } else if 500 <= status < 600 {
        12
    } else if 600 <= status < 700 {
        13
    } else {
        14
    }
}

/// Column index of a response status code.
pub fn resp_idx(status: u16) -> (r: usize)
    ensures
        r == resp_col(status),
        r < RESP_N,
{
    match status {
        100 => 0,
        180 => 1,
        183 => 2,
        200 => 3,
        486 => 4,
        404 => 5,
        403 => 6,
        408 => 7,
        480 => 8,
        487 => 9,
        _ => if status >= 300 && status < 400 {
            10
        } else if status >= 400 && status < 500 {
            11
        } else if status >= 500 && status < 600 {
            12
        } else if status >= 600 && status < 700 {
            13
        } else {
            14
        },
    }
}

/// Buckets retained per ring (60: spans of 1h / 5h / 15h).
pub const SERIES_RETAIN: usize = 60;

pub const M1_US: u64 = 60_000_000;

pub const M5_US: u64 = 300_000_000;

pub const M15_US: u64 = 900_000_000;

// ----------------------------- rings -----------------------------

/// Buckets (start, invites, answered), oldest first.
pub type Ring = Vec<(u64, u64, u64)>;

/// Aligned, ascending, and no longer than what is retained.
pub open spec fn ring_wf(r: Seq<(u64, u64, u64)>, w: u64) -> bool {
    &&& r.len() <= SERIES_RETAIN
    &&& forall|i: int| 0 <= i < r.len() ==> (#[trigger] r[i]).0 % w == 0
    &&& forall|i: int, j: int| 0 <= i < j < r.len() ==> (#[trigger] r[i]).0 < (#[trigger] r[j]).0
}

/// No bucket counts more than `a` invites or `b` answers.
pub open spec fn ring_within(r: Seq<(u64, u64, u64)>, a: int, b: int) -> bool {
    forall|i: int| 0 <= i < r.len() ==> (#[trigger] r[i]).1 <= a && r[i].2 <= b
}

/// Every invite count can grow by `a`, every answer count by `b`.
pub open spec fn ring_room(r: Seq<(u64, u64, u64)>, a: u64, b: u64) -> bool {
    ring_within(r, u64::MAX - a, u64::MAX - b)
}

/// The ring with empty buckets behind it, up to `key` or to the retained
/// length.
pub open spec fn ring_filled(r: Seq<(u64, u64, u64)>, next: int, key: int, w: int) -> Seq<
    (u64, u64, u64),
>
    decreases SERIES_RETAIN - r.len(),
{
    if next < key && r.len() < SERIES_RETAIN {
        ring_filled(r.push((next as u64, 0, 0)), next + w, key, w)
    } else {
        r
    }
}

/// The last bucket may still be added behind this.
pub open spec fn ring_trimmed(r: Seq<(u64, u64, u64)>) -> Seq<(u64, u64, u64)> {
    if r.len() >= SERIES_RETAIN {
        r.skip(r.len() - SERIES_RETAIN + 1)
    } else {
        r
    }
}

/// The first bucket from `i` on that starts at `key`.
pub open spec fn ring_find(r: Seq<(u64, u64, u64)>, key: u64, i: int) -> Option<int>
    decreases r.len() - i,
{
    if i >= r.len() {
        None
    } else if r[i].0 == key {
        Some(i)
    } else {
        ring_find(r, key, i + 1)
    }
}

pub open spec fn bumped(e: (u64, u64, u64), inv: u64, ans: u64) -> (u64, u64, u64) {
    (e.0, (e.1 + inv) as u64, (e.2 + ans) as u64)
}

/// The start of the bucket of width `w` that holds `ts`.
pub open spec fn bucket_start(ts: u64, w: u64) -> u64 {
    (ts / w * w) as u64
}

/// A ring after `inv` invites and `ans` answers at `ts`. Gaps are filled with
/// empty buckets as long as the ring has room; a gap longer than the ring restarts it; a time before the
/// last bucket counts in its own bucket, if that is still there.
pub open spec fn ring_step(r: Seq<(u64, u64, u64)>, w: u64, ts: u64, inv: u64, ans: u64) -> Seq<
    (u64, u64, u64),
> {
    let key = bucket_start(ts, w);
    if inv == 0 && ans == 0 {
        r
    } else if r.len() == 0 {
        seq![(key, inv, ans)]
    } else if key == r.last().0 {
        r.update(r.len() - 1, bumped(r.last(), inv, ans))
    } else if key > r.last().0 {
        if key - r.last().0 > w * 60 {
            seq![(key, inv, ans)]
        } else {
            ring_trimmed(ring_filled(r, r.last().0 + w, key as int, w as int)).push(
                (key, inv, ans),
            )
        }
    } else {
        match ring_find(r, key, 0) {
            Some(i) => r.update(i, bumped(r[i], inv, ans)),
            None => r,
        }
    }
}

pub proof fn lemma_bucket_start(ts: u64, w: u64)
    requires
        w > 0,
    ensures
        ts / w * w <= ts,
        bucket_start(ts, w) <= ts,
        bucket_start(ts, w) % w == 0,
{
    vstd::arithmetic::div_mod::lemma_fundamental_div_mod(ts as int, w as int);
    vstd::arithmetic::div_mod::lemma_mod_multiples_basic((ts / w) as int, w as int);
    assert(ts / w * w == w * (ts / w)) by (nonlinear_arith);
    assert(ts as int % w as int >= 0);
}

proof fn lemma_next_aligned(a: int, b: int, w: int)
    requires
        w > 0,
        0 <= a < b,
        a % w == 0,
        b % w == 0,
    ensures
        a + w <= b,
        (a + w) % w == 0,
{
    vstd::arithmetic::div_mod::lemma_fundamental_div_mod(a, w);
    vstd::arithmetic::div_mod::lemma_fundamental_div_mod(b, w);
    let qa = a / w;
    let qb = b / w;
    assert(qa < qb) by (nonlinear_arith)
        requires
            w > 0,
            w * qa < w * qb,
    ;
    assert(w * qb >= w * qa + w) by (nonlinear_arith)
        requires
            w > 0,
            qb >= qa + 1,
    ;
    vstd::arithmetic::div_mod::lemma_mod_add_multiples_vanish(a, w);
}

/// Counts one or more invites or answers at `ts_us`.
pub fn ring_bump(ring: &mut Ring, bucket_us: u64, ts_us: u64, inv: u64, ans: u64)
    requires
        bucket_us > 0,
        bucket_us * 60 <= u64::MAX,
        ring_wf(old(ring)@, bucket_us),
        ring_room(old(ring)@, inv, ans),
    ensures
        final(ring)@ == ring_step(old(ring)@, bucket_us, ts_us, inv, ans),
        ring_wf(final(ring)@, bucket_us),
{
    if inv == 0 && ans == 0 {
        return;
    }
    proof {
        lemma_bucket_start(ts_us, bucket_us);
    }
    let key: u64 = ts_us / bucket_us * bucket_us;
    let n: usize = ring.len();
    if n == 0 {
        ring.push((key, inv, ans));
        assert(ring@ =~= seq![(key, inv, ans)]);
        return;
    }
    let last: (u64, u64, u64) = ring[n - 1];
    if key == last.0 {
        ring.set(n - 1, (last.0, last.1 + inv, last.2 + ans));
        return;
    }
    if key > last.0 {
        if key - last.0 > bucket_us * 60 {
            ring.clear();
            ring.push((key, inv, ans));
            assert(ring@ =~= seq![(key, inv, ans)]);
            return;
        }
        let ghost start = ring@;
        proof {
            lemma_next_aligned(last.0 as int, key as int, bucket_us as int);
        }
        let mut next: u64 = last.0 + bucket_us;
        while next < key && ring.len() < SERIES_RETAIN
            invariant
                bucket_us > 0,
                next <= key,
                key % bucket_us == 0,
                next % bucket_us == 0,
                ring_wf(ring@, bucket_us),
                ring@.len() > 0,
                ring@.last().0 + bucket_us == next,
                ring_filled(start, start.last().0 + bucket_us, key as int, bucket_us as int)
                    == ring_filled(ring@, next as int, key as int, bucket_us as int),
            decreases key - next,
        {
            ring.push((next, 0, 0));
            proof {
                lemma_next_aligned(next as int, key as int, bucket_us as int);
            }
            next = next + bucket_us;
        }
        let ghost full = ring@;
        while ring.len() >= SERIES_RETAIN
            invariant
                full.len() <= SERIES_RETAIN,
                ring@.len() <= full.len(),
                ring@ == full.skip(full.len() - ring@.len()),
                ring@.len() + 1 >= full.len(),
                full.len() < SERIES_RETAIN ==> ring@.len() == full.len(),
            decreases ring@.len(),
        {
            let _front = ring.remove(0);
            assert(ring@ =~= full.skip(full.len() - ring@.len()));
        }
        assert(ring@ =~= ring_trimmed(full));
        ring.push((key, inv, ans));
        return;
    }
    let mut i: usize = 0;
    while i < ring.len()
        invariant
            i <= ring.len(),
            ring@ == old(ring)@,
            ring_wf(ring@, bucket_us),
            ring_room(ring@, inv, ans),
            ring@.len() > 0,
            key < ring@.last().0,
            key == bucket_start(ts_us, bucket_us),
            inv != 0 || ans != 0,
            ring_find(ring@, key, 0) == ring_find(ring@, key, i as int),
        decreases ring.len() - i,
    {
        if ring[i].0 == key {
            let e: (u64, u64, u64) = ring[i];
            ring.set(i, (e.0, e.1 + inv, e.2 + ans));
            return;
        }
        i += 1;
    }
}

proof fn lemma_ring_find(r: Seq<(u64, u64, u64)>, key: u64, i: int)
    requires
        0 <= i <= r.len(),
    ensures
        match ring_find(r, key, i) {
            Some(k) => i <= k < r.len() && r[k].0 == key,
            None => forall|k: int| i <= k < r.len() ==> (#[trigger] r[k]).0 != key,
        },
    decreases r.len() - i,
{
    if i < r.len() && r[i].0 != key {
        lemma_ring_find(r, key, i + 1);
    }
}

/// Filling keeps what was there, and adds nothing but empty buckets before `key`.
proof fn lemma_filled(r: Seq<(u64, u64, u64)>, next: int, key: int, w: int)
    requires
        w > 0,
        0 < r.len() <= SERIES_RETAIN,
        ring_wf(r, w as u64),
        w <= u64::MAX,
        0 <= next <= key <= u64::MAX,
        next % w == 0,
        key % w == 0,
        r.last().0 + w == next,
    ensures
        ({
            let f = ring_filled(r, next, key, w);
            &&& ring_wf(f, w as u64)
            &&& f.len() >= r.len()
            &&& f.last().0 < key
            &&& forall|i: int|
                0 <= i < f.len() ==> r.contains(#[trigger] f[i]) || f[i] == (f[i].0, 0u64, 0u64)
        }),
    decreases SERIES_RETAIN - r.len(),
{
    if next < key && r.len() < SERIES_RETAIN {
        lemma_next_aligned(next, key, w);
        let p = r.push((next as u64, 0, 0));
        assert forall|i: int, j: int| 0 <= i < j < p.len() implies (#[trigger] p[i]).0 < (
        #[trigger] p[j]).0 by {
            if j == r.len() {
                assert(r[i].0 <= r.last().0);
            }
        }
        lemma_filled(p, next + w, key, w);
        let f = ring_filled(r, next, key, w);
        assert(f == ring_filled(p, next + w, key, w));
        assert forall|i: int| 0 <= i < f.len() implies r.contains(#[trigger] f[i]) || f[i] == (
            f[i].0,
            0u64,
            0u64,
        ) by {
            if p.contains(f[i]) {
                let k = choose|k: int| 0 <= k < p.len() && p[k] == f[i];
                if k < r.len() {
                    assert(r[k] == f[i]);
                }
            }
        }
    } else {
        assert forall|i: int| 0 <= i < r.len() implies r.contains(#[trigger] r[i]) by {}
    }
}

/// A count in a ring: its own bucket grows by it, or is begun with it; every other bucket
/// is one that was there, or an empty one. The ring stays in order. The bucket of a time
/// that is not before the latest is the last; a time before the latest whose bucket is gone
/// leaves the ring as it was.
pub proof fn law_ring_counts(r: Seq<(u64, u64, u64)>, w: u64, ts: u64, inv: u64, ans: u64)
    requires
        w > 0,
        w * 60 <= u64::MAX,
        ring_wf(r, w),
        ring_room(r, inv, ans),
        inv != 0 || ans != 0,
    ensures
        ({
            let s = ring_step(r, w, ts, inv, ans);
            let key = bucket_start(ts, w);
            let old = match ring_find(r, key, 0) {
                Some(k) => r[k],
                None => (key, 0u64, 0u64),
            };
            &&& ring_wf(s, w)
            &&& r.len() == 0 || key >= r.last().0 ==> s.len() > 0 && s.last().0 == key
            &&& forall|i: int|
                0 <= i < s.len() && (#[trigger] s[i]).0 == key ==> s[i] == bumped(old, inv, ans)
            &&& forall|i: int|
                0 <= i < s.len() && (#[trigger] s[i]).0 != key ==> r.contains(s[i]) || s[i] == (
                    s[i].0,
                    0u64,
                    0u64,
                )
            &&& r.len() > 0 && key < r.last().0 && ring_find(r, key, 0) is None ==> s == r
        }),
{
    let s = ring_step(r, w, ts, inv, ans);
    let key = bucket_start(ts, w);
    lemma_bucket_start(ts, w);
    lemma_ring_find(r, key, 0);
    if r.len() == 0 {
    } else if key > r.last().0 && key - r.last().0 <= w * 60 {
        assert forall|k: int| 0 <= k < r.len() implies (#[trigger] r[k]).0 != key by {
            assert(r[k].0 <= r.last().0);
        }
        lemma_next_aligned(r.last().0 as int, key as int, w as int);
        let f = ring_filled(r, r.last().0 + w, key as int, w as int);
        lemma_filled(r, r.last().0 + w, key as int, w as int);
        let t = ring_trimmed(f);
        assert forall|i: int| 0 <= i < t.len() implies (#[trigger] t[i]).0 < key && f.contains(
            t[i],
        ) by {
            let d = f.len() - t.len();
            assert(t[i] == f[i + d]);
            assert(f[i + d].0 <= f.last().0);
        }
        assert(s == t.push((key, inv, ans)));
        assert forall|i: int, j: int| 0 <= i < j < s.len() implies (#[trigger] s[i]).0 < (
        #[trigger] s[j]).0 by {
            if j == t.len() {
                assert(t[i].0 < key);
            } else {
                let d = f.len() - t.len();
                assert(t[i] == f[i + d] && t[j] == f[j + d]);
            }
        }
        assert forall|i: int| 0 <= i < s.len() implies (#[trigger] s[i]).0 % w == 0 by {
            if i < t.len() {
                let d = f.len() - t.len();
                assert(t[i] == f[i + d]);
            }
        }
        assert forall|i: int| 0 <= i < s.len() && (#[trigger] s[i]).0 != key implies r.contains(
            s[i],
        ) || s[i] == (s[i].0, 0u64, 0u64) by {
            let d = f.len() - t.len();
            assert(s[i] == t[i] && t[i] == f[i + d]);
        }
    } else if key > r.last().0 {
        assert forall|k: int| 0 <= k < r.len() implies (#[trigger] r[k]).0 != key by {
            assert(r[k].0 <= r.last().0);
        }
    } else {
        assert forall|i: int| 0 <= i < s.len() && (#[trigger] s[i]).0 != key implies r.contains(
            s[i],
        ) by {
            assert(r[i] == s[i]);
        }
        if key == r.last().0 {
            let k = ring_find(r, key, 0)->Some_0;
            assert(r[r.len() - 1].0 == key);
            assert(k == r.len() - 1);
        }
    }
}

// ----------------------------- one endpoint -----------------------------

/// One endpoint's (or the global) SIP counters.
#[derive(Debug, Clone)]
pub struct SipIpStats {
    /// All-time request counts by column.
    pub req: Vec<u64>,
    /// All-time response counts by column.
    pub resp: Vec<u64>,
    /// 1-minute buckets: (bucket_start_us, invites, answered), oldest first.
    pub m1: Ring,
    /// 5-minute buckets.
    pub m5: Ring,
    /// 15-minute buckets.
    pub m15: Ring,
    pub last_ts_us: Option<u64>,
}

/// Counters by their contents.
pub struct StatsView {
    pub req: Seq<u64>,
    pub resp: Seq<u64>,
    pub m1: Seq<(u64, u64, u64)>,
    pub m5: Seq<(u64, u64, u64)>,
    pub m15: Seq<(u64, u64, u64)>,
    pub last_ts_us: Option<u64>,
}

impl View for SipIpStats {
    type V = StatsView;

    open spec fn view(&self) -> StatsView {
        StatsView {
            req: self.req@,
            resp: self.resp@,
            m1: self.m1@,
            m5: self.m5@,
            m15: self.m15@,
            last_ts_us: self.last_ts_us,
        }
    }
}

pub open spec fn zeros(n: nat) -> Seq<u64> {
    Seq::new(n, |i: int| 0u64)
}

pub open spec fn sum(s: Seq<u64>, n: nat) -> nat
    decreases n,
{
    if n == 0 {
        0
    } else {
        sum(s, (n - 1) as nat) + s[n - 1] as nat
    }
}

/// Invites and answers of the first `n` buckets.
pub open spec fn ring_sum(r: Seq<(u64, u64, u64)>, n: nat) -> (nat, nat)
    decreases n,
{
    if n == 0 {
        (0, 0)
    } else {
        let (a, b) = ring_sum(r, (n - 1) as nat);
        (a + r[n - 1].1 as nat, b + r[n - 1].2 as nat)
    }
}

/// No count is more than `n`.
pub open spec fn counts_within(v: Seq<u64>, n: int) -> bool {
    forall|i: int| 0 <= i < v.len() ==> #[trigger] v[i] <= n
}

impl StatsView {
    pub open spec fn zero() -> StatsView {
        StatsView {
            req: zeros(REQ_N as nat),
            resp: zeros(RESP_N as nat),
            m1: Seq::empty(),
            m5: Seq::empty(),
            m15: Seq::empty(),
            last_ts_us: None,
        }
    }

    /// One count per column, and rings in order.
    pub open spec fn wf(self) -> bool {
        &&& self.req.len() == REQ_N
        &&& self.resp.len() == RESP_N
        &&& ring_wf(self.m1, M1_US)
        &&& ring_wf(self.m5, M5_US)
        &&& ring_wf(self.m15, M15_US)
    }

    /// No bucket counts more than `a` invites or `b` answers.
    pub open spec fn series_within(self, a: int, b: int) -> bool {
        &&& ring_within(self.m1, a, b)
        &&& ring_within(self.m5, a, b)
        &&& ring_within(self.m15, a, b)
    }

    /// No column counts more than `n` messages.
    pub open spec fn columns_within(self, n: int) -> bool {
        counts_within(self.req, n) && counts_within(self.resp, n)
    }

    /// No count is more than `n`.
    pub open spec fn within(self, n: int) -> bool {
        self.columns_within(n) && self.series_within(n, n)
    }

    /// Every count can grow by one.
    pub open spec fn room(self) -> bool {
        self.within(u64::MAX - 1)
    }

    /// The ring of a bucket width in seconds; one minute where there is none.
    pub open spec fn series(self, bucket_secs: u64) -> Seq<(u64, u64, u64)> {
        if bucket_secs == 300 {
            self.m5
        } else if bucket_secs == 900 {
            self.m15
        } else {
            self.m1
        }
    }

    pub open spec fn total(self) -> nat {
        sum(self.req, self.req.len()) + sum(self.resp, self.resp.len())
    }

    /// Error responses: the specific failure codes and the 4xx/5xx/6xx
    /// classes, but not 487.
    pub open spec fn errors(self) -> int {
        self.resp[4] + self.resp[5] + self.resp[6] + self.resp[7] + self.resp[8] + self.resp[11]
            + self.resp[12] + self.resp[13]
    }

    pub open spec fn seen(self, ts: u64) -> StatsView {
        let before = match self.last_ts_us {
            Some(t) => t,
            None => 0,
        };
        StatsView {
            last_ts_us: Some(
                if ts >= before {
                    ts
                } else {
                    before
                },
            ),
            ..self
        }
    }

    pub open spec fn rings(self, ts: u64, inv: u64, ans: u64) -> StatsView {
        StatsView {
            m1: ring_step(self.m1, M1_US, ts, inv, ans),
            m5: ring_step(self.m5, M5_US, ts, inv, ans),
            m15: ring_step(self.m15, M15_US, ts, inv, ans),
            ..self
        }
    }

    /// After a message of the endpoint.
    pub open spec fn with_message(self, o: SipObs) -> StatsView {
        (if o.is_request {
            let col = match o.method {
                Some(m) => req_col(m) as int,
                None => REQ_N - 1,
            };
            let t = StatsView { req: self.req.update(col, (self.req[col] + 1) as u64), ..self };
            if o.initial_invite {
                t.rings(o.ts_us, 1, 0)
            } else {
                t
            }
        } else {
            match o.status {
                Some(code) => {
                    let col = resp_col(code) as int;
                    StatsView { resp: self.resp.update(col, (self.resp[col] + 1) as u64), ..self }
                },
                None => self,
            }
        }).seen(o.ts_us)
    }

    /// After an answer to one of the endpoint's invites.
    pub open spec fn with_answer(self, ts: u64) -> StatsView {
        self.rings(ts, 0, 1).seen(ts)
    }

    /// The global counters after an observation.
    pub open spec fn observed(self, o: SipObs) -> StatsView {
        if o.answer_for_ip is Some {
            self.with_message(o).with_answer(o.ts_us)
        } else {
            self.with_message(o)
        }
    }
}

fn sum_all(v: &Vec<u64>) -> (r: u64)
    requires
        sum(v@, v@.len()) <= u64::MAX,
    ensures
        r == sum(v@, v@.len()),
{
    let mut t: u64 = 0;
    let mut i: usize = 0;
    while i < v.len()
        invariant
            i <= v.len(),
            t == sum(v@, i as nat),
            sum(v@, v@.len()) <= u64::MAX,
        decreases v.len() - i,
    {
        proof {
            lemma_sum_mono(v@, (i + 1) as nat, v@.len());
        }
        t = t + v[i];
        i += 1;
    }
    t
}

fn sum_wide(v: &Vec<u64>) -> (r: u128)
    requires
        v@.len() <= 100,
    ensures
        r == sum(v@, v@.len()),
        r <= 100 * u64::MAX,
{
    let mut t: u128 = 0;
    let mut i: usize = 0;
    while i < v.len()
        invariant
            i <= v.len() <= 100,
            t == sum(v@, i as nat),
            t <= i * u64::MAX,
        decreases v.len() - i,
    {
        t = t + v[i] as u128;
        i += 1;
    }
    t
}

proof fn lemma_sum_mono(s: Seq<u64>, a: nat, b: nat)
    requires
        a <= b,
    ensures
        sum(s, a) <= sum(s, b),
    decreases b,
{
    if a < b {
        lemma_sum_mono(s, a, (b - 1) as nat);
    }
}

proof fn lemma_ring_sum_mono(r: Seq<(u64, u64, u64)>, a: nat, b: nat)
    requires
        a <= b,
    ensures
        ring_sum(r, a).0 <= ring_sum(r, b).0,
        ring_sum(r, a).1 <= ring_sum(r, b).1,
    decreases b,
{
    if a < b {
        lemma_ring_sum_mono(r, a, (b - 1) as nat);
    }
}

fn copy_ring(r: &Ring) -> (c: Ring)
    ensures
        c@ == r@,
{
    let mut out: Ring = Vec::new();
    let mut i: usize = 0;
    while i < r.len()
        invariant
            i <= r.len(),
            out@ == r@.take(i as int),
        decreases r.len() - i,
    {
        out.push(r[i]);
        i += 1;
        assert(out@ =~= r@.take(i as int));
    }
    assert(out@ =~= r@);
    out
}

fn copy_counts(r: &Vec<u64>) -> (c: Vec<u64>)
    ensures
        c@ == r@,
{
    let mut out: Vec<u64> = Vec::new();
    let mut i: usize = 0;
    while i < r.len()
        invariant
            i <= r.len(),
            out@ == r@.take(i as int),
        decreases r.len() - i,
    {
        out.push(r[i]);
        i += 1;
        assert(out@ =~= r@.take(i as int));
    }
    assert(out@ =~= r@);
    out
}

fn zero_counts(n: usize) -> (r: Vec<u64>)
    ensures
        r@ == zeros(n as nat),
{
    let mut out: Vec<u64> = Vec::new();
    while out.len() < n
        invariant
            out@.len() <= n,
            out@ == zeros(out@.len()),
        decreases n - out@.len(),
    {
        out.push(0);
        assert(out@ =~= zeros(out@.len()));
    }
    out
}

fn counts_grow(v: &Vec<u64>) -> (r: bool)
    ensures
        r == counts_within(v@, u64::MAX - 1),
{
    let mut i: usize = 0;
    while i < v.len()
        invariant
            i <= v.len(),
            forall|k: int| 0 <= k < i ==> #[trigger] v@[k] <= u64::MAX - 1,
        decreases v.len() - i,
    {
        if v[i] == u64::MAX {
            assert(v@[i as int] == u64::MAX);
            return false;
        }
        i += 1;
    }
    true
}

fn ring_grows(v: &Ring) -> (r: bool)
    ensures
        r == ring_within(v@, u64::MAX - 1, u64::MAX - 1),
{
    let mut i: usize = 0;
    while i < v.len()
        invariant
            i <= v.len(),
            forall|k: int|
                0 <= k < i ==> (#[trigger] v@[k]).1 <= u64::MAX - 1 && v@[k].2 <= u64::MAX - 1,
        decreases v.len() - i,
    {
        if v[i].1 == u64::MAX || v[i].2 == u64::MAX {
            assert(v@[i as int].1 == u64::MAX || v@[i as int].2 == u64::MAX);
            return false;
        }
        i += 1;
    }
    true
}

impl SipIpStats {
    pub fn new() -> (r: SipIpStats)
        ensures
            r@ == StatsView::zero(),
            r@.wf(),
    {
        SipIpStats {
            req: zero_counts(REQ_N),
            resp: zero_counts(RESP_N),
            m1: Vec::new(),
            m5: Vec::new(),
            m15: Vec::new(),
            last_ts_us: None,
        }
    }

    /// A copy of the counters.
    pub fn copy(&self) -> (r: SipIpStats)
        ensures
            r@ == self@,
    {
        SipIpStats {
            req: copy_counts(&self.req),
            resp: copy_counts(&self.resp),
            m1: copy_ring(&self.m1),
            m5: copy_ring(&self.m5),
            m15: copy_ring(&self.m15),
            last_ts_us: self.last_ts_us,
        }
    }

    /// Ring for a bucket width in seconds (60/300/900; anything else: 1m).
    pub fn series(&self, bucket_secs: u64) -> (r: &[(u64, u64, u64)])
        ensures
            r@ == self@.series(bucket_secs),
    {
        match bucket_secs {
            300 => self.m5.as_slice(),
            900 => self.m15.as_slice(),
            _ => self.m1.as_slice(),
        }
    }

    /// (invites, answered) over the whole ring of `bucket_secs`.
    pub fn series_totals(&self, bucket_secs: u64) -> (r: (u64, u64))
        requires
            ({
                let s = self@.series(bucket_secs);
                ring_sum(s, s.len()).0 <= u64::MAX && ring_sum(s, s.len()).1 <= u64::MAX
            }),
        ensures
            ({
                let s = self@.series(bucket_secs);
                r.0 == ring_sum(s, s.len()).0 && r.1 == ring_sum(s, s.len()).1
            }),
    {
        let s = self.series(bucket_secs);
        let mut inv: u64 = 0;
        let mut ans: u64 = 0;
        let mut i: usize = 0;
        while i < s.len()
            invariant
                i <= s.len(),
                (inv as nat, ans as nat) == ring_sum(s@, i as nat),
                ring_sum(s@, s@.len()).0 <= u64::MAX,
                ring_sum(s@, s@.len()).1 <= u64::MAX,
            decreases s.len() - i,
        {
            proof {
                lemma_ring_sum_mono(s@, (i + 1) as nat, s@.len());
            }
            inv = inv + s[i].1;
            ans = ans + s[i].2;
            i += 1;
        }
        (inv, ans)
    }

    /// All messages of the endpoint.
    pub fn total_msgs(&self) -> (r: u64)
        requires
            self@.total() <= u64::MAX,
        ensures
            r == self@.total(),
    {
        sum_all(&self.req) + sum_all(&self.resp)
    }

    /// All messages of the endpoint, however many.
    fn total_wide(&self) -> (r: u128)
        requires
            self@.wf(),
        ensures
            r == self@.total(),
    {
        sum_wide(&self.req) + sum_wide(&self.resp)
    }

    /// Responses that represent errors.
    pub fn resp_errors(&self) -> (r: u64)
        requires
            self@.wf(),
            self@.errors() <= u64::MAX,
        ensures
            r == self@.errors(),
    {
        self.resp[4] + self.resp[5] + self.resp[6] + self.resp[7] + self.resp[8] + self.resp[11]
            + self.resp[12] + self.resp[13]
    }

    /// Whether every count can grow by one.
    fn has_room(&self) -> (r: bool)
        ensures
            r == self@.room(),
    {
        counts_grow(&self.req) && counts_grow(&self.resp) && ring_grows(&self.m1) && ring_grows(
            &self.m5,
        ) && ring_grows(&self.m15)
    }

    fn see(&mut self, ts: u64)
        ensures
            final(self)@ == old(self)@.seen(ts),
    {
        let before: u64 = match self.last_ts_us {
            Some(t) => t,
            None => 0,
        };
        self.last_ts_us = Some(
            if ts >= before {
                ts
            } else {
                before
            },
        );
    }
}

/// One SIP message observation.
#[derive(Debug, Clone, Copy)]
pub struct SipObs {
    /// Sender IP of the message (distribution attribution).
    pub ip: IpAddr,
    pub ts_us: u64,
    pub is_request: bool,
    pub method: Option<Method>,
    pub status: Option<u16>,
    /// Set when this message is the first 2xx answering a dialog's INVITE: the
    /// source IP of that INVITE, credited in its series.
    pub answer_for_ip: Option<IpAddr>,
    /// True for the dialog-initial INVITE request (no To tag), the only INVITE
    /// counted by the answer-rate series.
    pub initial_invite: bool,
}

proof fn lemma_filled_within(r: Seq<(u64, u64, u64)>, next: int, key: int, w: int, a: int, b: int)
    requires
        ring_within(r, a, b),
        0 <= a,
        0 <= b,
    ensures
        ring_within(ring_filled(r, next, key, w), a, b),
    decreases SERIES_RETAIN - r.len(),
{
    if next < key && r.len() < SERIES_RETAIN {
        let p = r.push((next as u64, 0, 0));
        assert(ring_within(p, a, b)) by {
            assert forall|i: int| 0 <= i < p.len() implies (#[trigger] p[i]).1 <= a && p[i].2
                <= b by {
                if i < r.len() {
                    assert(p[i] == r[i]);
                }
            }
        }
        lemma_filled_within(p, next + w, key, w, a, b);
    }
}

/// What is counted adds no more than itself to any bucket.
proof fn lemma_step_within(
    r: Seq<(u64, u64, u64)>,
    w: u64,
    ts: u64,
    inv: u64,
    ans: u64,
    a: int,
    b: int,
)
    requires
        ring_within(r, a, b),
        0 <= a,
        0 <= b,
        a + inv <= u64::MAX,
        b + ans <= u64::MAX,
    ensures
        ring_within(ring_step(r, w, ts, inv, ans), a + inv, b + ans),
{
    let s = ring_step(r, w, ts, inv, ans);
    let key = bucket_start(ts, w);
    if r.len() > 0 && (inv != 0 || ans != 0) {
        let f = ring_filled(r, r.last().0 + w, key as int, w as int);
        lemma_filled_within(r, r.last().0 + w, key as int, w as int, a, b);
        let t = ring_trimmed(f);
        assert forall|i: int| 0 <= i < t.len() implies (#[trigger] t[i]).1 <= a && t[i].2 <= b by {
            assert(t[i] == f[i + f.len() - t.len()]);
        }
        lemma_ring_find(r, key, 0);
        assert forall|i: int| 0 <= i < s.len() implies (#[trigger] s[i]).1 <= a + inv && s[i].2 <= b
            + ans by {
            if key == r.last().0 {
                assert(r[i].1 <= a && r[i].2 <= b);
            } else if key > r.last().0 {
                if key - r.last().0 <= w * 60 && i < t.len() {
                    assert(s[i] == t[i]);
                }
            } else {
                assert(r[i].1 <= a && r[i].2 <= b);
            }
        }
    }
}

/// A message adds at most one to each count, and nothing to the answers.
proof fn lemma_message_within(s: StatsView, o: SipObs, n: int)
    requires
        s.wf(),
        s.within(n),
        0 <= n < u64::MAX,
    ensures
        s.with_message(o).columns_within(n + 1),
        s.with_message(o).series_within(n + 1, n),
{
    let t = s.with_message(o);
    lemma_step_within(s.m1, M1_US, o.ts_us, 1, 0, n, n);
    lemma_step_within(s.m5, M5_US, o.ts_us, 1, 0, n, n);
    lemma_step_within(s.m15, M15_US, o.ts_us, 1, 0, n, n);
    assert forall|i: int| 0 <= i < t.req.len() implies #[trigger] t.req[i] <= n + 1 by {
        assert(s.req[i] <= n);
    }
    assert forall|i: int| 0 <= i < t.resp.len() implies #[trigger] t.resp[i] <= n + 1 by {
        assert(s.resp[i] <= n);
    }
}

/// A credited answer adds at most one to the answers, and nothing else.
proof fn lemma_answer_within(s: StatsView, ts: u64, a: int, b: int)
    requires
        s.series_within(a, b),
        0 <= a <= u64::MAX,
        0 <= b < u64::MAX,
    ensures
        s.with_answer(ts).series_within(a, b + 1),
        s.with_answer(ts).req == s.req,
        s.with_answer(ts).resp == s.resp,
{
    lemma_step_within(s.m1, M1_US, ts, 0, 1, a, b);
    lemma_step_within(s.m5, M5_US, ts, 0, 1, a, b);
    lemma_step_within(s.m15, M15_US, ts, 0, 1, a, b);
}

/// Counts a message in its sender's distribution; an initial INVITE in the
/// series too.
pub fn apply_dist(s: &mut SipIpStats, o: &SipObs)
    requires
        old(s)@.wf(),
        old(s)@.room(),
    ensures
        final(s)@ == old(s)@.with_message(*o),
        final(s)@.wf(),
        final(s)@.series_within(u64::MAX as int, u64::MAX - 1),
{
    proof {
        lemma_message_within(s@, *o, u64::MAX - 1);
    }
    if o.is_request {
        let col: usize = match o.method {
            Some(m) => req_idx(m),
            None => REQ_N - 1,
        };
        let n: u64 = s.req[col];
        s.req.set(col, n + 1);
        if o.initial_invite {
            ring_bump(&mut s.m1, M1_US, o.ts_us, 1, 0);
            ring_bump(&mut s.m5, M5_US, o.ts_us, 1, 0);
            ring_bump(&mut s.m15, M15_US, o.ts_us, 1, 0);
        }
    } else if let Some(code) = o.status {
        let col: usize = resp_idx(code);
        let n: u64 = s.resp[col];
        s.resp.set(col, n + 1);
    }
    s.see(o.ts_us);
}

/// Credits an answer.
pub fn apply_answer(s: &mut SipIpStats, ts_us: u64)
    requires
        old(s)@.wf(),
        old(s)@.series_within(u64::MAX as int, u64::MAX - 1),
    ensures
        final(s)@ == old(s)@.with_answer(ts_us),
        final(s)@.wf(),
{
    ring_bump(&mut s.m1, M1_US, ts_us, 0, 1);
    ring_bump(&mut s.m5, M5_US, ts_us, 0, 1);
    ring_bump(&mut s.m15, M15_US, ts_us, 0, 1);
    s.see(ts_us);
}

// ----------------------------- all endpoints -----------------------------

/// Snapshot row: per-IP counters, or the global aggregate (`ip == None`).
#[derive(Debug, Clone)]
pub struct SipIpRow {
    pub ip: Option<IpAddr>,
    pub stats: SipIpStats,
}

struct Entry {
    ip: IpAddr,
    stats: SipIpStats,
}

pub struct SipStatsStore {
    ips: Vec<Entry>,
    all: SipIpStats,
}

/// IPv4 before IPv6, each by number.
pub open spec fn ip_less(a: IpAddr, b: IpAddr) -> bool {
    match (a, b) {
        (IpAddr::V4(x), IpAddr::V4(y)) => x < y,
        (IpAddr::V4(_), IpAddr::V6(_)) => true,
        (IpAddr::V6(_), IpAddr::V4(_)) => false,
        (IpAddr::V6(x), IpAddr::V6(y)) => x < y,
    }
}

pub fn ip_before(a: IpAddr, b: IpAddr) -> (r: bool)
    ensures
        r == ip_less(a, b),
{
    match (a, b) {
        (IpAddr::V4(x), IpAddr::V4(y)) => x < y,
        (IpAddr::V4(_), IpAddr::V6(_)) => true,
        (IpAddr::V6(_), IpAddr::V4(_)) => false,
        (IpAddr::V6(x), IpAddr::V6(y)) => x < y,
    }
}

/// Busier first; among equals by address.
pub open spec fn row_less(ta: nat, a: IpAddr, tb: nat, b: IpAddr) -> bool {
    ta > tb || (ta == tb && ip_less(a, b))
}

impl SipStatsStore {
    spec fn at(self, i: int, ip: IpAddr) -> bool {
        0 <= i < self.ips@.len() && self.ips@[i].ip == ip
    }

    /// The counters of an endpoint, if it has been seen.
    pub closed spec fn of(self, ip: IpAddr) -> Option<StatsView> {
        if exists|i: int| self.at(i, ip) {
            Some(self.ips@[choose|i: int| self.at(i, ip)].stats@)
        } else {
            None
        }
    }

    /// The global counters.
    pub closed spec fn global(self) -> StatsView {
        self.all@
    }

    pub closed spec fn count(self) -> nat {
        self.ips@.len()
    }

    /// No endpoint has two entries, and all counters are in order.
    pub closed spec fn wf(self) -> bool {
        &&& self.all@.wf()
        &&& forall|i: int| 0 <= i < self.ips@.len() ==> (#[trigger] self.ips@[i]).stats@.wf()
        &&& forall|i: int, j: int|
            0 <= i < j < self.ips@.len() ==> (#[trigger] self.ips@[i]).ip != (
            #[trigger] self.ips@[j]).ip
    }

    /// No count, global or of an endpoint, is more than `n`.
    pub open spec fn within(self, n: int) -> bool {
        &&& self.global().within(n)
        &&& forall|ip: IpAddr| (#[trigger] self.of(ip)) matches Some(s) ==> s.within(n)
    }

    /// Every count can grow by one.
    pub open spec fn room(self) -> bool {
        self.within(u64::MAX - 1)
    }

    /// Every count that an observation adds to can grow by one.
    pub open spec fn room_for(self, o: SipObs) -> bool {
        &&& self.global().room()
        &&& self.of_or_zero(o.ip).room()
        &&& o.answer_for_ip matches Some(ip) ==> self.of_or_zero(ip).room()
    }

    /// The counters of an endpoint; zeros, if it has not been seen.
    pub open spec fn of_or_zero(self, ip: IpAddr) -> StatsView {
        match self.of(ip) {
            Some(s) => s,
            None => StatsView::zero(),
        }
    }

    proof fn lemma_at(self, i: int, ip: IpAddr)
        requires
            self.wf(),
            self.at(i, ip),
        ensures
            self.of(ip) == Some(self.ips@[i].stats@),
    {
        let j = choose|j: int| self.at(j, ip);
        if i < j {
        } else if j < i {
        }
    }

    pub fn new() -> (r: SipStatsStore)
        ensures
            r.wf(),
            r.within(0),
            r.room(),
            r.count() == 0,
            forall|ip: IpAddr| r.of(ip) is None,
            r.global() == StatsView::zero(),
    {
        SipStatsStore { ips: Vec::new(), all: SipIpStats::new() }
    }

    /// The index of an endpoint's entry; a new one is added where there is
    /// none.
    fn entry(&mut self, ip: IpAddr) -> (r: usize)
        requires
            old(self).wf(),
        ensures
            final(self).wf(),
            final(self).at(r as int, ip),
            final(self).all == old(self).all,
            final(self).ips@[r as int].stats@ == match old(self).of(ip) {
                Some(s) => s,
                None => StatsView::zero(),
            },
            old(self).of(ip) is Some ==> *final(self) == *old(self),
            old(self).of(ip) is None ==> final(self).ips@.len() == old(self).ips@.len() + 1 && r
                == old(self).ips@.len() && forall|i: int|
                0 <= i < old(self).ips@.len() ==> #[trigger] final(self).ips@[i] == old(
                    self,
                ).ips@[i],
    {
        let mut i: usize = 0;
        while i < self.ips.len()
            invariant
                i <= self.ips.len(),
                self.wf(),
                *self == *old(self),
                forall|k: int| 0 <= k < i ==> !self.at(k, ip),
            decreases self.ips.len() - i,
        {
            if self.ips[i].ip == ip {
                proof {
                    self.lemma_at(i as int, ip);
                }
                return i;
            }
            i += 1;
        }
        let ghost before = *self;
        self.ips.push(Entry { ip, stats: SipIpStats::new() });
        proof {
            assert forall|a: int, b: int| 0 <= a < b < self.ips@.len() implies (
            #[trigger] self.ips@[a]).ip != (#[trigger] self.ips@[b]).ip by {
                if b == i {
                    assert(!before.at(a, ip));
                }
            }
            assert(before.of(ip) is None);
        }
        i
    }

    /// What an entry's change leaves of the others.
    proof fn lemma_changed(self, before: SipStatsStore, i: int, ip: IpAddr)
        requires
            before.wf(),
            before.at(i, ip),
            self.ips@.len() == before.ips@.len(),
            self.ips@[i].ip == ip,
            self.ips@[i].stats@.wf(),
            self.all@.wf(),
            forall|k: int|
                0 <= k < before.ips@.len() && k != i ==> #[trigger] self.ips@[k]
                    == before.ips@[k],
        ensures
            self.wf(),
            self.of(ip) == Some(self.ips@[i].stats@),
            forall|o: IpAddr| o != ip ==> #[trigger] self.of(o) == before.of(o),
    {
        assert(self.wf()) by {
            assert forall|k: int| 0 <= k < self.ips@.len() implies (
            #[trigger] self.ips@[k]).stats@.wf() by {
                if k != i {
                    assert(self.ips@[k] == before.ips@[k]);
                }
            }
            assert forall|a: int, b: int| 0 <= a < b < self.ips@.len() implies (
            #[trigger] self.ips@[a]).ip != (#[trigger] self.ips@[b]).ip by {
                assert(before.ips@[a].ip != before.ips@[b].ip);
                if a != i {
                    assert(self.ips@[a] == before.ips@[a]);
                }
                if b != i {
                    assert(self.ips@[b] == before.ips@[b]);
                }
            }
        }
        assert(self.at(i, ip));
        self.lemma_at(i, ip);
        assert forall|o: IpAddr| o != ip implies #[trigger] self.of(o) == before.of(o) by {
            if exists|k: int| before.at(k, o) {
                let k = choose|k: int| before.at(k, o);
                before.lemma_at(k, o);
                assert(k != i);
                assert(self.ips@[k] == before.ips@[k]);
                assert(self.at(k, o));
                self.lemma_at(k, o);
            } else if exists|k: int| self.at(k, o) {
                let k = choose|k: int| self.at(k, o);
                assert(k != i);
                assert(self.ips@[k] == before.ips@[k]);
                assert(before.at(k, o));
            }
        }
    }

    proof fn lemma_grown(self, before: SipStatsStore, ip: IpAddr)
        requires
            before.wf(),
            self.wf(),
            self.ips@.len() == before.ips@.len() + 1,
            self.ips@[before.ips@.len() as int].ip == ip,
            forall|k: int| 0 <= k < before.ips@.len() ==> #[trigger] self.ips@[k] == before.ips@[k],
        ensures
            forall|o: IpAddr| o != ip ==> #[trigger] self.of(o) == before.of(o),
    {
        assert forall|o: IpAddr| o != ip implies #[trigger] self.of(o) == before.of(o) by {
            if exists|k: int| before.at(k, o) {
                let k = choose|k: int| before.at(k, o);
                before.lemma_at(k, o);
                assert(self.ips@[k] == before.ips@[k]);
                assert(self.at(k, o));
                self.lemma_at(k, o);
            } else if exists|k: int| self.at(k, o) {
                let k = choose|k: int| self.at(k, o);
                assert(k < before.ips@.len());
                assert(before.at(k, o));
            }
        }
    }

    fn count_message(&mut self, o: &SipObs)
        requires
            old(self).wf(),
            old(self).global().room(),
            old(self).of_or_zero(o.ip).room(),
        ensures
            final(self).wf(),
            final(self).of(o.ip) == Some(old(self).of_or_zero(o.ip).with_message(*o)),
            final(self).global() == old(self).global().with_message(*o),
            forall|q: IpAddr| q != o.ip ==> #[trigger] final(self).of(q) == old(self).of(q),
            final(self).global().series_within(u64::MAX as int, u64::MAX - 1),
            final(self).of(o.ip)->Some_0.series_within(u64::MAX as int, u64::MAX - 1),
            final(self).count() == old(self).count() + if old(self).of(o.ip) is None {
                1int
            } else {
                0
            },
    {
        let ghost before = *self;
        let i: usize = self.entry(o.ip);
        proof {
            if before.of(o.ip) is None {
                self.lemma_grown(before, o.ip);
            }
        }
        let ghost middle = *self;
        let e = &mut self.ips[i];
        apply_dist(&mut e.stats, o);
        apply_dist(&mut self.all, o);
        proof {
            self.lemma_changed(middle, i as int, o.ip);
        }
    }

    fn credit_answer(&mut self, ip: IpAddr, ts_us: u64)
        requires
            old(self).wf(),
            old(self).global().series_within(u64::MAX as int, u64::MAX - 1),
            old(self).of_or_zero(ip).series_within(u64::MAX as int, u64::MAX - 1),
        ensures
            final(self).wf(),
            final(self).of(ip) == Some(old(self).of_or_zero(ip).with_answer(ts_us)),
            final(self).global() == old(self).global().with_answer(ts_us),
            forall|q: IpAddr| q != ip ==> #[trigger] final(self).of(q) == old(self).of(q),
            final(self).count() == old(self).count() + if old(self).of(ip) is None {
                1int
            } else {
                0
            },
    {
        let ghost before = *self;
        let i: usize = self.entry(ip);
        proof {
            if before.of(ip) is None {
                self.lemma_grown(before, ip);
            }
        }
        let ghost middle = *self;
        let e = &mut self.ips[i];
        apply_answer(&mut e.stats, ts_us);
        apply_answer(&mut self.all, ts_us);
        proof {
            self.lemma_changed(middle, i as int, ip);
        }
    }

    /// An endpoint after an observation: its own message counts, and the answer that
    /// is credited to it.
    pub open spec fn observed_at(self, o: SipObs, ip: IpAddr) -> Option<StatsView> {
        let a = if ip == o.ip {
            Some(self.of_or_zero(ip).with_message(o))
        } else {
            self.of(ip)
        };
        if o.answer_for_ip == Some(ip) {
            Some(
                (match a {
                    Some(s) => s,
                    None => StatsView::zero(),
                }).with_answer(o.ts_us),
            )
        } else {
            a
        }
    }

    /// How many endpoints an observation adds.
    pub open spec fn newly_seen(self, o: SipObs) -> int {
        (if self.of(o.ip) is None {
            1int
        } else {
            0
        }) + match o.answer_for_ip {
            Some(ip) => if ip != o.ip && self.of(ip) is None {
                1int
            } else {
                0
            },
            None => 0,
        }
    }

    proof fn lemma_observed_within(self, o: SipObs, ip: IpAddr, n: int)
        requires
            self.wf(),
            self.within(n),
            0 <= n < u64::MAX,
        ensures
            self.observed_at(o, ip) matches Some(s) ==> s.within(n + 1),
    {
        let z = StatsView::zero();
        let s = self.of_or_zero(ip);
        assert(z.wf() && z.within(n));
        if exists|i: int| self.at(i, ip) {
            let i = choose|i: int| self.at(i, ip);
            self.lemma_at(i, ip);
        }
        assert(s.wf() && s.within(n));
        lemma_message_within(s, o, n);
        lemma_answer_within(s.with_message(o), o.ts_us, n + 1, n);
        lemma_answer_within(s, o.ts_us, n, n);
    }

    proof fn lemma_all_within(self, before: SipStatsStore, o: SipObs, n: int)
        requires
            before.wf(),
            before.within(n),
            0 <= n,
            self.global() == before.global().observed(o),
            forall|ip: IpAddr| #[trigger] self.of(ip) == before.observed_at(o, ip),
        ensures
            self.within(n + 1),
    {
        if n < u64::MAX {
            lemma_message_within(before.global(), o, n);
            lemma_answer_within(before.global().with_message(o), o.ts_us, n + 1, n);
            assert forall|ip: IpAddr| (#[trigger] self.of(ip)) is Some implies self.of(
                ip,
            )->Some_0.within(n + 1) by {
                before.lemma_observed_within(o, ip, n);
            }
        }
    }

    fn endpoint_has_room(&self, ip: IpAddr) -> (r: bool)
        requires
            self.wf(),
        ensures
            r == self.of_or_zero(ip).room(),
    {
        let mut i: usize = 0;
        while i < self.ips.len()
            invariant
                i <= self.ips.len(),
                self.wf(),
                forall|k: int| 0 <= k < i ==> !self.at(k, ip),
            decreases self.ips.len() - i,
        {
            if self.ips[i].ip == ip {
                proof {
                    self.lemma_at(i as int, ip);
                }
                return self.ips[i].stats.has_room();
            }
            i += 1;
        }
        assert(self.of(ip) is None);
        true
    }

    /// Whether every count that an observation adds to can grow by one.
    pub fn has_room(&self, o: &SipObs) -> (r: bool)
        requires
            self.wf(),
        ensures
            r == self.room_for(*o),
    {
        self.all.has_room() && self.endpoint_has_room(o.ip) && match o.answer_for_ip {
            Some(ip) => self.endpoint_has_room(ip),
            None => true,
        }
    }

    /// Records one message into the per-IP and global counters. No count grows by more
    /// than one.
    pub fn observe(&mut self, o: &SipObs)
        requires
            old(self).wf(),
            old(self).room_for(*o),
        ensures
            final(self).wf(),
            forall|ip: IpAddr| #[trigger] final(self).of(ip) == old(self).observed_at(*o, ip),
            final(self).global() == old(self).global().observed(*o),
            final(self).count() == old(self).count() + old(self).newly_seen(*o),
            forall|n: int| 0 <= n && #[trigger] old(self).within(n) ==> final(self).within(n + 1),
    {
        let ghost before = *self;
        self.count_message(o);
        if let Some(ip) = o.answer_for_ip {
            self.credit_answer(ip, o.ts_us);
        }
        proof {
            assert forall|n: int| 0 <= n && #[trigger] before.within(n) implies self.within(
                n + 1,
            ) by {
                self.lemma_all_within(before, *o, n);
            }
        }
    }

    pub fn clear(&mut self)
        ensures
            final(self).wf(),
            final(self).within(0),
            final(self).room(),
            final(self).count() == 0,
            forall|ip: IpAddr| final(self).of(ip) is None,
            final(self).global() == StatsView::zero(),
    {
        *self = SipStatsStore::new();
    }

    /// Whether counters are recent enough to keep.
    pub open spec fn recent(s: StatsView, cutoff_us: u64) -> bool {
        match s.last_ts_us {
            Some(t) => t >= cutoff_us,
            None => cutoff_us == 0,
        }
    }

    proof fn lemma_removed(self, before: SipStatsStore, i: int)
        requires
            before.wf(),
            0 <= i < before.ips@.len(),
            self.ips@ == before.ips@.remove(i),
            self.all == before.all,
        ensures
            self.wf(),
            forall|o: IpAddr|
                #[trigger] self.of(o) == if o == before.ips@[i].ip {
                    None
                } else {
                    before.of(o)
                },
    {
        assert forall|k: int| 0 <= k < self.ips@.len() implies #[trigger] self.ips@[k]
            == before.ips@[if k < i {
            k
        } else {
            k + 1
        }] by {}
        assert(self.wf());
        assert forall|o: IpAddr| #[trigger] self.of(o) == if o == before.ips@[i].ip {
            None
        } else {
            before.of(o)
        } by {
            if exists|k: int| self.at(k, o) {
                let k = choose|k: int| self.at(k, o);
                let b = if k < i {
                    k
                } else {
                    k + 1
                };
                assert(self.ips@[k] == before.ips@[b]);
                assert(before.at(b, o));
                before.lemma_at(b, o);
                if b < i {
                    assert(before.ips@[b].ip != before.ips@[i].ip);
                } else {
                    assert(before.ips@[i].ip != before.ips@[b].ip);
                }
            } else if o != before.ips@[i].ip && exists|b: int| before.at(b, o) {
                let b = choose|b: int| before.at(b, o);
                assert(self.at(
                    if b < i {
                        b
                    } else {
                        b - 1
                    },
                    o,
                ));
            }
        }
    }

    /// Drops IPs idle since `cutoff_us`.
    pub fn prune_idle(&mut self, cutoff_us: u64)
        requires
            old(self).wf(),
        ensures
            final(self).wf(),
            final(self).global() == old(self).global(),
            forall|ip: IpAddr| #[trigger]
                final(self).of(ip) == match old(self).of(ip) {
                    Some(s) => if Self::recent(s, cutoff_us) {
                        Some(s)
                    } else {
                        None
                    },
                    None => None,
                },
    {
        let ghost start = *self;
        let mut i: usize = 0;
        while i < self.ips.len()
            invariant
                i <= self.ips.len(),
                self.wf(),
                start == *old(self),
                self.all == start.all,
                forall|k: int|
                    0 <= k < i ==> Self::recent((#[trigger] self.ips@[k]).stats@, cutoff_us),
                forall|ip: IpAddr|
                    (#[trigger] self.of(ip)) is Some ==> self.of(ip) == start.of(ip),
                forall|ip: IpAddr|
                    (start.of(ip) matches Some(s) && Self::recent(s, cutoff_us))
                        ==> #[trigger] self.of(ip) == start.of(ip),
            decreases self.ips.len() - i,
        {
            let keep: bool = match self.ips[i].stats.last_ts_us {
                Some(t) => t >= cutoff_us,
                None => cutoff_us == 0,
            };
            if keep {
                i += 1;
            } else {
                let ghost before = *self;
                proof {
                    let ip = self.ips@[i as int].ip;
                    assert(self.at(i as int, ip));
                    self.lemma_at(i as int, ip);
                }
                let _e = self.ips.remove(i);
                proof {
                    self.lemma_removed(before, i as int);
                }
            }
        }
        proof {
            assert forall|ip: IpAddr| #[trigger] self.of(ip) == match start.of(ip) {
                Some(s) => if Self::recent(s, cutoff_us) {
                    Some(s)
                } else {
                    None
                },
                None => None,
            } by {
                if exists|k: int| self.at(k, ip) {
                    let k = choose|k: int| self.at(k, ip);
                    self.lemma_at(k, ip);
                }
            }
        }
    }

    /// Global aggregate row followed by per-IP rows, busiest first.
    pub fn snapshot(&self) -> (r: Vec<SipIpRow>)
        requires
            self.wf(),
        ensures
            r@.len() == self.count() + 1,
            r@[0].ip is None,
            r@[0].stats@ == self.global(),
            forall|i: int| 0 <= i < r@.len() ==> (#[trigger] r@[i]).stats@.wf(),
            forall|i: int|
                1 <= i < r@.len() ==> (#[trigger] r@[i]).ip is Some && self.of(
                    r@[i].ip->Some_0,
                ) == Some(r@[i].stats@),
            forall|ip: IpAddr|
                (#[trigger] self.of(ip)) is Some ==> exists|i: int|
                    1 <= i < r@.len() && r@[i].ip == Some(ip),
            forall|i: int, j: int|
                1 <= i < j < r@.len() ==> row_less(
                    (#[trigger] r@[i]).stats@.total(),
                    r@[i].ip->Some_0,
                    (#[trigger] r@[j]).stats@.total(),
                    r@[j].ip->Some_0,
                ),
    {
        let mut rows: Vec<SipIpRow> = Vec::new();
        let mut i: usize = 0;
        while i < self.ips.len()
            invariant
                i <= self.ips.len(),
                self.wf(),
                rows@.len() == i,
                self.holds_rows(rows@, i as int),
                self.covers(rows@, i as int),
                rows_sorted(rows@),
            decreases self.ips.len() - i,
        {
            let ip = self.ips[i].ip;
            proof {
                assert(self.at(i as int, ip));
                self.lemma_at(i as int, ip);
            }
            let stats = self.ips[i].stats.copy();
            let t: u128 = stats.total_wide();
            let row = SipIpRow { ip: Some(ip), stats };
            let mut p: usize = 0;
            let mut ahead: bool = true;
            while ahead
                invariant
                    p <= rows@.len(),
                    rows@.len() == i,
                    i < self.ips@.len(),
                    self.wf(),
                    self.holds_rows(rows@, i as int),
                    rows_sorted(rows@),
                    row.ip == Some(ip),
                    ip == self.ips@[i as int].ip,
                    t == row.stats@.total(),
                    forall|k: int| 0 <= k < p ==> less(#[trigger] rows@[k], row),
                    !ahead ==> p == rows@.len() || !less(rows@[p as int], row),
                decreases rows@.len() - p + (if ahead {
                    1int
                } else {
                    0
                }),
            {
                if p < rows.len() {
                    assert(self.of(rows@[p as int].ip->Some_0) == Some(rows@[p as int].stats@));
                    let u: u128 = rows[p].stats.total_wide();
                    let less: bool = match rows[p].ip {
                        Some(q) => u > t || (u == t && ip_before(q, ip)),
                        None => false,
                    };
                    if less {
                        p += 1;
                    } else {
                        ahead = false;
                    }
                } else {
                    ahead = false;
                }
            }
            let ghost before = rows@;
            proof {
                self.lemma_covers(before, row, p as int, i as int);
                self.lemma_holds(before, row, p as int, i as int);
                if p < before.len() {
                    assert(before[p as int].ip != Some(self.ips@[i as int].ip));
                    assert(less(row, before[p as int]));
                }
                lemma_sorted_insert(before, row, p as int);
            }
            rows.insert(p, row);
            i += 1;
        }
        let ghost sorted = rows@;
        rows.insert(0, SipIpRow { ip: None, stats: self.all.copy() });
        proof {
            assert forall|k: int| 1 <= k < rows@.len() implies #[trigger] rows@[k] == sorted[k - 1] by {}
            assert forall|k: int| 0 <= k < rows@.len() implies (#[trigger] rows@[k]).stats@.wf() by {
                if k > 0 {
                    assert(self.of(sorted[k - 1].ip->Some_0) == Some(sorted[k - 1].stats@));
                }
            }
            assert forall|a: int, b: int| 1 <= a < b < rows@.len() implies less(
                #[trigger] rows@[a],
                #[trigger] rows@[b],
            ) by {
                assert(less(sorted[a - 1], sorted[b - 1]));
            }
            assert forall|ip: IpAddr| (#[trigger] self.of(ip)) is Some implies exists|k: int|
                1 <= k < rows@.len() && rows@[k].ip == Some(ip) by {
                let j = choose|j: int| self.at(j, ip);
                assert(self.ips@[j].ip == ip);
                let k = choose|k: int| 0 <= k < sorted.len() && sorted[k].ip == Some(
                    self.ips@[j].ip,
                );
                assert(rows@[k + 1].ip == Some(ip));
            }
        }
        rows
    }

    /// Rows of entries before the `n`-th.
    spec fn holds_rows(self, rows: Seq<SipIpRow>, n: int) -> bool {
        &&& forall|k: int|
            0 <= k < rows.len() ==> (#[trigger] rows[k]).ip is Some && self.of(rows[k].ip->Some_0)
                == Some(rows[k].stats@)
        &&& forall|k: int, j: int|
            0 <= k < rows.len() && n <= j < self.ips@.len() ==> (#[trigger] rows[k]).ip != Some(
                (#[trigger] self.ips@[j]).ip,
            )
    }

    /// Every entry before the `n`-th has a row.
    spec fn covers(self, rows: Seq<SipIpRow>, n: int) -> bool {
        forall|j: int|
            0 <= j < n ==> exists|k: int|
                0 <= k < rows.len() && rows[k].ip == Some((#[trigger] self.ips@[j]).ip)
    }

    proof fn lemma_covers(self, before: Seq<SipIpRow>, row: SipIpRow, p: int, i: int)
        requires
            0 <= i < self.ips@.len(),
            0 <= p <= before.len(),
            self.covers(before, i),
            row.ip == Some(self.ips@[i].ip),
        ensures
            self.covers(before.insert(p, row), i + 1),
    {
        let after = before.insert(p, row);
        assert forall|j: int| 0 <= j < i + 1 implies exists|k: int|
            0 <= k < after.len() && after[k].ip == Some((#[trigger] self.ips@[j]).ip) by {
            if j == i {
                assert(after[p].ip == Some(self.ips@[j].ip));
            } else {
                let b = choose|b: int| 0 <= b < before.len() && before[b].ip == Some(
                    self.ips@[j].ip,
                );
                let k = if b < p {
                    b
                } else {
                    b + 1
                };
                assert(after[k] == before[b]);
            }
        }
    }

    proof fn lemma_holds(self, before: Seq<SipIpRow>, row: SipIpRow, p: int, i: int)
        requires
            self.wf(),
            0 <= i < self.ips@.len(),
            0 <= p <= before.len(),
            self.holds_rows(before, i),
            row.ip == Some(self.ips@[i].ip),
            row.stats@ == self.ips@[i].stats@,
        ensures
            self.holds_rows(before.insert(p, row), i + 1),
    {
        let ip = self.ips@[i].ip;
        assert(self.at(i, ip));
        self.lemma_at(i, ip);
        let after = before.insert(p, row);
        assert forall|k: int| 0 <= k < after.len() && k != p implies #[trigger] after[k]
            == before[if k < p {
            k
        } else {
            k - 1
        }] by {}
        assert forall|k: int, j: int| 0 <= k < after.len() && i + 1 <= j < self.ips@.len() implies (
        #[trigger] after[k]).ip != Some((#[trigger] self.ips@[j]).ip) by {
            if k == p {
                assert(self.ips@[i].ip != self.ips@[j].ip);
            }
        }
    }
}

spec fn less(a: SipIpRow, b: SipIpRow) -> bool {
    row_less(a.stats@.total(), a.ip->Some_0, b.stats@.total(), b.ip->Some_0)
}

proof fn lemma_sorted_insert(before: Seq<SipIpRow>, row: SipIpRow, p: int)
    requires
        0 <= p <= before.len(),
        rows_sorted(before),
        forall|k: int| 0 <= k < p ==> less(#[trigger] before[k], row),
        p == before.len() || less(row, before[p]),
    ensures
        rows_sorted(before.insert(p, row)),
{
    let after = before.insert(p, row);
    assert forall|a: int, b: int| 0 <= a < b < after.len() implies less(
        #[trigger] after[a],
        #[trigger] after[b],
    ) by {
        if a == p {
            assert(after[b] == before[b - 1]);
            if b - 1 > p {
                assert(less(before[p], before[b - 1]));
            }
        } else if b == p {
            assert(after[a] == before[a]);
        } else if a < p {
            assert(after[a] == before[a]);
            if b > p {
                assert(after[b] == before[b - 1]);
            } else {
                assert(after[b] == before[b]);
            }
        } else {
            assert(after[a] == before[a - 1]);
            assert(after[b] == before[b - 1]);
        }
    }
}

spec fn rows_sorted(rows: Seq<SipIpRow>) -> bool {
    forall|i: int, j: int|
        0 <= i < j < rows.len() ==> less(#[trigger] rows[i], #[trigger] rows[j])
}

// ----------------------------- laws -----------------------------

/// The global counters after the first `n` of some observations, from the beginning.
pub open spec fn global_after(obs: Seq<SipObs>, n: int) -> StatsView
    decreases n,
{
    if n <= 0 {
        StatsView::zero()
    } else {
        global_after(obs, n - 1).observed(obs[n - 1])
    }
}

/// A response that represents an error: 4xx, 5xx and 6xx, but not 487.
pub open spec fn is_error(o: SipObs) -> bool {
    !o.is_request && (o.status matches Some(code) && 400 <= code < 700 && code != 487)
}

/// How many of the first `n` observations are errors.
pub open spec fn errors_among(obs: Seq<SipObs>, n: int) -> int
    decreases n,
{
    if n <= 0 {
        0
    } else {
        errors_among(obs, n - 1) + if is_error(obs[n - 1]) {
            1int
        } else {
            0
        }
    }
}

/// Whatever is observed from the beginning on, the error responses are the observed
/// ones.
pub proof fn law_errors_counted(obs: Seq<SipObs>, n: int)
    requires
        0 <= n <= obs.len(),
        n <= u64::MAX,
    ensures
        global_after(obs, n).resp.len() == RESP_N,
        forall|i: int| 0 <= i < RESP_N ==> #[trigger] global_after(obs, n).resp[i] <= n,
        global_after(obs, n).errors() == errors_among(obs, n),
        errors_among(obs, n) <= n,
    decreases n,
{
    if n > 0 {
        law_errors_counted(obs, n - 1);
        let a = global_after(obs, n - 1);
        let b = global_after(obs, n);
        let o = obs[n - 1];
        assert(b.resp == a.with_message(o).resp);
        if !o.is_request && o.status is Some {
            let col = resp_col(o.status->Some_0) as int;
            assert(a.resp[col] <= n - 1);
            assert(b.resp == a.resp.update(col, (a.resp[col] + 1) as u64));
            assert forall|i: int| 0 <= i < RESP_N implies #[trigger] b.resp[i] <= n by {
                assert(a.resp[i] <= n - 1);
            }
        } else {
            assert(b.resp == a.resp);
            assert forall|i: int| 0 <= i < RESP_N implies #[trigger] b.resp[i] <= n by {
                assert(a.resp[i] <= n - 1);
            }
        }
    }
}

} // verus!
