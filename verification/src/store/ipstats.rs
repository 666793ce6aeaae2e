//! Per-IP network statistics: time-windowed packet loss and volume.
//!
//! For every observed endpoint IP there are two rings of buckets, per second
//! and per minute, and all-time totals. Windows are sums over the last buckets.
use crate::model::addr::IpAddr;
use crate::model::packet::Flow5Tuple;
use crate::store::registry;
use crate::store::sipstats;
use crate::store::sipstats::ip_before;
use vstd::prelude::*;

verus! {

/// The windows of the loss figures, in seconds; zero stands for all time.
pub open spec fn window_secs(i: int) -> u64 {
    if i == 0 {
        1
    } else if i == 1 {
        5
    } else if i == 2 {
        10
    } else if i == 3 {
        20
    } else if i == 4 {
        60
    } else if i == 5 {
        600
    } else if i == 6 {
        3600
    } else {
        0
    }
}

pub open spec fn window_name(i: int) -> Seq<char> {
    if i == 0 {
        "1s"@
    } else if i == 1 {
        "5s"@
    } else if i == 2 {
        "10s"@
    } else if i == 3 {
        "20s"@
    } else if i == 4 {
        "1m"@
    } else if i == 5 {
        "10m"@
    } else if i == 6 {
        "1h"@
    } else {
        "all"@
    }
}

/// How many windows there are.
pub const WINDOW_COUNT: usize = 8;

/// A window: its length in seconds, and its name.
pub fn loss_window(i: usize) -> (r: (u64, &'static str))
    ensures
        r.0 == window_secs(i as int),
        r.1@ == window_name(i as int),
{
    match i {
        0 => (1, "1s"),
        1 => (5, "5s"),
        2 => (10, "10s"),
        3 => (20, "20s"),
        4 => (60, "1m"),
        5 => (600, "10m"),
        6 => (3600, "1h"),
        _ => (0, "all"),
    }
}

/// The window that follows one of `secs` seconds, going round.
pub open spec fn window_after(secs: u64) -> int {
    if secs == 1 {
        1
    } else if secs == 5 {
        2
    } else if secs == 10 {
        3
    } else if secs == 20 {
        4
    } else if secs == 60 {
        5
    } else if secs == 600 {
        6
    } else if secs == 3600 {
        7
    } else if secs == 0 {
        0
    } else {
        1
    }
}

pub fn next_loss_window(secs: u64) -> (r: usize)
    ensures
        r == window_after(secs),
        r < WINDOW_COUNT,
{
    match secs {
        1 => 1,
        5 => 2,
        10 => 3,
        20 => 4,
        60 => 5,
        600 => 6,
        3600 => 7,
        0 => 0,
        _ => 1,
    }
}


/// One-second buckets kept (10 minutes).
pub const SEC1_RETAIN: u64 = 600;

/// One-minute buckets kept (1 hour).
pub const SEC60_RETAIN: u64 = 60;

pub const SEC1_US: u64 = 1_000_000;

pub const SEC60_US: u64 = 60_000_000;

/// One fixed-width time bucket.
#[derive(Debug, Clone, Copy, PartialEq, Eq, Structural)]
pub struct Bucket {
    pub packets: u64,
    pub lost: u64,
    pub bytes: u64,
}

/// Which way a packet went, seen from the IP: sent or received.
#[derive(Debug, Clone, Copy, PartialEq, Eq, Structural)]
pub enum Dir {
    Tx,
    Rx,
}

pub open spec fn empty_bucket() -> Bucket {
    Bucket { packets: 0, lost: 0, bytes: 0 }
}

/// Packets, lost packets and bytes of a ring.
pub open spec fn ring_totals(r: Seq<(u64, Bucket)>) -> (nat, nat, nat)
    decreases r.len(),
{
    if r.len() == 0 {
        (0, 0, 0)
    } else {
        let t = ring_totals(r.drop_last());
        let b = r.last().1;
        (t.0 + b.packets as nat, t.1 + b.lost as nat, t.2 + b.bytes as nat)
    }
}

/// One bucket per number, without gaps, and no more than are kept.
pub open spec fn ring_wf(r: Seq<(u64, Bucket)>, retain: u64) -> bool {
    &&& r.len() <= retain
    &&& forall|i: int| 0 <= i < r.len() ==> (#[trigger] r[i]).0 == r[0].0 + i
}

/// The times at which the buckets of a ring begin can be told.
pub open spec fn keys_fit(r: Seq<(u64, Bucket)>, width: u64) -> bool {
    forall|i: int| 0 <= i < r.len() ==> (#[trigger] r[i]).0 * width <= u64::MAX
}

/// The ring moved on so that it ends at `key`, if it does not reach it yet.
/// Empty buckets fill the way; the oldest leave.
pub open spec fn moved_on(r: Seq<(u64, Bucket)>, key: u64, retain: u64) -> Seq<(u64, Bucket)> {
    if r.len() == 0 {
        seq![(key, empty_bucket())]
    } else if key > r.last().0 {
        let last = r.last().0;
        let long = r + Seq::new(
            (key - last) as nat,
            |i: int| ((last + 1 + i) as u64, empty_bucket()),
        );
        if long.len() > retain {
            long.skip(long.len() - retain)
        } else {
            long
        }
    } else {
        r
    }
}

/// Where a key counts: in its own bucket, or in the oldest if its own is gone.
pub open spec fn slot(r: Seq<(u64, Bucket)>, key: u64) -> int {
    if key >= r[0].0 {
        key - r[0].0
    } else {
        0
    }
}

pub open spec fn bucket_plus(b: Bucket, packets: u64, lost: u64, bytes: u64) -> Bucket {
    Bucket {
        packets: (b.packets + packets) as u64,
        lost: (b.lost + lost) as u64,
        bytes: (b.bytes + bytes) as u64,
    }
}

/// A ring after a count at time `ts`.
pub open spec fn ring_plus(
    r: Seq<(u64, Bucket)>,
    ts: u64,
    width: u64,
    retain: u64,
    packets: u64,
    lost: u64,
    bytes: u64,
) -> Seq<(u64, Bucket)> {
    let key = (ts / width) as u64;
    let m = moved_on(r, key, retain);
    let i = slot(m, key);
    m.update(i, (m[i].0, bucket_plus(m[i].1, packets, lost, bytes)))
}

// ----------------------------- ring facts -----------------------------

proof fn lemma_totals_push(r: Seq<(u64, Bucket)>, k: u64, b: Bucket)
    ensures
        ring_totals(r.push((k, b))) == (
            ring_totals(r).0 + b.packets as nat,
            ring_totals(r).1 + b.lost as nat,
            ring_totals(r).2 + b.bytes as nat,
        ),
{
    assert(r.push((k, b)).drop_last() =~= r);
}

pub proof fn lemma_totals_first(r: Seq<(u64, Bucket)>)
    requires
        r.len() > 0,
    ensures
        ring_totals(r) == (
            ring_totals(r.skip(1)).0 + r[0].1.packets as nat,
            ring_totals(r.skip(1)).1 + r[0].1.lost as nat,
            ring_totals(r.skip(1)).2 + r[0].1.bytes as nat,
        ),
    decreases r.len(),
{
    if r.len() == 1 {
        assert(r.drop_last() =~= Seq::<(u64, Bucket)>::empty());
        assert(r.skip(1) =~= Seq::<(u64, Bucket)>::empty());
    } else {
        lemma_totals_first(r.drop_last());
        assert(r.drop_last().skip(1) =~= r.skip(1).drop_last());
    }
}

proof fn lemma_totals_skip(r: Seq<(u64, Bucket)>, n: int)
    requires
        0 <= n <= r.len(),
    ensures
        ring_totals(r.skip(n)).0 <= ring_totals(r).0,
        ring_totals(r.skip(n)).1 <= ring_totals(r).1,
        ring_totals(r.skip(n)).2 <= ring_totals(r).2,
    decreases n,
{
    if n == 0 {
        assert(r.skip(0) =~= r);
    } else {
        lemma_totals_first(r);
        lemma_totals_skip(r.skip(1), n - 1);
        assert(r.skip(1).skip(n - 1) =~= r.skip(n));
    }
}

proof fn lemma_totals_element(r: Seq<(u64, Bucket)>, i: int)
    requires
        0 <= i < r.len(),
    ensures
        r[i].1.packets <= ring_totals(r).0,
        r[i].1.lost <= ring_totals(r).1,
        r[i].1.bytes <= ring_totals(r).2,
    decreases r.len(),
{
    if i < r.len() - 1 {
        lemma_totals_element(r.drop_last(), i);
    }
}

pub proof fn lemma_totals_update(r: Seq<(u64, Bucket)>, i: int, k: u64, b: Bucket)
    requires
        0 <= i < r.len(),
    ensures
        ring_totals(r.update(i, (k, b))).0 == ring_totals(r).0 - r[i].1.packets + b.packets,
        ring_totals(r.update(i, (k, b))).1 == ring_totals(r).1 - r[i].1.lost + b.lost,
        ring_totals(r.update(i, (k, b))).2 == ring_totals(r).2 - r[i].1.bytes + b.bytes,
    decreases r.len(),
{
    let u = r.update(i, (k, b));
    if i == r.len() - 1 {
        assert(u.drop_last() =~= r.drop_last());
    } else {
        lemma_totals_update(r.drop_last(), i, k, b);
        assert(u.drop_last() =~= r.drop_last().update(i, (k, b)));
    }
}

proof fn lemma_totals_zeros(r: Seq<(u64, Bucket)>, last: u64, n: nat)
    ensures
        ring_totals(r + Seq::new(n, |i: int| ((last + 1 + i) as u64, empty_bucket())))
            == ring_totals(r),
    decreases n,
{
    let z = Seq::new(n, |i: int| ((last + 1 + i) as u64, empty_bucket()));
    if n == 0 {
        assert(r + z =~= r);
    } else {
        lemma_totals_zeros(r, last, (n - 1) as nat);
        let y = Seq::new((n - 1) as nat, |i: int| ((last + 1 + i) as u64, empty_bucket()));
        assert((r + z).drop_last() =~= r + y);
    }
}

pub proof fn lemma_moved_on(r: Seq<(u64, Bucket)>, key: u64, retain: u64)
    requires
        ring_wf(r, retain),
        retain > 0,
    ensures
        ring_wf(moved_on(r, key, retain), retain),
        moved_on(r, key, retain).len() > 0,
        key <= moved_on(r, key, retain).last().0,
        0 <= slot(moved_on(r, key, retain), key) < moved_on(r, key, retain).len(),
        ring_totals(moved_on(r, key, retain)).0 <= ring_totals(r).0,
        ring_totals(moved_on(r, key, retain)).1 <= ring_totals(r).1,
        ring_totals(moved_on(r, key, retain)).2 <= ring_totals(r).2,
{
    if r.len() == 0 {
        lemma_totals_push(Seq::empty(), key, empty_bucket());
        assert(seq![(key, empty_bucket())] =~= Seq::<(u64, Bucket)>::empty().push(
            (key, empty_bucket()),
        ));
    } else if key > r.last().0 {
        let last = r.last().0;
        let n = (key - last) as nat;
        let long = r + Seq::new(n, |i: int| ((last + 1 + i) as u64, empty_bucket()));
        lemma_totals_zeros(r, last, n);
        assert forall|i: int| 0 <= i < long.len() implies (#[trigger] long[i]).0 == long[0].0 + i by {
            assert(long[0] == r[0]);
            assert(last == r[0].0 + r.len() - 1);
            if i < r.len() {
                assert(long[i] == r[i]);
            }
        }
        if long.len() > retain {
            let d = long.len() - retain;
            lemma_totals_skip(long, d);
            let s = long.skip(d);
            assert forall|i: int| 0 <= i < s.len() implies (#[trigger] s[i]).0 == s[0].0 + i by {
                assert(s[i] == long[i + d]);
                assert(s[0] == long[d]);
            }
            assert(s.last() == long.last());
        }
    }
}

/// A count at a time leaves the buckets at times that can be told.
proof fn lemma_keys_fit(
    r: Seq<(u64, Bucket)>,
    ts: u64,
    width: u64,
    retain: u64,
    packets: u64,
    lost: u64,
    bytes: u64,
)
    requires
        ring_wf(r, retain),
        retain > 0,
        width > 0,
        keys_fit(r, width),
    ensures
        keys_fit(ring_plus(r, ts, width, retain, packets, lost, bytes), width),
{
    let key = (ts / width) as u64;
    assert(key * width <= ts) by (nonlinear_arith)
        requires
            key == ts / width,
            width > 0,
    ;
    lemma_moved_on(r, key, retain);
    let m = moved_on(r, key, retain);
    let after = ring_plus(r, ts, width, retain, packets, lost, bytes);
    assert forall|i: int| 0 <= i < after.len() implies (#[trigger] after[i]).0 * width
        <= u64::MAX by {
        assert(after[i].0 == m[i].0);
        assert(m[i].0 <= m.last().0);
        if r.len() > 0 && key <= r.last().0 {
            assert(m[i] == r[i]);
        } else {
            assert(m.last().0 == key);
            assert(m[i].0 * width <= key * width) by (nonlinear_arith)
                requires
                    m[i].0 <= key,
            ;
        }
    }
}

fn move_on(ring: &mut Vec<(u64, Bucket)>, key: u64, retain: u64)
    requires
        ring_wf(old(ring)@, retain),
        0 < retain <= 1000,
    ensures
        final(ring)@ == moved_on(old(ring)@, key, retain),
{
    let none = Bucket { packets: 0, lost: 0, bytes: 0 };
    if ring.len() == 0 {
        ring.push((key, none));
        assert(ring@ =~= seq![(key, empty_bucket())]);
        return;
    }
    let last: u64 = ring[ring.len() - 1].0;
    if key <= last {
        return;
    }
    let ghost start = ring@;
    let ghost long = start + Seq::new(
        (key - last) as nat,
        |i: int| ((last + 1 + i) as u64, empty_bucket()),
    );
    let gap: u64 = key - last;
    if gap >= retain {
        ring.clear();
        let first: u64 = key - retain + 1;
        let mut k: u64 = 0;
        while k < retain
            invariant
                k <= retain,
                none == empty_bucket(),
                first == key - retain + 1,
                key >= retain,
                ring@.len() == k,
                forall|i: int|
                    0 <= i < k ==> #[trigger] ring@[i] == ((first + i) as u64, empty_bucket()),
            decreases retain - k,
        {
            ring.push((first + k, none));
            k += 1;
        }
        proof {
            assert(long.len() > retain);
            assert(ring@ =~= long.skip(long.len() - retain)) by {
                assert forall|i: int| 0 <= i < retain implies #[trigger] ring@[i] == long.skip(
                    long.len() - retain,
                )[i] by {}
            }
        }
        return;
    }
    let mut next: u64 = last;
    while next < key
        invariant
            last <= next <= key,
            none == empty_bucket(),
            start.len() > 0,
            ring@ == long.take(start.len() + (next - last)),
            long == start + Seq::new(
                (key - last) as nat,
                |i: int| ((last + 1 + i) as u64, empty_bucket()),
            ),
        decreases key - next,
    {
        next = next + 1;
        ring.push((next, none));
        assert(ring@ =~= long.take(start.len() + (next - last)));
    }
    assert(ring@ =~= long);
    while ring.len() as u64 > retain
        invariant
            ring@.len() <= long.len(),
            ring@ == long.skip(long.len() - ring@.len()),
            long.len() <= retain ==> ring@.len() == long.len(),
            long.len() > retain ==> ring@.len() >= retain,
        decreases ring@.len(),
    {
        let _oldest = ring.remove(0);
        assert(ring@ =~= long.skip(long.len() - ring@.len()));
    }
    assert(long.skip(0) =~= long);
}

/// Counts packets, lost packets and bytes at a time.
fn ring_count(
    ring: &mut Vec<(u64, Bucket)>,
    ts: u64,
    width: u64,
    retain: u64,
    packets: u64,
    lost: u64,
    bytes: u64,
)
    requires
        ring_wf(old(ring)@, retain),
        keys_fit(old(ring)@, width),
        0 < retain <= 1000,
        width > 0,
        ring_totals(old(ring)@).0 + packets <= u64::MAX,
        ring_totals(old(ring)@).1 + lost <= u64::MAX,
        ring_totals(old(ring)@).2 + bytes <= u64::MAX,
    ensures
        final(ring)@ == ring_plus(old(ring)@, ts, width, retain, packets, lost, bytes),
        ring_wf(final(ring)@, retain),
        keys_fit(final(ring)@, width),
        ring_totals(final(ring)@).0 <= ring_totals(old(ring)@).0 + packets,
        ring_totals(final(ring)@).1 <= ring_totals(old(ring)@).1 + lost,
        ring_totals(final(ring)@).2 <= ring_totals(old(ring)@).2 + bytes,
{
    let key: u64 = ts / width;
    proof {
        lemma_keys_fit(ring@, ts, width, retain, packets, lost, bytes);
        lemma_moved_on(ring@, key, retain);
    }
    move_on(ring, key, retain);
    let first: u64 = ring[0].0;
    let i: usize = if key >= first {
        (key - first) as usize
    } else {
        0
    };
    let b: Bucket = ring[i].1;
    let k: u64 = ring[i].0;
    proof {
        lemma_totals_element(ring@, i as int);
        lemma_totals_update(
            ring@,
            i as int,
            k,
            bucket_plus(b, packets, lost, bytes),
        );
    }
    ring.set(
        i,
        (
            k,
            Bucket {
                packets: b.packets + packets,
                lost: b.lost + lost,
                bytes: b.bytes + bytes,
            },
        ),
    );
}

/// Packets, lost packets and bytes of the last `n` buckets.
pub open spec fn last_totals(r: Seq<(u64, Bucket)>, n: int) -> (nat, nat, nat) {
    ring_totals(
        r.skip(
            if n < r.len() {
                r.len() - n
            } else {
                0
            },
        ),
    )
}

fn sum_ring(ring: &Vec<(u64, Bucket)>, n: u64) -> (r: (u64, u64, u64))
    requires
        ring_totals(ring@).0 <= u64::MAX,
        ring_totals(ring@).1 <= u64::MAX,
        ring_totals(ring@).2 <= u64::MAX,
    ensures
        (r.0 as nat, r.1 as nat, r.2 as nat) == last_totals(ring@, n as int),
{
    let start: usize = if n < ring.len() as u64 {
        ring.len() - n as usize
    } else {
        0
    };
    let mut t: (u64, u64, u64) = (0, 0, 0);
    let mut i: usize = start;
    let ghost s = ring@.skip(start as int);
    proof {
        lemma_totals_skip(ring@, start as int);
        assert(s.take(0) =~= Seq::<(u64, Bucket)>::empty());
    }
    while i < ring.len()
        invariant
            start <= i <= ring.len(),
            s == ring@.skip(start as int),
            (t.0 as nat, t.1 as nat, t.2 as nat) == ring_totals(s.take(i - start)),
            ring_totals(s).0 <= u64::MAX,
            ring_totals(s).1 <= u64::MAX,
            ring_totals(s).2 <= u64::MAX,
        decreases ring.len() - i,
    {
        let b: Bucket = ring[i].1;
        proof {
            let u = s.take(i - start + 1);
            assert(u.drop_last() =~= s.take(i - start));
            assert(u.last() == ring@[i as int]);
            lemma_totals_take(s, i - start + 1);
        }
        t = (t.0 + b.packets, t.1 + b.lost, t.2 + b.bytes);
        i += 1;
    }
    assert(s.take(i - start) =~= s);
    t
}

proof fn lemma_totals_take(r: Seq<(u64, Bucket)>, n: int)
    requires
        0 <= n <= r.len(),
    ensures
        ring_totals(r.take(n)).0 <= ring_totals(r).0,
        ring_totals(r.take(n)).1 <= ring_totals(r).1,
        ring_totals(r.take(n)).2 <= ring_totals(r).2,
    decreases r.len(),
{
    if n == r.len() {
        assert(r.take(n) =~= r);
    } else {
        lemma_totals_take(r.drop_last(), n);
        assert(r.drop_last().take(n) =~= r.take(n));
    }
}

// ----------------------------- one IP -----------------------------

pub struct IpStats {
    pub ip: IpAddr,
    /// Concurrent calls involving this IP.
    pub active_calls: u32,
    pub pkts_total: u64,
    pub lost_total: u64,
    pub bytes_total: u64,
    pub first_seen_us: Option<u64>,
    pub last_seen_us: Option<u64>,
    /// Of the totals, what this IP is known to have sent.
    pub tx: Bucket,
    /// Of the totals, what this IP is known to have received.
    pub rx: Bucket,
    /// 1s buckets, oldest first.
    pub sec1: Vec<(u64, Bucket)>,
    /// 1m buckets, oldest first.
    pub sec60: Vec<(u64, Bucket)>,
}

/// The statistics of an IP by their contents.
pub struct IpView {
    pub ip: IpAddr,
    pub active_calls: u32,
    pub pkts_total: u64,
    pub lost_total: u64,
    pub bytes_total: u64,
    pub first_seen_us: Option<u64>,
    pub last_seen_us: Option<u64>,
    pub tx: Bucket,
    pub rx: Bucket,
    pub sec1: Seq<(u64, Bucket)>,
    pub sec60: Seq<(u64, Bucket)>,
}

impl IpView {
    pub open spec fn fresh(ip: IpAddr) -> IpView {
        IpView {
            ip,
            active_calls: 0,
            pkts_total: 0,
            lost_total: 0,
            bytes_total: 0,
            first_seen_us: None,
            last_seen_us: None,
            tx: empty_bucket(),
            rx: empty_bucket(),
            sec1: Seq::empty(),
            sec60: Seq::empty(),
        }
    }

    /// Rings in order, and none of them holds more than the totals.
    pub open spec fn wf(self) -> bool {
        &&& ring_wf(self.sec1, SEC1_RETAIN)
        &&& ring_wf(self.sec60, SEC60_RETAIN)
        &&& keys_fit(self.sec1, SEC1_US)
        &&& keys_fit(self.sec60, SEC60_US)
        &&& ring_totals(self.sec1).0 <= self.pkts_total
        &&& ring_totals(self.sec1).1 <= self.lost_total
        &&& ring_totals(self.sec1).2 <= self.bytes_total
        &&& ring_totals(self.sec60).0 <= self.pkts_total
        &&& ring_totals(self.sec60).1 <= self.lost_total
        &&& ring_totals(self.sec60).2 <= self.bytes_total
        &&& self.tx.packets + self.rx.packets <= self.pkts_total
        &&& self.tx.lost + self.rx.lost <= self.lost_total
        &&& self.tx.bytes + self.rx.bytes <= self.bytes_total
    }

    pub open spec fn counted(self, ts: u64, packets: u64, lost: u64, bytes: u64) -> IpView {
        IpView {
            pkts_total: (self.pkts_total + packets) as u64,
            lost_total: (self.lost_total + lost) as u64,
            bytes_total: (self.bytes_total + bytes) as u64,
            sec1: ring_plus(self.sec1, ts, SEC1_US, SEC1_RETAIN, packets, lost, bytes),
            sec60: ring_plus(self.sec60, ts, SEC60_US, SEC60_RETAIN, packets, lost, bytes),
            ..self
        }
    }

    /// Counts for one direction, beside the totals.
    pub open spec fn directed(self, dir: Dir, packets: u64, lost: u64, bytes: u64) -> IpView {
        match dir {
            Dir::Tx => IpView { tx: bucket_plus(self.tx, packets, lost, bytes), ..self },
            Dir::Rx => IpView { rx: bucket_plus(self.rx, packets, lost, bytes), ..self },
        }
    }

    pub open spec fn seen(self, ts: u64) -> IpView {
        IpView {
            first_seen_us: if self.first_seen_us is Some {
                self.first_seen_us
            } else {
                Some(ts)
            },
            last_seen_us: Some(ts),
            ..self
        }
    }

    /// After `packets` packets of `bytes` bytes in one direction.
    pub open spec fn with_packets(self, ts: u64, packets: u64, bytes: u64, dir: Dir) -> IpView {
        self.counted(ts, packets, 0, bytes).directed(dir, packets, 0, bytes).seen(ts)
    }

    /// After the loss of packets in one direction.
    pub open spec fn with_lost_on(self, ts: u64, lost: u64, dir: Dir) -> IpView {
        if lost == 0 {
            self
        } else {
            self.with_lost(ts, lost).directed(dir, 0, lost, 0)
        }
    }

    /// After a packet of `len` bytes.
    pub open spec fn with_packet(self, ts: u64, len: usize) -> IpView {
        self.counted(ts, 1, 0, len as u64).seen(ts)
    }

    /// After the loss of packets.
    pub open spec fn with_lost(self, ts: u64, lost: u64) -> IpView {
        if lost == 0 {
            self
        } else {
            IpView {
                last_seen_us: if self.last_seen_us is Some {
                    self.last_seen_us
                } else {
                    Some(ts)
                },
                ..self.counted(ts, 0, lost, 0)
            }
        }
    }

    /// More or fewer concurrent calls, within the range of the counter.
    pub open spec fn with_active(self, delta: i32) -> IpView {
        let n = self.active_calls + delta;
        IpView {
            active_calls: if n < 0 {
                0
            } else if n > u32::MAX {
                u32::MAX
            } else {
                n as u32
            },
            ..self
        }
    }

    /// Packets, lost packets and bytes in the last `secs` seconds; zero means
    /// since the beginning. Up to ten minutes in buckets of a second, beyond in
    /// buckets of a minute, rounded up.
    pub open spec fn in_window(self, secs: u64) -> (nat, nat, nat) {
        if secs == 0 {
            (self.pkts_total as nat, self.lost_total as nat, self.bytes_total as nat)
        } else if secs <= SEC1_RETAIN {
            last_totals(self.sec1, secs as int)
        } else {
            last_totals(self.sec60, (secs + 59) / 60)
        }
    }
}

impl View for IpStats {
    type V = IpView;

    open spec fn view(&self) -> IpView {
        IpView {
            ip: self.ip,
            active_calls: self.active_calls,
            pkts_total: self.pkts_total,
            lost_total: self.lost_total,
            bytes_total: self.bytes_total,
            first_seen_us: self.first_seen_us,
            last_seen_us: self.last_seen_us,
            tx: self.tx,
            rx: self.rx,
            sec1: self.sec1@,
            sec60: self.sec60@,
        }
    }
}

fn copy_ring(r: &Vec<(u64, Bucket)>) -> (c: Vec<(u64, Bucket)>)
    ensures
        c@ == r@,
{
    let mut out: Vec<(u64, Bucket)> = Vec::new();
    let mut i: usize = 0;
    while i < r.len()
        invariant
            i <= r.len(),
            out@ == r@.take(i as int),
        decreases r.len() - i,
    {
        out.push(r[i]);
        i += 1;
        assert(out@ =~= r@.take(i as int));
    }
    assert(out@ =~= r@);
    out
}

/// Loss by column: the buckets of the first `n` of the ring in groups of
/// `group` keys; each column has the group's number, packets and lost packets.
pub open spec fn columns(r: Seq<(u64, Bucket)>, group: u64, n: nat) -> Seq<(u64, nat, nat)>
    decreases n,
{
    if n == 0 {
        Seq::empty()
    } else {
        let c = columns(r, group, (n - 1) as nat);
        let (k, b) = r[n - 1];
        let g = (k / group) as u64;
        if c.len() > 0 && c.last().0 == g {
            c.update(
                c.len() - 1,
                (g, c.last().1 + b.packets as nat, c.last().2 + b.lost as nat),
            )
        } else {
            c.push((g, b.packets as nat, b.lost as nat))
        }
    }
}

/// How many buckets lie in a window of so many seconds.
pub open spec fn heat_buckets(window_secs: u64, cols: u64) -> u64 {
    if window_secs == 0 {
        cols
    } else if window_secs <= SEC1_RETAIN {
        window_secs
    } else {
        ((window_secs + 59) / 60) as u64
    }
}

/// How many buckets make a column, so that the columns reach over the window.
pub open spec fn heat_group(window_secs: u64, cols: u64) -> u64 {
    ((heat_buckets(window_secs, cols) - 1) / cols as int + 1) as u64
}

/// The width of a column in microseconds.
pub open spec fn heat_width(window_secs: u64, cols: u64) -> int {
    heat_group(window_secs, cols) * (if window_secs <= SEC1_RETAIN {
        SEC1_US
    } else {
        SEC60_US
    })
}

impl IpView {
    /// The buckets of a window, the latest last.
    pub open spec fn heat_ring(self, window_secs: u64, cols: u64) -> Seq<(u64, Bucket)> {
        registry::last_n(
            if window_secs <= SEC1_RETAIN {
                self.sec1
            } else {
                self.sec60
            },
            heat_buckets(window_secs, cols) as int,
        )
    }

    /// All columns that a window touches.
    pub open spec fn all_columns(self, window_secs: u64, cols: u64) -> Seq<(u64, nat, nat)> {
        let ring = self.heat_ring(window_secs, cols);
        columns(ring, heat_group(window_secs, cols), ring.len())
    }

    /// The columns of a window, as many as are wanted. Columns begin at multiples of their
    /// width, so the oldest may lie in the window only in part; where there is one too
    /// many, it is left out.
    pub open spec fn heat_columns(self, window_secs: u64, cols: u64) -> Seq<(u64, nat, nat)> {
        registry::last_n(self.all_columns(window_secs, cols), cols as int)
    }
}

impl IpStats {
    fn fresh(ip: IpAddr) -> (r: IpStats)
        ensures
            r@ == IpView::fresh(ip),
            r@.wf(),
    {
        IpStats {
            ip,
            active_calls: 0,
            pkts_total: 0,
            lost_total: 0,
            bytes_total: 0,
            first_seen_us: None,
            last_seen_us: None,
            tx: Bucket { packets: 0, lost: 0, bytes: 0 },
            rx: Bucket { packets: 0, lost: 0, bytes: 0 },
            sec1: Vec::new(),
            sec60: Vec::new(),
        }
    }

    pub fn copy(&self) -> (r: IpStats)
        ensures
            r@ == self@,
    {
        IpStats {
            ip: self.ip,
            active_calls: self.active_calls,
            pkts_total: self.pkts_total,
            lost_total: self.lost_total,
            bytes_total: self.bytes_total,
            first_seen_us: self.first_seen_us,
            last_seen_us: self.last_seen_us,
            tx: self.tx,
            rx: self.rx,
            sec1: copy_ring(&self.sec1),
            sec60: copy_ring(&self.sec60),
        }
    }

    fn count(&mut self, ts: u64, packets: u64, lost: u64, bytes: u64)
        requires
            old(self)@.wf(),
            old(self)@.pkts_total + packets <= u64::MAX,
            old(self)@.lost_total + lost <= u64::MAX,
            old(self)@.bytes_total + bytes <= u64::MAX,
        ensures
            final(self)@ == old(self)@.counted(ts, packets, lost, bytes),
            final(self)@.wf(),
    {
        self.pkts_total = self.pkts_total + packets;
        self.lost_total = self.lost_total + lost;
        self.bytes_total = self.bytes_total + bytes;
        ring_count(&mut self.sec1, ts, SEC1_US, SEC1_RETAIN, packets, lost, bytes);
        ring_count(&mut self.sec60, ts, SEC60_US, SEC60_RETAIN, packets, lost, bytes);
    }

    fn bump(&mut self, dir: Dir, packets: u64, lost: u64, bytes: u64)
        requires
            old(self)@.wf(),
            match dir {
                Dir::Tx => old(self)@.directed(dir, packets, lost, bytes).wf() && old(
                    self,
                ).tx.packets + packets <= u64::MAX && old(self).tx.lost + lost <= u64::MAX && old(
                    self,
                ).tx.bytes + bytes <= u64::MAX,
                Dir::Rx => old(self)@.directed(dir, packets, lost, bytes).wf() && old(
                    self,
                ).rx.packets + packets <= u64::MAX && old(self).rx.lost + lost <= u64::MAX && old(
                    self,
                ).rx.bytes + bytes <= u64::MAX,
            },
        ensures
            final(self)@ == old(self)@.directed(dir, packets, lost, bytes),
            final(self)@.wf(),
    {
        match dir {
            Dir::Tx => {
                self.tx = Bucket {
                    packets: self.tx.packets + packets,
                    lost: self.tx.lost + lost,
                    bytes: self.tx.bytes + bytes,
                };
            },
            Dir::Rx => {
                self.rx = Bucket {
                    packets: self.rx.packets + packets,
                    lost: self.rx.lost + lost,
                    bytes: self.rx.bytes + bytes,
                };
            },
        }
    }

    fn add_packets(&mut self, ts_us: u64, packets: u64, bytes: u64, dir: Dir)
        requires
            old(self)@.wf(),
            old(self)@.pkts_total + packets <= u64::MAX,
            old(self)@.bytes_total + bytes <= u64::MAX,
        ensures
            final(self)@ == old(self)@.with_packets(ts_us, packets, bytes, dir),
            final(self)@.wf(),
    {
        self.count(ts_us, packets, 0, bytes);
        self.bump(dir, packets, 0, bytes);
        if self.first_seen_us.is_none() {
            self.first_seen_us = Some(ts_us);
        }
        self.last_seen_us = Some(ts_us);
    }

    fn add_lost_on(&mut self, ts_us: u64, lost: u64, dir: Dir)
        requires
            old(self)@.wf(),
            old(self)@.lost_total + lost <= u64::MAX,
        ensures
            final(self)@ == old(self)@.with_lost_on(ts_us, lost, dir),
            final(self)@.wf(),
    {
        if lost == 0 {
            return;
        }
        self.add_lost(ts_us, lost);
        self.bump(dir, 0, lost, 0);
    }

    fn add_packet(&mut self, ts_us: u64, len: usize)
        requires
            old(self)@.wf(),
            old(self)@.pkts_total < u64::MAX,
            old(self)@.bytes_total + len <= u64::MAX,
        ensures
            final(self)@ == old(self)@.with_packet(ts_us, len),
            final(self)@.wf(),
    {
        self.count(ts_us, 1, 0, len as u64);
        if self.first_seen_us.is_none() {
            self.first_seen_us = Some(ts_us);
        }
        self.last_seen_us = Some(ts_us);
    }

    fn add_lost(&mut self, ts_us: u64, lost: u64)
        requires
            old(self)@.wf(),
            old(self)@.lost_total + lost <= u64::MAX,
        ensures
            final(self)@ == old(self)@.with_lost(ts_us, lost),
            final(self)@.wf(),
    {
        if lost == 0 {
            return;
        }
        self.count(ts_us, 0, lost, 0);
        if self.last_seen_us.is_none() {
            self.last_seen_us = Some(ts_us);
        }
    }

    fn active_add(&mut self, delta: i32)
        requires
            old(self)@.wf(),
        ensures
            final(self)@ == old(self)@.with_active(delta),
            final(self)@.wf(),
    {
        let n: i64 = self.active_calls as i64 + delta as i64;
        self.active_calls = if n < 0 {
            0
        } else if n > u32::MAX as i64 {
            u32::MAX
        } else {
            n as u32
        };
    }

    fn totals(&self, window_secs: u64) -> (r: (u64, u64, u64))
        requires
            self@.wf(),
        ensures
            (r.0 as nat, r.1 as nat, r.2 as nat) == self@.in_window(window_secs),
    {
        if window_secs == 0 {
            return (self.pkts_total, self.lost_total, self.bytes_total);
        }
        if window_secs <= SEC1_RETAIN {
            return sum_ring(&self.sec1, window_secs);
        }
        let minutes: u64 = if window_secs % 60 == 0 {
            window_secs / 60
        } else {
            window_secs / 60 + 1
        };
        sum_ring(&self.sec60, minutes)
    }

    /// (packets, lost) over the last `window_secs` (0 = all-time).
    pub fn window(&self, window_secs: u64) -> (r: (u64, u64))
        requires
            self@.wf(),
        ensures
            r.0 == self@.in_window(window_secs).0,
            r.1 == self@.in_window(window_secs).1,
    {
        let t = self.totals(window_secs);
        (t.0, t.1)
    }

    pub fn pkts_in(&self, window_secs: u64) -> (r: u64)
        requires
            self@.wf(),
        ensures
            r == self@.in_window(window_secs).0,
    {
        self.totals(window_secs).0
    }

    pub fn bytes_in(&self, window_secs: u64) -> (r: u64)
        requires
            self@.wf(),
        ensures
            r == self@.in_window(window_secs).2,
    {
        self.totals(window_secs).2
    }

    /// Column series for the heatmap: up to `cols` columns over the last `window_secs`,
    /// each with its start, packets and lost packets. Windows of up to ten minutes are
    /// read from the seconds, longer ones from the minutes. For all time (zero) the
    /// columns are the latest seconds.
    pub fn heatmap_columns(&self, window_secs: u64, cols: u64) -> (r: Vec<(u64, u64, u64)>)
        requires
            self@.wf(),
            cols > 0,
        ensures
            ({
                let c = self@.heat_columns(window_secs, cols);
                let width = heat_width(window_secs, cols);
                &&& r@.len() == c.len()
                &&& c.len() <= cols
                &&& forall|i: int|
                    0 <= i < c.len() ==> {
                        &&& (#[trigger] r@[i]).0 == c[i].0 * width
                        &&& r@[i].1 == c[i].1
                        &&& r@[i].2 == c[i].2
                    }
            }),
    {
        let short: bool = window_secs <= SEC1_RETAIN;
        let n: u64 = if window_secs == 0 {
            cols
        } else if short {
            window_secs
        } else if window_secs % 60 == 0 {
            window_secs / 60
        } else {
            window_secs / 60 + 1
        };
        assert(n == heat_buckets(window_secs, cols));
        let group: u64 = (n - 1) / cols + 1;
        let all = if short {
            group_columns(&last_buckets(&self.sec1, n), group, SEC1_US)
        } else {
            group_columns(&last_buckets(&self.sec60, n), group, SEC60_US)
        };
        let ghost width = if short {
            SEC1_US
        } else {
            SEC60_US
        };
        proof {
            assert forall|k: int| #![trigger all@[k]] 0 <= k < all@.len() implies all@[k].0
                == self@.all_columns(window_secs, cols)[k].0 * heat_width(window_secs, cols) by {
                let g = self@.all_columns(window_secs, cols)[k].0;
                assert(g * group * width == g * (group * width)) by (nonlinear_arith);
            }
        }
        let from: usize = if all.len() as u64 > cols {
            all.len() - cols as usize
        } else {
            0
        };
        let mut out: Vec<(u64, u64, u64)> = Vec::new();
        let mut i: usize = from;
        while i < all.len()
            invariant
                from <= i <= all.len(),
                out@ == all@.subrange(from as int, i as int),
            decreases all.len() - i,
        {
            out.push(all[i]);
            i += 1;
            assert(out@ =~= all@.subrange(from as int, i as int));
        }
        proof {
            let c = self@.heat_columns(window_secs, cols);
            let every = self@.all_columns(window_secs, cols);
            assert forall|k: int| 0 <= k < c.len() implies {
                &&& (#[trigger] out@[k]).0 == c[k].0 * heat_width(window_secs, cols)
                &&& out@[k].1 == c[k].1
                &&& out@[k].2 == c[k].2
            } by {
                assert(out@[k] == all@[k + from]);
                assert(c[k] == every[k + from]);
            }
        }
        out
    }
}

/// The last `n` buckets of a ring.
fn last_buckets(ring: &Vec<(u64, Bucket)>, n: u64) -> (r: Vec<(u64, Bucket)>)
    ensures
        r@ == registry::last_n(ring@, n as int),
        forall|w: u64| keys_fit(ring@, w) ==> #[trigger] keys_fit(r@, w),
        ring_totals(r@).0 <= ring_totals(ring@).0,
        ring_totals(r@).1 <= ring_totals(ring@).1,
{
    let start: usize = if n < ring.len() as u64 {
        ring.len() - n as usize
    } else {
        0
    };
    let mut out: Vec<(u64, Bucket)> = Vec::new();
    let mut i: usize = start;
    while i < ring.len()
        invariant
            start <= i <= ring.len(),
            out@ == ring@.subrange(start as int, i as int),
        decreases ring.len() - i,
    {
        out.push(ring[i]);
        i += 1;
        assert(out@ =~= ring@.subrange(start as int, i as int));
    }
    proof {
        assert(out@ =~= ring@.skip(start as int));
        assert(out@ =~= registry::last_n(ring@, n as int));
        lemma_totals_skip(ring@, start as int);
    }
    out
}

proof fn lemma_columns(r: Seq<(u64, Bucket)>, group: u64, n: nat)
    requires
        n <= r.len(),
        group > 0,
    ensures
        n > 0 ==> columns(r, group, n).len() > 0,
        forall|i: int|
            0 <= i < columns(r, group, n).len() ==> {
                &&& (#[trigger] columns(r, group, n)[i]).1 <= ring_totals(r.take(n as int)).0
                &&& columns(r, group, n)[i].2 <= ring_totals(r.take(n as int)).1
                &&& exists|j: int| 0 <= j < n && columns(r, group, n)[i].0 == r[j].0 / group
            },
    decreases n,
{
    if n > 0 {
        lemma_columns(r, group, (n - 1) as nat);
        let t = r.take(n as int);
        assert(t.drop_last() =~= r.take(n - 1));
        assert(t.last() == r[n - 1]);
        let c = columns(r, group, (n - 1) as nat);
        let d = columns(r, group, n);
        assert forall|i: int| 0 <= i < d.len() implies {
            &&& (#[trigger] d[i]).1 <= ring_totals(t).0
            &&& d[i].2 <= ring_totals(t).1
            &&& exists|j: int| 0 <= j < n && d[i].0 == r[j].0 / group
        } by {
            if i < c.len() {
                let _ = c[i].1;
                if i < d.len() - 1 || d.len() > c.len() {
                    assert(d[i] == c[i]);
                    let j = choose|j: int| 0 <= j < n - 1 && c[i].0 == r[j].0 / group;
                    assert(0 <= j < n && d[i].0 == r[j].0 / group);
                } else {
                    assert(d[i].0 == r[n - 1].0 / group);
                }
            } else {
                assert(d[i].0 == r[n - 1].0 / group);
            }
        }
    }
}

fn group_columns(ring: &Vec<(u64, Bucket)>, group: u64, width: u64) -> (r: Vec<(u64, u64, u64)>)
    requires
        group > 0,
        width > 0,
        ring_totals(ring@).0 <= u64::MAX,
        ring_totals(ring@).1 <= u64::MAX,
        keys_fit(ring@, width),
    ensures
        ({
            let c = columns(ring@, group, ring@.len());
            &&& r@.len() == c.len()
            &&& forall|i: int|
                0 <= i < c.len() ==> {
                    &&& (#[trigger] r@[i]).0 == c[i].0 * group * width
                    &&& r@[i].1 == c[i].1
                    &&& r@[i].2 == c[i].2
                }
        }),
{
    let mut out: Vec<(u64, u64, u64)> = Vec::new();
    let mut i: usize = 0;
    while i < ring.len()
        invariant
            i <= ring.len(),
            group > 0,
            ring_totals(ring@).0 <= u64::MAX,
            ring_totals(ring@).1 <= u64::MAX,
            out@.len() == columns(ring@, group, i as nat).len(),
            forall|k: int|
                0 <= k < out@.len() ==> {
                    let c = columns(ring@, group, i as nat)[k];
                    &&& (#[trigger] out@[k]).0 == c.0
                    &&& out@[k].1 == c.1
                    &&& out@[k].2 == c.2
                },
        decreases ring.len() - i,
    {
        let (k, b) = ring[i];
        let g: u64 = k / group;
        let n: usize = out.len();
        proof {
            lemma_columns(ring@, group, (i + 1) as nat);
            lemma_totals_take(ring@, i + 1);
            let d = columns(ring@, group, (i + 1) as nat);
            assert(d[d.len() - 1].1 <= u64::MAX);
            assert(d[d.len() - 1].2 <= u64::MAX);
        }
        if n > 0 && out[n - 1].0 == g {
            let e: (u64, u64, u64) = out[n - 1];
            out.set(n - 1, (g, e.1 + b.packets, e.2 + b.lost));
        } else {
            out.push((g, b.packets, b.lost));
        }
        i += 1;
    }
    let ghost c = columns(ring@, group, ring@.len());
    proof {
        lemma_columns(ring@, group, ring@.len());
    }
    let mut j: usize = 0;
    while j < out.len()
        invariant
            j <= out.len(),
            out@.len() == c.len(),
            group > 0,
            width > 0,
            forall|k: int|
                0 <= k < c.len() ==> exists|m: int|
                    0 <= m < ring@.len() && (#[trigger] c[k]).0 == ring@[m].0 / group,
            forall|k: int| 0 <= k < ring@.len() ==> (#[trigger] ring@[k]).0 * width <= u64::MAX,
            forall|k: int|
                0 <= k < out@.len() ==> {
                    &&& (#[trigger] out@[k]).0 == if k < j {
                        c[k].0 * group * width
                    } else {
                        c[k].0 as int
                    }
                    &&& out@[k].1 == c[k].1
                    &&& out@[k].2 == c[k].2
                },
        decreases out.len() - j,
    {
        let e: (u64, u64, u64) = out[j];
        proof {
            let cj = c[j as int];
            let m = choose|m: int| 0 <= m < ring@.len() && c[j as int].0 == ring@[m].0 / group;
            let k = ring@[m].0;
            assert(e.0 == k / group);
            vstd::arithmetic::div_mod::lemma_fundamental_div_mod(k as int, group as int);
            assert(e.0 * group <= k) by (nonlinear_arith)
                requires
                    e.0 == k / group,
                    group > 0,
                    k as int == group as int * (k as int / group as int) + k as int % group as int,
                    k as int % group as int >= 0,
            ;
            assert(e.0 * group * width <= k * width) by (nonlinear_arith)
                requires
                    e.0 * group <= k,
                    width > 0,
            ;
        }
        out.set(j, (e.0 * group * width, e.1, e.2));
        j += 1;
    }
    out
}

/// No window holds more than the totals.
pub proof fn law_window_within_totals(v: IpView, secs: u64)
    requires
        v.wf(),
    ensures
        v.in_window(secs).0 <= v.pkts_total,
        v.in_window(secs).1 <= v.lost_total,
        v.in_window(secs).2 <= v.bytes_total,
{
    let minutes = (secs + 59) / 60;
    lemma_totals_skip(
        v.sec1,
        if secs < v.sec1.len() {
            v.sec1.len() - secs
        } else {
            0
        },
    );
    lemma_totals_skip(
        v.sec60,
        if minutes < v.sec60.len() {
            v.sec60.len() - minutes
        } else {
            0
        },
    );
}

proof fn lemma_column_numbers(r: Seq<(u64, Bucket)>, group: u64, n: nat)
    requires
        0 < n <= r.len(),
        group > 0,
        forall|i: int| 0 <= i < r.len() ==> (#[trigger] r[i]).0 == r[0].0 + i,
    ensures
        columns(r, group, n).len() > 0,
        columns(r, group, n).last().0 == r[n - 1].0 / group,
        columns(r, group, n).len() <= r[n - 1].0 / group - r[0].0 / group + 1,
    decreases n,
{
    if n > 1 {
        lemma_column_numbers(r, group, (n - 1) as nat);
        let a = r[n - 2].0 as int;
        let b = r[n - 1].0 as int;
        assert(b == a + 1);
        assert(a / group as int <= b / group as int) by (nonlinear_arith)
            requires
                b == a + 1,
                a >= 0,
                group > 0,
        ;
    } else {
        assert(columns(r, group, 0).len() == 0);
    }
}

/// The columns reach over the whole window but for one at most, the oldest, which then
/// lies in it only in part.
pub proof fn law_columns_cover_window(v: IpView, window_secs: u64, cols: u64)
    requires
        v.wf(),
        cols > 0,
    ensures
        v.heat_columns(window_secs, cols).len() <= cols,
        v.all_columns(window_secs, cols).len() <= cols + 1,
{
    let ring = v.heat_ring(window_secs, cols);
    let n = heat_buckets(window_secs, cols) as int;
    let group = heat_group(window_secs, cols);
    let c = cols as int;
    assert((n - 1) / c <= n - 1) by (nonlinear_arith)
        requires
            n >= 1,
            c >= 1,
    ;
    assert((n - 1) / c >= 0) by (nonlinear_arith)
        requires
            n >= 1,
            c >= 1,
    ;
    assert(group == (n - 1) / c + 1);
    let source = if window_secs <= SEC1_RETAIN {
        v.sec1
    } else {
        v.sec60
    };
    if ring.len() > 0 {
        let d = source.len() - ring.len();
        assert forall|i: int| 0 <= i < ring.len() implies (#[trigger] ring[i]).0 == ring[0].0 + i by {
            assert(ring[i] == source[i + d]);
            assert(ring[0] == source[d]);
        }
        lemma_column_numbers(ring, group, ring.len());
        let a = ring[0].0 as int;
        let b = ring.last().0 as int;
        let g = group as int;
        assert(b == a + ring.len() - 1);
        assert(b - a <= n - 1);
        assert(g * c >= n) by (nonlinear_arith)
            requires
                g == (n - 1) / c + 1,
                c >= 1,
                n >= 1,
        ;
        assert(b / g - a / g <= c) by (nonlinear_arith)
            requires
                0 <= a <= b,
                b - a <= n - 1,
                g * c >= n,
                g >= 1,
        ;
    }
}

/// A call that begins and ends leaves the number of concurrent calls as it was.
pub proof fn law_active_balanced(v: IpView)
    requires
        v.active_calls < u32::MAX,
    ensures
        v.with_active(1).with_active((-1) as i32) == v,
{
}

// ----------------------------- all IPs -----------------------------

/// All the per-IP stats, ordered by IP.
pub struct IpStatsStore {
    ips: Vec<IpStats>,
}

/// What is known of an IP; nothing, if it has not been seen.
pub open spec fn entry_of(m: Map<IpAddr, IpView>, ip: IpAddr) -> IpView {
    if m.contains_key(ip) {
        m[ip]
    } else {
        IpView::fresh(ip)
    }
}

pub open spec fn ip_packets(
    m: Map<IpAddr, IpView>,
    ip: IpAddr,
    ts: u64,
    packets: u64,
    bytes: u64,
    dir: Dir,
) -> Map<IpAddr, IpView> {
    m.insert(ip, entry_of(m, ip).with_packets(ts, packets, bytes, dir))
}

pub open spec fn ip_lost(
    m: Map<IpAddr, IpView>,
    ip: IpAddr,
    ts: u64,
    lost: u64,
    dir: Dir,
) -> Map<IpAddr, IpView> {
    m.insert(ip, entry_of(m, ip).with_lost_on(ts, lost, dir))
}

/// Packets of a flow count for the sender and for the receiver.
pub open spec fn flow_packets(
    m: Map<IpAddr, IpView>,
    flow: Flow5Tuple,
    ts: u64,
    packets: u64,
    bytes: u64,
) -> Map<IpAddr, IpView> {
    ip_packets(
        ip_packets(m, flow.src.ip, ts, packets, bytes, Dir::Tx),
        flow.dst.ip,
        ts,
        packets,
        bytes,
        Dir::Rx,
    )
}

/// So do its lost packets.
pub open spec fn flow_lost(
    m: Map<IpAddr, IpView>,
    flow: Flow5Tuple,
    ts: u64,
    lost: u64,
) -> Map<IpAddr, IpView> {
    ip_lost(ip_lost(m, flow.src.ip, ts, lost, Dir::Tx), flow.dst.ip, ts, lost, Dir::Rx)
}

/// Both ends of a flow have room in their counters.
pub open spec fn flow_room(
    m: Map<IpAddr, IpView>,
    flow: Flow5Tuple,
    packets: int,
    lost: int,
    bytes: int,
) -> bool {
    &&& ip_room(entry_of(m, flow.src.ip), packets, lost, bytes)
    &&& ip_room(entry_of(m, flow.dst.ip), packets, lost, bytes)
}

/// Every IP can count `n` more losses.
pub open spec fn loss_room(m: Map<IpAddr, IpView>, n: int) -> bool {
    forall|ip: IpAddr| #[trigger] m.contains_key(ip) ==> m[ip].lost_total + n <= u64::MAX
}

/// Room for twice as much: both ends of a flow may be one IP.
pub open spec fn ip_room(v: IpView, packets: int, lost: int, bytes: int) -> bool {
    &&& v.pkts_total + 2 * packets <= u64::MAX
    &&& v.lost_total + 2 * lost <= u64::MAX
    &&& v.bytes_total + 2 * bytes <= u64::MAX
}

impl View for IpStatsStore {
    type V = Map<IpAddr, IpView>;

    closed spec fn view(&self) -> Map<IpAddr, IpView> {
        Map::new(|ip: IpAddr| self.of(ip) is Some, |ip: IpAddr| self.of(ip)->Some_0)
    }
}

impl IpStatsStore {
    spec fn at(self, i: int, ip: IpAddr) -> bool {
        0 <= i < self.ips@.len() && self.ips@[i]@.ip == ip
    }

    spec fn of(self, ip: IpAddr) -> Option<IpView> {
        if exists|i: int| self.at(i, ip) {
            Some(self.ips@[choose|i: int| self.at(i, ip)]@)
        } else {
            None
        }
    }

    /// Every IP once, in ascending order, all in good order.
    pub closed spec fn wf(self) -> bool {
        &&& forall|i: int| 0 <= i < self.ips@.len() ==> (#[trigger] self.ips@[i])@.wf()
        &&& forall|i: int, j: int|
            0 <= i < j < self.ips@.len() ==> sipstats::ip_less(
                (#[trigger] self.ips@[i])@.ip,
                (#[trigger] self.ips@[j])@.ip,
            )
    }

    proof fn lemma_at(self, i: int, ip: IpAddr)
        requires
            self.wf(),
            self.at(i, ip),
        ensures
            self.of(ip) == Some(self.ips@[i]@),
            self.of(ip)->Some_0.wf(),
    {
        let j = choose|j: int| self.at(j, ip);
        if i < j {
        } else if j < i {
        }
    }

    /// What is known of an IP is about that IP and in good order.
    pub proof fn law_entries_wf(self, ip: IpAddr)
        requires
            self.wf(),
        ensures
            entry_of(self@, ip).wf(),
            entry_of(self@, ip).ip == ip,
    {
        if exists|i: int| self.at(i, ip) {
            let i = choose|i: int| self.at(i, ip);
            self.lemma_at(i, ip);
        }
    }

    pub fn new() -> (r: IpStatsStore)
        ensures
            r.wf(),
            r@ == Map::<IpAddr, IpView>::empty(),
    {
        let r = IpStatsStore { ips: Vec::new() };
        assert(r@ =~= Map::<IpAddr, IpView>::empty());
        r
    }

    pub fn clear(&mut self)
        ensures
            final(self).wf(),
            final(self)@ == Map::<IpAddr, IpView>::empty(),
    {
        self.ips = Vec::new();
        assert(self@ =~= Map::<IpAddr, IpView>::empty());
    }

    proof fn lemma_inserted(self, before: IpStatsStore, p: int, s: IpStats)
        requires
            before.wf(),
            0 <= p <= before.ips@.len(),
            s@.wf(),
            self.ips@ == before.ips@.insert(p, s),
            forall|k: int|
                0 <= k < p ==> sipstats::ip_less((#[trigger] before.ips@[k])@.ip, s@.ip),
            p < before.ips@.len() ==> sipstats::ip_less(s@.ip, before.ips@[p]@.ip),
        ensures
            self.wf(),
            before.of(s@.ip) is None,
            forall|o: IpAddr| o != s@.ip ==> #[trigger] self.of(o) == before.of(o),
    {
        assert forall|k: int| 0 <= k < self.ips@.len() implies #[trigger] self.ips@[k] == if k < p {
            before.ips@[k]
        } else if k == p {
            s
        } else {
            before.ips@[k - 1]
        } by {}
        assert forall|k: int| 0 <= k < before.ips@.len() implies (
        #[trigger] before.ips@[k])@.ip != s@.ip by {
            if k > p {
                assert(sipstats::ip_less(before.ips@[p]@.ip, before.ips@[k]@.ip));
            }
        }
        assert(self.wf()) by {
            assert forall|i: int, j: int| 0 <= i < j < self.ips@.len() implies sipstats::ip_less(
                (#[trigger] self.ips@[i])@.ip,
                (#[trigger] self.ips@[j])@.ip,
            ) by {
                if i == p && j - 1 > p {
                    assert(sipstats::ip_less(before.ips@[p]@.ip, before.ips@[j - 1]@.ip));
                }
            }
        }
        assert forall|o: IpAddr| o != s@.ip implies #[trigger] self.of(o) == before.of(o) by {
            if exists|k: int| before.at(k, o) {
                let k = choose|k: int| before.at(k, o);
                before.lemma_at(k, o);
                let n = if k < p {
                    k
                } else {
                    k + 1
                };
                assert(self.ips@[n] == before.ips@[k]);
                assert(self.at(n, o));
                self.lemma_at(n, o);
            } else if exists|n: int| self.at(n, o) {
                let n = choose|n: int| self.at(n, o);
                assert(before.at(
                    if n < p {
                        n
                    } else {
                        n - 1
                    },
                    o,
                ));
            }
        }
        if exists|k: int| before.at(k, s@.ip) {
            let k = choose|k: int| before.at(k, s@.ip);
            assert(before.ips@[k]@.ip != s@.ip);
        }
    }

    /// The index of an IP's entry; a new one is added where there is none.
    fn entry(&mut self, ip: IpAddr) -> (r: usize)
        requires
            old(self).wf(),
        ensures
            final(self).wf(),
            final(self).at(r as int, ip),
            final(self).ips@[r as int]@ == entry_of(old(self)@, ip),
            forall|o: IpAddr| o != ip ==> #[trigger] final(self).of(o) == old(self).of(o),
    {
        let mut i: usize = 0;
        while i < self.ips.len() && ip_before(self.ips[i].ip, ip)
            invariant
                i <= self.ips.len(),
                self.wf(),
                *self == *old(self),
                forall|k: int|
                    0 <= k < i ==> sipstats::ip_less((#[trigger] self.ips@[k])@.ip, ip),
            decreases self.ips.len() - i,
        {
            i += 1;
        }
        if i < self.ips.len() && self.ips[i].ip == ip {
            proof {
                assert(self.at(i as int, ip));
                self.lemma_at(i as int, ip);
            }
            return i;
        }
        let ghost before = *self;
        let s = IpStats::fresh(ip);
        self.ips.insert(i, s);
        proof {
            self.lemma_inserted(before, i as int, s);
            assert(self.ips@[i as int] == s);
        }
        i
    }

    proof fn lemma_changed(self, before: IpStatsStore, i: int, ip: IpAddr)
        requires
            before.wf(),
            before.at(i, ip),
            self.ips@.len() == before.ips@.len(),
            self.ips@[i]@.ip == ip,
            self.ips@[i]@.wf(),
            forall|k: int|
                0 <= k < before.ips@.len() && k != i ==> #[trigger] self.ips@[k]
                    == before.ips@[k],
        ensures
            self.wf(),
            self.of(ip) == Some(self.ips@[i]@),
            forall|o: IpAddr| o != ip ==> #[trigger] self.of(o) == before.of(o),
    {
        assert forall|k: int| 0 <= k < self.ips@.len() implies (#[trigger] self.ips@[k])@.ip
            == before.ips@[k]@.ip && self.ips@[k]@.wf() by {
            if k != i {
                assert(self.ips@[k] == before.ips@[k]);
            }
        }
        assert(self.wf()) by {
            assert forall|a: int, b: int| 0 <= a < b < self.ips@.len() implies sipstats::ip_less(
                (#[trigger] self.ips@[a])@.ip,
                (#[trigger] self.ips@[b])@.ip,
            ) by {
                assert(sipstats::ip_less(before.ips@[a]@.ip, before.ips@[b]@.ip));
            }
        }
        assert(self.at(i, ip));
        self.lemma_at(i, ip);
        assert forall|o: IpAddr| o != ip implies #[trigger] self.of(o) == before.of(o) by {
            if exists|k: int| before.at(k, o) {
                let k = choose|k: int| before.at(k, o);
                before.lemma_at(k, o);
                assert(k != i);
                assert(self.ips@[k] == before.ips@[k]);
                assert(self.at(k, o));
                self.lemma_at(k, o);
            } else if exists|k: int| self.at(k, o) {
                let k = choose|k: int| self.at(k, o);
                assert(self.ips@[k]@.ip == before.ips@[k]@.ip);
                assert(before.at(k, o));
            }
        }
    }

    /// The index of an IP's entry, if it has one.
    fn find(&self, ip: IpAddr) -> (r: Option<usize>)
        requires
            self.wf(),
        ensures
            match r {
                Some(i) => self.at(i as int, ip) && self@.contains_key(ip) && self@[ip]
                    == self.ips@[i as int]@,
                None => !self@.contains_key(ip),
            },
    {
        let mut i: usize = 0;
        while i < self.ips.len()
            invariant
                i <= self.ips.len(),
                self.wf(),
                forall|k: int| 0 <= k < i ==> !self.at(k, ip),
            decreases self.ips.len() - i,
        {
            if self.ips[i].ip == ip {
                proof {
                    assert(self.at(i as int, ip));
                    self.lemma_at(i as int, ip);
                }
                return Some(i);
            }
            i += 1;
        }
        assert(self.of(ip) is None);
        None
    }

    fn ip_has_room(&self, ip: IpAddr, packets: u64, lost: u64, bytes: u64) -> (r: bool)
        requires
            self.wf(),
        ensures
            r == ip_room(entry_of(self@, ip), packets as int, lost as int, bytes as int),
    {
        let (p, l, b): (u64, u64, u64) = match self.find(ip) {
            Some(i) => (self.ips[i].pkts_total, self.ips[i].lost_total, self.ips[i].bytes_total),
            None => (0, 0, 0),
        };
        let max: u128 = u64::MAX as u128;
        p as u128 + 2 * packets as u128 <= max && l as u128 + 2 * lost as u128 <= max && b as u128 + 2
            * bytes as u128 <= max
    }

    /// Whether both ends of a flow have room in their counters.
    pub fn flow_has_room(&self, flow: Flow5Tuple, packets: u64, lost: u64, bytes: u64) -> (r: bool)
        requires
            self.wf(),
        ensures
            r == flow_room(self@, flow, packets as int, lost as int, bytes as int),
    {
        self.ip_has_room(flow.src.ip, packets, lost, bytes) && self.ip_has_room(
            flow.dst.ip,
            packets,
            lost,
            bytes,
        )
    }

    /// Whether every IP can count so many more losses.
    pub fn losses_fit(&self, n: u64) -> (r: bool)
        requires
            self.wf(),
        ensures
            r == loss_room(self@, n as int),
    {
        let mut i: usize = 0;
        while i < self.ips.len()
            invariant
                i <= self.ips.len(),
                self.wf(),
                forall|k: int| 0 <= k < i ==> (#[trigger] self.ips@[k])@.lost_total + n <= u64::MAX,
            decreases self.ips.len() - i,
        {
            if self.ips[i].lost_total > u64::MAX - n {
                proof {
                    let ip = self.ips@[i as int]@.ip;
                    assert(self.at(i as int, ip));
                    self.lemma_at(i as int, ip);
                    assert(self@.contains_key(ip));
                }
                return false;
            }
            i += 1;
        }
        proof {
            assert forall|ip: IpAddr| #[trigger] self@.contains_key(ip) implies self@[ip].lost_total
                + n <= u64::MAX by {
                let k = choose|k: int| self.at(k, ip);
                assert(self.ips@[k]@.lost_total + n <= u64::MAX);
            }
        }
        true
    }

    pub fn observe_packet(&mut self, ip: IpAddr, ts_us: u64, len: usize)
        requires
            old(self).wf(),
            entry_of(old(self)@, ip).pkts_total < u64::MAX,
            entry_of(old(self)@, ip).bytes_total + len <= u64::MAX,
        ensures
            final(self).wf(),
            final(self)@ == old(self)@.insert(ip, entry_of(old(self)@, ip).with_packet(ts_us, len)),
    {
        let i: usize = self.entry(ip);
        let ghost middle = *self;
        let e = &mut self.ips[i];
        e.add_packet(ts_us, len);
        proof {
            self.lemma_changed(middle, i as int, ip);
            assert(self@ =~= old(self)@.insert(ip, self.ips@[i as int]@));
        }
    }

    /// Counts packets that the IP sent or received.
    pub fn observe_packets(&mut self, ip: IpAddr, ts_us: u64, packets: u64, bytes: u64, dir: Dir)
        requires
            old(self).wf(),
            entry_of(old(self)@, ip).pkts_total + packets <= u64::MAX,
            entry_of(old(self)@, ip).bytes_total + bytes <= u64::MAX,
        ensures
            final(self).wf(),
            final(self)@ == old(self)@.insert(ip, entry_of(old(self)@, ip).with_packets(ts_us, packets, bytes, dir)),
    {
        let i: usize = self.entry(ip);
        let ghost middle = *self;
        let e = &mut self.ips[i];
        e.add_packets(ts_us, packets, bytes, dir);
        proof {
            self.lemma_changed(middle, i as int, ip);
            assert(self@ =~= old(self)@.insert(ip, self.ips@[i as int]@));
        }
    }

    pub fn observe_lost(&mut self, ip: IpAddr, ts_us: u64, lost: u64)
        requires
            old(self).wf(),
            entry_of(old(self)@, ip).lost_total + lost <= u64::MAX,
        ensures
            final(self).wf(),
            final(self)@ == old(self)@.insert(ip, entry_of(old(self)@, ip).with_lost(ts_us, lost)),
    {
        let i: usize = self.entry(ip);
        let ghost middle = *self;
        let e = &mut self.ips[i];
        e.add_lost(ts_us, lost);
        proof {
            self.lemma_changed(middle, i as int, ip);
            assert(self@ =~= old(self)@.insert(ip, self.ips@[i as int]@));
        }
    }

    /// Counts packets lost on the way from or to the IP.
    pub fn observe_lost_on(&mut self, ip: IpAddr, ts_us: u64, lost: u64, dir: Dir)
        requires
            old(self).wf(),
            entry_of(old(self)@, ip).lost_total + lost <= u64::MAX,
        ensures
            final(self).wf(),
            final(self)@ == old(self)@.insert(ip, entry_of(old(self)@, ip).with_lost_on(ts_us, lost, dir)),
    {
        let i: usize = self.entry(ip);
        let ghost middle = *self;
        let e = &mut self.ips[i];
        e.add_lost_on(ts_us, lost, dir);
        proof {
            self.lemma_changed(middle, i as int, ip);
            assert(self@ =~= old(self)@.insert(ip, self.ips@[i as int]@));
        }
    }

    pub fn add_active(&mut self, ip: IpAddr, delta: i32)
        requires
            old(self).wf(),
        ensures
            final(self).wf(),
            final(self)@ == old(self)@.insert(ip, entry_of(old(self)@, ip).with_active(delta)),
    {
        let i: usize = self.entry(ip);
        let ghost middle = *self;
        let e = &mut self.ips[i];
        e.active_add(delta);
        proof {
            self.lemma_changed(middle, i as int, ip);
            assert(self@ =~= old(self)@.insert(ip, self.ips@[i as int]@));
        }
    }

    /// Counts packets of a flow for the sender and for the receiver.
    pub fn observe_flow(&mut self, flow: Flow5Tuple, ts_us: u64, packets: u64, bytes: u64)
        requires
            old(self).wf(),
            flow_room(old(self)@, flow, packets as int, 0, bytes as int),
        ensures
            final(self).wf(),
            final(self)@ == flow_packets(old(self)@, flow, ts_us, packets, bytes),
            forall|ip: IpAddr|
                (#[trigger] entry_of(final(self)@, ip)).lost_total == entry_of(
                    old(self)@,
                    ip,
                ).lost_total,
    {
        self.observe_packets(flow.src.ip, ts_us, packets, bytes, Dir::Tx);
        self.observe_packets(flow.dst.ip, ts_us, packets, bytes, Dir::Rx);
    }

    /// Counts lost packets of a flow for the sender and for the receiver.
    pub fn observe_flow_lost(&mut self, flow: Flow5Tuple, ts_us: u64, lost: u64)
        requires
            old(self).wf(),
            entry_of(old(self)@, flow.src.ip).lost_total + 2 * lost <= u64::MAX,
            entry_of(old(self)@, flow.dst.ip).lost_total + 2 * lost <= u64::MAX,
        ensures
            final(self).wf(),
            final(self)@ == flow_lost(old(self)@, flow, ts_us, lost),
    {
        self.observe_lost_on(flow.src.ip, ts_us, lost, Dir::Tx);
        self.observe_lost_on(flow.dst.ip, ts_us, lost, Dir::Rx);
    }

    /// All tracked IPs, in order of address.
    pub fn snapshot(&self) -> (r: Vec<IpStats>)
        requires
            self.wf(),
        ensures
            forall|i: int|
                0 <= i < r@.len() ==> (#[trigger] r@[i])@.wf() && self@.contains_pair(
                    r@[i]@.ip,
                    r@[i]@,
                ),
            forall|ip: IpAddr|
                #[trigger] self@.contains_key(ip) ==> exists|i: int|
                    0 <= i < r@.len() && r@[i]@.ip == ip,
            forall|i: int, j: int|
                0 <= i < j < r@.len() ==> sipstats::ip_less(
                    (#[trigger] r@[i])@.ip,
                    (#[trigger] r@[j])@.ip,
                ),
    {
        let mut out: Vec<IpStats> = Vec::new();
        let mut i: usize = 0;
        while i < self.ips.len()
            invariant
                i <= self.ips.len(),
                out@.len() == i,
                forall|k: int| 0 <= k < i ==> (#[trigger] out@[k])@ == self.ips@[k]@,
            decreases self.ips.len() - i,
        {
            out.push(self.ips[i].copy());
            i += 1;
        }
        proof {
            assert forall|k: int| 0 <= k < out@.len() implies (#[trigger] out@[k])@.wf()
                && self@.contains_pair(out@[k]@.ip, out@[k]@) by {
                assert(self.at(k, out@[k]@.ip));
                self.lemma_at(k, out@[k]@.ip);
            }
            assert forall|ip: IpAddr| #[trigger] self@.contains_key(ip) implies exists|k: int|
                0 <= k < out@.len() && out@[k]@.ip == ip by {
                let k = choose|k: int| self.at(k, ip);
                assert(out@[k]@.ip == ip);
            }
        }
        out
    }
}

} // verus!
