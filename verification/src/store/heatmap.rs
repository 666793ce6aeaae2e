//! Calls gathered by time bucket and key.
use crate::model::stats::{HealthBucket, MetricSet, Real64};
use crate::text::str_eq;
use vstd::prelude::*;

verus! {

/// One bucket and key by its contents.
pub struct CellView {
    pub bucket_us: u64,
    pub key: Seq<char>,
    pub metrics: MetricSet,
}

pub open spec fn cell_view(b: HealthBucket) -> CellView {
    CellView { bucket_us: b.bucket_us, key: b.dim_key@, metrics: b.metrics }
}

pub open spec fn cell_views(v: Seq<HealthBucket>) -> Seq<CellView> {
    v.map_values(|b: HealthBucket| cell_view(b))
}

/// A heatmap: the width of its buckets, and its cells as they came up.
pub struct HeatView {
    pub bucket_us: u64,
    pub cells: Seq<CellView>,
}

pub struct Heatmap {
    pub bucket_us: u64,
    /// The cells. What they sum up beside the counts is left to whoever records.
    pub cells: Vec<HealthBucket>,
}

impl View for Heatmap {
    type V = HeatView;

    open spec fn view(&self) -> HeatView {
        HeatView { bucket_us: self.bucket_us, cells: cell_views(self.cells@) }
    }
}

/// The first cell from `i` on with a bucket and a key; their number, if there is none.
pub open spec fn cell_index(v: Seq<CellView>, bucket: u64, key: Seq<char>, i: int) -> int
    decreases v.len() - i,
{
    if i >= v.len() {
        v.len() as int
    } else if v[i].bucket_us == bucket && v[i].key == key {
        i
    } else {
        cell_index(v, bucket, key, i + 1)
    }
}

pub open spec fn more(n: u64, yes: bool) -> u64 {
    if yes {
        (n + 1) as u64
    } else {
        n
    }
}

impl CellView {
    pub open spec fn with_call(self, answered: bool, failed: bool) -> CellView {
        CellView {
            metrics: MetricSet {
                calls: (self.metrics.calls + 1) as u64,
                answered: more(self.metrics.answered, answered),
                failed: more(self.metrics.failed, failed),
                ..self.metrics
            },
            ..self
        }
    }

    /// Each count can grow by one.
    pub open spec fn room(self) -> bool {
        self.metrics.calls < u64::MAX && self.metrics.answered < u64::MAX && self.metrics.failed
            < u64::MAX
    }
}

impl HeatView {
    /// No two cells have the same bucket and key, and every bucket begins at a multiple
    /// of the width.
    pub open spec fn wf(self) -> bool {
        &&& self.bucket_us > 0
        &&& forall|i: int|
            0 <= i < self.cells.len() ==> (#[trigger] self.cells[i]).bucket_us % self.bucket_us == 0
        &&& forall|i: int, j: int|
            0 <= i < j < self.cells.len() ==> (#[trigger] self.cells[i]).bucket_us != (
            #[trigger] self.cells[j]).bucket_us || self.cells[i].key != self.cells[j].key
    }

    /// When the bucket of a time begins.
    pub open spec fn bucket_of(self, ts: u64) -> u64 {
        (ts / self.bucket_us * self.bucket_us) as u64
    }

    /// The cell in which a call counts.
    pub open spec fn slot(self, ts: u64, key: Seq<char>) -> int {
        cell_index(self.cells, self.bucket_of(ts), key, 0)
    }

    pub open spec fn room(self, ts: u64, key: Seq<char>) -> bool {
        self.slot(ts, key) < self.cells.len() ==> self.cells[self.slot(ts, key)].room()
    }

    /// After a finished call.
    pub open spec fn with_call(self, ts: u64, key: Seq<char>, answered: bool, failed: bool) -> HeatView {
        let i = self.slot(ts, key);
        let fresh = CellView { bucket_us: self.bucket_of(ts), key, metrics: nothing_measured() };
        HeatView {
            cells: if i < self.cells.len() {
                self.cells.update(i, self.cells[i].with_call(answered, failed))
            } else {
                self.cells.push(fresh.with_call(answered, failed))
            },
            ..self
        }
    }
}

/// Those of the first `n` cells whose bucket is not before `cutoff`.
pub open spec fn recent_cells(v: Seq<CellView>, cutoff: u64, n: int) -> Seq<CellView>
    decreases n,
{
    if n <= 0 {
        Seq::empty()
    } else if v[n - 1].bucket_us >= cutoff {
        recent_cells(v, cutoff, n - 1).push(v[n - 1])
    } else {
        recent_cells(v, cutoff, n - 1)
    }
}

/// The width of a bucket in microseconds: at least one second.
pub open spec fn width_us(secs: u64) -> int {
    (if secs == 0 {
        1int
    } else {
        secs as int
    }) * 1_000_000
}

pub proof fn lemma_cell_index(v: Seq<CellView>, bucket: u64, key: Seq<char>, i: int)
    requires
        0 <= i <= v.len(),
    ensures
        i <= cell_index(v, bucket, key, i) <= v.len(),
        cell_index(v, bucket, key, i) < v.len() ==> v[cell_index(v, bucket, key, i)].bucket_us
            == bucket && v[cell_index(v, bucket, key, i)].key == key,
        forall|k: int|
            i <= k < cell_index(v, bucket, key, i) ==> (#[trigger] v[k]).bucket_us != bucket
                || v[k].key != key,
    decreases v.len() - i,
{
    if i < v.len() && !(v[i].bucket_us == bucket && v[i].key == key) {
        lemma_cell_index(v, bucket, key, i + 1);
    }
}

pub proof fn lemma_bucket(ts: u64, w: u64)
    requires
        w > 0,
    ensures
        ts / w * w <= ts,
        (ts / w * w) % w as int == 0,
{
    vstd::arithmetic::div_mod::lemma_fundamental_div_mod(ts as int, w as int);
    vstd::arithmetic::div_mod::lemma_mod_multiples_basic((ts / w) as int, w as int);
    assert(ts / w * w == w * (ts / w)) by (nonlinear_arith);
}

pub open spec fn nothing_measured() -> MetricSet {
    let zero = Real64 { bits: 0 };
    MetricSet {
        calls: 0,
        answered: 0,
        failed: 0,
        pdd_sum_ms: zero,
        pdd_n: 0,
        jitter_sum_ms: zero,
        jitter_n: 0,
        loss_sum_pct: zero,
        loss_n: 0,
        rtt_sum_ms: zero,
        rtt_n: 0,
        mos_sum: zero,
        mos_n: 0,
    }
}

fn no_metrics() -> (r: MetricSet)
    ensures
        r == nothing_measured(),
{
    let zero = Real64 { bits: 0 };
    MetricSet {
        calls: 0,
        answered: 0,
        failed: 0,
        pdd_sum_ms: zero,
        pdd_n: 0,
        jitter_sum_ms: zero,
        jitter_n: 0,
        loss_sum_pct: zero,
        loss_n: 0,
        rtt_sum_ms: zero,
        rtt_n: 0,
        mos_sum: zero,
        mos_n: 0,
    }
}

impl Heatmap {
    /// An empty heatmap with buckets of so many seconds.
    pub fn new(bucket_secs: u64) -> (r: Heatmap)
        requires
            width_us(bucket_secs) <= u64::MAX,
        ensures
            r@ == (HeatView { bucket_us: width_us(bucket_secs) as u64, cells: Seq::empty() }),
            r@.wf(),
    {
        let secs: u64 = if bucket_secs == 0 {
            1
        } else {
            bucket_secs
        };
        let r = Heatmap { bucket_us: secs * 1_000_000, cells: Vec::new() };
        assert(r@.cells =~= Seq::empty());
        r
    }

    pub fn cell_count(&self) -> (r: usize)
        ensures
            r == self@.cells.len(),
    {
        self.cells.len()
    }

    fn find_cell(&self, bucket: u64, key: &str) -> (r: usize)
        ensures
            r == cell_index(self@.cells, bucket, key@, 0),
            r <= self.cells@.len(),
    {
        let mut i: usize = 0;
        while i < self.cells.len()
            invariant
                i <= self.cells.len(),
                cell_index(self@.cells, bucket, key@, 0) == cell_index(
                    self@.cells,
                    bucket,
                    key@,
                    i as int,
                ),
            decreases self.cells.len() - i,
        {
            assert(self@.cells[i as int] == cell_view(self.cells@[i as int]));
            if self.cells[i].bucket_us == bucket && str_eq(self.cells[i].dim_key.as_str(), key) {
                return i;
            }
            i += 1;
        }
        i
    }

    /// Counts a finished call in its cell, a new one where there is none, and says which
    /// it is.
    pub fn record_call(&mut self, ts_us: u64, key: &str, answered: bool, failed: bool) -> (r: usize)
        requires
            old(self)@.wf(),
            old(self)@.room(ts_us, key@),
        ensures
            final(self)@ == old(self)@.with_call(ts_us, key@, answered, failed),
            final(self)@.wf(),
            r == old(self)@.slot(ts_us, key@),
            r < final(self).cells@.len(),
    {
        proof {
            lemma_bucket(ts_us, self.bucket_us);
        }
        let bucket: u64 = ts_us / self.bucket_us * self.bucket_us;
        let ghost before = self@;
        proof {
            lemma_cell_index(before.cells, bucket, key@, 0);
        }
        let i: usize = self.find_cell(bucket, key);
        if i < self.cells.len() {
            let ghost b = self.cells@;
            assert(before.cells[i as int] == cell_view(b[i as int]));
            let c = &mut self.cells[i];
            c.metrics.calls = c.metrics.calls + 1;
            if answered {
                c.metrics.answered = c.metrics.answered + 1;
            }
            if failed {
                c.metrics.failed = c.metrics.failed + 1;
            }
            assert(self@.cells =~= before.with_call(ts_us, key@, answered, failed).cells);
        } else {
            let mut metrics = no_metrics();
            metrics.calls = 1;
            if answered {
                metrics.answered = 1;
            }
            if failed {
                metrics.failed = 1;
            }
            self.cells.push(HealthBucket { bucket_us: bucket, dim_key: key.to_owned(), metrics });
            assert(self@.cells =~= before.with_call(ts_us, key@, answered, failed).cells);
        }
        i
    }

    /// Drops the cells whose bucket begins before `cutoff_us`.
    pub fn prune_older_than(&mut self, cutoff_us: u64)
        requires
            old(self)@.wf(),
        ensures
            final(self)@ == (HeatView {
                cells: recent_cells(
                    old(self)@.cells,
                    cutoff_us,
                    old(self)@.cells.len() as int,
                ),
                ..old(self)@
            }),
            final(self)@.wf(),
    {
        let ghost all = self@.cells;
        let ghost w = self.bucket_us;
        let mut back: Vec<HealthBucket> = Vec::new();
        let ghost start = self.cells@;
        while self.cells.len() > 0
            invariant
                self.bucket_us == w,
                back@.len() + self.cells@.len() == start.len(),
                self.cells@ == start.take(self.cells@.len() as int),
                forall|k: int|
                    0 <= k < back@.len() ==> #[trigger] back@[k] == start[start.len() - 1 - k],
            decreases self.cells.len(),
        {
            let ghost n = self.cells@.len() as int;
            if let Some(c) = self.cells.pop() {
                back.push(c);
                assert(self.cells@ =~= start.take(n - 1));
            }
        }
        assert(self@.cells =~= recent_cells(all, cutoff_us, 0));
        while back.len() > 0
            invariant
                self.bucket_us == w,
                back@.len() <= start.len(),
                all == cell_views(start),
                forall|k: int|
                    0 <= k < back@.len() ==> #[trigger] back@[k] == start[start.len() - 1 - k],
                self@.cells == recent_cells(all, cutoff_us, start.len() - back@.len()),
            decreases back.len(),
        {
            let ghost n = start.len() - back@.len();
            let ghost b = back@;
            if let Some(c) = back.pop() {
                assert(c == start[n]);
                assert(all[n] == cell_view(c));
                if c.bucket_us >= cutoff_us {
                    let ghost kept = self.cells@;
                    self.cells.push(c);
                    assert(cell_views(self.cells@) =~= cell_views(kept).push(cell_view(c)));
                }
            }
        }
        proof {
            lemma_recent(HeatView { bucket_us: w, cells: all }, cutoff_us, all.len() as int);
        }
    }

    pub fn clear(&mut self)
        ensures
            final(self)@ == (HeatView { cells: Seq::empty(), ..old(self)@ }),
    {
        self.cells.clear();
        assert(self@.cells =~= Seq::empty());
    }
}

/// What is recent comes from the cells, in their order.
proof fn lemma_recent(v: HeatView, cutoff: u64, n: int)
    requires
        v.wf(),
        0 <= n <= v.cells.len(),
    ensures
        (HeatView { cells: recent_cells(v.cells, cutoff, n), ..v }).wf(),
        forall|i: int|
            0 <= i < recent_cells(v.cells, cutoff, n).len() ==> exists|k: int|
                0 <= k < n && v.cells[k] == #[trigger] recent_cells(v.cells, cutoff, n)[i],
    decreases n,
{
    if n > 0 {
        lemma_recent(v, cutoff, n - 1);
        let before = recent_cells(v.cells, cutoff, n - 1);
        let after = recent_cells(v.cells, cutoff, n);
        let c = v.cells[n - 1];
        if c.bucket_us >= cutoff {
            assert forall|i: int| 0 <= i < before.len() implies (#[trigger] before[i]).bucket_us
                != c.bucket_us || before[i].key != c.key by {
                let k = choose|k: int| 0 <= k < n - 1 && v.cells[k] == before[i];
                assert(v.cells[k].bucket_us != v.cells[n - 1].bucket_us || v.cells[k].key
                    != v.cells[n - 1].key);
            }
            let h = HeatView { cells: before, ..v };
            let g = HeatView { cells: after, ..v };
            assert(h.wf());
            assert forall|i: int| 0 <= i < after.len() implies (#[trigger] g.cells[i]).bucket_us
                % g.bucket_us == 0 by {
                if i < before.len() {
                    assert(g.cells[i] == h.cells[i]);
                }
            }
            assert forall|i: int, j: int| 0 <= i < j < after.len() implies (
            #[trigger] g.cells[i]).bucket_us != (#[trigger] g.cells[j]).bucket_us || g.cells[i].key
                != g.cells[j].key by {
                assert(g.cells[i] == h.cells[i]);
                if j < before.len() {
                    assert(g.cells[j] == h.cells[j]);
                } else {
                    assert(before[i].bucket_us != c.bucket_us || before[i].key != c.key);
                }
            }
            assert forall|i: int| 0 <= i < after.len() implies exists|k: int|
                0 <= k < n && v.cells[k] == #[trigger] after[i] by {
                if i < before.len() {
                    assert(after[i] == before[i]);
                    let k = choose|k: int| 0 <= k < n - 1 && v.cells[k] == before[i];
                    assert(v.cells[k] == after[i]);
                } else {
                    assert(v.cells[n - 1] == after[i]);
                }
            }
        } else {
            assert forall|i: int| 0 <= i < after.len() implies exists|k: int|
                0 <= k < n && v.cells[k] == #[trigger] after[i] by {
                let k = choose|k: int| 0 <= k < n - 1 && v.cells[k] == before[i];
                assert(v.cells[k] == after[i]);
            }
        }
    }
}

/// All calls of the first `n` cells.
pub open spec fn calls_in(v: Seq<CellView>, n: int) -> int
    decreases n,
{
    if n <= 0 {
        0
    } else {
        calls_in(v, n - 1) + v[n - 1].metrics.calls
    }
}

proof fn lemma_calls_update(v: Seq<CellView>, i: int, c: CellView, n: int)
    requires
        0 <= i < v.len(),
        0 <= n <= v.len(),
    ensures
        calls_in(v.update(i, c), n) == calls_in(v, n) + if i < n {
            c.metrics.calls - v[i].metrics.calls
        } else {
            0
        },
    decreases n,
{
    if n > 0 {
        lemma_calls_update(v, i, c, n - 1);
    }
}

proof fn lemma_calls_push(v: Seq<CellView>, c: CellView, n: int)
    requires
        0 <= n <= v.len(),
    ensures
        calls_in(v.push(c), n) == calls_in(v, n),
    decreases n,
{
    if n > 0 {
        lemma_calls_push(v, c, n - 1);
    }
}

/// Every recorded call is counted in exactly one cell.
pub proof fn law_counted_once(v: HeatView, ts: u64, key: Seq<char>, answered: bool, failed: bool)
    requires
        v.room(ts, key),
    ensures
        ({
            let w = v.with_call(ts, key, answered, failed);
            calls_in(w.cells, w.cells.len() as int) == calls_in(v.cells, v.cells.len() as int) + 1
        }),
{
    let w = v.with_call(ts, key, answered, failed);
    let i = v.slot(ts, key);
    lemma_cell_index(v.cells, v.bucket_of(ts), key, 0);
    if i < v.cells.len() {
        lemma_calls_update(v.cells, i, w.cells[i], v.cells.len() as int);
    } else {
        lemma_calls_push(v.cells, w.cells[i], v.cells.len() as int);
    }
}

} // verus!
