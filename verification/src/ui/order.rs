//! The order of the rows on the statistics pages, and their heat maps.
use crate::model::addr::IpAddr;
use crate::model::sip::HangupBy;
use crate::model::stats::Real64;
use crate::store::ipstats::IpStats;
use crate::store::sipstats::SipIpRow;
use crate::text;
use crate::text::push_dec;
use crate::ui::pages::{IpSort, SipSort};
use vstd::prelude::*;

verus! {

/// What rows are ordered by: the lesser one comes first.
#[derive(Debug, Clone, Copy, PartialEq, Eq, Structural)]
pub struct SortKey {
    pub major: i128,
    pub family: u8,
    pub addr: u128,
}

impl SortKey {
    pub open spec fn less(self, other: SortKey) -> bool {
        self.major < other.major || (self.major == other.major && (self.family < other.family || (
        self.family == other.family && self.addr < other.addr)))
    }

    pub fn is_less(&self, other: &SortKey) -> (r: bool)
        ensures
            r == self.less(*other),
    {
        self.major < other.major || (self.major == other.major && (self.family < other.family || (
        self.family == other.family && self.addr < other.addr)))
    }
}

/// Behind how many of the first `n` rows the row with a key belongs.
pub open spec fn place(keys: Seq<SortKey>, rows: Seq<usize>, k: SortKey, n: int) -> int
    decreases n,
{
    if n > 0 && k.less(keys[rows[n - 1] as int]) {
        place(keys, rows, k, n - 1)
    } else {
        n
    }
}

/// The first `n` rows in the order of their keys; rows with the same key keep
/// their order.
pub open spec fn ordered(keys: Seq<SortKey>, n: int) -> Seq<usize>
    decreases n,
{
    if n <= 0 {
        Seq::empty()
    } else {
        let s = ordered(keys, n - 1);
        s.insert(place(keys, s, keys[n - 1], s.len() as int), (n - 1) as usize)
    }
}

/// Puts rows in the order of their keys.
pub fn order_by(keys: &Vec<SortKey>) -> (r: Vec<usize>)
    ensures
        r@ == ordered(keys@, keys@.len() as int),
        r@.len() == keys@.len(),
        forall|i: int| 0 <= i < r@.len() ==> #[trigger] r@[i] < keys@.len(),
{
    let mut out: Vec<usize> = Vec::new();
    let mut i: usize = 0;
    while i < keys.len()
        invariant
            i <= keys.len(),
            out@ == ordered(keys@, i as int),
            out@.len() == i,
            forall|k: int| 0 <= k < out@.len() ==> #[trigger] out@[k] < keys@.len(),
        decreases keys.len() - i,
    {
        let k: SortKey = keys[i];
        let ghost s = out@;
        let mut p: usize = out.len();
        let mut going: bool = true;
        while going && p > 0
            invariant
                p <= out.len(),
                out@ == s,
                forall|k: int| 0 <= k < out@.len() ==> #[trigger] out@[k] < keys@.len(),
                place(keys@, s, k, s.len() as int) == place(keys@, s, k, p as int),
                !going ==> place(keys@, s, k, p as int) == p,
            decreases p + if going {
                1int
            } else {
                0int
            },
        {
            if k.is_less(&keys[out[p - 1]]) {
                p -= 1;
            } else {
                going = false;
            }
        }
        out.insert(p, i);
        i += 1;
    }
    out
}

// ----------------------------- IPs -----------------------------

/// Loss for the order: none counts as zero.
pub open spec fn loss_rank(p: Option<Real64>) -> int {
    match p {
        Some(p) => p.rank(),
        None => 0,
    }
}

/// What the row of an IP is ordered by.
pub open spec fn ip_key(sort: IpSort, seen: Option<u64>, loss: Option<Real64>) -> int {
    match sort {
        IpSort::Newest => match seen {
            Some(t) => -(t as int),
            None => 0,
        },
        IpSort::MaxLoss => -loss_rank(loss),
        IpSort::MinLoss => loss_rank(loss),
    }
}

pub open spec fn plain_key(major: int) -> SortKey {
    SortKey { major: major as i128, family: 0, addr: 0 }
}

pub open spec fn ip_keys(v: Seq<IpStats>, losses: Seq<Option<Real64>>, sort: IpSort) -> Seq<
    SortKey,
> {
    Seq::new(v.len(), |i: int| plain_key(ip_key(sort, v[i].last_seen_us, losses[i])))
}

/// The IPs in the order of the page; `losses` holds the loss of each.
pub fn sorted_rows(v: &Vec<IpStats>, losses: &Vec<Option<Real64>>, sort: IpSort) -> (r: Vec<usize>)
    requires
        losses@.len() == v@.len(),
    ensures
        r@ == ordered(ip_keys(v@, losses@, sort), v@.len() as int),
        forall|i: int| 0 <= i < r@.len() ==> #[trigger] r@[i] < v@.len(),
{
    let mut keys: Vec<SortKey> = Vec::new();
    let mut i: usize = 0;
    while i < v.len()
        invariant
            i <= v.len(),
            losses@.len() == v@.len(),
            keys@ == ip_keys(v@, losses@, sort).take(i as int),
        decreases v.len() - i,
    {
        let rank: i128 = match losses[i] {
            Some(p) => p.to_rank(),
            None => 0,
        };
        let major: i128 = match sort {
            IpSort::Newest => match v[i].last_seen_us {
                Some(t) => -(t as i128),
                None => 0,
            },
            IpSort::MaxLoss => -rank,
            IpSort::MinLoss => rank,
        };
        keys.push(SortKey { major, family: 0, addr: 0 });
        i += 1;
        assert(keys@ =~= ip_keys(v@, losses@, sort).take(i as int));
    }
    assert(keys@ =~= ip_keys(v@, losses@, sort));
    order_by(&keys)
}

// ----------------------------- SIP -----------------------------

/// The rank of an answer rate: none comes last, as infinity does.
pub open spec fn asr_rank(p: Option<Real64>) -> int {
    match p {
        Some(p) => p.rank(),
        None => 0x7ff0_0000_0000_0000,
    }
}

/// What a row of the SIP stats is ordered by: first what the order says, then the
/// address, IPv4 before IPv6.
pub open spec fn sip_key(r: SipIpRow, asr: Option<Real64>, sort: SipSort) -> SortKey {
    let major = match sort {
        SipSort::Invites => -(r.stats.req@[0] as int),
        SipSort::Errors => -(r.stats@.errors() as int),
        SipSort::Asr => asr_rank(asr),
    };
    match r.ip {
        Some(IpAddr::V4(v)) => SortKey { major: major as i128, family: 1, addr: v as u128 },
        Some(IpAddr::V6(v)) => SortKey { major: major as i128, family: 2, addr: v },
        None => SortKey { major: major as i128, family: 0, addr: 0 },
    }
}

pub open spec fn sip_keys(v: Seq<SipIpRow>, asrs: Seq<Option<Real64>>, sort: SipSort) -> Seq<
    SortKey,
> {
    Seq::new(v.len(), |i: int| sip_key(v[i], asrs[i], sort))
}

/// The rows of IPs among some rows, without the one for all.
pub open spec fn with_ip(v: Seq<SipIpRow>, rows: Seq<usize>, n: int) -> Seq<usize>
    decreases n,
{
    if n <= 0 {
        Seq::empty()
    } else {
        let s = with_ip(v, rows, n - 1);
        if v[rows[n - 1] as int].ip is Some {
            s.push(rows[n - 1])
        } else {
            s
        }
    }
}

/// Whether the counters of a row can be read.
pub open spec fn countable(r: SipIpRow) -> bool {
    r.stats@.wf() && r.stats@.errors() <= u64::MAX
}

fn key_of(r: &SipIpRow, asr: Option<Real64>, sort: SipSort) -> (k: SortKey)
    requires
        countable(*r),
    ensures
        k == sip_key(*r, asr, sort),
{
    let major: i128 = match sort {
        SipSort::Invites => -(r.stats.req[0] as i128),
        SipSort::Errors => -(r.stats.resp_errors() as i128),
        SipSort::Asr => match asr {
            Some(p) => p.to_rank(),
            None => 0x7ff0_0000_0000_0000,
        },
    };
    match r.ip {
        Some(IpAddr::V4(v)) => SortKey { major, family: 1, addr: v as u128 },
        Some(IpAddr::V6(v)) => SortKey { major, family: 2, addr: v },
        None => SortKey { major, family: 0, addr: 0 },
    }
}

/// The rows of the SIP stats in the order of the page; `asrs` holds the answer
/// rate of each. The row for all is left out.
pub fn ordered_rows(v: &Vec<SipIpRow>, asrs: &Vec<Option<Real64>>, sort: SipSort) -> (r: Vec<usize>)
    requires
        asrs@.len() == v@.len(),
        forall|i: int| 0 <= i < v@.len() ==> countable(#[trigger] v@[i]),
    ensures
        ({
            let all = ordered(sip_keys(v@, asrs@, sort), v@.len() as int);
            r@ == with_ip(v@, all, all.len() as int)
        }),
        forall|i: int| 0 <= i < r@.len() ==> #[trigger] r@[i] < v@.len(),
{
    let mut keys: Vec<SortKey> = Vec::new();
    let mut i: usize = 0;
    while i < v.len()
        invariant
            i <= v.len(),
            asrs@.len() == v@.len(),
            forall|k: int| 0 <= k < v@.len() ==> countable(#[trigger] v@[k]),
            keys@ == sip_keys(v@, asrs@, sort).take(i as int),
        decreases v.len() - i,
    {
        keys.push(key_of(&v[i], asrs[i], sort));
        i += 1;
        assert(keys@ =~= sip_keys(v@, asrs@, sort).take(i as int));
    }
    assert(keys@ =~= sip_keys(v@, asrs@, sort));
    let all = order_by(&keys);
    let mut out: Vec<usize> = Vec::new();
    let mut i: usize = 0;
    while i < all.len()
        invariant
            i <= all.len(),
            forall|k: int| 0 <= k < all@.len() ==> #[trigger] all@[k] < v@.len(),
            out@ == with_ip(v@, all@, i as int),
            forall|k: int| 0 <= k < out@.len() ==> #[trigger] out@[k] < v@.len(),
        decreases all.len() - i,
    {
        if v[all[i]].ip.is_some() {
            out.push(all[i]);
        }
        i += 1;
    }
    out
}

// ----------------------------- heat maps -----------------------------

/// The column of a time on an axis; none before it, or behind its last column.
pub open spec fn grid_column(ts: u64, axis: u64, width: u64, cols: nat) -> Option<int> {
    if ts <= axis || width == 0 || (ts - axis) / width as int >= cols {
        None
    } else {
        Some((ts - axis) / width as int)
    }
}

/// For each column the last of the first `n` entries that falls into it.
pub open spec fn grid(starts: Seq<u64>, axis: u64, width: u64, cols: nat, n: int) -> Seq<
    Option<usize>,
>
    decreases n,
{
    if n <= 0 {
        Seq::new(cols, |i: int| None::<usize>)
    } else {
        let g = grid(starts, axis, width, cols, n - 1);
        match grid_column(starts[n - 1], axis, width, cols) {
            Some(c) => g.update(c, Some((n - 1) as usize)),
            None => g,
        }
    }
}

/// Lays out a series on a grid of columns: which entry each one shows.
pub fn heat_grid(starts: &Vec<u64>, axis: u64, width: u64, cols: usize) -> (r: Vec<Option<usize>>)
    requires
        width > 0,
    ensures
        r@ == grid(starts@, axis, width, cols as nat, starts@.len() as int),
        r@.len() == cols,
{
    let mut g: Vec<Option<usize>> = Vec::new();
    let mut i: usize = 0;
    while i < cols
        invariant
            i <= cols,
            g@ == Seq::new(i as nat, |k: int| None::<usize>),
        decreases cols - i,
    {
        g.push(None);
        i += 1;
        assert(g@ =~= Seq::new(i as nat, |k: int| None::<usize>));
    }
    assert(g@ =~= grid(starts@, axis, width, cols as nat, 0));
    let mut i: usize = 0;
    while i < starts.len()
        invariant
            i <= starts.len(),
            width > 0,
            g@.len() == cols,
            g@ == grid(starts@, axis, width, cols as nat, i as int),
        decreases starts.len() - i,
    {
        let ts: u64 = starts[i];
        if ts > axis {
            let c: u64 = (ts - axis) / width;
            if (c as u128) < cols as u128 {
                g.set(c as usize, Some(i));
            }
        }
        i += 1;
    }
    g
}

/// The width in seconds of a column of the loss map over a window.
pub open spec fn column_secs(window: u64) -> u64 {
    if window > 600 {
        60
    } else if window == 0 {
        1
    } else {
        ((window + 59) / 60) as u64
    }
}

pub fn loss_column_secs(window: u64) -> (r: u64)
    ensures
        r == column_secs(window),
        1 <= r <= 60,
{
    if window > 600 {
        60
    } else if window == 0 {
        1
    } else {
        (window + 59) / 60
    }
}

// ----------------------------- the end of a call -----------------------------

/// Who ended a call, and with which code where it was rejected.
pub open spec fn end_text(by: Option<HangupBy>, code: Option<u32>) -> Seq<char> {
    match (by, code) {
        (Some(b), Some(c)) => if b == HangupBy::Reject {
            b.spec_label() + "·"@ + text::dec(c as nat)
        } else {
            b.spec_label()
        },
        (Some(b), None) => b.spec_label(),
        (None, Some(c)) => text::dec(c as nat),
        (None, None) => "-"@,
    }
}

pub fn fmt_end(by: Option<HangupBy>, code: Option<u32>) -> (r: String)
    ensures
        r@ == end_text(by, code),
{
    let mut s = String::new();
    match (by, code) {
        (Some(b), Some(c)) => {
            s.push_str(b.label());
            if b == HangupBy::Reject {
                s.push_str("·");
                push_dec(&mut s, c as u64);
            }
        },
        (Some(b), None) => {
            s.push_str(b.label());
        },
        (None, Some(c)) => {
            push_dec(&mut s, c as u64);
        },
        (None, None) => {
            s.push_str("-");
        },
    }
    assert(s@ =~= end_text(by, code));
    s
}

// ----------------------------- laws -----------------------------

proof fn lemma_place(keys: Seq<SortKey>, rows: Seq<usize>, k: SortKey, n: int)
    requires
        0 <= n <= rows.len(),
    ensures
        0 <= place(keys, rows, k, n) <= n,
        place(keys, rows, k, n) > 0 ==> !k.less(keys[rows[place(keys, rows, k, n) - 1] as int]),
        forall|i: int|
            place(keys, rows, k, n) <= i < n ==> k.less(keys[#[trigger] rows[i] as int]),
    decreases n,
{
    if n > 0 && k.less(keys[rows[n - 1] as int]) {
        lemma_place(keys, rows, k, n - 1);
    }
}

/// Ordering loses no row, and no row stands behind one that is greater.
pub proof fn law_rows_ordered(keys: Seq<SortKey>, n: int)
    requires
        0 <= n <= keys.len() <= usize::MAX,
    ensures
        ordered(keys, n).to_multiset() == Seq::new(n as nat, |i: int| i as usize).to_multiset(),
        forall|i: int, j: int|
            0 <= i < j < ordered(keys, n).len() ==> !keys[#[trigger] ordered(
                keys,
                n,
            )[j] as int].less(keys[#[trigger] ordered(keys, n)[i] as int]),
    decreases n,
{
    broadcast use vstd::seq_lib::group_to_multiset_ensures;

    let all = Seq::new(n as nat, |i: int| i as usize);
    if n > 0 {
        law_rows_ordered(keys, n - 1);
        let s = ordered(keys, n - 1);
        let x = (n - 1) as usize;
        let k = keys[n - 1];
        let p = place(keys, s, k, s.len() as int);
        lemma_place(keys, s, k, s.len() as int);
        let r = ordered(keys, n);
        assert(r == s.insert(p, x));
        assert(all =~= Seq::new((n - 1) as nat, |i: int| i as usize).push(x));
        assert forall|i: int, j: int| 0 <= i < j < r.len() implies !keys[#[trigger] r[j] as int].less(
            keys[#[trigger] r[i] as int],
        ) by {
            let a = if i < p {
                i
            } else {
                i - 1
            };
            let b = if j < p {
                j
            } else {
                j - 1
            };
            if j == p {
                if a < p - 1 {
                    assert(!keys[s[p - 1] as int].less(keys[s[a] as int]));
                }
            } else if i == p {
                assert(k.less(keys[s[b] as int]));
            } else {
                assert(!keys[s[b] as int].less(keys[s[a] as int]));
            }
        }
    } else {
        assert(all =~= Seq::empty());
    }
}

} // verus!
