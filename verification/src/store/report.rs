//! The sealed report of an event log.
//!
//! Counts, lists and rankings are exact; ratios and averages over them are
//! left to whoever prints the report.
use crate::model::addr::IpAddr;
use crate::model::stats::Real64;
use crate::store::evlog::EvlogReader;
use crate::store::evstats;
use crate::store::evstats::{
    CallCounts, Counters, EventCounts, FailSplit, SnapEntry, StatsAcc, StatsView, Tally, WinView,
    WindowAcc,
};
use vstd::prelude::*;

verus! {

broadcast use vstd::std_specs::hash::group_hash_axioms;

/// One five-minute window.
pub struct LossWindow {
    pub start_ts_us: u64,
    pub calls: usize,
    pub streams: usize,
    pub invites: usize,
    pub teardowns: u64,
    pub answered: u64,
    /// Answered, not found, rejected and busy together.
    pub effective: u64,
    pub completed: u64,
    pub canceled: u64,
    pub fail: FailSplit,
    pub pkts: u64,
    pub lost: u64,
    pub rtp_bytes: u64,
    pub sip_msgs: u64,
    pub rtts: Vec<Real64>,
}

pub struct LossView {
    pub start_ts_us: u64,
    pub calls: nat,
    pub streams: nat,
    pub invites: nat,
    pub teardowns: u64,
    pub answered: u64,
    pub effective: u64,
    pub completed: u64,
    pub canceled: u64,
    pub fail: FailSplit,
    pub pkts: u64,
    pub lost: u64,
    pub rtp_bytes: u64,
    pub sip_msgs: u64,
    pub rtts: Seq<Real64>,
}

impl View for LossWindow {
    type V = LossView;

    open spec fn view(&self) -> LossView {
        LossView {
            start_ts_us: self.start_ts_us,
            calls: self.calls as nat,
            streams: self.streams as nat,
            invites: self.invites as nat,
            teardowns: self.teardowns,
            answered: self.answered,
            effective: self.effective,
            completed: self.completed,
            canceled: self.canceled,
            fail: self.fail,
            pkts: self.pkts,
            lost: self.lost,
            rtp_bytes: self.rtp_bytes,
            sip_msgs: self.sip_msgs,
            rtts: self.rtts@,
        }
    }
}

/// Calls that the network served: answered, or failed by the called side.
pub open spec fn network_effective(answered: u64, f: FailSplit) -> u64 {
    answered.wrapping_add(f.notfound).wrapping_add(f.reject).wrapping_add(f.busy)
}

fn effective_of(answered: u64, f: FailSplit) -> (r: u64)
    ensures
        r == network_effective(answered, f),
{
    answered.wrapping_add(f.notfound).wrapping_add(f.reject).wrapping_add(f.busy)
}

/// What the report shows of a window.
pub open spec fn shown(w: WinView) -> LossView {
    LossView {
        start_ts_us: w.start_ts_us,
        calls: w.calls.len(),
        streams: w.streams.len(),
        invites: w.invites.len(),
        teardowns: w.teardowns,
        answered: w.answered,
        effective: network_effective(w.answered, w.fail),
        completed: w.completed,
        canceled: w.canceled,
        fail: w.fail,
        pkts: w.loss.pkts,
        lost: w.loss.lost,
        rtp_bytes: w.loss.bytes,
        sip_msgs: w.sip_msgs,
        rtts: w.rtts,
    }
}

/// Loss of one IP, sent and received.
#[derive(Debug, Clone, Copy, PartialEq, Eq, Structural)]
pub struct IpLoss {
    pub ip: IpAddr,
    pub pkts: u64,
    pub lost: u64,
    pub bytes: u64,
    pub loss_pct: Option<Real64>,
}

/// Call completion, from INVITEs and ends of calls.
pub struct Reliability {
    /// Calls that sent an INVITE.
    pub seizures: usize,
    pub answered: u64,
    /// Answered, not found, rejected and busy together.
    pub effective: u64,
    pub fail: FailSplit,
    /// Post-dial delays in milliseconds, ascending.
    pub pdds: Vec<u32>,
    pub p50_pdd_ms: Option<u32>,
    pub p95_pdd_ms: Option<u32>,
    /// Setup times in milliseconds.
    pub setups: Vec<u32>,
    /// Talk times and call durations in microseconds.
    pub talks: Vec<u64>,
    pub durations: Vec<u64>,
    /// The most frequent hangup codes, with their counts.
    pub hangup_codes: Vec<(u32, u64)>,
}

/// Volume and media quality.
pub struct Traffic {
    pub sip_msgs: u64,
    pub sip_bytes: u64,
    /// From the first to the last event.
    pub span_us: u64,
    /// For each call, the latest snapshot of its streams.
    pub quality: Vec<Vec<SnapEntry>>,
    pub rtts: Vec<Real64>,
    /// SIP responses by class: index 1 to 6.
    pub sip_class: Vec<u64>,
}

/// The whole report.
pub struct EvlogStats {
    pub file: String,
    pub bytes: u64,
    pub tz_offset_secs: Option<i32>,
    pub start_ts_us: Option<u64>,
    pub end_ts_us: Option<u64>,
    pub events: EventCounts,
    pub calls: CallCounts,
    pub reliability: Reliability,
    pub traffic: Traffic,
    pub loss: Counters,
    pub windows: Vec<LossWindow>,
    pub top_ips: Vec<IpLoss>,
}

pub open spec fn loss_views(v: Seq<LossWindow>) -> Seq<LossView> {
    v.map_values(|w: LossWindow| w@)
}

// ----------------------------- hangup codes -----------------------------

/// Whether code `a` ranks ahead of `b`: it is more frequent, or as frequent and
/// lower.
pub open spec fn code_ahead(a: (u32, u64), b: (u32, u64)) -> bool {
    a.1 > b.1 || (a.1 == b.1 && a.0 < b.0)
}

/// Behind how many of the first `n` codes one belongs.
pub open spec fn code_place(v: Seq<(u32, u64)>, c: (u32, u64), n: int) -> int
    decreases n,
{
    if n > 0 && code_ahead(c, v[n - 1]) {
        code_place(v, c, n - 1)
    } else {
        n
    }
}

/// The first `n` codes in the order of their rank.
pub open spec fn ranked_codes(v: Seq<(u32, u64)>, n: int) -> Seq<(u32, u64)>
    decreases n,
{
    if n <= 0 {
        Seq::empty()
    } else {
        let s = ranked_codes(v, n - 1);
        s.insert(code_place(s, v[n - 1], s.len() as int), v[n - 1])
    }
}

pub open spec fn at_most<T>(s: Seq<T>, n: nat) -> Seq<T> {
    if s.len() <= n {
        s
    } else {
        s.take(n as int)
    }
}

/// The `n` most frequent codes; of two as frequent the lower one first.
pub fn top_codes(codes: &Vec<(u32, u64)>, n: usize) -> (r: Vec<(u32, u64)>)
    ensures
        r@ == at_most(ranked_codes(codes@, codes@.len() as int), n as nat),
{
    let mut out: Vec<(u32, u64)> = Vec::new();
    let mut i: usize = 0;
    while i < codes.len()
        invariant
            i <= codes.len(),
            out@ == ranked_codes(codes@, i as int),
        decreases codes.len() - i,
    {
        let c: (u32, u64) = codes[i];
        let ghost s = out@;
        let mut p: usize = out.len();
        while p > 0 && (c.1 > out[p - 1].1 || (c.1 == out[p - 1].1 && c.0 < out[p - 1].0))
            invariant
                p <= out.len(),
                out@ == s,
                code_place(s, c, s.len() as int) == code_place(s, c, p as int),
            decreases p,
        {
            p -= 1;
        }
        out.insert(p, c);
        i += 1;
    }
    out.truncate(n);
    out
}

// ----------------------------- IPs by loss -----------------------------

/// Loss for the ranking: none counts as zero.
pub open spec fn loss_rank(i: IpLoss) -> int {
    match i.loss_pct {
        Some(p) => p.rank(),
        None => 0,
    }
}

/// Whether IP `a` ranks ahead of `b`: it loses a greater share, or as great a
/// share and more packets.
pub open spec fn ip_ahead(a: IpLoss, b: IpLoss) -> bool {
    loss_rank(a) > loss_rank(b) || (loss_rank(a) == loss_rank(b) && a.lost > b.lost)
}

/// Behind how many of the first `n` IPs one belongs.
pub open spec fn ip_place(v: Seq<IpLoss>, x: IpLoss, n: int) -> int
    decreases n,
{
    if n > 0 && ip_ahead(x, v[n - 1]) {
        ip_place(v, x, n - 1)
    } else {
        n
    }
}

/// The IPs in the order of their rank; those of the same rank keep their order.
pub open spec fn ranked_ips(v: Seq<IpLoss>, n: int) -> Seq<IpLoss>
    decreases n,
{
    if n <= 0 {
        Seq::empty()
    } else {
        let s = ranked_ips(v, n - 1);
        s.insert(ip_place(s, v[n - 1], s.len() as int), v[n - 1])
    }
}

/// An IP with its counters and the share that it lost.
pub open spec fn with_pct(e: (IpAddr, Counters), pct: Option<Real64>) -> IpLoss {
    IpLoss { ip: e.0, pkts: e.1.pkts, lost: e.1.lost, bytes: e.1.bytes, loss_pct: pct }
}

pub open spec fn with_pcts(
    v: Seq<(IpAddr, Counters)>,
    pcts: Seq<Option<Real64>>,
) -> Seq<IpLoss> {
    Seq::new(v.len(), |i: int| with_pct(v[i], pcts[i]))
}

fn rank_of(i: &IpLoss) -> (r: i128)
    ensures
        r == loss_rank(*i),
{
    match i.loss_pct {
        Some(p) => p.to_rank(),
        None => 0,
    }
}

fn is_ip_ahead(a: &IpLoss, b: &IpLoss) -> (r: bool)
    ensures
        r == ip_ahead(*a, *b),
{
    let x: i128 = rank_of(a);
    let y: i128 = rank_of(b);
    x > y || (x == y && a.lost > b.lost)
}

/// The `n` IPs that lose most.
fn rank_ips(v: &Vec<(IpAddr, Counters)>, pcts: &Vec<Option<Real64>>, n: usize) -> (r: Vec<IpLoss>)
    requires
        pcts@.len() == v@.len(),
    ensures
        r@ == at_most(ranked_ips(with_pcts(v@, pcts@), v@.len() as int), n as nat),
{
    let ghost all = with_pcts(v@, pcts@);
    let mut out: Vec<IpLoss> = Vec::new();
    let mut i: usize = 0;
    while i < v.len()
        invariant
            i <= v.len(),
            pcts@.len() == v@.len(),
            all == with_pcts(v@, pcts@),
            out@ == ranked_ips(all, i as int),
        decreases v.len() - i,
    {
        let c: Counters = v[i].1;
        let x = IpLoss {
            ip: v[i].0,
            pkts: c.pkts,
            lost: c.lost,
            bytes: c.bytes,
            loss_pct: pcts[i],
        };
        assert(x == all[i as int]);
        let ghost s = out@;
        let mut p: usize = out.len();
        let mut going: bool = true;
        while going && p > 0
            invariant
                p <= out.len(),
                out@ == s,
                ip_place(s, x, s.len() as int) == ip_place(s, x, p as int),
                !going ==> ip_place(s, x, p as int) == p,
            decreases p + if going {
                1int
            } else {
                0int
            },
        {
            if is_ip_ahead(&x, &out[p - 1]) {
                p -= 1;
            } else {
                going = false;
            }
        }
        out.insert(p, x);
        i += 1;
    }
    out.truncate(n);
    out
}

// ----------------------------- percentiles -----------------------------

pub open spec fn in_order(v: Seq<u32>) -> bool {
    forall|i: int, j: int| 0 <= i <= j < v.len() ==> #[trigger] v[i] <= #[trigger] v[j]
}

/// Calls `sort_unstable` of slices. Claimed of it: the numbers stand in
/// ascending order afterwards, and they are the numbers that were there.
#[verifier::external_body]
fn sort_numbers(v: &mut Vec<u32>)
    ensures
        in_order(final(v)@),
        final(v)@.to_multiset() == old(v)@.to_multiset(),
{
    v.sort_unstable();
}

/// The index nearest to the `pct`-th percent of the way through `n` values, the
/// upper one of two as near.
pub open spec fn percentile_index(n: nat, pct: nat) -> int {
    ((n - 1) * pct + 50) / 100
}

/// The value at a percentile of an ascending list.
pub open spec fn at_percentile(v: Seq<u32>, pct: nat) -> Option<u32> {
    if v.len() == 0 {
        None
    } else {
        Some(v[percentile_index(v.len(), pct)])
    }
}

pub fn percentile(sorted: &Vec<u32>, pct: u32) -> (r: Option<u32>)
    requires
        pct <= 100,
    ensures
        r == at_percentile(sorted@, pct as nat),
{
    let n: usize = sorted.len();
    if n == 0 {
        return None;
    }
    assert(0 <= (n - 1) * pct <= (n - 1) * 100) by (nonlinear_arith)
        requires
            n >= 1,
            0 <= pct <= 100,
    ;
    let i: u128 = ((n as u128 - 1) * pct as u128 + 50) / 100;
    Some(sorted[i as usize])
}

// ----------------------------- sealing -----------------------------

fn show(w: WindowAcc) -> (r: LossWindow)
    ensures
        r@ == shown(w@),
{
    LossWindow {
        start_ts_us: w.start_ts_us,
        calls: w.calls.len(),
        streams: w.streams.len(),
        invites: w.invites.len(),
        teardowns: w.teardowns,
        answered: w.answered,
        effective: effective_of(w.answered, w.fail),
        completed: w.completed,
        canceled: w.canceled,
        fail: w.fail,
        pkts: w.loss.pkts,
        lost: w.loss.lost,
        rtp_bytes: w.loss.bytes,
        sip_msgs: w.sip_msgs,
        rtts: w.rtts,
    }
}

pub open spec fn all_shown(ws: Seq<WinView>) -> Seq<LossView> {
    ws.map_values(|w: WinView| shown(w))
}

fn show_all(ws: Vec<WindowAcc>) -> (r: Vec<LossWindow>)
    ensures
        loss_views(r@) == all_shown(evstats::win_views(ws@)),
{
    let ghost all = evstats::win_views(ws@);
    let mut rest = ws;
    let mut back: Vec<LossWindow> = Vec::new();
    while rest.len() > 0
        invariant
            all.len() == rest@.len() + back@.len(),
            forall|k: int| 0 <= k < rest@.len() ==> (#[trigger] rest@[k])@ == all[k],
            forall|k: int|
                0 <= k < back@.len() ==> (#[trigger] back@[k])@ == shown(all[all.len() - 1 - k]),
        decreases rest.len(),
    {
        if let Some(w) = rest.pop() {
            back.push(show(w));
        }
    }
    let mut out: Vec<LossWindow> = Vec::new();
    while back.len() > 0
        invariant
            all.len() == back@.len() + out@.len(),
            forall|k: int|
                0 <= k < back@.len() ==> (#[trigger] back@[k])@ == shown(all[all.len() - 1 - k]),
            forall|k: int| 0 <= k < out@.len() ==> (#[trigger] out@[k])@ == shown(all[k]),
        decreases back.len(),
    {
        if let Some(w) = back.pop() {
            out.push(w);
        }
    }
    assert(loss_views(out@) =~= all_shown(all));
    out
}

/// The time that a log spans.
pub open spec fn spanned(a: Option<u64>, b: Option<u64>) -> u64 {
    match (a, b) {
        (Some(x), Some(y)) => if y > x {
            (y - x) as u64
        } else {
            0
        },
        _ => 0,
    }
}

fn span_of(a: Option<u64>, b: Option<u64>) -> (r: u64)
    ensures
        r == spanned(a, b),
{
    match (a, b) {
        (Some(x), Some(y)) => if y > x {
            y - x
        } else {
            0
        },
        _ => 0,
    }
}

impl Reliability {
    /// Whether it is what the accumulator has gathered.
    pub open spec fn sums_up(self, s: StatsView) -> bool {
        &&& self.seizures == s.seized.len()
        &&& self.answered == s.answered
        &&& self.effective == network_effective(s.answered, s.fail)
        &&& self.fail == s.fail
        &&& in_order(self.pdds@)
        &&& self.pdds@.to_multiset() == s.pdds.to_multiset()
        &&& self.p50_pdd_ms == at_percentile(self.pdds@, 50)
        &&& self.p95_pdd_ms == at_percentile(self.pdds@, 95)
        &&& self.setups@ == s.setups
        &&& self.talks@ == s.talks
        &&& self.durations@ == s.durations
        &&& self.hangup_codes@ == at_most(ranked_codes(s.hangup, s.hangup.len() as int), 10)
    }
}

impl Traffic {
    pub open spec fn sums_up(self, s: StatsView) -> bool {
        &&& self.sip_msgs == s.events.sip
        &&& self.sip_bytes == s.sip_bytes
        &&& self.span_us == spanned(s.start_ts_us, s.end_ts_us)
        &&& evstats::snap_lists(self.quality@) == s.snaps
        &&& self.rtts@ == s.rtts
        &&& self.sip_class@ == s.sip_class
    }
}

impl EvlogStats {
    pub open spec fn sums_up(self, s: StatsView, pcts: Seq<Option<Real64>>, top_ips: nat) -> bool {
        &&& self.start_ts_us == s.start_ts_us
        &&& self.end_ts_us == s.end_ts_us
        &&& self.events == s.events
        &&& self.calls == (CallCounts { unique: s.ids.len() as usize, ..s.calls })
        &&& self.reliability.sums_up(s)
        &&& self.traffic.sums_up(s)
        &&& self.loss == s.all
        &&& loss_views(self.windows@) == all_shown(s.windows)
        &&& self.top_ips@ == at_most(
            ranked_ips(with_pcts(s.ip_loss, pcts), s.ip_loss.len() as int),
            top_ips,
        )
    }
}

impl StatsAcc {
    /// Seals the accumulator into the report. `pcts` holds the share of lost
    /// packets of each IP, by which at most `top_ips` of them are ranked.
    pub fn finish(
        self,
        file: String,
        bytes: u64,
        tz_offset_secs: Option<i32>,
        top_ips: usize,
        pcts: &Vec<Option<Real64>>,
    ) -> (r: EvlogStats)
        requires
            self.wf(),
            pcts@.len() == self.ip_loss@.len(),
        ensures
            r.file@ == file@,
            r.bytes == bytes,
            r.tz_offset_secs == tz_offset_secs,
            r.sums_up(self@, pcts@, top_ips as nat),
    {
        let unique: usize = self.ids.len();
        let mut calls: CallCounts = self.calls;
        calls.unique = unique;
        let seizures: usize = self.seized.len();
        let mut pdds = self.pdds;
        sort_numbers(&mut pdds);
        let p50: Option<u32> = percentile(&pdds, 50);
        let p95: Option<u32> = percentile(&pdds, 95);
        let hangup_codes = top_codes(&self.hangup, 10);
        let reliability = Reliability {
            seizures,
            answered: self.answered,
            effective: effective_of(self.answered, self.fail),
            fail: self.fail,
            pdds,
            p50_pdd_ms: p50,
            p95_pdd_ms: p95,
            setups: self.setups,
            talks: self.talks,
            durations: self.durations,
            hangup_codes,
        };
        let ranked = rank_ips(&self.ip_loss, pcts, top_ips);
        let traffic = Traffic {
            sip_msgs: self.events.sip,
            sip_bytes: self.sip_bytes,
            span_us: span_of(self.start_ts_us, self.end_ts_us),
            quality: self.snaps,
            rtts: self.rtts,
            sip_class: self.sip_class,
        };
        EvlogStats {
            file,
            bytes,
            tz_offset_secs,
            start_ts_us: self.start_ts_us,
            end_ts_us: self.end_ts_us,
            events: self.events,
            calls,
            reliability,
            traffic,
            loss: self.all,
            windows: show_all(self.windows),
            top_ips: ranked,
        }
    }
}

/// Reads a log to its end. What was gathered before a framing error is kept.
pub fn scan(reader: &mut EvlogReader) -> (r: StatsAcc)
    requires
        old(reader).wf(),
    ensures
        final(reader).wf(),
        r.wf(),
        r@ == StatsView::none().with_log(
            old(reader).data(),
            old(reader).pos(),
            old(reader).spec_last_ts(),
        ),
{
    let mut acc = StatsAcc::new();
    acc.ingest_log(reader);
    acc
}

// ----------------------------- laws -----------------------------

proof fn lemma_code_place(v: Seq<(u32, u64)>, c: (u32, u64), n: int)
    requires
        0 <= n <= v.len(),
    ensures
        0 <= code_place(v, c, n) <= n,
        code_place(v, c, n) > 0 ==> !code_ahead(c, v[code_place(v, c, n) - 1]),
        forall|k: int| code_place(v, c, n) <= k < n ==> code_ahead(c, #[trigger] v[k]),
    decreases n,
{
    if n > 0 && code_ahead(c, v[n - 1]) {
        lemma_code_place(v, c, n - 1);
    }
}

/// The codes are all there, and none stands behind one that it is ahead of.
pub proof fn law_codes_ranked(v: Seq<(u32, u64)>, n: int)
    requires
        0 <= n <= v.len(),
    ensures
        ranked_codes(v, n).to_multiset() == v.take(n).to_multiset(),
        forall|i: int, j: int|
            0 <= i < j < ranked_codes(v, n).len() ==> !code_ahead(
                #[trigger] ranked_codes(v, n)[j],
                #[trigger] ranked_codes(v, n)[i],
            ),
    decreases n,
{
    broadcast use vstd::seq_lib::group_to_multiset_ensures;

    if n > 0 {
        law_codes_ranked(v, n - 1);
        let s = ranked_codes(v, n - 1);
        let c = v[n - 1];
        let p = code_place(s, c, s.len() as int);
        lemma_code_place(s, c, s.len() as int);
        let r = ranked_codes(v, n);
        assert(r == s.insert(p, c));
        assert(v.take(n) =~= v.take(n - 1).push(c));
        assert forall|i: int, j: int| 0 <= i < j < r.len() implies !code_ahead(
            #[trigger] r[j],
            #[trigger] r[i],
        ) by {
            let a = if i < p {
                i
            } else {
                i - 1
            };
            let b = if j < p {
                j
            } else {
                j - 1
            };
            if j == p {
                if a < p - 1 {
                    assert(!code_ahead(s[p - 1], s[a]));
                }
            } else if i == p {
                assert(code_ahead(c, s[b]));
            }
        }
    } else {
        assert(v.take(n) =~= Seq::empty());
    }
}

proof fn lemma_ip_place(v: Seq<IpLoss>, x: IpLoss, n: int)
    requires
        0 <= n <= v.len(),
    ensures
        0 <= ip_place(v, x, n) <= n,
        ip_place(v, x, n) > 0 ==> !ip_ahead(x, v[ip_place(v, x, n) - 1]),
        forall|k: int| ip_place(v, x, n) <= k < n ==> ip_ahead(x, #[trigger] v[k]),
    decreases n,
{
    if n > 0 && ip_ahead(x, v[n - 1]) {
        lemma_ip_place(v, x, n - 1);
    }
}

/// The IPs are all there, and none stands behind one that loses less.
pub proof fn law_ips_ranked(v: Seq<IpLoss>, n: int)
    requires
        0 <= n <= v.len(),
    ensures
        ranked_ips(v, n).to_multiset() == v.take(n).to_multiset(),
        forall|i: int, j: int|
            0 <= i < j < ranked_ips(v, n).len() ==> !ip_ahead(
                #[trigger] ranked_ips(v, n)[j],
                #[trigger] ranked_ips(v, n)[i],
            ),
    decreases n,
{
    broadcast use vstd::seq_lib::group_to_multiset_ensures;

    if n > 0 {
        law_ips_ranked(v, n - 1);
        let s = ranked_ips(v, n - 1);
        let x = v[n - 1];
        let p = ip_place(s, x, s.len() as int);
        lemma_ip_place(s, x, s.len() as int);
        let r = ranked_ips(v, n);
        assert(r == s.insert(p, x));
        assert(v.take(n) =~= v.take(n - 1).push(x));
        assert forall|i: int, j: int| 0 <= i < j < r.len() implies !ip_ahead(
            #[trigger] r[j],
            #[trigger] r[i],
        ) by {
            let a = if i < p {
                i
            } else {
                i - 1
            };
            let b = if j < p {
                j
            } else {
                j - 1
            };
            if j == p {
                if a < p - 1 {
                    assert(!ip_ahead(s[p - 1], s[a]));
                }
            } else if i == p {
                assert(ip_ahead(x, s[b]));
            }
        }
    } else {
        assert(v.take(n) =~= Seq::empty());
    }
}

impl LossView {
    pub open spec fn tally(self) -> Tally {
        Tally {
            loss: Counters { pkts: self.pkts, lost: self.lost, bytes: self.rtp_bytes },
            sip_msgs: self.sip_msgs,
            answered: self.answered,
        }
    }
}

/// The counts of the first `n` windows of a report together.
pub open spec fn shown_tally(ws: Seq<LossView>, n: int) -> Tally
    decreases n,
{
    if n <= 0 {
        Tally::none()
    } else {
        shown_tally(ws, n - 1).plus(ws[n - 1].tally())
    }
}

proof fn lemma_shown_tally(ws: Seq<WinView>, n: int)
    requires
        0 <= n <= ws.len(),
    ensures
        shown_tally(all_shown(ws), n) == evstats::windows_tally(ws, n),
    decreases n,
{
    if n > 0 {
        lemma_shown_tally(ws, n - 1);
        assert(all_shown(ws)[n - 1] == shown(ws[n - 1]));
    }
}

/// A report of counts that add up adds up: its windows stand in order, each begins at
/// a multiple of five minutes, and together they count the packets, messages and
/// answers of the whole; every failed call has one reason; and the ranked IPs are no
/// more than asked for, none behind one that loses less.
pub proof fn law_report_adds_up(
    r: EvlogStats,
    s: StatsView,
    pcts: Seq<Option<Real64>>,
    top_ips: nat,
)
    requires
        evstats::adds_up(s),
        r.sums_up(s, pcts, top_ips),
    ensures
        forall|i: int, j: int|
            0 <= i < j < r.windows@.len() ==> (#[trigger] r.windows@[i])@.start_ts_us < (
            #[trigger] r.windows@[j])@.start_ts_us,
        forall|i: int|
            0 <= i < r.windows@.len() ==> (#[trigger] r.windows@[i])@.start_ts_us
                % evstats::WINDOW_US == 0,
        shown_tally(loss_views(r.windows@), r.windows@.len() as int) == (Tally {
            loss: r.loss,
            sip_msgs: r.traffic.sip_msgs,
            answered: r.reliability.answered,
        }),
        r.calls.failed == evstats::split_total(r.reliability.fail),
        r.top_ips@.len() <= top_ips,
        forall|i: int, j: int|
            0 <= i < j < r.top_ips@.len() ==> !ip_ahead(
                #[trigger] r.top_ips@[j],
                #[trigger] r.top_ips@[i],
            ),
{
    let ws = s.windows;
    assert(loss_views(r.windows@) == all_shown(ws));
    assert(r.windows@.len() == ws.len());
    assert forall|i: int| 0 <= i < ws.len() implies (#[trigger] r.windows@[i])@ == shown(ws[i]) by {
        assert(loss_views(r.windows@)[i] == all_shown(ws)[i]);
    }
    lemma_shown_tally(ws, ws.len() as int);
    law_ips_ranked(with_pcts(s.ip_loss, pcts), s.ip_loss.len() as int);
}

} // verus!
