//! RTP sequence accounting: loss with a 64-packet reorder window (RFC 3550).
use crate::decode::rtp;
use vstd::prelude::*;
use vstd::set::*;
use vstd::set_lib::*;

verus! {

pub const RTP_REORDER_WINDOW: u16 = 64;

/// The parts of an RTP header that the statistics need.
#[derive(Debug, Clone, Copy, PartialEq, Eq, Structural)]
pub struct RtpStatsHeader {
    pub payload_type: u8,
    pub sequence_number: u16,
    pub rtp_timestamp: u32,
    pub ssrc: u32,
}

/// How far `a` lies ahead of `b`, modulo 2^16.
pub open spec fn ahead(a: u16, b: u16) -> int {
    (a - b) % 0x1_0000
}

/// Sequence numbers seen so far: the first and the latest, how many are given
/// up as lost, and which are missing but may still come.
pub struct SeqState {
    pub first: Option<u16>,
    pub last: Option<u16>,
    pub lost: nat,
    pub pending: Set<u16>,
}

pub open spec fn at_most(n: int, max: int) -> int {
    if n <= max {
        n
    } else {
        max
    }
}

/// The last `n` sequence numbers before `cur`.
pub open spec fn just_before(cur: u16, n: int) -> Set<u16> {
    Set::new(|x: u16| 1 <= ahead(cur, x) <= n)
}

/// The missing ones that are too old to come, seen from `last`.
pub open spec fn expired(pending: Set<u16>, last: u16) -> Set<u16> {
    pending.filter(|x: u16| RTP_REORDER_WINDOW < ahead(last, x) < 0x8000)
}

/// A gap before `cur`: the latest 64 missing may still come, the others are
/// lost.
pub open spec fn defer(s: SeqState, prev: u16, cur: u16) -> SeqState {
    let missing = ahead(cur, prev) - 1;
    let kept = at_most(missing, RTP_REORDER_WINDOW as int);
    SeqState {
        lost: (s.lost + (missing - kept)) as nat,
        pending: s.pending.union(just_before(cur, kept)),
        ..s
    }
}

pub open spec fn expire(s: SeqState) -> SeqState {
    match s.last {
        Some(last) => {
            let e = expired(s.pending, last);
            SeqState { lost: s.lost + e.len(), pending: s.pending.difference(e), ..s }
        },
        None => s,
    }
}

/// The arrival of a sequence number. One that lies behind the latest fills the
/// gap that it left.
pub open spec fn seq_step(s: SeqState, seq: u16) -> SeqState {
    if s.first is None {
        SeqState { first: Some(seq), last: Some(seq), ..s }
    } else {
        match s.last {
            None => SeqState { last: Some(seq), ..s },
            Some(last) => {
                let diff = ahead(seq, last);
                if diff == 0 {
                    s
                } else if diff < 0x8000 {
                    expire(
                        SeqState {
                            last: Some(seq),
                            ..if diff > 1 {
                                defer(s, last, seq)
                            } else {
                                s
                            }
                        },
                    )
                } else {
                    SeqState { pending: s.pending.remove(seq), ..s }
                }
            },
        }
    }
}

/// Counts of a stream.
#[derive(Debug, Clone, Copy, PartialEq, Eq, Structural)]
pub struct MediaStats {
    pub packet_count: u64,
    pub lost_packets: u64,
    pub expected_packets: u64,
    pub payload_type: Option<u8>,
    pub clock_rate: Option<u32>,
}

/// What one packet contributes to the interarrival jitter.
#[derive(Debug, Clone, Copy, PartialEq, Eq, Structural)]
pub struct JitterStep {
    pub arrival_delta_us: i128,
    pub rtp_delta: i64,
    pub clock_rate: u32,
}

pub struct MediaStatsAccumulator {
    pub packet_count: u64,
    pub lost_packets: u64,
    pub payload_type: Option<u8>,
    pub clock_rate: Option<u32>,
    pub first_sequence: Option<u16>,
    pub last_sequence: Option<u16>,
    /// Missing sequence numbers that may still come, each once.
    pub pending_missing: Vec<u16>,
    pub prev_arrival_micros: Option<u64>,
    pub prev_rtp_timestamp: Option<u32>,
}

impl MediaStatsAccumulator {
    pub open spec fn seq(self) -> SeqState {
        SeqState {
            first: self.first_sequence,
            last: self.last_sequence,
            lost: self.lost_packets as nat,
            pending: self.pending_missing@.to_set(),
        }
    }

    /// Nothing is pending twice.
    pub open spec fn wf(self) -> bool {
        self.pending_missing@.no_duplicates()
    }

    /// What is not about sequence numbers.
    pub open spec fn rest(self) -> (u64, Option<u8>, Option<u32>, Option<u64>, Option<u32>) {
        (
            self.packet_count,
            self.payload_type,
            self.clock_rate,
            self.prev_arrival_micros,
            self.prev_rtp_timestamp,
        )
    }

    pub fn new() -> (r: MediaStatsAccumulator)
        ensures
            r.wf(),
            r.seq() == (SeqState { first: None, last: None, lost: 0, pending: Set::empty() }),
            r.rest() == (0u64, None::<u8>, None::<u32>, None::<u64>, None::<u32>),
    {
        let r = MediaStatsAccumulator {
            packet_count: 0,
            lost_packets: 0,
            payload_type: None,
            clock_rate: None,
            first_sequence: None,
            last_sequence: None,
            pending_missing: Vec::new(),
            prev_arrival_micros: None,
            prev_rtp_timestamp: None,
        };
        assert(r.pending_missing@.to_set() =~= Set::<u16>::empty());
        r
    }

    fn index_of(&self, seq: u16) -> (r: Option<usize>)
        ensures
            match r {
                Some(i) => i < self.pending_missing@.len() && self.pending_missing@[i as int]
                    == seq,
                None => !self.pending_missing@.contains(seq),
            },
    {
        let mut i: usize = 0;
        while i < self.pending_missing.len()
            invariant
                i <= self.pending_missing.len(),
                forall|k: int| 0 <= k < i ==> self.pending_missing@[k] != seq,
            decreases self.pending_missing.len() - i,
        {
            if self.pending_missing[i] == seq {
                return Some(i);
            }
            i += 1;
        }
        None
    }

    /// Notes the gap between two sequence numbers.
    fn defer_missing(&mut self, prev: u16, cur: u16)
        requires
            old(self).wf(),
            2 <= ahead(cur, prev) < 0x8000,
            old(self).lost_packets <= u64::MAX - 0x1_0000,
        ensures
            final(self).wf(),
            final(self).seq() == defer(old(self).seq(), prev, cur),
            final(self).rest() == old(self).rest(),
            final(self).lost_packets <= old(self).lost_packets + 0x8000,
    {
        let missing: u32 = (cur as u32 + 0x1_0000 - prev as u32) % 0x1_0000 - 1;
        let kept: u32 = if missing <= RTP_REORDER_WINDOW as u32 {
            missing
        } else {
            RTP_REORDER_WINDOW as u32
        };
        let ghost start = self.pending_missing@;
        self.lost_packets = self.lost_packets + (missing - kept) as u64;
        let mut k: u32 = 0;
        // The oldest of those kept comes first.
        while k < kept
            invariant
                k <= kept <= missing,
                kept <= 64,
                missing < 0x8000,
                self.wf(),
                self.rest() == old(self).rest(),
                self.first_sequence == old(self).first_sequence,
                self.last_sequence == old(self).last_sequence,
                self.lost_packets == old(self).lost_packets + (missing - kept),
                forall|x: u16|
                    #[trigger] self.pending_missing@.contains(x) <==> start.contains(x) || kept - k
                        < ahead(cur, x) <= kept,
            decreases kept - k,
        {
            let x: u16 = ((cur as u32 + 0x1_0000 - (kept - k)) % 0x1_0000) as u16;
            assert(ahead(cur, x) == kept - k) by {
                lemma_ahead_of_back(cur, (kept - k) as int);
            }
            let ghost before = self.pending_missing@;
            if self.index_of(x).is_none() {
                self.pending_missing.push(x);
                assert(self.pending_missing@[before.len() as int] == x);
            }
            proof {
                lemma_push_contains(before, x);
                assert forall|y: u16| #[trigger]
                    self.pending_missing@.contains(y) <==> start.contains(y) || kept - (k + 1)
                        < ahead(cur, y) <= kept by {
                    assert(before.contains(y) <==> start.contains(y) || kept - k < ahead(cur, y)
                        <= kept);
                    if ahead(cur, y) == kept - k {
                        lemma_ahead_injective(cur, x, y);
                    }
                }
            }
            k += 1;
        }
        proof {
            assert forall|x: u16| self.seq().pending.contains(x) <==> start.to_set().union(
                just_before(cur, kept as int),
            ).contains(x) by {
                assert(self.pending_missing@.contains(x) <==> start.contains(x) || 0 < ahead(cur, x)
                    <= kept);
            }
            assert(self.seq().pending =~= start.to_set().union(just_before(cur, kept as int)));
        }
    }

    /// Gives up what is too old to come.
    fn expire_missing(&mut self)
        requires
            old(self).wf(),
            old(self).lost_packets <= u64::MAX - 0x1_0000,
            old(self).last_sequence is Some,
        ensures
            final(self).wf(),
            final(self).seq() == expire(old(self).seq()),
            final(self).rest() == old(self).rest(),
    {
        let last: u16 = match self.last_sequence {
            Some(l) => l,
            None => return,
        };
        let ghost all = self.pending_missing@;
        let mut kept: Vec<u16> = Vec::new();
        let ghost mut gone: Seq<u16> = Seq::empty();
        let mut i: usize = 0;
        proof {
            lemma_u16_seq_bound(all);
        }
        while i < self.pending_missing.len()
            invariant
                i <= self.pending_missing.len(),
                self.pending_missing@ == all,
                all.no_duplicates(),
                all.len() <= 0x1_0000,
                self.rest() == old(self).rest(),
                self.first_sequence == old(self).first_sequence,
                self.last_sequence == Some(last),
                gone.len() <= i,
                self.lost_packets == old(self).lost_packets + gone.len(),
                old(self).lost_packets <= u64::MAX - 0x1_0000,
                kept@.no_duplicates(),
                gone.no_duplicates(),
                forall|x: u16|
                    #[trigger] kept@.contains(x) <==> all.take(i as int).contains(x) && !(
                    RTP_REORDER_WINDOW < ahead(last, x) < 0x8000),
                forall|x: u16|
                    #[trigger] gone.contains(x) <==> all.take(i as int).contains(x)
                        && RTP_REORDER_WINDOW < ahead(last, x) < 0x8000,
            decreases self.pending_missing.len() - i,
        {
            let x: u16 = self.pending_missing[i];
            let age: u32 = (last as u32 + 0x1_0000 - x as u32) % 0x1_0000;
            let ghost k0 = kept@;
            let ghost g0 = gone;
            proof {
                lemma_ahead_exec(last, x);
                assert(!all.take(i as int).contains(x)) by {
                    if all.take(i as int).contains(x) {
                        let j = choose|j: int| 0 <= j < i && all.take(i as int)[j] == x;
                        assert(all[j] == all[i as int]);
                    }
                }
                assert(all.take(i + 1) =~= all.take(i as int).push(x));
                lemma_push_contains(all.take(i as int), x);
            }
            if age > RTP_REORDER_WINDOW as u32 && age < 0x8000 {
                self.lost_packets = self.lost_packets + 1;
                proof {
                    gone = gone.push(x);
                    lemma_push_contains(g0, x);
                }
            } else {
                kept.push(x);
                proof {
                    lemma_push_contains(k0, x);
                }
            }
            proof {
                assert(age == ahead(last, x));
                assert forall|y: u16| #[trigger]
                    kept@.contains(y) <==> all.take(i + 1).contains(y) && !(RTP_REORDER_WINDOW
                        < ahead(last, y) < 0x8000) by {
                    assert(k0.contains(y) <==> all.take(i as int).contains(y) && !(
                    RTP_REORDER_WINDOW < ahead(last, y) < 0x8000));
                }
                assert forall|y: u16| #[trigger]
                    gone.contains(y) <==> all.take(i + 1).contains(y) && RTP_REORDER_WINDOW
                        < ahead(last, y) < 0x8000 by {
                    assert(g0.contains(y) <==> all.take(i as int).contains(y) && RTP_REORDER_WINDOW
                        < ahead(last, y) < 0x8000);
                }
            }
            i += 1;
        }
        proof {
            assert(all.take(i as int) =~= all);
            gone.unique_seq_to_set();
            assert forall|x: u16| gone.contains(x) <==> expired(all.to_set(), last).contains(x) by {
                assert(gone.contains(x) <==> all.contains(x) && RTP_REORDER_WINDOW < ahead(last, x)
                    < 0x8000);
            }
            assert forall|x: u16| kept@.contains(x) <==> all.to_set().difference(
                expired(all.to_set(), last),
            ).contains(x) by {
                assert(kept@.contains(x) <==> all.contains(x) && !(RTP_REORDER_WINDOW < ahead(last, x)
                    < 0x8000));
            }
            assert(gone.to_set() =~= expired(all.to_set(), last));
            assert(kept@.to_set() =~= all.to_set().difference(expired(all.to_set(), last)));
        }
        self.pending_missing = kept;
    }

    /// The arrival of a sequence number.
    pub fn observe_sequence(&mut self, seq: u16)
        requires
            old(self).wf(),
            old(self).lost_packets <= u64::MAX - 0x2_0000,
        ensures
            final(self).wf(),
            final(self).seq() == seq_step(old(self).seq(), seq),
            final(self).rest() == old(self).rest(),
    {
        if self.first_sequence.is_none() {
            self.first_sequence = Some(seq);
            self.last_sequence = Some(seq);
            return;
        }
        let last: u16 = match self.last_sequence {
            Some(l) => l,
            None => {
                self.last_sequence = Some(seq);
                return;
            },
        };
        let diff: u32 = (seq as u32 + 0x1_0000 - last as u32) % 0x1_0000;
        if diff == 0 {
            return;
        }
        if diff < 0x8000 {
            if diff > 1 {
                self.defer_missing(last, seq);
            }
            self.last_sequence = Some(seq);
            self.expire_missing();
        } else if let Some(i) = self.index_of(seq) {
            let ghost all = self.pending_missing@;
            let _x: u16 = self.pending_missing.swap_remove(i);
            proof {
                lemma_swap_removed(all, i as int);
            }
        } else {
            assert(self.pending_missing@.to_set().remove(seq) =~= self.pending_missing@.to_set());
        }
    }

    /// Counts a packet. What it contributes to the jitter is returned from the
    /// second packet with a header on. The clock is that of the first payload
    /// type.
    pub fn observe(&mut self, arrival_micros: u64, header: Option<RtpStatsHeader>) -> (r: Option<
        JitterStep,
    >)
        requires
            old(self).wf(),
            old(self).packet_count < u64::MAX,
            old(self).lost_packets <= u64::MAX - 0x2_0000,
        ensures
            final(self).wf(),
            final(self).packet_count == old(self).packet_count + 1,
            match header {
                None => {
                    &&& r is None
                    &&& final(self).seq() == old(self).seq()
                    &&& final(self).rest() == (
                        final(self).packet_count,
                        old(self).payload_type,
                        old(self).clock_rate,
                        old(self).prev_arrival_micros,
                        old(self).prev_rtp_timestamp,
                    )
                },
                Some(h) => {
                    let rate = match old(self).clock_rate {
                        Some(c) => c,
                        None => rtp::static_clock_rate(h.payload_type),
                    };
                    &&& final(self).seq() == seq_step(old(self).seq(), h.sequence_number)
                    &&& final(self).rest() == (
                        final(self).packet_count,
                        match old(self).payload_type {
                            Some(p) => Some(p),
                            None => Some(h.payload_type),
                        },
                        Some(rate),
                        Some(arrival_micros),
                        Some(h.rtp_timestamp),
                    )
                    &&& r == match (old(self).prev_arrival_micros, old(self).prev_rtp_timestamp) {
                        (Some(a), Some(t)) => Some(
                            JitterStep {
                                arrival_delta_us: (arrival_micros - a) as i128,
                                rtp_delta: ts_delta(h.rtp_timestamp, t),
                                clock_rate: rate,
                            },
                        ),
                        _ => None,
                    }
                },
            },
    {
        self.packet_count = self.packet_count + 1;
        let h = match header {
            Some(h) => h,
            None => return None,
        };
        if self.payload_type.is_none() {
            self.payload_type = Some(h.payload_type);
        }
        let rate: u32 = match self.clock_rate {
            Some(c) => c,
            None => rtp::rtp_clock_rate_for_payload_type(h.payload_type),
        };
        self.clock_rate = Some(rate);
        self.observe_sequence(h.sequence_number);
        let step = match (self.prev_arrival_micros, self.prev_rtp_timestamp) {
            (Some(a), Some(t)) => Some(
                JitterStep {
                    arrival_delta_us: arrival_micros as i128 - a as i128,
                    rtp_delta: rtp_ts_delta(h.rtp_timestamp, t),
                    clock_rate: rate,
                },
            ),
            _ => None,
        };
        self.prev_arrival_micros = Some(arrival_micros);
        self.prev_rtp_timestamp = Some(h.rtp_timestamp);
        step
    }

    /// The counts so far. What is still missing counts as lost.
    pub fn snapshot(&self) -> (r: MediaStats)
        requires
            self.wf(),
            self.packet_count + self.lost_packets + self.pending_missing@.len() <= u64::MAX,
        ensures
            r.packet_count == self.packet_count,
            r.lost_packets == self.seq().lost + self.seq().pending.len(),
            r.expected_packets == r.packet_count + r.lost_packets,
            r.payload_type == self.payload_type,
            r.clock_rate == self.clock_rate,
    {
        proof {
            self.pending_missing@.unique_seq_to_set();
        }
        let lost: u64 = self.lost_packets + self.pending_missing.len() as u64;
        MediaStats {
            packet_count: self.packet_count,
            lost_packets: lost,
            expected_packets: self.packet_count + lost,
            payload_type: self.payload_type,
            clock_rate: self.clock_rate,
        }
    }
}

/// Signed distance of two RTP timestamps, the shorter way round.
pub open spec fn ts_delta(cur: u32, prev: u32) -> i64 {
    let f = (cur - prev) % 0x1_0000_0000;
    if f <= 0x7fff_ffff {
        f as i64
    } else {
        (f - 0x1_0000_0000) as i64
    }
}

/// How far the RTP timestamp moved, modulo 2^32.
pub fn rtp_ts_delta(cur: u32, prev: u32) -> (r: i64)
    ensures
        r == ts_delta(cur, prev),
{
    let forward: i64 = (cur as i64 + 0x1_0000_0000 - prev as i64) % 0x1_0000_0000;
    if forward <= 0x7fff_ffff {
        forward
    } else {
        forward - 0x1_0000_0000
    }
}

// ----------------------------- laws -----------------------------

proof fn lemma_ahead_exec(a: u16, b: u16)
    ensures
        ahead(a, b) == (a as u32 + 0x1_0000 - b as u32) as int % 0x1_0000,
{
    if a >= b {
        assert((a - b) % 0x1_0000 == a - b);
    } else {
        assert((a - b) % 0x1_0000 == a - b + 0x1_0000);
    }
}

proof fn lemma_ahead_injective(c: u16, x: u16, y: u16)
    requires
        ahead(c, x) == ahead(c, y),
    ensures
        x == y,
{
    lemma_ahead_exec(c, x);
    lemma_ahead_exec(c, y);
}

proof fn lemma_ahead_of_back(c: u16, n: int)
    requires
        0 <= n < 0x1_0000,
    ensures
        ahead(c, ((c + 0x1_0000 - n) % 0x1_0000) as u16) == n,
{
    let x = ((c + 0x1_0000 - n) % 0x1_0000) as u16;
    lemma_ahead_exec(c, x);
    if n <= c {
        assert(x == c - n);
    } else {
        assert(x == c + 0x1_0000 - n);
    }
}

proof fn lemma_push_contains(s: Seq<u16>, x: u16)
    ensures
        forall|y: u16| s.push(x).contains(y) <==> s.contains(y) || y == x,
        s.no_duplicates() && !s.contains(x) ==> s.push(x).no_duplicates(),
{
    assert forall|y: u16| s.push(x).contains(y) <==> s.contains(y) || y == x by {
        if s.contains(y) {
            let j = choose|j: int| 0 <= j < s.len() && s[j] == y;
            assert(s.push(x)[j] == y);
        }
        assert(s.push(x)[s.len() as int] == x);
        if s.push(x).contains(y) {
            let j = choose|j: int| 0 <= j < s.push(x).len() && s.push(x)[j] == y;
            if j < s.len() {
                assert(s[j] == y);
            }
        }
    }
}

proof fn lemma_u16_seq_bound(s: Seq<u16>)
    requires
        s.no_duplicates(),
    ensures
        s.len() <= 0x1_0000,
{
    let ints = s.map_values(|x: u16| x as int);
    assert(ints.no_duplicates()) by {
        assert forall|i: int, j: int| 0 <= i < ints.len() && 0 <= j < ints.len() && i != j implies ints[i]
            != ints[j] by {
            assert(s[i] != s[j]);
        }
    }
    ints.unique_seq_to_set();
    let all = set_int_range(0, 0x1_0000);
    lemma_int_range(0, 0x1_0000);
    assert(ints.to_set().subset_of(all)) by {
        assert forall|v: int| ints.to_set().contains(v) implies all.contains(v) by {
            let j = choose|j: int| 0 <= j < ints.len() && ints[j] == v;
            assert(ints[j] == s[j] as int);
        }
    }
    lemma_len_subset(ints.to_set(), all);
}

proof fn lemma_swap_removed(s: Seq<u16>, i: int)
    requires
        s.no_duplicates(),
        0 <= i < s.len(),
    ensures
        s.update(i, s.last()).drop_last().no_duplicates(),
        s.update(i, s.last()).drop_last().to_set() == s.to_set().remove(s[i]),
{
    let t = s.update(i, s.last()).drop_last();
    assert forall|y: u16| t.contains(y) <==> s.contains(y) && y != s[i] by {
        if t.contains(y) {
            let j = choose|j: int| 0 <= j < t.len() && t[j] == y;
            if j == i {
                assert(s[s.len() - 1] == y);
            } else {
                assert(s[j] == y);
            }
        }
        if s.contains(y) && y != s[i] {
            let j = choose|j: int| 0 <= j < s.len() && s[j] == y;
            if j == s.len() - 1 {
                assert(t[i] == y);
            } else {
                assert(t[j] == y);
            }
        }
    }
    assert(t.to_set() =~= s.to_set().remove(s[i]));
}

/// Everything that is missing lies in the window behind the latest.
pub open spec fn in_window(s: SeqState) -> bool {
    &&& s.pending.finite()
    &&& s.last is Some
    &&& s.first is Some
    &&& forall|x: u16|
        s.pending.contains(x) ==> 1 <= #[trigger] ahead(s.last->Some_0, x) <= RTP_REORDER_WINDOW
}

proof fn lemma_just_before_len(cur: u16, n: nat)
    requires
        n <= 64,
    ensures
        just_before(cur, n as int).finite(),
        just_before(cur, n as int).len() == n,
    decreases n,
{
    if n == 0 {
        assert(just_before(cur, 0) =~= Set::<u16>::empty());
    } else {
        lemma_just_before_len(cur, (n - 1) as nat);
        let x: u16 = ((cur - n) % 0x1_0000) as u16;
        assert(ahead(cur, x) == n);
        assert(just_before(cur, n as int) =~= just_before(cur, n - 1).insert(x)) by {
            assert forall|y: u16| #[trigger] just_before(cur, n as int).contains(y) implies just_before(
                cur,
                n - 1,
            ).insert(x).contains(y) by {
                if ahead(cur, y) == n {
                    assert(y == x);
                }
            }
        }
    }
}

/// Nothing is counted twice and nothing is forgotten: a packet that moves the
/// stream on by `d` adds the `d - 1` it skipped to those lost or missing, and
/// the window invariant is kept. Steps of nearly half the number range are left
/// out: they leave numbers missing that are too far behind to tell from ones
/// ahead.
pub proof fn law_forward_step(s: SeqState, seq: u16)
    requires
        in_window(s),
        1 <= ahead(seq, s.last->Some_0) < 0x8000 - RTP_REORDER_WINDOW,
    ensures
        in_window(seq_step(s, seq)),
        seq_step(s, seq).lost + seq_step(s, seq).pending.len() == s.lost + s.pending.len() + ahead(
            seq,
            s.last->Some_0,
        ) - 1,
{
    let last = s.last->Some_0;
    let d = ahead(seq, last);
    let missing = d - 1;
    let kept = at_most(missing, RTP_REORDER_WINDOW as int);
    let added = just_before(seq, kept);
    lemma_just_before_len(seq, kept as nat);
    let s1 = SeqState {
        last: Some(seq),
        ..if d > 1 {
            defer(s, last, seq)
        } else {
            s
        }
    };
    if d == 1 {
        assert(added =~= Set::<u16>::empty());
        assert(s.pending.union(added) =~= s.pending);
    }
    assert(s1.pending =~= s.pending.union(added));
    assert forall|x: u16| s.pending.contains(x) implies ahead(seq, x) == ahead(last, x) + d by {
        assert(1 <= ahead(last, x) <= RTP_REORDER_WINDOW);
    }
    assert(s.pending.disjoint(added)) by {
        assert forall|x: u16| s.pending.contains(x) implies !added.contains(x) by {
            assert(1 <= ahead(last, x) <= RTP_REORDER_WINDOW);
            assert(ahead(seq, x) == ahead(last, x) + d);
        }
    }
    lemma_set_disjoint_lens(s.pending, added);
    let e = expired(s1.pending, seq);
    let rest = s1.pending.difference(e);
    assert(rest.disjoint(e));
    assert(rest.union(e) =~= s1.pending);
    lemma_set_disjoint_lens(rest, e);
    assert forall|x: u16| rest.contains(x) implies 1 <= #[trigger] ahead(seq, x)
        <= RTP_REORDER_WINDOW by {
        if s.pending.contains(x) {
            assert(1 <= ahead(last, x) <= RTP_REORDER_WINDOW);
            assert(ahead(seq, x) == ahead(last, x) + d);
        }
    }
}

/// A late packet takes itself off the missing ones, if it is among them, and
/// changes nothing else.
pub proof fn law_late_packet(s: SeqState, seq: u16)
    requires
        in_window(s),
        ahead(seq, s.last->Some_0) >= 0x8000,
    ensures
        in_window(seq_step(s, seq)),
        seq_step(s, seq).lost == s.lost,
        seq_step(s, seq).last == s.last,
        seq_step(s, seq).pending.len() == s.pending.len() - if s.pending.contains(seq) {
            1int
        } else {
            0
        },
{
}

} // verus!
