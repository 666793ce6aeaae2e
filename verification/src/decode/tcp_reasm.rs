//! Content-Length based SIP-over-TCP stream reassembly.
//!
//! Buffers bytes per (directed) flow and yields complete SIP messages, however
//! the segments cut them. Lost or reordered segments are not repaired.
use crate::model::packet::Flow5Tuple;
use crate::text;
use crate::text::{
    chars_of, eq_ignore_case, lines, lossy_string, parse_uint, split_once, trim,
};
use vstd::prelude::*;
use vstd::slice::slice_subrange;

verus! {

/// Per-flow reassembly buffer cap (1 MiB). A flow over it is considered
/// misframed and its buffer is dropped.
pub const MAX_STREAM_BUF: usize = 1_048_576;

/// Idle TCP flows (no bytes) are dropped after this capture-time gap.
pub const IDLE_US: u64 = 60_000_000;

// ----------------------------- framing -----------------------------

/// An empty line begins at `i`.
pub open spec fn blank_line_at(b: Seq<u8>, i: int) -> bool {
    0 <= i && i + 4 <= b.len() && b[i] == 13 && b[i + 1] == 10 && b[i + 2] == 13 && b[i + 3] == 10
}

/// Where, from `i` on, the first empty line begins.
pub open spec fn blank_line_from(b: Seq<u8>, i: int) -> Option<int>
    decreases b.len() - i,
{
    if i + 4 > b.len() {
        None
    } else if blank_line_at(b, i) {
        Some(i)
    } else {
        blank_line_from(b, i + 1)
    }
}

/// The position of the first empty line.
pub fn find_double_crlf(buf: &[u8]) -> (r: Option<usize>)
    ensures
        match blank_line_from(buf@, 0) {
            Some(i) => r is Some && r->Some_0 == i && i + 4 <= buf@.len(),
            None => r is None,
        },
{
    let mut i: usize = 0;
    while i < buf.len() && buf.len() - i >= 4
        invariant
            i <= buf.len(),
            blank_line_from(buf@, 0) == blank_line_from(buf@, i as int),
        decreases buf.len() - i,
    {
        if buf[i] == 13 && buf[i + 1] == 10 && buf[i + 2] == 13 && buf[i + 3] == 10 {
            return Some(i);
        }
        i += 1;
    }
    None
}

/// Whether a header line is a Content-Length header, long or short form.
pub open spec fn is_length_header(name: Seq<char>) -> bool {
    text::same_word(text::trimmed(name), "content-length"@) || text::same_word(
        text::trimmed(name),
        "l"@,
    )
}

/// The value of the first Content-Length header among `ls[i..]`; zero if there
/// is none or it is no number.
pub open spec fn length_in(ls: Seq<Seq<char>>, i: int) -> nat
    decreases ls.len() - i,
{
    if i >= ls.len() {
        0
    } else {
        match text::split_once_at(ls[i], ':') {
            Some((name, val)) => if is_length_header(name) {
                match text::uint_of(text::trimmed(val), usize::MAX as nat) {
                    Some(n) => n,
                    None => 0,
                }
            } else {
                length_in(ls, i + 1)
            },
            None => length_in(ls, i + 1),
        }
    }
}

/// The Content-Length that a message's headers announce.
pub open spec fn content_length(headers: Seq<u8>) -> nat {
    length_in(text::lines_of(text::utf8_lossy(headers)), 0)
}

pub fn extract_content_length(headers: &[u8]) -> (r: usize)
    ensures
        r == content_length(headers@),
{
    let t = lossy_string(headers);
    let c = chars_of(t.as_str());
    let ls = lines(c.as_slice());
    let ghost v = text::lines_of(text::utf8_lossy(headers@));
    let mut i: usize = 0;
    while i < ls.len()
        invariant
            i <= ls.len(),
            v == text::deep(ls@),
            length_in(v, 0) == length_in(v, i as int),
            length_in(v, 0) == content_length(headers@),
        decreases ls.len() - i,
    {
        assert(v[i as int] == ls@[i as int]@);
        if let Some((name, val)) = split_once(ls[i].as_slice(), ':') {
            let n = trim(name.as_slice());
            if eq_ignore_case(n.as_slice(), "content-length") || eq_ignore_case(n.as_slice(), "l") {
                let w = trim(val.as_slice());
                return match parse_uint(w.as_slice(), usize::MAX as u64) {
                    Some(x) => x as usize,
                    None => 0,
                };
            }
        }
        i += 1;
    }
    0
}

/// The length of the first message in a stream, if all of it is there.
pub open spec fn first_message(b: Seq<u8>) -> Option<int> {
    match blank_line_from(b, 0) {
        Some(sep) => if sep + 4 + content_length(b.take(sep)) <= b.len() {
            Some(sep + 4 + content_length(b.take(sep)) as int)
        } else {
            None
        },
        None => None,
    }
}

/// The complete messages at the front of a stream, and what is left.
pub open spec fn frames(b: Seq<u8>) -> (Seq<Seq<u8>>, Seq<u8>)
    decreases b.len(),
{
    match first_message(b) {
        Some(n) => if 0 < n <= b.len() {
            let (ms, rest) = frames(b.skip(n));
            (seq![b.take(n)] + ms, rest)
        } else {
            (Seq::empty(), b)
        },
        None => (Seq::empty(), b),
    }
}

pub proof fn lemma_blank_bound(b: Seq<u8>, i: int)
    requires
        0 <= i,
    ensures
        blank_line_from(b, i) matches Some(k) ==> i <= k && k + 4 <= b.len(),
    decreases b.len() - i,
{
    if i + 4 <= b.len() && !blank_line_at(b, i) {
        lemma_blank_bound(b, i + 1);
    }
}

proof fn lemma_blank_prefix(a: Seq<u8>, b: Seq<u8>, i: int)
    requires
        0 <= i,
        blank_line_from(a, i) is Some,
    ensures
        blank_line_from(a + b, i) == blank_line_from(a, i),
    decreases a.len() - i,
{
    assert(blank_line_at(a, i) == blank_line_at(a + b, i));
    if !blank_line_at(a, i) {
        lemma_blank_prefix(a, b, i + 1);
    }
}

/// However a stream is cut into segments, the messages are the same: those of
/// the first part, then those of what it left together with the second.
pub proof fn law_segmentation(a: Seq<u8>, b: Seq<u8>)
    ensures
        ({
            let (m1, r1) = frames(a);
            let (m2, r2) = frames(r1 + b);
            frames(a + b) == (m1 + m2, r2)
        }),
    decreases a.len(),
{
    lemma_blank_bound(a, 0);
    match first_message(a) {
        Some(n) => {
            let sep = blank_line_from(a, 0)->Some_0;
            lemma_blank_prefix(a, b, 0);
            assert((a + b).take(sep) =~= a.take(sep));
            assert((a + b).take(n) =~= a.take(n));
            assert((a + b).skip(n) =~= a.skip(n) + b);
            law_segmentation(a.skip(n), b);
            let (m1, r1) = frames(a.skip(n));
            let (m2, r2) = frames(r1 + b);
            assert(seq![a.take(n)] + (m1 + m2) =~= (seq![a.take(n)] + m1) + m2);
        },
        None => {
            let (m2, r2) = frames(a + b);
            assert(Seq::<Seq<u8>>::empty() + m2 =~= m2);
        },
    }
}

// ----------------------------- flows -----------------------------

struct FlowBuf {
    flow: Flow5Tuple,
    data: Vec<u8>,
    last_us: u64,
}

pub struct TcpReassembler {
    flows: Vec<FlowBuf>,
}

pub open spec fn byte_views(v: Seq<Vec<u8>>) -> Seq<Seq<u8>> {
    v.map_values(|m: Vec<u8>| m@)
}

impl TcpReassembler {
    spec fn at(self, i: int, flow: Flow5Tuple) -> bool {
        0 <= i < self.flows@.len() && self.flows@[i].flow == flow
    }

    /// What is buffered for a flow, and when it last grew.
    pub closed spec fn buffered(self, flow: Flow5Tuple) -> Option<(Seq<u8>, u64)> {
        if exists|i: int| self.at(i, flow) {
            let i = choose|i: int| self.at(i, flow);
            Some((self.flows@[i].data@, self.flows@[i].last_us))
        } else {
            None
        }
    }

    /// No flow has two buffers; none is empty, over the cap, or holds a
    /// complete message.
    pub closed spec fn wf(self) -> bool {
        &&& forall|i: int, j: int|
            0 <= i < j < self.flows@.len() ==> (#[trigger] self.flows@[i]).flow != (
            #[trigger] self.flows@[j]).flow
        &&& forall|i: int|
            0 <= i < self.flows@.len() ==> 0 < (#[trigger] self.flows@[i]).data@.len()
                <= MAX_STREAM_BUF && first_message(self.flows@[i].data@) is None
    }

    proof fn lemma_at(self, i: int, flow: Flow5Tuple)
        requires
            self.wf(),
            self.at(i, flow),
        ensures
            self.buffered(flow) == Some((self.flows@[i].data@, self.flows@[i].last_us)),
    {
        let j = choose|j: int| self.at(j, flow);
        if i < j {
        } else if j < i {
        }
    }

    /// A well-formed reassembler holds no more than the cap for any flow, and
    /// no message that could have been handed out.
    pub proof fn law_bounded(self, flow: Flow5Tuple)
        requires
            self.wf(),
        ensures
            self.buffered(flow) matches Some((d, _)) ==> 0 < d.len() <= MAX_STREAM_BUF
                && first_message(d) is None,
    {
    }

    pub fn new() -> (r: TcpReassembler)
        ensures
            r.wf(),
            forall|f: Flow5Tuple| r.buffered(f) is None,
            r.spec_flow_count() == 0,
            r.spec_buffered_bytes() == 0,
    {
        let r = TcpReassembler { flows: Vec::new() };
        assert(r.held_flows() =~= Set::empty());
        r
    }

    /// The flows with buffered bytes.
    pub open spec fn held_flows(self) -> Set<Flow5Tuple> {
        Set::new(|f: Flow5Tuple| self.buffered(f) is Some)
    }

    /// How many bytes are buffered for a flow.
    pub open spec fn bytes_for(self, flow: Flow5Tuple) -> nat {
        match self.buffered(flow) {
            Some((d, _)) => d.len(),
            None => 0,
        }
    }

    /// How many bytes are buffered for the flows of a set.
    pub open spec fn bytes_in(self, s: Set<Flow5Tuple>) -> nat
        decreases s.len(),
    {
        if s.finite() && s.len() > 0 {
            let f = s.choose();
            self.bytes_for(f) + self.bytes_in(s.remove(f))
        } else {
            0
        }
    }

    /// Number of flows with buffered bytes.
    pub open spec fn spec_flow_count(self) -> nat {
        self.held_flows().len()
    }

    /// Bytes buffered for all flows.
    pub open spec fn spec_buffered_bytes(self) -> nat {
        self.bytes_in(self.held_flows())
    }

    proof fn lemma_bytes_pick(self, s: Set<Flow5Tuple>, f: Flow5Tuple)
        requires
            s.finite(),
            s.contains(f),
        ensures
            self.bytes_in(s) == self.bytes_for(f) + self.bytes_in(s.remove(f)),
        decreases s.len(),
    {
        let g = s.choose();
        assert(s.contains(g));
        if g != f {
            self.lemma_bytes_pick(s.remove(g), f);
            self.lemma_bytes_pick(s.remove(f), g);
            assert(s.remove(g).remove(f) =~= s.remove(f).remove(g));
        }
    }

    proof fn lemma_bytes_same(self, other: TcpReassembler, s: Set<Flow5Tuple>)
        requires
            s.finite(),
            forall|f: Flow5Tuple| #[trigger]
                s.contains(f) ==> self.bytes_for(f) == other.bytes_for(f),
        ensures
            self.bytes_in(s) == other.bytes_in(s),
        decreases s.len(),
    {
        if s.len() > 0 {
            let f = s.choose();
            assert(s.contains(f));
            self.lemma_bytes_same(other, s.remove(f));
        }
    }

    spec fn first_flows(self, n: int) -> Set<Flow5Tuple> {
        Set::new(|f: Flow5Tuple| exists|i: int| 0 <= i < n && self.at(i, f))
    }

    proof fn lemma_held(self, n: int)
        requires
            self.wf(),
            0 <= n <= self.flows@.len(),
        ensures
            self.first_flows(n).finite(),
            self.first_flows(n).len() == n,
            self.bytes_in(self.first_flows(n)) == self.held(n),
        decreases n,
    {
        if n == 0 {
            assert(self.first_flows(0) =~= Set::empty());
        } else {
            self.lemma_held(n - 1);
            let f = self.flows@[n - 1].flow;
            let a = self.first_flows(n - 1);
            let b = self.first_flows(n);
            assert(self.at(n - 1, f));
            self.lemma_at(n - 1, f);
            assert(!a.contains(f)) by {
                if a.contains(f) {
                    let i = choose|i: int| 0 <= i < n - 1 && self.at(i, f);
                    assert(self.flows@[i].flow != self.flows@[n - 1].flow);
                }
            }
            assert(b =~= a.insert(f)) by {
                assert forall|g: Flow5Tuple| b.contains(g) == a.insert(f).contains(g) by {
                    if a.contains(g) {
                        let i = choose|i: int| 0 <= i < n - 1 && self.at(i, g);
                        assert(0 <= i < n && self.at(i, g));
                    }
                    if b.contains(g) && g != f {
                        let i = choose|i: int| 0 <= i < n && self.at(i, g);
                        assert(i != n - 1);
                        assert(0 <= i < n - 1 && self.at(i, g));
                    }
                }
            }
            self.lemma_bytes_pick(b, f);
            assert(b.remove(f) =~= a);
        }
    }

    /// The counts are those of the buffers.
    proof fn lemma_counts(self)
        requires
            self.wf(),
        ensures
            self.held_flows().finite(),
            self.spec_flow_count() == self.flows@.len(),
            self.spec_buffered_bytes() == self.held(self.flows@.len() as int),
    {
        let n = self.flows@.len() as int;
        self.lemma_held(n);
        assert(self.held_flows() =~= self.first_flows(n)) by {
            assert forall|f: Flow5Tuple| self.held_flows().contains(f) == self.first_flows(
                n,
            ).contains(f) by {
                if exists|i: int| self.at(i, f) {
                    let i = choose|i: int| self.at(i, f);
                    assert(0 <= i < n && self.at(i, f));
                }
            }
        }
    }

    /// What another buffer for one flow does to the counts.
    proof fn lemma_counts_after(self, after: TcpReassembler, flow: Flow5Tuple)
        requires
            self.wf(),
            after.wf(),
            forall|f: Flow5Tuple| f != flow ==> #[trigger] after.buffered(f) == self.buffered(f),
        ensures
            self.counts_to(after, flow),
    {
        self.lemma_counts();
        after.lemma_counts();
        let a = self.held_flows();
        let b = after.held_flows();
        let rest = a.remove(flow);
        assert(b.remove(flow) =~= rest) by {
            assert forall|f: Flow5Tuple| b.remove(flow).contains(f) == rest.contains(f) by {
                if f != flow {
                    assert(after.buffered(f) == self.buffered(f));
                }
            }
        }
        self.lemma_bytes_same(after, rest);
        if a.contains(flow) {
            self.lemma_bytes_pick(a, flow);
        } else {
            assert(rest =~= a);
        }
        if b.contains(flow) {
            after.lemma_bytes_pick(b, flow);
        } else {
            assert(b.remove(flow) =~= b);
        }
    }

    /// The counts before and after one flow changed.
    pub open spec fn counts_to(self, after: TcpReassembler, flow: Flow5Tuple) -> bool {
        &&& after.spec_flow_count() + (if self.buffered(flow) is Some {
            1nat
        } else {
            0
        }) == self.spec_flow_count() + (if after.buffered(flow) is Some {
            1nat
        } else {
            0
        })
        &&& after.spec_buffered_bytes() + self.bytes_for(flow) == self.spec_buffered_bytes()
            + after.bytes_for(flow)
    }

    pub fn flow_count(&self) -> (r: usize)
        requires
            self.wf(),
        ensures
            r == self.spec_flow_count(),
    {
        proof {
            self.lemma_counts();
        }
        self.flows.len()
    }

    /// Bytes held for the first `n` flows.
    spec fn held(self, n: int) -> nat
        decreases n,
    {
        if n <= 0 {
            0
        } else {
            self.held(n - 1) + self.flows@[n - 1].data@.len()
        }
    }

    /// Bytes held for all flows.
    pub fn buffered_bytes(&self) -> (r: u128)
        requires
            self.wf(),
        ensures
            r == self.spec_buffered_bytes(),
            r <= self.spec_flow_count() * MAX_STREAM_BUF,
    {
        let mut n: u128 = 0;
        let mut i: usize = 0;
        while i < self.flows.len()
            invariant
                self.wf(),
                i <= self.flows.len(),
                n == self.held(i as int),
                n <= i * MAX_STREAM_BUF,
            decreases self.flows.len() - i,
        {
            n += self.flows[i].data.len() as u128;
            i += 1;
        }
        proof {
            self.lemma_counts();
        }
        n
    }

    fn position(&self, flow: Flow5Tuple) -> (r: Option<usize>)
        ensures
            match r {
                Some(i) => self.at(i as int, flow),
                None => forall|i: int| !self.at(i, flow),
            },
    {
        let mut i: usize = 0;
        while i < self.flows.len()
            invariant
                i <= self.flows.len(),
                forall|k: int| 0 <= k < i ==> !self.at(k, flow),
            decreases self.flows.len() - i,
        {
            if self.flows[i].flow == flow {
                return Some(i);
            }
            i += 1;
        }
        None
    }

    /// Drops flows that have been idle for `idle_us` of capture time.
    pub fn prune(&mut self, now_us: u64, idle_us: u64)
        requires
            old(self).wf(),
        ensures
            final(self).wf(),
            forall|f: Flow5Tuple|
                #[trigger] final(self).buffered(f) == match old(self).buffered(f) {
                    Some((d, t)) => if (if now_us >= t {
                        now_us - t
                    } else {
                        0
                    }) < idle_us {
                        Some((d, t))
                    } else {
                        None
                    },
                    None => None,
                },
            final(self).held_flows() == old(self).held_flows().filter(
                |f: Flow5Tuple| final(self).buffered(f) is Some,
            ),
            final(self).spec_flow_count() <= old(self).spec_flow_count(),
            final(self).spec_buffered_bytes() <= old(self).spec_buffered_bytes(),
    {
        let ghost before = *self;
        let mut kept = TcpReassembler { flows: Vec::new() };
        let ghost mut from: Seq<int> = Seq::empty();
        let mut rest: Vec<FlowBuf> = Vec::new();
        rest.append(&mut self.flows);
        assert(rest@ =~= before.flows@);
        let ghost n = rest@.len();
        // Taking from the back keeps the indices of what is left.
        while rest.len() > 0
            invariant
                before.wf(),
                rest@.len() <= n,
                n == before.flows@.len(),
                rest@ == before.flows@.take(rest@.len() as int),
                from.len() == kept.flows@.len(),
                forall|k: int|
                    0 <= k < from.len() ==> {
                        &&& rest@.len() <= #[trigger] from[k] < n
                        &&& kept.flows@[k] == before.flows@[from[k]]
                        &&& gap(now_us, before.flows@[from[k]].last_us) < idle_us
                    },
                forall|k: int, l: int|
                    0 <= k < l < from.len() ==> #[trigger] from[l] < #[trigger] from[k],
                forall|j: int|
                    rest@.len() <= j < n && gap(now_us, (#[trigger] before.flows@[j]).last_us)
                        < idle_us ==> exists|k: int| 0 <= k < from.len() && from[k] == j,
            decreases rest@.len(),
        {
            let ghost j = rest@.len() - 1;
            let b = rest.pop().unwrap();
            assert(b == before.flows@[j]);
            let age: u64 = if now_us >= b.last_us {
                now_us - b.last_us
            } else {
                0
            };
            let ghost from0 = from;
            if age < idle_us {
                kept.flows.push(b);
                proof {
                    from = from.push(j);
                    assert(from[from0.len() as int] == j);
                }
            }
            proof {
                assert forall|i: int|
                    rest@.len() <= i < n && gap(now_us, (#[trigger] before.flows@[i]).last_us)
                        < idle_us implies exists|k: int| 0 <= k < from.len() && from[k] == i by {
                    if i > j {
                        let k0 = choose|k: int| 0 <= k < from0.len() && from0[k] == i;
                        assert(from[k0] == i);
                    }
                }
            }
        }
        *self = kept;
        proof {
            assert(self.wf()) by {
                assert forall|i: int, j: int| 0 <= i < j < self.flows@.len() implies (
                #[trigger] self.flows@[i]).flow != (#[trigger] self.flows@[j]).flow by {
                    assert(from[j] < from[i]);
                    assert(before.flows@[from[j]].flow != before.flows@[from[i]].flow);
                }
                assert forall|i: int| 0 <= i < self.flows@.len() implies 0 < (
                #[trigger] self.flows@[i]).data@.len() <= MAX_STREAM_BUF && first_message(
                    self.flows@[i].data@,
                ) is None by {
                    assert(self.flows@[i] == before.flows@[from[i]]);
                }
            }
            assert forall|f: Flow5Tuple| #[trigger] self.buffered(f) == match before.buffered(f) {
                Some((d, t)) => if (if now_us >= t {
                    now_us - t
                } else {
                    0
                }) < idle_us {
                    Some((d, t))
                } else {
                    None
                },
                None => None,
            } by {
                if exists|i: int| before.at(i, f) {
                    let i = choose|i: int| before.at(i, f);
                    before.lemma_at(i, f);
                    if gap(now_us, before.flows@[i].last_us) < idle_us {
                        let k = choose|k: int| 0 <= k < from.len() && from[k] == i;
                        assert(self.at(k, f));
                        self.lemma_at(k, f);
                    } else if exists|k: int| self.at(k, f) {
                        let k = choose|k: int| self.at(k, f);
                        assert(before.at(from[k], f));
                        before.lemma_at(from[k], f);
                        assert(false);
                    }
                } else if exists|k: int| self.at(k, f) {
                    let k = choose|k: int| self.at(k, f);
                    assert(before.at(from[k], f));
                }
            }
            before.lemma_counts();
            self.lemma_counts();
            assert(self.held_flows() =~= before.held_flows().filter(
                |f: Flow5Tuple| self.buffered(f) is Some,
            ));
            assert(self.held_flows().subset_of(before.held_flows()));
            vstd::set_lib::lemma_len_subset(self.held_flows(), before.held_flows());
            self.lemma_bytes_same(before, self.held_flows());
            before.lemma_bytes_subset(self.held_flows(), before.held_flows());
        }
    }

    proof fn lemma_bytes_subset(self, a: Set<Flow5Tuple>, b: Set<Flow5Tuple>)
        requires
            b.finite(),
            a.subset_of(b),
        ensures
            self.bytes_in(a) <= self.bytes_in(b),
        decreases b.len(),
    {
        if b.len() == 0 {
            assert(a =~= b);
        } else {
            let f = b.choose();
            assert(b.contains(f));
            self.lemma_bytes_subset(a.remove(f), b.remove(f));
            vstd::set_lib::lemma_len_subset(a, b);
            if a.contains(f) {
                self.lemma_bytes_pick(a, f);
            } else {
                assert(a.remove(f) =~= a);
            }
        }
    }

    /// What is kept of a flow, with new bytes.
    pub open spec fn joined(self, flow: Flow5Tuple, data: Seq<u8>) -> Seq<u8> {
        (match self.buffered(flow) {
            Some((d, _)) => d,
            None => Seq::empty(),
        }) + data
    }

    /// The messages that new bytes complete; none, if the flow grows over the cap.
    pub open spec fn completed(self, flow: Flow5Tuple, data: Seq<u8>) -> Seq<Seq<u8>> {
        let stream = self.joined(flow, data);
        if stream.len() > MAX_STREAM_BUF {
            Seq::empty()
        } else {
            frames(stream).0
        }
    }

    /// After new bytes: what follows the last message is kept. A flow that grows
    /// over the cap is dropped. Other flows stay as they were.
    pub open spec fn fed(
        self,
        after: TcpReassembler,
        flow: Flow5Tuple,
        data: Seq<u8>,
        ts_us: u64,
    ) -> bool {
        let stream = self.joined(flow, data);
        let rest = frames(stream).1;
        &&& after.buffered(flow) == if stream.len() <= MAX_STREAM_BUF && rest.len() > 0 {
            Some((rest, ts_us))
        } else {
            None
        }
        &&& forall|f: Flow5Tuple|
            f != flow ==> #[trigger] after.buffered(f) == self.buffered(f)
    }

    /// Feeds bytes for a flow; returns the messages that are complete now. A
    /// flow that grows over the cap is dropped.
    pub fn feed(&mut self, flow: Flow5Tuple, data: &[u8], ts_us: u64) -> (r: Vec<Vec<u8>>)
        requires
            old(self).wf(),
        ensures
            final(self).wf(),
            byte_views(r@) == old(self).completed(flow, data@),
            old(self).fed(*final(self), flow, data@, ts_us),
            old(self).counts_to(*final(self), flow),
    {
        let ghost before = *self;
        let mut buf: Vec<u8> = Vec::new();
        if let Some(i) = self.position(flow) {
            proof {
                before.lemma_at(i as int, flow);
            }
            let b = self.flows.swap_remove(i);
            buf = b.data;
            proof {
                self.lemma_removed(before, i as int, flow);
            }
        } else {
            proof {
                assert(buf@ =~= Seq::<u8>::empty());
                assert forall|f: Flow5Tuple| f != flow implies #[trigger] self.buffered(f)
                    == before.buffered(f) by {
                }
            }
        }
        let ghost middle = *self;
        let ghost stored = buf@;
        assert(stored.len() <= MAX_STREAM_BUF);
        if data.len() > MAX_STREAM_BUF {
            proof {
                before.lemma_counts_after(*self, flow);
            }
            return Vec::new();
        }
        let mut k: usize = 0;
        while k < data.len()
            invariant
                k <= data.len(),
                stored.len() <= MAX_STREAM_BUF,
                data.len() <= MAX_STREAM_BUF,
                buf@ == stored + data@.take(k as int),
            decreases data.len() - k,
        {
            buf.push(data[k]);
            k += 1;
            assert(buf@ =~= stored + data@.take(k as int));
        }
        assert(data@.take(k as int) =~= data@);
        let ghost stream = stored + data@;
        if buf.len() > MAX_STREAM_BUF {
            proof {
                before.lemma_counts_after(*self, flow);
            }
            return Vec::new();
        }
        let (out, rest) = take_frames(buf);
        if rest.len() > 0 {
            self.flows.push(FlowBuf { flow, data: rest, last_us: ts_us });
            proof {
                assert(self.flows@.drop_last() =~= middle.flows@);
                self.lemma_pushed(middle, flow);
            }
        }
        proof {
            before.lemma_counts_after(*self, flow);
        }
        out
    }

    proof fn lemma_removed(self, before: TcpReassembler, i: int, flow: Flow5Tuple)
        requires
            before.wf(),
            before.at(i, flow),
            self.flows@ == before.flows@.update(i, before.flows@.last()).drop_last(),
        ensures
            self.wf(),
            forall|k: int| !self.at(k, flow),
            self.buffered(flow) is None,
            forall|f: Flow5Tuple| f != flow ==> #[trigger] self.buffered(f) == before.buffered(f),
    {
        let n = before.flows@.len();
        assert forall|k: int| 0 <= k < self.flows@.len() implies #[trigger] self.flows@[k]
            == before.flows@[if k == i {
            n - 1
        } else {
            k
        }] by {}
        assert(self.wf());
        assert forall|k: int| !self.at(k, flow) by {
            if self.at(k, flow) {
                assert(self.flows@[k].flow == flow);
            }
        }
        assert forall|f: Flow5Tuple| f != flow implies #[trigger] self.buffered(f)
            == before.buffered(f) by {
            if exists|j: int| before.at(j, f) {
                let j = choose|j: int| before.at(j, f);
                before.lemma_at(j, f);
                let k = if j == n - 1 {
                    i
                } else {
                    j
                };
                assert(self.at(k, f));
                self.lemma_at(k, f);
            } else if exists|k: int| self.at(k, f) {
                let k = choose|k: int| self.at(k, f);
                assert(before.at(
                    if k == i {
                        n - 1
                    } else {
                        k
                    },
                    f,
                ));
            }
        }
    }

    proof fn lemma_pushed(self, middle: TcpReassembler, flow: Flow5Tuple)
        requires
            middle.wf(),
            forall|k: int| !middle.at(k, flow),
            self.flows@.len() == middle.flows@.len() + 1,
            self.flows@.drop_last() == middle.flows@,
            self.flows@.last().flow == flow,
            0 < self.flows@.last().data@.len() <= MAX_STREAM_BUF,
            first_message(self.flows@.last().data@) is None,
        ensures
            self.wf(),
            self.buffered(flow) == Some(
                (self.flows@.last().data@, self.flows@.last().last_us),
            ),
            forall|f: Flow5Tuple| f != flow ==> #[trigger] self.buffered(f) == middle.buffered(f),
    {
        let n = middle.flows@.len() as int;
        assert forall|k: int| 0 <= k < n implies #[trigger] self.flows@[k] == middle.flows@[k] by {
            assert(self.flows@.drop_last()[k] == self.flows@[k]);
        }
        assert(self.wf()) by {
            assert forall|i: int, j: int| 0 <= i < j < self.flows@.len() implies (
            #[trigger] self.flows@[i]).flow != (#[trigger] self.flows@[j]).flow by {
                if j == n {
                    assert(!middle.at(i, flow));
                }
            }
        }
        assert(self.at(n, flow));
        self.lemma_at(n, flow);
        assert forall|f: Flow5Tuple| f != flow implies #[trigger] self.buffered(f)
            == middle.buffered(f) by {
            if exists|j: int| middle.at(j, f) {
                let j = choose|j: int| middle.at(j, f);
                middle.lemma_at(j, f);
                assert(self.at(j, f));
                self.lemma_at(j, f);
            } else if exists|k: int| self.at(k, f) {
                let k = choose|k: int| self.at(k, f);
                assert(middle.at(k, f));
            }
        }
    }
}

spec fn gap(a: u64, b: u64) -> int {
    if a >= b {
        a - b
    } else {
        0
    }
}

/// A copy of `b[i..j]`.
fn bytes_between(b: &Vec<u8>, i: usize, j: usize) -> (r: Vec<u8>)
    requires
        i <= j <= b@.len(),
    ensures
        r@ == b@.subrange(i as int, j as int),
{
    crate::octets::to_vec(slice_subrange(b.as_slice(), i, j))
}

/// Splits the complete messages off the front of a stream.
pub fn take_frames(stream: Vec<u8>) -> (r: (Vec<Vec<u8>>, Vec<u8>))
    ensures
        byte_views(r.0@) == frames(stream@).0,
        r.1@ == frames(stream@).1,
        first_message(r.1@) is None,
        r.1@.len() <= stream@.len(),
{
    let ghost all = stream@;
    let mut buf = stream;
    let mut out: Vec<Vec<u8>> = Vec::new();
    assert(byte_views(out@) + frames(all).0 =~= frames(all).0);
    loop
        invariant
            all == stream@,
            frames(all).0 == byte_views(out@) + frames(buf@).0,
            frames(all).1 == frames(buf@).1,
            buf@.len() <= all.len(),
        decreases buf@.len(),
    {
        proof {
            lemma_blank_bound(buf@, 0);
        }
        let sep: usize = match find_double_crlf(buf.as_slice()) {
            Some(s) => s,
            None => {
                assert(byte_views(out@) + Seq::<Seq<u8>>::empty() =~= byte_views(out@));
                return (out, buf);
            },
        };
        let head = slice_subrange(buf.as_slice(), 0, sep);
        assert(head@ =~= buf@.take(sep as int));
        let body: usize = extract_content_length(head);
        if buf.len() - (sep + 4) < body {
            assert(byte_views(out@) + Seq::<Seq<u8>>::empty() =~= byte_views(out@));
            return (out, buf);
        }
        let total: usize = sep + 4 + body;
        let msg = bytes_between(&buf, 0, total);
        let rest = bytes_between(&buf, total, buf.len());
        proof {
            assert(first_message(buf@) == Some(total as int));
            assert(msg@ =~= buf@.take(total as int));
            assert(rest@ =~= buf@.skip(total as int));
        }
        let ghost before = out@;
        let ghost mv = msg@;
        out.push(msg);
        proof {
            assert(byte_views(out@) =~= byte_views(before) + seq![mv]);
            assert(byte_views(before) + (seq![mv] + frames(rest@).0) =~= byte_views(out@) + frames(
                rest@,
            ).0);
        }
        buf = rest;
    }
}

} // verus!
