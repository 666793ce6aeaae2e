//! Numbers for texts, in the order in which they come up.
use crate::text::{chars_of, str_eq};
use crate::text;
use vstd::prelude::*;

verus! {

/// Buckets that texts are spread over.
pub const BUCKETS: usize = 4096;

/// The bucket of a text.
pub open spec fn bucket_of(t: Seq<char>) -> nat
    decreases t.len(),
{
    if t.len() == 0 {
        0
    } else {
        ((bucket_of(t.drop_last()) * 31 + (t.last() as u32) as nat) % 4096) as nat
    }
}

fn find_bucket(t: &[char]) -> (r: usize)
    ensures
        r == bucket_of(t@),
        r < BUCKETS,
{
    let mut h: u64 = 0;
    let mut i: usize = 0;
    assert(t@.take(0) =~= Seq::<char>::empty());
    while i < t.len()
        invariant
            i <= t.len(),
            h == bucket_of(t@.take(i as int)),
            h < 4096,
        decreases t.len() - i,
    {
        assert(t@.take(i + 1).drop_last() =~= t@.take(i as int));
        assert(t@.take(i + 1).last() == t@[i as int]);
        let c: u32 = t[i] as u32;
        h = (h * 31 + c as u64) % 4096;
        i += 1;
    }
    assert(t@.take(i as int) =~= t@);
    h as usize
}

/// The first index of a text from `i` on; the length, if there is none.
pub open spec fn text_index(v: Seq<Seq<char>>, t: Seq<char>, i: int) -> int
    decreases v.len() - i,
{
    if i >= v.len() || v[i] == t {
        i
    } else {
        text_index(v, t, i + 1)
    }
}

/// A text that stands nowhere before is found where it stands.
pub proof fn lemma_text_at(v: Seq<Seq<char>>, t: Seq<char>, i: int, at: int)
    requires
        0 <= i <= at < v.len(),
        v[at] == t,
        forall|k: int| i <= k < at ==> #[trigger] v[k] != t,
    ensures
        text_index(v, t, i) == at,
    decreases at - i,
{
    if i < at {
        lemma_text_at(v, t, i + 1, at);
    }
}

pub proof fn lemma_text_index(v: Seq<Seq<char>>, t: Seq<char>, i: int)
    requires
        0 <= i <= v.len(),
    ensures
        i <= text_index(v, t, i) <= v.len(),
        text_index(v, t, i) < v.len() ==> v[text_index(v, t, i)] == t,
        forall|k: int| i <= k < text_index(v, t, i) ==> #[trigger] v[k] != t,
    decreases v.len() - i,
{
    if i < v.len() && v[i] != t {
        lemma_text_index(v, t, i + 1);
    }
}

/// A list of distinct texts, each found by its number and its number by it.
pub struct Interner {
    names: Vec<String>,
    buckets: Vec<Vec<usize>>,
}

impl View for Interner {
    type V = Seq<Seq<char>>;

    closed spec fn view(&self) -> Seq<Seq<char>> {
        text::texts(self.names@)
    }
}

impl Interner {
    /// Every text stands once, and its number in its bucket.
    pub closed spec fn wf(self) -> bool {
        &&& self.buckets@.len() == BUCKETS
        &&& forall|i: int, j: int|
            0 <= i < j < self@.len() ==> #[trigger] self@[i] != #[trigger] self@[j]
        &&& forall|i: int|
            0 <= i < self@.len() ==> self.buckets@[bucket_of(#[trigger] self@[i]) as int]@.contains(
                i as usize,
            )
        &&& forall|b: int, k: int|
            0 <= b < BUCKETS && 0 <= k < self.buckets@[b]@.len()
                ==> #[trigger] self.buckets@[b]@[k] < self@.len()
    }

    /// The texts are distinct.
    pub proof fn law_distinct(self)
        requires
            self.wf(),
        ensures
            self@.no_duplicates(),
    {
        assert forall|i: int, j: int| 0 <= i < self@.len() && 0 <= j < self@.len() && i
            != j implies self@[i] != self@[j] by {
            if i < j {
            } else {
            }
        }
    }

    pub fn new() -> (r: Interner)
        ensures
            r.wf(),
            r@ == Seq::<Seq<char>>::empty(),
    {
        let mut buckets: Vec<Vec<usize>> = Vec::new();
        while buckets.len() < BUCKETS
            invariant
                buckets@.len() <= BUCKETS,
                forall|b: int| 0 <= b < buckets@.len() ==> (#[trigger] buckets@[b])@.len() == 0,
            decreases BUCKETS - buckets@.len(),
        {
            buckets.push(Vec::new());
        }
        let r = Interner { names: Vec::new(), buckets };
        assert(r@ =~= Seq::<Seq<char>>::empty());
        r
    }

    pub fn len(&self) -> (r: usize)
        ensures
            r == self@.len(),
    {
        self.names.len()
    }

    /// The number of a text; a new one, if it has not come up before.
    pub fn intern(&mut self, s: &str) -> (r: usize)
        requires
            old(self).wf(),
        ensures
            final(self).wf(),
            r == text_index(old(self)@, s@, 0),
            final(self)@ == if r < old(self)@.len() {
                old(self)@
            } else {
                old(self)@.push(s@)
            },
            r < final(self)@.len(),
            final(self)@[r as int] == s@,
    {
        let c = chars_of(s);
        let b: usize = find_bucket(c.as_slice());
        let ghost names = self@;
        proof {
            lemma_text_index(names, s@, 0);
        }
        let mut k: usize = 0;
        while k < self.buckets[b].len()
            invariant
                self.wf(),
                *self == *old(self),
                names == self@,
                b < BUCKETS,
                b == bucket_of(s@),
                k <= self.buckets@[b as int]@.len(),
                0 <= text_index(names, s@, 0) <= names.len(),
                text_index(names, s@, 0) < names.len() ==> names[text_index(names, s@, 0)] == s@,
                forall|j: int|
                    0 <= j < k ==> names[#[trigger] self.buckets@[b as int]@[j] as int] != s@,
            decreases self.buckets@[b as int]@.len() - k,
        {
            let id: usize = self.buckets[b][k];
            assert(self.buckets@[b as int]@[k as int] < self@.len());
            assert(names[id as int] == self.names@[id as int]@);
            if str_eq(self.names[id].as_str(), s) {
                proof {
                    let t = text_index(names, s@, 0);
                    lemma_text_index(names, s@, 0);
                    if t < id {
                        assert(names[t] != names[id as int]);
                    }
                }
                return id;
            }
            k += 1;
        }
        proof {
            let t = text_index(names, s@, 0);
            if t < names.len() {
                let bucket = self.buckets@[bucket_of(names[t]) as int]@;
                assert(bucket.contains(t as usize));
                let j = choose|j: int| 0 <= j < bucket.len() && bucket[j] == t as usize;
                assert(names[bucket[j] as int] != s@);
            }
        }
        let id: usize = self.names.len();
        let ghost before = *self;
        self.names.push(s.to_owned());
        let list = &mut self.buckets[b];
        list.push(id);
        proof {
            assert(self@ =~= names.push(s@));
            assert forall|i: int| 0 <= i < self@.len() implies self.buckets@[bucket_of(
                #[trigger] self@[i],
            ) as int]@.contains(i as usize) by {
                let bi = bucket_of(self@[i]) as int;
                if i < names.len() {
                    assert(self@[i] == names[i]);
                    let old_bucket = before.buckets@[bi]@;
                    assert(old_bucket.contains(i as usize));
                    let j = choose|j: int| 0 <= j < old_bucket.len() && old_bucket[j] == i as usize;
                    assert(self.buckets@[bi]@[j] == i as usize);
                } else {
                    let n = before.buckets@[bi]@.len() as int;
                    assert(self.buckets@[bi]@[n] == i as usize);
                }
            }
            assert forall|x: int, y: int| 0 <= x < BUCKETS && 0 <= y
                < self.buckets@[x]@.len() implies #[trigger] self.buckets@[x]@[y]
                < self@.len() by {
                if x == b && y == before.buckets@[x]@.len() {
                } else {
                    assert(self.buckets@[x]@[y] == before.buckets@[x]@[y]);
                }
            }
            assert forall|i: int, j: int| 0 <= i < j < self@.len() implies #[trigger] self@[i]
                != #[trigger] self@[j] by {
                assert(self@[i] == names[i]);
            }
        }
        id
    }
}

} // verus!
