//! Big-endian numbers in byte strings.
use vstd::prelude::*;
use vstd::slice::slice_subrange;

verus! {

/// `n` as a big-endian byte string of `len` bytes.
pub open spec fn be_bytes(n: nat, len: nat) -> Seq<u8>
    decreases len,
{
    if len == 0 {
        Seq::empty()
    } else {
        be_bytes(n / 256, (len - 1) as nat).push((n % 256) as u8)
    }
}

/// The number that the `len` bytes from `pos` on spell, big-endian.
pub open spec fn be_value(b: Seq<u8>, pos: int, len: nat) -> nat
    decreases len,
{
    if len == 0 {
        0
    } else {
        256 * be_value(b, pos, (len - 1) as nat) + b[pos + len - 1] as nat
    }
}

pub open spec fn pow256(n: nat) -> nat
    decreases n,
{
    if n == 0 {
        1
    } else {
        256 * pow256((n - 1) as nat)
    }
}

pub proof fn lemma_be_bytes_len(n: nat, len: nat)
    ensures
        be_bytes(n, len).len() == len,
    decreases len,
{
    if len > 0 {
        lemma_be_bytes_len(n / 256, (len - 1) as nat);
    }
}

pub proof fn lemma_be_value_bound(b: Seq<u8>, pos: int, len: nat)
    ensures
        be_value(b, pos, len) < pow256(len),
    decreases len,
{
    if len > 0 {
        lemma_be_value_bound(b, pos, (len - 1) as nat);
    }
}

/// A big-endian number that stands at `pos` reads back.
pub proof fn lemma_be_round(b: Seq<u8>, pos: int, n: nat, len: nat)
    requires
        0 <= pos,
        pos + len <= b.len(),
        b.subrange(pos, pos + len) == be_bytes(n, len),
        n < pow256(len),
    ensures
        be_value(b, pos, len) == n,
    decreases len,
{
    lemma_be_bytes_len(n, len);
    if len > 0 {
        let m = (len - 1) as nat;
        lemma_be_bytes_len(n / 256, m);
        let s = be_bytes(n, len);
        assert(b.subrange(pos, pos + m) =~= be_bytes(n / 256, m)) by {
            assert forall|i: int| 0 <= i < m implies b[pos + i] == #[trigger] be_bytes(n / 256, m)[i] by {
                assert(b.subrange(pos, pos + len)[i] == s[i]);
            }
        }
        assert(b[pos + m] == (n % 256) as u8) by {
            assert(b.subrange(pos, pos + len)[m as int] == s[m as int]);
        }
        lemma_be_round(b, pos, n / 256, m);
    }
}

pub proof fn lemma_pow256_values()
    ensures
        pow256(1) == 0x100,
        pow256(2) == 0x1_0000,
        pow256(4) == 0x1_0000_0000,
        pow256(8) == 0x1_0000_0000_0000_0000,
        pow256(16) == 0x1_0000_0000_0000_0000_0000_0000_0000_0000,
{
    reveal_with_fuel(pow256, 17);
}

pub proof fn lemma_pow256_mono(a: nat, b: nat)
    requires
        a <= b,
    ensures
        pow256(a) <= pow256(b),
    decreases b,
{
    if a < b {
        lemma_pow256_mono(a, (b - 1) as nat);
    }
}

/// The 16-bit number at `i`.
pub fn be16(b: &[u8], i: usize) -> (r: u16)
    requires
        i + 2 <= b@.len(),
    ensures
        r == be_value(b@, i as int, 2),
{
    proof {
        reveal_with_fuel(be_value, 3);
    }
    b[i] as u16 * 256 + b[i + 1] as u16
}

/// The 32-bit number at `i`.
pub fn be32(b: &[u8], i: usize) -> (r: u32)
    requires
        i + 4 <= b@.len(),
    ensures
        r == be_value(b@, i as int, 4),
{
    proof {
        reveal_with_fuel(be_value, 5);
    }
    b[i] as u32 * 0x100_0000 + b[i + 1] as u32 * 0x1_0000 + b[i + 2] as u32 * 0x100 + b[i + 3]
        as u32
}

/// The 128-bit number at `i`.
pub fn be128(b: &[u8], i: usize) -> (r: u128)
    requires
        i + 16 <= b@.len(),
    ensures
        r == be_value(b@, i as int, 16),
{
    let mut v: u128 = 0;
    let mut k: usize = 0;
    while k < 16
        invariant
            k <= 16,
            i + 16 <= b.len(),
            v == be_value(b@, i as int, k as nat),
        decreases 16 - k,
    {
        proof {
            lemma_be_value_bound(b@, i as int, (k + 1) as nat);
            lemma_pow256_mono((k + 1) as nat, 16);
            lemma_pow256_values();
        }
        v = v * 256 + b[i + k] as u128;
        k += 1;
    }
    v
}

/// Everything from `i` on.
pub fn tail<'a>(b: &'a [u8], i: usize) -> (r: &'a [u8])
    requires
        i <= b@.len(),
    ensures
        r@ == b@.skip(i as int),
{
    let r = slice_subrange(b, i, b.len());
    assert(r@ =~= b@.skip(i as int));
    r
}

/// A copy of a byte slice.
pub fn to_vec(b: &[u8]) -> (r: Vec<u8>)
    ensures
        r@ == b@,
{
    let mut out: Vec<u8> = Vec::new();
    let mut i: usize = 0;
    while i < b.len()
        invariant
            i <= b.len(),
            out@ == b@.take(i as int),
        decreases b.len() - i,
    {
        out.push(b[i]);
        i += 1;
        assert(out@ =~= b@.take(i as int));
    }
    assert(out@ =~= b@);
    out
}

} // verus!
