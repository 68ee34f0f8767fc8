//! Byte-sequence helpers: zero buffers, byte-wise XOR (the combiner used by
//! every stream-cipher layer of the header), slicing, concatenation and a
//! constant-time comparison.

use vstd::prelude::*;

verus! {

/// The all-zero byte sequence of length `n`.
pub open spec fn zeros(n: nat) -> Seq<u8> {
    Seq::new(n, |i: int| 0u8)
}

/// `s` padded with zero bytes (or cut) to length exactly `n`. Used to give
/// sequences a length that is known by construction.
pub open spec fn padded_to(s: Seq<u8>, n: nat) -> Seq<u8> {
    Seq::new(n, |i: int| if 0 <= i < s.len() { s[i] } else { 0u8 })
}

/// Padding a sequence to its own length leaves it unchanged.
pub proof fn lemma_padded_to_id(s: Seq<u8>, n: nat)
    requires
        s.len() == n,
    ensures
        padded_to(s, n) == s,
{
    assert(padded_to(s, n) =~= s);
}

/// Byte-wise XOR of two sequences of equal length.
pub open spec fn xor_seq(a: Seq<u8>, b: Seq<u8>) -> Seq<u8>
    recommends
        a.len() == b.len(),
{
    Seq::new(a.len(), |i: int| a[i] ^ b[i])
}

/// The views of a sequence of byte vectors.
pub open spec fn seq_views(s: Seq<Vec<u8>>) -> Seq<Seq<u8>> {
    Seq::new(s.len(), |i: int| s[i]@)
}

/// A vector of `n` copies of `val`.
pub fn fill_bytes(n: usize, val: u8) -> (r: Vec<u8>)
    ensures
        r@ == Seq::new(n as nat, |i: int| val),
{
    let mut v: Vec<u8> = Vec::new();
    let mut i: usize = 0;
    while i < n
        invariant
            i <= n,
            v@ == Seq::new(i as nat, |k: int| val),
        decreases n - i,
    {
        v.push(val);
        assert(v@ =~= Seq::new((i + 1) as nat, |k: int| val));
        i = i + 1;
    }
    v
}

/// A vector of `n` zero bytes.
pub fn zero_bytes(n: usize) -> (r: Vec<u8>)
    ensures
        r@ == zeros(n as nat),
{
    let v = fill_bytes(n, 0u8);
    assert(v@ =~= zeros(n as nat));
    v
}

/// Byte-wise XOR of two equally long byte vectors.
pub fn xor(a: &Vec<u8>, b: &Vec<u8>) -> (r: Vec<u8>)
    requires
        a@.len() == b@.len(),
    ensures
        r@ == xor_seq(a@, b@),
{
    let mut v: Vec<u8> = Vec::new();
    let mut i: usize = 0;
    let n = a.len();
    while i < n
        invariant
            i <= n,
            n == a@.len(),
            a@.len() == b@.len(),
            v@ == xor_seq(a@, b@).take(i as int),
        decreases n - i,
    {
        v.push(a[i] ^ b[i]);
        assert(v@ =~= xor_seq(a@, b@).take((i + 1) as int));
        i = i + 1;
    }
    assert(v@ =~= xor_seq(a@, b@));
    v
}

/// The bytes of `v` from `start` (inclusive) to `end` (exclusive).
pub fn subrange_vec(v: &Vec<u8>, start: usize, end: usize) -> (r: Vec<u8>)
    requires
        start <= end,
        end <= v@.len(),
    ensures
        r@ == v@.subrange(start as int, end as int),
{
    let mut out: Vec<u8> = Vec::new();
    let mut i: usize = start;
    while i < end
        invariant
            start <= i <= end,
            end <= v@.len(),
            out@ == v@.subrange(start as int, i as int),
        decreases end - i,
    {
        out.push(v[i]);
        assert(out@ =~= v@.subrange(start as int, (i + 1) as int));
        i = i + 1;
    }
    out
}

/// `a` followed by `b`.
pub fn concat_bytes(a: &Vec<u8>, b: &Vec<u8>) -> (r: Vec<u8>)
    ensures
        r@ == a@ + b@,
{
    let mut out: Vec<u8> = Vec::new();
    let mut i: usize = 0;
    let na = a.len();
    while i < na
        invariant
            i <= na,
            na == a@.len(),
            out@ == a@.take(i as int),
        decreases na - i,
    {
        out.push(a[i]);
        assert(out@ =~= a@.take((i + 1) as int));
        i = i + 1;
    }
    assert(out@ =~= a@ + b@.take(0));
    let mut j: usize = 0;
    let nb = b.len();
    while j < nb
        invariant
            j <= nb,
            nb == b@.len(),
            out@ == a@ + b@.take(j as int),
        decreases nb - j,
    {
        out.push(b[j]);
        assert(out@ =~= a@ + b@.take((j + 1) as int));
        j = j + 1;
    }
    assert(out@ =~= a@ + b@);
    out
}

/// Equality of two equally long byte vectors, evaluated without an early
/// exit: the comparison touches every byte whatever the contents, so secret
/// tags can be compared without a timing side channel.
pub fn ct_eq(a: &Vec<u8>, b: &Vec<u8>) -> (r: bool)
    requires
        a@.len() == b@.len(),
    ensures
        r == (a@ == b@),
{
    let mut acc: u8 = 0;
    let mut i: usize = 0;
    let n = a.len();
    while i < n
        invariant
            i <= n,
            n == a@.len(),
            a@.len() == b@.len(),
            (acc == 0) <==> (forall|k: int| 0 <= k < i ==> a@[k] == b@[k]),
        decreases n - i,
    {
        let d = a[i] ^ b[i];
        proof {
            let x = a@[i as int];
            let y = b@[i as int];
            assert((x ^ y) == 0 <==> x == y) by (bit_vector);
            let o = acc;
            assert((o | (x ^ y)) == 0 <==> (o == 0 && (x ^ y) == 0)) by (bit_vector);
        }
        acc = acc | d;
        i = i + 1;
    }
    proof {
        if acc == 0 {
            assert(a@ =~= b@);
        } else {
            assert(a@.len() == b@.len());
            if a@ == b@ {
                assert(forall|k: int| 0 <= k < n ==> a@[k] == b@[k]);
            }
        }
    }
    acc == 0
}

} // verus!
