//! Big-endian byte strings and the natural numbers they stand for.

use vstd::prelude::*;

verus! {

/// The number that a big-endian byte string stands for. The empty string
/// stands for zero.
pub open spec fn be_value(s: Seq<u8>) -> nat
    decreases s.len(),
{
    if s.len() == 0 {
        0
    } else {
        be_value(s.drop_last()) * 256 + s.last() as nat
    }
}

/// The shortest big-endian byte string that stands for `n`: it has no
/// leading zero byte, and it is empty for zero.
pub open spec fn be_min(n: nat) -> Seq<u8>
    decreases n,
{
    if n == 0 {
        Seq::empty()
    } else {
        be_min(n / 256).push((n % 256) as u8)
    }
}

/// A byte string is minimal when it does not start with a zero byte.
pub open spec fn is_minimal(s: Seq<u8>) -> bool {
    s.len() == 0 || s[0] != 0
}

/// 256 to the power `k`.
pub open spec fn pow256(k: nat) -> nat
    decreases k,
{
    if k == 0 {
        1
    } else {
        256 * pow256((k - 1) as nat)
    }
}

/// The byte string `s` without its leading zero bytes.
pub open spec fn trimmed(s: Seq<u8>) -> Seq<u8>
    decreases s.len(),
{
    if s.len() > 0 && s[0] == 0 {
        trimmed(s.subrange(1, s.len() as int))
    } else {
        s
    }
}

/// `s` with zero bytes put in front until it is `width` bytes long.
pub open spec fn left_padded(s: Seq<u8>, width: nat) -> Seq<u8>
    recommends
        s.len() <= width,
{
    Seq::new((width - s.len()) as nat, |i: int| 0u8) + s
}

/// One more byte at the end multiplies by 256 and adds the byte.
pub proof fn lemma_value_push(s: Seq<u8>, b: u8)
    ensures
        be_value(s.push(b)) == be_value(s) * 256 + b as nat,
{
    assert(s.push(b).drop_last() =~= s);
}

/// A string of `n` bytes stands for a number below 256 to the `n`.
pub proof fn lemma_value_bound(s: Seq<u8>)
    ensures
        be_value(s) < pow256(s.len()),
    decreases s.len(),
{
    if s.len() > 0 {
        lemma_value_bound(s.drop_last());
    }
}

/// Appending `y` shifts `x` by the length of `y`.
pub proof fn lemma_value_concat(x: Seq<u8>, y: Seq<u8>)
    ensures
        be_value(x + y) == be_value(x) * pow256(y.len()) + be_value(y),
    decreases y.len(),
{
    if y.len() == 0 {
        assert(x + y =~= x);
        assert(pow256(y.len()) == 1);
        assert(be_value(x) * 1 == be_value(x));
    } else {
        let y0 = y.drop_last();
        assert((x + y).drop_last() =~= x + y0);
        lemma_value_concat(x, y0);
        let p = pow256(y0.len());
        let bx = be_value(x);
        let by0 = be_value(y0);
        assert(pow256(y.len()) == 256 * p);
        assert((x + y).last() == y.last());
        assert(be_value(x + y) == be_value(x + y0) * 256 + y.last() as nat);
        assert(be_value(y) == by0 * 256 + y.last() as nat);
        assert((bx * p + by0) * 256 == bx * (256 * p) + by0 * 256) by (nonlinear_arith);
        assert(pow256(y.len()) == 256 * p);
    }
}

/// Zero bytes in front do not change the number.
pub proof fn lemma_value_left_padded(s: Seq<u8>, width: nat)
    requires
        s.len() <= width,
    ensures
        be_value(left_padded(s, width)) == be_value(s),
        left_padded(s, width).len() == width,
{
    let z = Seq::new((width - s.len()) as nat, |i: int| 0u8);
    lemma_value_zeros(z);
    lemma_value_concat(z, s);
    assert(0 * pow256(s.len()) == 0);
}

/// A string of zero bytes stands for zero.
pub proof fn lemma_value_zeros(z: Seq<u8>)
    requires
        forall|i: int| 0 <= i < z.len() ==> z[i] == 0,
    ensures
        be_value(z) == 0,
    decreases z.len(),
{
    if z.len() > 0 {
        lemma_value_zeros(z.drop_last());
    }
}

/// The shortest form of a number stands for that number.
pub proof fn lemma_min_value(n: nat)
    ensures
        be_value(be_min(n)) == n,
    decreases n,
{
    if n > 0 {
        lemma_min_value(n / 256);
        lemma_value_push(be_min(n / 256), (n % 256) as u8);
    }
}

/// The shortest form of a number is minimal, and empty for zero only.
pub proof fn lemma_min_is_minimal(n: nat)
    ensures
        is_minimal(be_min(n)),
        be_min(n).len() == 0 <==> n == 0,
    decreases n,
{
    if n > 0 {
        lemma_min_is_minimal(n / 256);
        if n / 256 == 0 {
            assert(be_min(n)[0] == (n % 256) as u8);
        } else {
            assert(be_min(n)[0] == be_min(n / 256)[0]);
        }
    }
}

/// A non-empty minimal string stands for a positive number.
pub proof fn lemma_minimal_positive(s: Seq<u8>)
    requires
        s.len() > 0,
        s[0] != 0,
    ensures
        be_value(s) > 0,
    decreases s.len(),
{
    if s.len() > 1 {
        lemma_minimal_positive(s.drop_last());
    }
}

/// A minimal string is the shortest string of its number.
pub proof fn lemma_value_min(s: Seq<u8>)
    requires
        is_minimal(s),
    ensures
        be_min(be_value(s)) == s,
    decreases s.len(),
{
    if s.len() > 0 {
        let front = s.drop_last();
        let v = be_value(s);
        lemma_minimal_positive(s);
        lemma_value_min(front);
        assert(v / 256 == be_value(front));
        assert(v % 256 == s.last() as nat);
        assert(be_min(v) =~= s);
    }
}

/// Two strings of one length and one number are equal.
pub proof fn lemma_fixed_width_unique(a: Seq<u8>, b: Seq<u8>)
    requires
        a.len() == b.len(),
        be_value(a) == be_value(b),
    ensures
        a == b,
    decreases a.len(),
{
    if a.len() > 0 {
        lemma_fixed_width_unique(a.drop_last(), b.drop_last());
        assert(a =~= a.drop_last().push(a.last()));
        assert(b =~= b.drop_last().push(b.last()));
    } else {
        assert(a =~= b);
    }
}

/// Without its leading zero bytes a string is the shortest form of its
/// number.
pub proof fn lemma_trimmed(s: Seq<u8>)
    ensures
        trimmed(s) == be_min(be_value(s)),
        trimmed(s).len() <= s.len(),
    decreases s.len(),
{
    if s.len() > 0 && s[0] == 0 {
        let rest = s.subrange(1, s.len() as int);
        lemma_trimmed(rest);
        assert(s =~= seq![0u8] + rest);
        lemma_value_concat(seq![0u8], rest);
        assert(be_value(seq![0u8]) == 0) by {
            lemma_value_push(Seq::<u8>::empty(), 0u8);
            assert(Seq::<u8>::empty().push(0u8) =~= seq![0u8]);
        }
        assert(0 * pow256(rest.len()) == 0);
    } else {
        lemma_value_min(s);
    }
}

/// A number below 256 to the `k` has a shortest form of at most `k` bytes.
pub proof fn lemma_min_len(n: nat, k: nat)
    requires
        n < pow256(k),
    ensures
        be_min(n).len() <= k,
    decreases n,
{
    if n > 0 {
        if k == 0 {
            assert(pow256(0) == 1);
        } else {
            assert(pow256(k) == 256 * pow256((k - 1) as nat));
            lemma_min_len(n / 256, (k - 1) as nat);
        }
    }
}

/// Of two strings of one length that agree up to index `i`, the one with the
/// smaller byte at `i` stands for the smaller number.
pub proof fn lemma_first_difference(a: Seq<u8>, b: Seq<u8>, i: int)
    requires
        a.len() == b.len(),
        0 <= i < a.len(),
        a.subrange(0, i) == b.subrange(0, i),
        a[i] < b[i],
    ensures
        be_value(a) < be_value(b),
{
    let n = a.len() as int;
    let a_head = a.subrange(0, i + 1);
    let b_head = b.subrange(0, i + 1);
    let a_tail = a.subrange(i + 1, n);
    let b_tail = b.subrange(i + 1, n);
    assert(a =~= a_head + a_tail);
    assert(b =~= b_head + b_tail);
    lemma_value_concat(a_head, a_tail);
    lemma_value_concat(b_head, b_tail);
    assert(a_head.drop_last() =~= a.subrange(0, i));
    assert(b_head.drop_last() =~= b.subrange(0, i));
    assert(be_value(a_head) + 1 <= be_value(b_head));
    lemma_value_bound(a_tail);
    let p = pow256(a_tail.len());
    assert(a_tail.len() == b_tail.len());
    let x = be_value(a_head);
    let y = be_value(b_head);
    assert(x * p + p <= y * p) by (nonlinear_arith)
        requires
            x + 1 <= y,
    ;
}

/// Copies `s` without its leading zero bytes.
pub fn trim_leading_zeros(s: &[u8]) -> (out: Vec<u8>)
    ensures
        out@ == be_min(be_value(s@)),
        out@ == trimmed(s@),
        out@.len() <= s@.len(),
{
    let n: usize = s.len();
    let mut start: usize = 0;
    assert(s@.subrange(0, n as int) =~= s@);
    while start < n && s[start] == 0
        invariant
            n == s@.len(),
            start <= n,
            trimmed(s@) == trimmed(s@.subrange(start as int, n as int)),
        decreases n - start,
    {
        proof {
            let cur = s@.subrange(start as int, n as int);
            assert(cur[0] == 0);
            assert(cur.subrange(1, cur.len() as int) =~= s@.subrange(start as int + 1, n as int));
        }
        start = start + 1;
    }
    let mut out: Vec<u8> = Vec::new();
    let mut i: usize = start;
    while i < n
        invariant
            n == s@.len(),
            start <= i <= n,
            out@ == s@.subrange(start as int, i as int),
        decreases n - i,
    {
        out.push(s[i]);
        proof {
            assert(out@ =~= s@.subrange(start as int, i as int + 1));
        }
        i = i + 1;
    }
    proof {
        let cur = s@.subrange(start as int, n as int);
        assert(trimmed(cur) == cur);
        lemma_trimmed(s@);
    }
    out
}

/// The shortest big-endian byte string of a 64-bit number.
pub fn u64_to_be_min(x: u64) -> (out: Vec<u8>)
    ensures
        out@ == be_min(x as nat),
        out@.len() <= 8,
    decreases x,
{
    proof {
        lemma_pow256_eight();
        lemma_min_len(x as nat, 8);
    }
    if x == 0 {
        Vec::new()
    } else {
        let mut out = u64_to_be_min(x / 256);
        out.push((x % 256) as u8);
        out
    }
}

/// 256 to the eighth power is two to the sixty-fourth.
pub proof fn lemma_pow256_eight()
    ensures
        pow256(8) == 0x1_0000_0000_0000_0000,
{
    reveal_with_fuel(pow256, 9);
}

/// Reads a big-endian byte string of at most eight bytes as a number.
pub fn be_to_u64(s: &[u8]) -> (out: Option<u64>)
    ensures
        out is Some <==> s@.len() <= 8,
        out matches Some(x) ==> x as nat == be_value(s@),
{
    let n: usize = s.len();
    if n > 8 {
        return None;
    }
    let mut acc: u64 = 0;
    let mut i: usize = 0;
    assert(s@.subrange(0, 0) =~= Seq::<u8>::empty());
    while i < n
        invariant
            n == s@.len(),
            n <= 8,
            i <= n,
            acc as nat == be_value(s@.subrange(0, i as int)),
        decreases n - i,
    {
        proof {
            let head = s@.subrange(0, i as int);
            lemma_value_bound(head);
            lemma_pow256_monotone(i as nat, 7);
            lemma_pow256_eight();
            assert(pow256(8) == 256 * pow256(7));
            assert(s@.subrange(0, i as int + 1) =~= head.push(s@[i as int]));
            lemma_value_push(head, s@[i as int]);
        }
        acc = acc * 256 + s[i] as u64;
        i = i + 1;
    }
    assert(s@.subrange(0, n as int) =~= s@);
    Some(acc)
}

/// A larger exponent gives a power at least as large.
pub proof fn lemma_pow256_monotone(j: nat, k: nat)
    requires
        j <= k,
    ensures
        pow256(j) <= pow256(k),
    decreases k,
{
    if j < k {
        lemma_pow256_monotone(j, (k - 1) as nat);
    }
}

} // verus!
