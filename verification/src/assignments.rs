//! The assignment enumerator: every combination of truth values for `n`
//! atomic propositions, in a fixed, documented order.
//!
//! Row `k` (0-indexed from the top) of the enumeration is the big-endian
//! binary representation of `2^n - 1 - k`, with bit value 1 read as `true`.
//! The first row is therefore all-`true`, the last all-`false`, and the
//! rows follow strictly descending numeric order of their bit patterns.

use vstd::arithmetic::div_mod::lemma_div_denominator;
use vstd::arithmetic::power2::lemma2_to64;
use vstd::arithmetic::power2::lemma_pow2_pos;
use vstd::arithmetic::power2::lemma_pow2_strictly_increases;
use vstd::arithmetic::power2::lemma_pow2_unfold;
use vstd::arithmetic::power2::pow2;
use vstd::prelude::*;

verus! {

/// Bit `j` (counting from the least significant, starting at 0) of the
/// natural number `v`.
pub open spec fn bit_at(v: nat, j: nat) -> bool {
    (v / pow2(j)) % 2 == 1
}

/// The assignment vector standing in row `k` of the enumeration for `n`
/// atomic propositions: the `n` big-endian binary digits of `2^n - 1 - k`,
/// digit 1 read as `true`.
pub open spec fn assignment_at(n: nat, k: nat) -> Seq<bool> {
    Seq::new(n, |j: int| bit_at((pow2(n) - 1 - k) as nat, (n - 1 - j) as nat))
}

/// The natural number whose big-endian binary digits are `s`, with `true`
/// read as 1.
pub open spec fn value_of(s: Seq<bool>) -> nat
    decreases s.len(),
{
    if s.len() == 0 {
        0
    } else {
        2 * value_of(s.drop_last()) + (if s.last() {
            1nat
        } else {
            0nat
        })
    }
}

/// Reading the `n` low bits of `v < 2^n` back as a big-endian digit
/// sequence recovers `v`.
proof fn lemma_bits_value(n: nat, v: nat)
    requires
        v < pow2(n),
    ensures
        value_of(Seq::new(n, |j: int| bit_at(v, (n - 1 - j) as nat))) == v,
    decreases n,
{
    let s = Seq::new(n, |j: int| bit_at(v, (n - 1 - j) as nat));
    if n == 0 {
        assert(pow2(0) == 1) by {
            lemma2_to64();
        }
        assert(v == 0);
        assert(s.len() == 0);
    } else {
        let m = (n - 1) as nat;
        let h = v / 2;
        let s2 = Seq::new(m, |j: int| bit_at(h, (m - 1 - j) as nat));
        assert forall|j: int| 0 <= j < m implies s.drop_last()[j] == s2[j] by {
            let t = (m - 1 - j) as nat;
            lemma_pow2_pos(t);
            lemma_div_denominator(v as int, 2, pow2(t) as int);
            lemma_pow2_unfold((t + 1) as nat);
            assert((v as int / 2) / (pow2(t) as int) == v as int / (2 * pow2(t) as int));
            assert(pow2(t + 1) == 2 * pow2(t));
            assert(bit_at(h, t) == bit_at(v, t + 1));
        }
        assert(s.drop_last() =~= s2);
        lemma_pow2_unfold(n);
        assert(h < pow2(m));
        lemma_bits_value(m, h);
        assert(pow2(0) == 1) by {
            lemma2_to64();
        }
        assert(s.last() == bit_at(v, 0));
        assert(bit_at(v, 0) == (v % 2 == 1));
        assert(value_of(s) == 2 * value_of(s2) + (if v % 2 == 1 {
            1nat
        } else {
            0nat
        }));
        assert(value_of(s) == 2 * h + v % 2);
    }
}

/// Row `k` of the enumeration for `n` atomics, read back as a big-endian
/// binary number, equals `2^n - 1 - k`: the rows are exactly the numbers
/// `2^n - 1` down to `0`, in that order.
pub proof fn lemma_assignment_value(n: nat, k: nat)
    requires
        k < pow2(n),
    ensures
        value_of(assignment_at(n, k)) == pow2(n) - 1 - k,
{
    let v = (pow2(n) - 1 - k) as nat;
    lemma_pow2_pos(n);
    lemma_bits_value(n, v);
    assert(assignment_at(n, k) =~= Seq::new(n, |j: int| bit_at(v, (n - 1 - j) as nat)));
}

/// Two distinct rows of the enumeration hold distinct assignment vectors.
pub proof fn lemma_assignments_distinct(n: nat, k1: nat, k2: nat)
    requires
        k1 < pow2(n),
        k2 < pow2(n),
        k1 != k2,
    ensures
        assignment_at(n, k1) != assignment_at(n, k2),
{
    lemma_assignment_value(n, k1);
    lemma_assignment_value(n, k2);
    assert(value_of(assignment_at(n, k1)) != value_of(assignment_at(n, k2)));
}

/// `2^e`, as a machine integer.
fn pow2_usize(e: usize) -> (r: usize)
    requires
        pow2(e as nat) <= usize::MAX,
    ensures
        r == pow2(e as nat),
{
    let mut r: usize = 1;
    let mut i: usize = 0;
    proof {
        assert(pow2(0) == 1) by {
            lemma2_to64();
        }
    }
    while i < e
        invariant
            i <= e,
            r == pow2(i as nat),
            pow2(e as nat) <= usize::MAX,
        decreases e - i,
    {
        proof {
            lemma_pow2_unfold((i + 1) as nat);
            if i + 1 < e {
                lemma_pow2_strictly_increases((i + 1) as nat, e as nat);
            }
        }
        r = r * 2;
        i = i + 1;
    }
    r
}

/// All possible truth values for `n` atomic propositions: exactly `2^n`
/// vectors of length `n` each, where row `k` holds the big-endian binary
/// digits of `2^n - 1 - k` (1 read as `true`). The first row is all-`true`,
/// the last row all-`false`; for `n == 0` the result is the single empty
/// assignment.
pub fn possible_truth_values(n: usize) -> (r: Vec<Vec<bool>>)
    requires
        pow2(n as nat) <= usize::MAX,
    ensures
        r@.len() == pow2(n as nat),
        forall|k: int| 0 <= k < r@.len() ==> (#[trigger] r@[k])@ == assignment_at(n as nat, k as nat),
        forall|k: int| 0 <= k < r@.len() ==> (#[trigger] r@[k])@.len() == n,
{
    let total = pow2_usize(n);
    let mut rows: Vec<Vec<bool>> = Vec::new();
    let mut k: usize = 0;
    while k < total
        invariant
            k <= total,
            total == pow2(n as nat),
            rows@.len() == k,
            forall|t: int| 0 <= t < k ==> (#[trigger] rows@[t])@ == assignment_at(n as nat, t as nat),
        decreases total - k,
    {
        let v = total - 1 - k;
        let mut row: Vec<bool> = Vec::new();
        let mut j: usize = 0;
        while j < n
            invariant
                j <= n,
                total == pow2(n as nat),
                k < total,
                v == total - 1 - k,
                row@.len() == j,
                forall|t: int| 0 <= t < j ==> row@[t] == bit_at(v as nat, (n - 1 - t) as nat),
            decreases n - j,
        {
            proof {
                lemma_pow2_pos((n - 1 - j) as nat);
                lemma_pow2_strictly_increases((n - 1 - j) as nat, n as nat);
            }
            let p = pow2_usize(n - 1 - j);
            row.push((v / p) % 2 == 1);
            j = j + 1;
        }
        proof {
            assert(row@ =~= assignment_at(n as nat, k as nat));
        }
        rows.push(row);
        k = k + 1;
    }
    proof {
        assert forall|t: int| 0 <= t < rows@.len() implies (#[trigger] rows@[t])@.len() == n by {
            assert(rows@[t]@ == assignment_at(n as nat, t as nat));
        }
    }
    rows
}

} // verus!
