//! Clustering: the space-filling order that places rows with similar
//! values on the clustering columns next to each other.

use crate::log::retry::{lemma_pow2_grows, pow2};
use vstd::prelude::*;

verus! {

/// The number of bits of a column's rank.
pub const RANK_BITS: usize = 32;

/// Bit `i` of `x`, counting from the least significant bit.
pub open spec fn bit(x: nat, i: nat) -> bool {
    (x / pow2(i)) % 2 == 1
}

/// The position on the space-filling curve of a row with the given ranks,
/// one rank per clustering column: the ranks' bits interleaved, from the
/// most significant bit of the first column to the least significant bit
/// of the last.
pub open spec fn z_value(ranks: Seq<u32>) -> Seq<bool> {
    Seq::new(
        32 * ranks.len(),
        |p: int| bit(ranks[p % (ranks.len() as int)] as nat, (31 - p / (ranks.len() as int)) as nat),
    )
}

/// Whether `a` comes before `b` on the curve: at the first bit in which
/// they differ, `a` has 0. Of two values of which one is the start of the
/// other, the shorter comes first.
pub open spec fn z_before(a: Seq<bool>, b: Seq<bool>) -> bool
    decreases a.len(),
{
    if b.len() == 0 {
        false
    } else if a.len() == 0 {
        true
    } else if a[0] != b[0] {
        !a[0]
    } else {
        z_before(a.drop_first(), b.drop_first())
    }
}

/// Interleaves the bits of the per-column ranks of one row.
pub fn interleave(ranks: &Vec<u32>) -> (z: Vec<bool>)
    requires
        32 * ranks.len() <= usize::MAX,
    ensures
        z@ == z_value(ranks@),
{
    let k = ranks.len();
    let mut z: Vec<bool> = Vec::new();
    if k == 0 {
        assert(z@ =~= z_value(ranks@));
        return z;
    }
    let mut divisor: u32 = 2_147_483_648;
    let mut b: usize = 0;
    proof {
        reveal_with_fuel(pow2, 32);
        assert(pow2(31) == 2_147_483_648);
    }
    while b < 32
        invariant
            k == ranks.len(),
            k > 0,
            32 * k <= usize::MAX,
            b <= 32,
            b < 32 ==> divisor == pow2((31 - b) as nat),
            z@.len() == b * k,
            forall|p: int| 0 <= p < z@.len() ==> z@[p] == #[trigger] z_value(ranks@)[p],
        decreases 32 - b,
    {
        let mut j: usize = 0;
        proof {
            lemma_pow2_grows((31 - b) as nat);
        }
        while j < k
            invariant
                k == ranks.len(),
                k > 0,
                32 * k <= usize::MAX,
                b < 32,
                divisor == pow2((31 - b) as nat),
                divisor > 0,
                j <= k,
                z@.len() == b * k + j,
                forall|p: int| 0 <= p < z@.len() ==> z@[p] == #[trigger] z_value(ranks@)[p],
            decreases k - j,
        {
            let ghost p = (b * k + j) as int;
            proof {
                assert(p / (k as int) == b && p % (k as int) == j) by (nonlinear_arith)
                    requires
                        p == b * k + j,
                        0 <= j < k,
                        b >= 0,
                ;
                assert(p < 32 * k) by (nonlinear_arith)
                    requires
                        p == b * k + j,
                        0 <= j < k,
                        b < 32,
                ;
            }
            z.push((ranks[j] / divisor) % 2 == 1);
            assert(z@[p] == z_value(ranks@)[p]);
            assert((b * k + j + 1) as int == b * k + (j + 1));
            j += 1;
        }
        assert(z@.len() == (b + 1) * k) by (nonlinear_arith)
            requires
                z@.len() == b * k + k,
        ;
        if b < 31 {
            proof {
                assert(pow2((31 - b) as nat) == 2 * pow2((30 - b) as nat));
            }
            divisor = divisor / 2;
        }
        b += 1;
    }
    assert(z@ =~= z_value(ranks@));
    z
}

/// Compares two positions on the curve.
pub fn comes_before(a: &Vec<bool>, b: &Vec<bool>) -> (before: bool)
    ensures
        before == z_before(a@, b@),
{
    let mut i: usize = 0;
    assert(a@.subrange(0, a@.len() as int) =~= a@);
    assert(b@.subrange(0, b@.len() as int) =~= b@);
    while i < a.len() && i < b.len()
        invariant
            i <= a.len(),
            i <= b.len(),
            z_before(a@, b@) == z_before(
                a@.subrange(i as int, a@.len() as int),
                b@.subrange(i as int, b@.len() as int),
            ),
        decreases a.len() - i,
    {
        let ghost ra = a@.subrange(i as int, a@.len() as int);
        let ghost rb = b@.subrange(i as int, b@.len() as int);
        assert(ra[0] == a@[i as int] && rb[0] == b@[i as int]);
        if a[i] != b[i] {
            return !a[i];
        }
        assert(ra.drop_first() =~= a@.subrange(i as int + 1, a@.len() as int));
        assert(rb.drop_first() =~= b@.subrange(i as int + 1, b@.len() as int));
        i += 1;
    }
    let ghost rb = b@.subrange(i as int, b@.len() as int);
    assert(rb.len() == b@.len() - i);
    i < b.len()
}

/// No position comes before itself, and of two different positions of
/// the same length exactly one comes before the other.
pub proof fn lemma_curve_order(a: Seq<bool>, b: Seq<bool>)
    requires
        a.len() == b.len(),
    ensures
        !z_before(a, a),
        a != b ==> (z_before(a, b) <==> !z_before(b, a)),
    decreases a.len(),
{
    if a.len() > 0 {
        lemma_curve_order(a.drop_first(), a.drop_first());
        lemma_curve_order(a.drop_first(), b.drop_first());
        if a[0] == b[0] && a != b {
            if a.drop_first() == b.drop_first() {
                assert(a =~= seq![a[0]] + a.drop_first());
                assert(b =~= seq![b[0]] + b.drop_first());
            }
        }
    } else {
        assert(a =~= b);
    }
}

} // verus!
