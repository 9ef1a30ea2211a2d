//! Column spans: a cell spread over several columns gets the width it needs
//! by growing those columns, the shortfall shared out as evenly as possible.

use vstd::prelude::*;
use crate::estimate::MAX_EXTENT;

verus! {

/// The total width of columns `a..b`.
pub open spec fn sum_range(ws: Seq<usize>, a: int, b: int) -> nat
    decreases b - a,
{
    if b <= a {
        0
    } else {
        sum_range(ws, a, b - 1) + ws[b - 1] as nat
    }
}

/// The width of `n` columns from `start` joined by `n - 1` separators.
pub open spec fn span_width(ws: Seq<usize>, start: int, n: int, sep: nat) -> nat {
    (sum_range(ws, start, start + n) + (n - 1) * sep) as nat
}

/// What column `i` of `n` receives of a shortfall `deficit`: an equal part,
/// and one more for each of the first `deficit % n` columns.
pub open spec fn share(deficit: nat, n: nat, i: int) -> nat {
    deficit / n + if i < deficit % n {
        1nat
    } else {
        0nat
    }
}

proof fn lemma_sum_range_frame(s1: Seq<usize>, s2: Seq<usize>, a: int, b: int)
    requires
        forall|i: int| a <= i < b ==> s1[i] == s2[i],
    ensures
        sum_range(s1, a, b) == sum_range(s2, a, b),
    decreases b - a,
{
    if b > a {
        lemma_sum_range_frame(s1, s2, a, b - 1);
    }
}

proof fn lemma_shares_total(d: nat, n: nat, k: nat)
    requires
        n >= 1,
        k <= n,
    ensures
        k * (d / n) + (if k < d % n { k } else { d % n }) <= d,
        k == n ==> k * (d / n) + (if k < d % n { k } else { d % n }) == d,
{
    assert(d == n * (d / n) + d % n) by (nonlinear_arith)
        requires
            n >= 1,
    ;
    assert(k * (d / n) <= n * (d / n)) by (nonlinear_arith)
        requires
            k <= n,
    ;
    assert(d % n < n);
}

/// Grows columns `start..start + n` so that, with `n - 1` separators of width
/// `sep` between them, they are at least `required` wide. The shortfall, if
/// any, is shared out by `share`; the other columns are unchanged.
pub fn spread_span(widths: &mut Vec<usize>, start: usize, n: usize, sep: usize, required: usize)
    requires
        1 <= n,
        start + n <= old(widths)@.len(),
        forall|k: int| 0 <= k < old(widths)@.len() ==> #[trigger] old(widths)@[k] <= MAX_EXTENT,
        required <= MAX_EXTENT,
    ensures
        ({
            let before = span_width(old(widths)@, start as int, n as int, sep as nat);
            let deficit = if required > before {
                (required - before) as nat
            } else {
                0nat
            };
            &&& final(widths)@.len() == old(widths)@.len()
            &&& forall|k: int|
                0 <= k < old(widths)@.len() && !(start <= k < start + n)
                    ==> #[trigger] final(widths)@[k] == old(widths)@[k]
            &&& forall|k: int|
                start <= k < start + n ==> #[trigger] final(widths)@[k] == old(widths)@[k] + share(
                    deficit,
                    n as nat,
                    k - start,
                )
            &&& span_width(final(widths)@, start as int, n as int, sep as nat) == if required
                > before {
                required as nat
            } else {
                before
            }
        }),
{
    let ghost orig = widths@;
    let total_len = widths.len();
    let mut rest: usize = required;
    let mut k: usize = 0;
    while k < n
        invariant
            widths@ == orig,
            total_len == orig.len(),
            start + n <= orig.len(),
            k <= n,
            rest == if required > sum_range(orig, start as int, start + k) {
                (required - sum_range(orig, start as int, start + k)) as nat
            } else {
                0nat
            },
        decreases n - k,
    {
        if rest > widths[start + k] {
            rest = rest - widths[start + k];
        } else {
            rest = 0;
        }
        k = k + 1;
    }
    let mut s: usize = 1;
    while s < n
        invariant
            widths@ == orig,
            1 <= s <= n,
            rest == if required > sum_range(orig, start as int, start + n) + (s - 1) * sep {
                (required - (sum_range(orig, start as int, start + n) + (s - 1) * sep)) as nat
            } else {
                0nat
            },
        decreases n - s,
    {
        assert(s * sep == (s - 1) * sep + sep) by (nonlinear_arith);
        if rest > sep {
            rest = rest - sep;
        } else {
            rest = 0;
        }
        s = s + 1;
    }
    let ghost deficit = rest as nat;
    let q = rest / n;
    let m = rest % n;
    let mut j: usize = 0;
    while j < n
        invariant
            total_len == orig.len(),
            start + n <= orig.len(),
            widths@.len() == orig.len(),
            j <= n,
            1 <= n,
            rest == deficit,
            q == deficit / (n as nat),
            m == deficit % (n as nat),
            deficit <= required,
            required <= MAX_EXTENT,
            forall|k: int| 0 <= k < orig.len() ==> #[trigger] orig[k] <= MAX_EXTENT,
            forall|k: int|
                0 <= k < orig.len() && !(start <= k < start + j) ==> #[trigger] widths@[k]
                    == orig[k],
            forall|k: int|
                start <= k < start + j ==> #[trigger] widths@[k] == orig[k] + share(
                    deficit,
                    n as nat,
                    k - start,
                ),
            sum_range(widths@, start as int, start + j) == sum_range(orig, start as int, start + j)
                + j * q + (if j < m {
                j as nat
            } else {
                m as nat
            }),
        decreases n - j,
    {
        let ghost before = widths@;
        proof {
            lemma_shares_total(deficit, n as nat, j as nat);
            assert(q <= deficit) by (nonlinear_arith)
                requires
                    q == deficit / (n as nat),
                    n >= 1,
            ;
        }
        let extra: usize = if j < m {
            1
        } else {
            0
        };
        let add = q + extra;
        widths.set(start + j, widths[start + j] + add);
        proof {
            lemma_sum_range_frame(widths@, before, start as int, start + j);
            assert((j + 1) * q == j * q + q) by (nonlinear_arith);
        }
        j = j + 1;
    }
    proof {
        lemma_shares_total(deficit, n as nat, n as nat);
    }
}

} // verus!
