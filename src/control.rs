use vstd::prelude::*;

verus! {

/// The control points that the first `n` positions of two columns give: a
/// position contributes the pair `(x[i], y[i])` when both entries are
/// present, and nothing otherwise. Column order is kept.
pub open spec fn present_pairs<X, Y>(x: Seq<Option<X>>, y: Seq<Option<Y>>, n: nat) -> Seq<(X, Y)>
    decreases n,
{
    if n == 0 {
        Seq::empty()
    } else {
        let before = present_pairs(x, y, (n - 1) as nat);
        match (x[n - 1], y[n - 1]) {
            (Some(a), Some(b)) => before.push((a, b)),
            _ => before,
        }
    }
}

/// Builds the control points from an `x` column and a `y` column of equal
/// length, keeping exactly the positions where both entries are present, as
/// pairs, in column order.
pub fn create_spline<X: Copy, Y: Copy>(x: &Vec<Option<X>>, y: &Vec<Option<Y>>) -> (r: Vec<(X, Y)>)
    requires
        x@.len() == y@.len(),
    ensures
        r@ == present_pairs(x@, y@, x@.len()),
{
    let mut out: Vec<(X, Y)> = Vec::new();
    let mut i: usize = 0;
    while i < x.len()
        invariant
            x@.len() == y@.len(),
            0 <= i <= x@.len(),
            out@ == present_pairs(x@, y@, i as nat),
        decreases x@.len() - i,
    {
        match (x[i], y[i]) {
            (Some(a), Some(b)) => {
                out.push((a, b));
            },
            _ => {},
        }
        i = i + 1;
    }
    out
}

/// Every control point that `create_spline` keeps is the pair found at one
/// position of the two columns: no `y` entry is ever paired with the `x`
/// entry of another position.
pub proof fn lemma_pairs_stay_aligned<X, Y>(x: Seq<Option<X>>, y: Seq<Option<Y>>, n: nat, k: int)
    requires
        n <= x.len(),
        n <= y.len(),
        0 <= k < present_pairs(x, y, n).len(),
    ensures
        exists|i: int|
            0 <= i < n && x[i] == Some(present_pairs(x, y, n)[k].0) && y[i] == Some(
                present_pairs(x, y, n)[k].1,
            ),
    decreases n,
{
    let before = present_pairs(x, y, (n - 1) as nat);
    if k < before.len() {
        lemma_pairs_stay_aligned(x, y, (n - 1) as nat, k);
        let i = choose|i: int|
            0 <= i < n - 1 && x[i] == Some(before[k].0) && y[i] == Some(before[k].1);
        assert(present_pairs(x, y, n)[k] == before[k]);
        assert(0 <= i < n);
    } else {
        let i = n - 1;
        assert(x[i] == Some(present_pairs(x, y, n)[k].0));
    }
}

} // verus!
