use vstd::prelude::*;

verus! {

/// What one output cell holds, decided from the ordinals of the control
/// points' `x` values and of the query.
#[derive(Clone, Copy, Debug, PartialEq, Eq, Structural)]
pub enum Cell {
    /// Out of domain and no fill value: the cell has no value.
    Missing,
    /// Out of domain: the cell holds the fill value.
    Fill,
    /// The cell holds exactly the `y` of the control point at this index.
    Knot(usize),
    /// The query lies strictly between the control points at this index and
    /// the next: the cell holds the method's interpolation over that segment.
    Between(usize),
}

/// The `x` ordinals are in non-decreasing order.
pub open spec fn ordered(keys: Seq<i64>) -> bool {
    forall|i: int, j: int| 0 <= i <= j < keys.len() ==> keys[i] <= keys[j]
}

/// The `x` ordinals are in strictly ascending order.
pub open spec fn strictly_ordered(keys: Seq<i64>) -> bool {
    forall|i: int, j: int| 0 <= i < j < keys.len() ==> keys[i] < keys[j]
}

/// The query lies in the closed interval from the first to the last `x`.
pub open spec fn in_domain(keys: Seq<i64>, q: i64) -> bool {
    keys.len() > 0 && keys[0] <= q && q <= keys[keys.len() - 1]
}

/// `c` is where the spline is sampled at `q`: `Missing` out of domain; in
/// domain, the first control point whose `x` equals `q`, or else the segment
/// whose ends strictly enclose `q`.
pub open spec fn located(keys: Seq<i64>, q: i64, c: Cell) -> bool {
    match c {
        Cell::Missing => !in_domain(keys, q),
        Cell::Fill => false,
        Cell::Knot(j) => in_domain(keys, q) && j < keys.len() && keys[j as int] == q && (forall|
            i: int,
        |
            0 <= i < j ==> keys[i] != q),
        Cell::Between(k) => in_domain(keys, q) && k + 1 < keys.len() && keys[k as int] < q && q
            < keys[k + 1],
    }
}

/// Whether the `x` ordinals are in non-decreasing order, as the engine requires.
pub fn is_ordered(keys: &Vec<i64>) -> (r: bool)
    ensures
        r == ordered(keys@),
{
    let mut i: usize = 1;
    if keys.len() == 0 {
        return true;
    }
    while i < keys.len()
        invariant
            1 <= i <= keys@.len(),
            forall|a: int, b: int| 0 <= a <= b < i ==> keys@[a] <= keys@[b],
        decreases keys@.len() - i,
    {
        if keys[i - 1] > keys[i] {
            return false;
        }
        i = i + 1;
    }
    true
}

/// Locates the query `q` among the control points' `x` ordinals by binary
/// search: out of domain, a control point hit exactly, or the enclosing segment.
pub fn locate(keys: &Vec<i64>, q: i64) -> (r: Cell)
    requires
        ordered(keys@),
    ensures
        located(keys@, q, r),
{
    let n = keys.len();
    if n == 0 || q < keys[0] || q > keys[n - 1] {
        return Cell::Missing;
    }
    let mut lo: usize = 0;
    let mut hi: usize = n;
    while lo < hi
        invariant
            n == keys@.len(),
            0 <= lo <= hi <= n,
            forall|j: int| 0 <= j < lo ==> keys@[j] < q,
            forall|j: int| hi <= j < n ==> keys@[j] >= q,
            ordered(keys@),
        decreases hi - lo,
    {
        let mid = lo + (hi - lo) / 2;
        if keys[mid] < q {
            lo = mid + 1;
        } else {
            hi = mid;
        }
    }
    // keys[n - 1] >= q, so the first index whose key reaches q exists.
    if lo == n {
        assert(keys@[n - 1] < q);
    }
    if keys[lo] == q {
        Cell::Knot(lo)
    } else {
        Cell::Between(lo - 1)
    }
}

/// What the cell answering query `i` of `xi` holds: out-of-domain queries
/// take the fill value when there is one; with `snap_endpoints`, a first
/// query equal to the first `x` gives the first control point exactly, and a
/// last query equal to the last `x` gives the last one.
pub open spec fn cell_matches(
    keys: Seq<i64>,
    xi: Seq<i64>,
    i: int,
    has_fill: bool,
    snap_endpoints: bool,
    c: Cell,
) -> bool {
    if snap_endpoints && i == 0 && keys.len() > 0 && xi[i] == keys[0] {
        c == Cell::Knot(0)
    } else if snap_endpoints && i == xi.len() - 1 && keys.len() > 0 && xi[i] == keys[keys.len()
        - 1] {
        c == Cell::Knot((keys.len() - 1) as usize)
    } else if !in_domain(keys, xi[i]) {
        c == if has_fill {
            Cell::Fill
        } else {
            Cell::Missing
        }
    } else {
        located(keys, xi[i], c)
    }
}

/// Decides every output cell of a batch, one per query, in query order.
pub fn sample_spline(keys: &Vec<i64>, xi: &Vec<i64>, has_fill: bool, snap_endpoints: bool) -> (r:
    Vec<Cell>)
    requires
        ordered(keys@),
    ensures
        r@.len() == xi@.len(),
        forall|i: int|
            0 <= i < xi@.len() ==> cell_matches(keys@, xi@, i, has_fill, snap_endpoints, #[trigger] r@[i]),
{
    let n = keys.len();
    let mut out: Vec<Cell> = Vec::new();
    let mut i: usize = 0;
    while i < xi.len()
        invariant
            n == keys@.len(),
            ordered(keys@),
            0 <= i <= xi@.len(),
            out@.len() == i,
            forall|j: int|
                0 <= j < i ==> cell_matches(keys@, xi@, j, has_fill, snap_endpoints, #[trigger] out@[j]),
        decreases xi@.len() - i,
    {
        let q = xi[i];
        let c = if snap_endpoints && i == 0 && n > 0 && q == keys[0] {
            Cell::Knot(0)
        } else if snap_endpoints && i == xi.len() - 1 && n > 0 && q == keys[n - 1] {
            Cell::Knot(n - 1)
        } else {
            match locate(keys, q) {
                Cell::Missing => if has_fill {
                    Cell::Fill
                } else {
                    Cell::Missing
                },
                found => found,
            }
        };
        out.push(c);
        i = i + 1;
    }
    out
}

/// The four control points that a Catmull-Rom segment starting at index `k`
/// uses: the point before, the two ends, and the point after, where a missing
/// neighbour is stood in for by the nearest end.
pub fn catmull_rom_indices(n: usize, k: usize) -> (r: (usize, usize, usize, usize))
    requires
        k + 1 < n,
    ensures
        r.0 == if k == 0 { k } else { (k - 1) as usize },
        r.1 == k,
        r.2 == k + 1,
        r.3 == if k + 2 < n { (k + 2) as usize } else { (k + 1) as usize },
{
    let before = if k == 0 { k } else { k - 1 };
    let after = if k + 2 < n { k + 2 } else { k + 1 };
    (before, k, k + 1, after)
}

/// Where the spline is sampled at a query is fully determined: two cells that
/// both answer it are the same cell.
pub proof fn lemma_located_unique(keys: Seq<i64>, q: i64, c1: Cell, c2: Cell)
    requires
        ordered(keys),
        located(keys, q, c1),
        located(keys, q, c2),
    ensures
        c1 == c2,
{
    match (c1, c2) {
        (Cell::Knot(j1), Cell::Knot(j2)) => {
            if j1 < j2 {
                assert(keys[j1 as int] != q);
            } else if j2 < j1 {
                assert(keys[j2 as int] != q);
            }
        },
        (Cell::Knot(j), Cell::Between(k)) | (Cell::Between(k), Cell::Knot(j)) => {
            if j <= k {
                assert(keys[j as int] <= keys[k as int]);
            } else {
                assert(keys[k + 1] <= keys[j as int]);
            }
        },
        (Cell::Between(k1), Cell::Between(k2)) => {
            if k1 < k2 {
                assert(keys[k1 + 1] <= keys[k2 as int]);
            } else if k2 < k1 {
                assert(keys[k2 + 1] <= keys[k1 as int]);
            }
        },
        _ => {},
    }
}

/// Evaluating the same control points and queries under the same policy twice
/// gives the same cells: a batch's result is a function of its inputs.
pub proof fn lemma_batch_deterministic(
    keys: Seq<i64>,
    xi: Seq<i64>,
    has_fill: bool,
    snap_endpoints: bool,
    r1: Seq<Cell>,
    r2: Seq<Cell>,
)
    requires
        ordered(keys),
        r1.len() == xi.len(),
        r2.len() == xi.len(),
        forall|i: int| 0 <= i < xi.len() ==> cell_matches(keys, xi, i, has_fill, snap_endpoints, #[trigger] r1[i]),
        forall|i: int| 0 <= i < xi.len() ==> cell_matches(keys, xi, i, has_fill, snap_endpoints, #[trigger] r2[i]),
    ensures
        r1 == r2,
{
    assert forall|i: int| 0 <= i < xi.len() implies r1[i] == r2[i] by {
        assert(cell_matches(keys, xi, i, has_fill, snap_endpoints, r1[i]));
        assert(cell_matches(keys, xi, i, has_fill, snap_endpoints, r2[i]));
        if in_domain(keys, xi[i]) && located(keys, xi[i], r1[i]) && located(keys, xi[i], r2[i]) {
            lemma_located_unique(keys, xi[i], r1[i], r2[i]);
        }
    }
    assert(r1 =~= r2);
}

/// A query strictly before the first `x` or strictly after the last one is
/// never interpolated: its cell is the fill value, or missing without one.
pub proof fn lemma_out_of_domain_takes_fill(
    keys: Seq<i64>,
    xi: Seq<i64>,
    i: int,
    has_fill: bool,
    snap_endpoints: bool,
    c: Cell,
)
    requires
        ordered(keys),
        0 <= i < xi.len(),
        !in_domain(keys, xi[i]),
        cell_matches(keys, xi, i, has_fill, snap_endpoints, c),
    ensures
        c == (if has_fill {
            Cell::Fill
        } else {
            Cell::Missing
        }),
{
    if keys.len() > 0 {
        assert(keys[0] <= keys[keys.len() - 1]);
    }
}

/// With control points at distinct, ascending `x`, a query equal to the `x`
/// of one of them gives exactly that control point's `y`, for every method
/// and policy.
pub proof fn lemma_query_at_knot(
    keys: Seq<i64>,
    xi: Seq<i64>,
    i: int,
    j: int,
    has_fill: bool,
    snap_endpoints: bool,
    c: Cell,
)
    requires
        strictly_ordered(keys),
        0 <= i < xi.len(),
        0 <= j < keys.len(),
        xi[i] == keys[j],
        cell_matches(keys, xi, i, has_fill, snap_endpoints, c),
    ensures
        c == Cell::Knot(j as usize),
{
    let q = xi[i];
    assert(keys[0] <= keys[j]);
    assert(keys[j] <= keys[keys.len() - 1]);
    assert(in_domain(keys, q));
    if 0 < j {
        assert(keys[0] < keys[j]);
    }
    if j < keys.len() - 1 {
        assert(keys[j] < keys[keys.len() - 1]);
    }
    match c {
        Cell::Knot(j2) => {
            if (j2 as int) < j {
                assert(keys[j2 as int] < keys[j]);
            } else if (j2 as int) > j {
                assert(keys[j] < keys[j2 as int]);
            }
        },
        Cell::Between(k) => {
            if j <= k {
                assert(keys[j] <= keys[k as int]);
            } else {
                assert(keys[k + 1] <= keys[j]);
            }
        },
        _ => {},
    }
}

/// With endpoint snapping, a first query equal to the first `x` gives exactly
/// the first control point, and a last query equal to the last `x` gives
/// exactly the last one, whatever the method.
pub proof fn lemma_snapped_endpoints(
    keys: Seq<i64>,
    xi: Seq<i64>,
    has_fill: bool,
    first: Cell,
    last: Cell,
)
    requires
        keys.len() > 0,
        xi.len() > 0,
        cell_matches(keys, xi, 0, has_fill, true, first),
        cell_matches(keys, xi, xi.len() - 1, has_fill, true, last),
    ensures
        xi[0] == keys[0] ==> first == Cell::Knot(0),
        xi[xi.len() - 1] == keys[keys.len() - 1] && (xi.len() > 1 || xi[0] != keys[0]) ==> last
            == Cell::Knot((keys.len() - 1) as usize),
{
}

} // verus!
