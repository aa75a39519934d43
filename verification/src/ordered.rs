//! Bayer threshold matrices and the palette color pairs that ordered dithering blends between.
use vstd::prelude::*;

use crate::config::BayerMatrix;

verus! {

/// The side of a Bayer matrix.
pub open spec fn side_of(matrix: BayerMatrix) -> int {
    match matrix {
        BayerMatrix::Two => 2,
        BayerMatrix::Four => 4,
        BayerMatrix::Eight => 8,
    }
}

/// The 2 × 2 Bayer matrix `[0 2; 3 1]`, at column `x` and row `y`.
pub open spec fn base_rank(x: int, y: int) -> int {
    if y == 0 {
        if x == 0 {
            0
        } else {
            2
        }
    } else {
        if x == 0 {
            3
        } else {
            1
        }
    }
}

/// The rank at column `x` and row `y` of the Bayer matrix of side 2, 4 or 8: each doubling
/// repeats the half-size matrix, times four, in the four quadrants, plus the 2 × 2 matrix's rank
/// of the quadrant.
pub open spec fn rank(side: int, x: int, y: int) -> int
    decreases side,
{
    if side <= 2 {
        base_rank(x, y)
    } else {
        let half = side / 2;
        4 * rank(half, x % half, y % half) + base_rank(x / half, y / half)
    }
}

proof fn lemma_base_rank_once(x1: int, y1: int, x2: int, y2: int)
    requires
        0 <= x1 < 2,
        0 <= y1 < 2,
        0 <= x2 < 2,
        0 <= y2 < 2,
    ensures
        0 <= base_rank(x1, y1) < 4,
        base_rank(x1, y1) == base_rank(x2, y2) ==> x1 == x2 && y1 == y2,
{
}

proof fn lemma_rank_once(side: int, x1: int, y1: int, x2: int, y2: int)
    requires
        side == 2 || side == 4 || side == 8,
        0 <= x1 < side,
        0 <= y1 < side,
        0 <= x2 < side,
        0 <= y2 < side,
    ensures
        0 <= rank(side, x1, y1) < side * side,
        rank(side, x1, y1) == rank(side, x2, y2) ==> x1 == x2 && y1 == y2,
    decreases side,
{
    if side == 2 {
        lemma_base_rank_once(x1, y1, x2, y2);
    } else {
        let half = side / 2;
        lemma_rank_once(half, x1 % half, y1 % half, x2 % half, y2 % half);
        lemma_base_rank_once(x1 / half, y1 / half, x2 / half, y2 / half);
    }
}

/// Each Bayer matrix holds every rank from 0 through side² − 1 exactly once: all its ranks are
/// below side², and no two cells share a rank.
pub proof fn law_each_rank_once(matrix: BayerMatrix, x1: int, y1: int, x2: int, y2: int)
    requires
        0 <= x1 < side_of(matrix),
        0 <= y1 < side_of(matrix),
        0 <= x2 < side_of(matrix),
        0 <= y2 < side_of(matrix),
    ensures
        0 <= rank(side_of(matrix), x1, y1) < side_of(matrix) * side_of(matrix),
        rank(side_of(matrix), x1, y1) == rank(side_of(matrix), x2, y2) ==> x1 == x2 && y1 == y2,
{
    lemma_rank_once(side_of(matrix), x1, y1, x2, y2);
}

/// The side of a Bayer matrix.
pub fn bayer_side(matrix: BayerMatrix) -> (side: u32)
    ensures
        side == side_of(matrix),
{
    match matrix {
        BayerMatrix::Two => 2,
        BayerMatrix::Four => 4,
        BayerMatrix::Eight => 8,
    }
}

/// The number of threshold levels of a matrix: one per cell.
pub fn bayer_levels(matrix: BayerMatrix) -> (levels: u32)
    ensures
        levels == side_of(matrix) * side_of(matrix),
{
    let side = bayer_side(matrix);
    side * side
}

fn base_rank_of(x: u32, y: u32) -> (r: u8)
    requires
        x < 2,
        y < 2,
    ensures
        r == base_rank(x as int, y as int),
{
    if y == 0 {
        if x == 0 {
            0
        } else {
            2
        }
    } else {
        if x == 0 {
            3
        } else {
            1
        }
    }
}

/// The rank of the matrix cell that covers logical sample `(x, y)`; the matrix repeats in
/// both directions.
pub fn bayer_rank(matrix: BayerMatrix, x: u32, y: u32) -> (r: u8)
    ensures
        r == rank(side_of(matrix), (x as int) % side_of(matrix), (y as int) % side_of(matrix)),
{
    let side = bayer_side(matrix);
    let cx = x % side;
    let cy = y % side;
    proof {
        lemma_rank_once(side as int, cx as int, cy as int, cx as int, cy as int);
    }
    match matrix {
        BayerMatrix::Two => {
            let r = base_rank_of(cx, cy);
            assert(r == rank(2, cx as int, cy as int));
            r
        },
        BayerMatrix::Four => {
            let r = 4 * base_rank_of(cx % 2, cy % 2) + base_rank_of(cx / 2, cy / 2);
            assert(r == rank(4, cx as int, cy as int)) by {
                reveal_with_fuel(rank, 2);
            }
            r
        },
        BayerMatrix::Eight => {
            let fx = cx % 4;
            let fy = cy % 4;
            let fine = 4 * base_rank_of(fx % 2, fy % 2) + base_rank_of(fx / 2, fy / 2);
            assert(fine == rank(4, fx as int, fy as int)) by {
                reveal_with_fuel(rank, 2);
            }
            let r = 4 * fine + base_rank_of(cx / 4, cy / 4);
            assert(r == rank(8, cx as int, cy as int));
            r
        },
    }
}

/// The matrix in row-major order.
pub fn bayer_values(matrix: BayerMatrix) -> (values: Vec<u8>)
    ensures
        values@.len() == side_of(matrix) * side_of(matrix),
        forall|i: int|
            0 <= i < values@.len() ==> #[trigger] values@[i] == rank(
                side_of(matrix),
                i % side_of(matrix),
                i / side_of(matrix),
            ),
{
    let side = bayer_side(matrix);
    let mut values: Vec<u8> = Vec::new();
    let mut y: u32 = 0;
    while y < side
        invariant
            side == side_of(matrix),
            y <= side,
            values@.len() == y * side,
            forall|i: int|
                0 <= i < values@.len() ==> #[trigger] values@[i] == rank(
                    side as int,
                    i % side as int,
                    i / side as int,
                ),
        decreases side - y,
    {
        let mut x: u32 = 0;
        while x < side
            invariant
                side == side_of(matrix),
                y < side,
                x <= side,
                values@.len() == y * side + x,
                forall|i: int|
                    0 <= i < values@.len() ==> #[trigger] values@[i] == rank(
                        side as int,
                        i % side as int,
                        i / side as int,
                    ),
            decreases side - x,
        {
            let r = bayer_rank(matrix, x, y);
            proof {
                let i = y * side + x;
                assert(i % side as int == x && i / side as int == y) by (nonlinear_arith)
                    requires
                        i == y * side + x,
                        0 <= x < side,
                        side > 0,
                ;
                assert((x as int) % (side as int) == x && (y as int) % (side as int) == y);
            }
            values.push(r);
            x = x + 1;
        }
        y = y + 1;
    }
    values
}

/// Whether pair `a` comes before pair `b` in the order `(0, 1), (0, 2), …, (1, 2), …`.
pub open spec fn pair_lt(a: (usize, usize), b: (usize, usize)) -> bool {
    a.0 < b.0 || (a.0 == b.0 && a.1 < b.1)
}

/// Whether `pairs` lists every pair `(i, j)` with `i < j < count` exactly once, in the order
/// `(0, 1), (0, 2), …, (1, 2), …`.
pub open spec fn all_pairs_in_order(pairs: Seq<(usize, usize)>, count: int) -> bool {
    &&& forall|k: int| #![trigger pairs[k]] 0 <= k < pairs.len() ==> pairs[k].0 < pairs[k].1 < count
    &&& forall|k: int, l: int|
        0 <= k < l < pairs.len() ==> pair_lt(#[trigger] pairs[k], #[trigger] pairs[l])
    &&& forall|i: int, j: int|
        0 <= i < j < count ==> #[trigger] pairs.contains((i as usize, j as usize))
}

/// The number of pairs `(i, j)` with `i < j < n` and `i < f`.
pub open spec fn pairs_below(f: nat, n: int) -> int
    decreases f,
{
    if f == 0 {
        0
    } else {
        pairs_below((f - 1) as nat, n) + (n - f)
    }
}

proof fn lemma_pairs_below(f: nat, n: int)
    ensures
        2 * pairs_below(f, n) == f * (2 * n - f - 1),
    decreases f,
{
    if f > 0 {
        let g = (f - 1) as nat;
        lemma_pairs_below(g, n);
        assert(pairs_below(f, n) == pairs_below(g, n) + (n - f));
        assert(2 * pairs_below(g, n) == g * (2 * n - g - 1));
        assert(g * (2 * n - g - 1) + 2 * (n - f) == f * (2 * n - f - 1)) by (nonlinear_arith)
            requires
                g == f - 1,
        ;
    } else {
        assert(f * (2 * n - f - 1) == 0) by (nonlinear_arith)
            requires
                f == 0,
        ;
    }
}

/// The pairs of palette indices whose segments ordered dithering projects onto: all
/// `count * (count - 1) / 2` of them.
pub fn segment_pairs(count: usize) -> (pairs: Vec<(usize, usize)>)
    ensures
        all_pairs_in_order(pairs@, count as int),
        pairs@.len() == count * (count - 1) / 2,
{
    let mut pairs: Vec<(usize, usize)> = Vec::new();
    let mut first: usize = 0;
    while first < count
        invariant
            first <= count,
            pairs@.len() == pairs_below(first as nat, count as int),
            forall|k: int| #![trigger pairs@[k]] 0 <= k < pairs@.len() ==> pairs@[k].0 < pairs@[k].1 < count,
            forall|k: int| #![trigger pairs@[k]] 0 <= k < pairs@.len() ==> pairs@[k].0 < first,
            forall|k: int, l: int|
                0 <= k < l < pairs@.len() ==> pair_lt(#[trigger] pairs@[k], #[trigger] pairs@[l]),
            forall|i: int, j: int|
                0 <= i < j < count && i < first ==> #[trigger] pairs@.contains(
                    (i as usize, j as usize),
                ),
        decreases count - first,
    {
        let mut second: usize = first + 1;
        let ghost start = pairs@.len();
        while second < count
            invariant
                first < count,
                first + 1 <= second <= count,
                start == pairs_below(first as nat, count as int),
                pairs@.len() == start + (second - first - 1),
                forall|k: int| #![trigger pairs@[k]] 0 <= k < pairs@.len() ==> pairs@[k].0 < pairs@[k].1 < count,
                forall|k: int| #![trigger pairs@[k]] 0 <= k < start ==> pairs@[k].0 < first,
                forall|k: int|
                    #![trigger pairs@[k]]
                    start <= k < pairs@.len() ==> (pairs@[k].0 == first && pairs@[k].1 < second),
                forall|k: int, l: int|
                    0 <= k < l < pairs@.len() ==> pair_lt(#[trigger] pairs@[k], #[trigger] pairs@[l]),
                forall|i: int, j: int|
                    0 <= i < j < count && (i < first || (i == first && j < second))
                        ==> #[trigger] pairs@.contains((i as usize, j as usize)),
            decreases count - second,
        {
            let ghost before = pairs@;
            pairs.push((first, second));
            proof {
                assert forall|k: int|
                    #![trigger pairs@[k]]
                    0 <= k < pairs@.len() - 1 implies pairs@[k] == before[k] by {}
                assert forall|i: int, j: int|
                    0 <= i < j < count && (i < first || (i == first && j < second + 1)) implies #[trigger] pairs@.contains(
                    (i as usize, j as usize),
                ) by {
                    if i == first && j == second {
                        assert(pairs@[pairs@.len() - 1] == (i as usize, j as usize));
                    } else {
                        assert(before.contains((i as usize, j as usize)));
                        let k = choose|k: int| 0 <= k < before.len() && before[k] == (i as usize, j as usize);
                        assert(pairs@[k] == (i as usize, j as usize));
                    }
                }
            }
            second = second + 1;
        }
        assert(pairs_below((first + 1) as nat, count as int) == pairs_below(first as nat, count as int)
            + (count - first - 1));
        first = first + 1;
    }
    proof {
        lemma_pairs_below(count as nat, count as int);
    }
    pairs
}

} // verus!
