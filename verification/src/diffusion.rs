//! Where error diffusion sends a sample's quantization error, and with which weights.
use vstd::prelude::*;

use crate::config::ErrorDiffusionAlgorithm;

verus! {

/// One neighbour that receives `numerator / denominator` of the error.
#[derive(Clone, Copy, Debug, PartialEq, Eq, Structural)]
pub struct DiffusionTarget {
    pub index: usize,
    pub numerator: u8,
    pub denominator: u8,
}

/// One step of a diffusion kernel: an offset from the current sample and a weight.
#[derive(Clone, Copy, Debug, PartialEq, Eq, Structural)]
pub struct KernelStep {
    pub dx: i8,
    pub dy: i8,
    pub numerator: u8,
    pub denominator: u8,
}

pub open spec fn step(dx: i8, dy: i8, numerator: u8, denominator: u8) -> KernelStep {
    KernelStep { dx, dy, numerator, denominator }
}

/// The kernel of each algorithm, in the order the error is handed out.
pub open spec fn kernel(algorithm: ErrorDiffusionAlgorithm) -> Seq<KernelStep> {
    match algorithm {
        ErrorDiffusionAlgorithm::FloydSteinberg => seq![
            step(1, 0, 7, 16),
            step(-1i8, 1, 3, 16),
            step(0, 1, 5, 16),
            step(1, 1, 1, 16),
        ],
        ErrorDiffusionAlgorithm::Atkinson => seq![
            step(1, 0, 1, 8),
            step(2, 0, 1, 8),
            step(-1i8, 1, 1, 8),
            step(0, 1, 1, 8),
            step(1, 1, 1, 8),
            step(0, 2, 1, 8),
        ],
    }
}

/// The targets that one kernel step gives from sample `(x, y)`: the neighbour when it lies
/// inside the grid and is visible, and none otherwise.
pub open spec fn step_targets(
    width: int,
    height: int,
    visible: Seq<bool>,
    x: int,
    y: int,
    s: KernelStep,
) -> Seq<DiffusionTarget> {
    let tx = x + s.dx;
    let ty = y + s.dy;
    if 0 <= tx < width && 0 <= ty < height && visible[ty * width + tx] {
        seq![
            DiffusionTarget {
                index: (ty * width + tx) as usize,
                numerator: s.numerator,
                denominator: s.denominator,
            },
        ]
    } else {
        Seq::empty()
    }
}

/// The targets of a sequence of kernel steps, in order.
pub open spec fn kernel_targets(
    width: int,
    height: int,
    visible: Seq<bool>,
    x: int,
    y: int,
    steps: Seq<KernelStep>,
) -> Seq<DiffusionTarget>
    decreases steps.len(),
{
    if steps.len() == 0 {
        Seq::empty()
    } else {
        kernel_targets(width, height, visible, x, y, steps.drop_last()) + step_targets(
            width,
            height,
            visible,
            x,
            y,
            steps.last(),
        )
    }
}

fn kernel_steps(algorithm: ErrorDiffusionAlgorithm) -> (steps: Vec<KernelStep>)
    ensures
        steps@ == kernel(algorithm),
{
    match algorithm {
        ErrorDiffusionAlgorithm::FloydSteinberg => {
            let steps = vec![
                KernelStep { dx: 1, dy: 0, numerator: 7, denominator: 16 },
                KernelStep { dx: -1, dy: 1, numerator: 3, denominator: 16 },
                KernelStep { dx: 0, dy: 1, numerator: 5, denominator: 16 },
                KernelStep { dx: 1, dy: 1, numerator: 1, denominator: 16 },
            ];
            assert(steps@ =~= kernel(algorithm));
            steps
        },
        ErrorDiffusionAlgorithm::Atkinson => {
            let steps = vec![
                KernelStep { dx: 1, dy: 0, numerator: 1, denominator: 8 },
                KernelStep { dx: 2, dy: 0, numerator: 1, denominator: 8 },
                KernelStep { dx: -1, dy: 1, numerator: 1, denominator: 8 },
                KernelStep { dx: 0, dy: 1, numerator: 1, denominator: 8 },
                KernelStep { dx: 1, dy: 1, numerator: 1, denominator: 8 },
                KernelStep { dx: 0, dy: 2, numerator: 1, denominator: 8 },
            ];
            assert(steps@ =~= kernel(algorithm));
            steps
        },
    }
}

/// The neighbours of visible sample `(x, y)` that receive its error, with their weights: every
/// kernel step that lands inside the grid on a visible sample. A transparent sample neither
/// receives nor, since the renderer skips it, sends error.
pub fn diffusion_targets(
    width: u32,
    height: u32,
    visible: &[bool],
    x: u32,
    y: u32,
    algorithm: ErrorDiffusionAlgorithm,
) -> (targets: Vec<DiffusionTarget>)
    requires
        visible@.len() == width * height,
        x < width,
        y < height,
    ensures
        targets@ == kernel_targets(
            width as int,
            height as int,
            visible@,
            x as int,
            y as int,
            kernel(algorithm),
        ),
{
    let steps = kernel_steps(algorithm);
    let count = visible.len();
    let mut targets: Vec<DiffusionTarget> = Vec::new();
    let mut k: usize = 0;
    while k < steps.len()
        invariant
            visible@.len() == width * height,
            count == visible@.len(),
            x < width,
            y < height,
            steps@ == kernel(algorithm),
            k <= steps@.len(),
            targets@ == kernel_targets(
                width as int,
                height as int,
                visible@,
                x as int,
                y as int,
                steps@.take(k as int),
            ),
        decreases steps@.len() - k,
    {
        let s = steps[k];
        let tx: i64 = x as i64 + s.dx as i64;
        let ty: i64 = y as i64 + s.dy as i64;
        proof {
            assert(steps@.take(k + 1).drop_last() =~= steps@.take(k as int));
            assert(steps@.take(k + 1).last() == s);
        }
        if 0 <= tx && tx < width as i64 && 0 <= ty && ty < height as i64 {
            proof {
                assert(ty * width + tx < width * height) by (nonlinear_arith)
                    requires
                        0 <= tx < width,
                        0 <= ty < height,
                ;
            }
            let index: usize = (ty as usize) * (width as usize) + (tx as usize);
            if visible[index] {
                targets.push(
                    DiffusionTarget { index, numerator: s.numerator, denominator: s.denominator },
                );
            }
        }
        k = k + 1;
    }
    proof {
        assert(steps@.take(steps@.len() as int) =~= steps@);
    }
    targets
}

/// Floyd–Steinberg hands out the whole error in sixteenths; Atkinson hands out six eighths and
/// drops the rest.
pub proof fn law_kernel_weights()
    ensures
        forall|i: int|
            0 <= i < 4 ==> #[trigger] kernel(ErrorDiffusionAlgorithm::FloydSteinberg)[i].denominator
                == 16,
        kernel(ErrorDiffusionAlgorithm::FloydSteinberg)[0].numerator + kernel(
            ErrorDiffusionAlgorithm::FloydSteinberg,
        )[1].numerator + kernel(ErrorDiffusionAlgorithm::FloydSteinberg)[2].numerator + kernel(
            ErrorDiffusionAlgorithm::FloydSteinberg,
        )[3].numerator == 16,
        kernel(ErrorDiffusionAlgorithm::FloydSteinberg).len() == 4,
        kernel(ErrorDiffusionAlgorithm::Atkinson).len() == 6,
        forall|i: int|
            0 <= i < 6 ==> #[trigger] kernel(ErrorDiffusionAlgorithm::Atkinson)[i] == step(
                kernel(ErrorDiffusionAlgorithm::Atkinson)[i].dx,
                kernel(ErrorDiffusionAlgorithm::Atkinson)[i].dy,
                1,
                8,
            ),
{
}

/// Whether a step reaches only samples after the current one in row-major order.
pub open spec fn forward(s: KernelStep) -> bool {
    s.dy > 0 || (s.dy == 0 && s.dx > 0)
}

proof fn lemma_forward_targets(
    width: int,
    height: int,
    visible: Seq<bool>,
    x: int,
    y: int,
    steps: Seq<KernelStep>,
)
    requires
        0 <= x < width,
        0 <= y < height,
        visible.len() == width * height,
        width * height <= usize::MAX,
        forall|i: int| 0 <= i < steps.len() ==> forward(#[trigger] steps[i]),
    ensures
        forall|i: int|
            0 <= i < kernel_targets(width, height, visible, x, y, steps).len() ==> {
                let t = #[trigger] kernel_targets(width, height, visible, x, y, steps)[i];
                &&& y * width + x < t.index < width * height
                &&& visible[t.index as int]
            },
    decreases steps.len(),
{
    if steps.len() > 0 {
        let rest = steps.drop_last();
        assert forall|i: int| 0 <= i < rest.len() implies forward(#[trigger] rest[i]) by {
            assert(rest[i] == steps[i]);
        }
        lemma_forward_targets(width, height, visible, x, y, rest);
        let s = steps.last();
        assert(forward(s));
        let tx = x + s.dx;
        let ty = y + s.dy;
        if 0 <= tx < width && 0 <= ty < height {
            assert(y * width + x < ty * width + tx < width * height) by (nonlinear_arith)
                requires
                    0 <= x < width,
                    0 <= tx < width,
                    0 <= ty < height,
                    ty == y + s.dy,
                    tx == x + s.dx,
                    s.dy > 0 || (s.dy == 0 && s.dx > 0),
            ;
        }
        let before = kernel_targets(width, height, visible, x, y, rest);
        let last = step_targets(width, height, visible, x, y, s);
        let all = kernel_targets(width, height, visible, x, y, steps);
        assert(all == before + last);
        assert forall|i: int| 0 <= i < all.len() implies {
            let t = #[trigger] all[i];
            &&& y * width + x < t.index < width * height
            &&& visible[t.index as int]
        } by {
            if i < before.len() {
                assert(all[i] == before[i]);
            } else {
                assert(all[i] == last[i - before.len()]);
            }
        }
    }
}

/// Error only flows forward: every sample that receives error lies inside the grid, is visible,
/// and comes after the sending sample in row-major order, so no sample that has already been
/// quantized receives error.
pub proof fn law_error_flows_forward_to_visible_samples(
    width: int,
    height: int,
    visible: Seq<bool>,
    x: int,
    y: int,
    algorithm: ErrorDiffusionAlgorithm,
)
    requires
        0 <= x < width,
        0 <= y < height,
        visible.len() == width * height,
        width * height <= usize::MAX,
    ensures
        forall|i: int|
            0 <= i < kernel_targets(width, height, visible, x, y, kernel(algorithm)).len() ==> {
                let t = #[trigger] kernel_targets(width, height, visible, x, y, kernel(algorithm))[i];
                &&& y * width + x < t.index < width * height
                &&& visible[t.index as int]
            },
{
    let steps = kernel(algorithm);
    assert forall|i: int| 0 <= i < steps.len() implies forward(#[trigger] steps[i]) by {
    }
    lemma_forward_targets(width, height, visible, x, y, steps);
}

proof fn lemma_targets_come_from_steps(
    width: int,
    height: int,
    visible: Seq<bool>,
    x: int,
    y: int,
    steps: Seq<KernelStep>,
)
    requires
        0 <= x < width,
        0 <= y < height,
        visible.len() == width * height,
        width * height <= usize::MAX,
    ensures
        forall|i: int|
            #![trigger kernel_targets(width, height, visible, x, y, steps)[i]]
            0 <= i < kernel_targets(width, height, visible, x, y, steps).len() ==> exists|k: int|
                0 <= k < steps.len() && {
                    let t = kernel_targets(width, height, visible, x, y, steps)[i];
                    let s = #[trigger] steps[k];
                    &&& 0 <= x + s.dx < width
                    &&& 0 <= y + s.dy < height
                    &&& t.index == (y + s.dy) * width + (x + s.dx)
                    &&& t.numerator == s.numerator
                    &&& t.denominator == s.denominator
                    &&& visible[t.index as int]
                },
    decreases steps.len(),
{
    if steps.len() > 0 {
        let rest = steps.drop_last();
        lemma_targets_come_from_steps(width, height, visible, x, y, rest);
        let n = steps.len() - 1;
        let s = steps[n];
        let tx = x + s.dx;
        let ty = y + s.dy;
        if 0 <= tx < width && 0 <= ty < height {
            assert(0 <= ty * width + tx < width * height) by (nonlinear_arith)
                requires
                    0 <= tx < width,
                    0 <= ty < height,
            ;
        }
        let before = kernel_targets(width, height, visible, x, y, rest);
        let last = step_targets(width, height, visible, x, y, s);
        let all = kernel_targets(width, height, visible, x, y, steps);
        assert(all == before + last);
        assert forall|i: int| #![trigger all[i]] 0 <= i < all.len() implies exists|k: int|
            0 <= k < steps.len() && {
                let t = all[i];
                let s = #[trigger] steps[k];
                &&& 0 <= x + s.dx < width
                &&& 0 <= y + s.dy < height
                &&& t.index == (y + s.dy) * width + (x + s.dx)
                &&& t.numerator == s.numerator
                &&& t.denominator == s.denominator
                &&& visible[t.index as int]
            } by {
            if i < before.len() {
                assert(all[i] == before[i]);
                let k = choose|k: int|
                    0 <= k < rest.len() && {
                        let t = before[i];
                        let s = #[trigger] rest[k];
                        &&& 0 <= x + s.dx < width
                        &&& 0 <= y + s.dy < height
                        &&& t.index == (y + s.dy) * width + (x + s.dx)
                        &&& t.numerator == s.numerator
                        &&& t.denominator == s.denominator
                        &&& visible[t.index as int]
                    };
                assert(rest[k] == steps[k]);
            } else {
                assert(all[i] == last[i - before.len()]);
                assert(steps[n] == s);
            }
        }
    }
}

/// Every sample that receives error is the neighbour that one of the kernel's steps reaches from
/// `(x, y)` without leaving the grid: its column `x + dx` and row `y + dy` both lie inside the
/// grid, its index is that cell's row-major index, it gets that step's weight, and it is
/// visible. In particular, error never wraps from a row's last column into the next row.
pub proof fn law_error_goes_only_to_neighbours_inside_the_grid(
    width: int,
    height: int,
    visible: Seq<bool>,
    x: int,
    y: int,
    algorithm: ErrorDiffusionAlgorithm,
)
    requires
        0 <= x < width,
        0 <= y < height,
        visible.len() == width * height,
        width * height <= usize::MAX,
    ensures
        forall|i: int|
            #![trigger kernel_targets(width, height, visible, x, y, kernel(algorithm))[i]]
            0 <= i < kernel_targets(width, height, visible, x, y, kernel(algorithm)).len()
                ==> exists|k: int|
                0 <= k < kernel(algorithm).len() && {
                    let t = kernel_targets(width, height, visible, x, y, kernel(algorithm))[i];
                    let s = #[trigger] kernel(algorithm)[k];
                    &&& 0 <= x + s.dx < width
                    &&& 0 <= y + s.dy < height
                    &&& t.index == (y + s.dy) * width + (x + s.dx)
                    &&& t.numerator == s.numerator
                    &&& t.denominator == s.denominator
                    &&& visible[t.index as int]
                },
{
    let steps = kernel(algorithm);
    let all = kernel_targets(width, height, visible, x, y, steps);
    lemma_targets_come_from_steps(width, height, visible, x, y, steps);
    assert forall|i: int| #![trigger all[i]] 0 <= i < all.len() implies exists|k: int|
        0 <= k < steps.len() && {
            let t = all[i];
            let s = #[trigger] steps[k];
            &&& 0 <= x + s.dx < width
            &&& 0 <= y + s.dy < height
            &&& t.index == (y + s.dy) * width + (x + s.dx)
            &&& t.numerator == s.numerator
            &&& t.denominator == s.denominator
            &&& visible[t.index as int]
        } by {
        assert(all[i] == kernel_targets(width, height, visible, x, y, steps)[i]);
        let k = choose|k: int|
            0 <= k < steps.len() && {
                let t = kernel_targets(width, height, visible, x, y, steps)[i];
                let s = #[trigger] steps[k];
                &&& 0 <= x + s.dx < width
                &&& 0 <= y + s.dy < height
                &&& t.index == (y + s.dy) * width + (x + s.dx)
                &&& t.numerator == s.numerator
                &&& t.denominator == s.denominator
                &&& visible[t.index as int]
            };
        assert(0 <= k < steps.len());
    }
}

} // verus!
