//! From candidate rows to final detections: confidence filtering, pairwise
//! overlap, and non-maximum suppression.

use vstd::prelude::*;
use itertools::Itertools;
use crate::matrix::{bboxes_to_ndarray, matrix_cells, matrix_dim, matrix_get, BoxMatrix};
use crate::rect::{max_int, min_int, Ratio, Rect};
use crate::{
    score_rank, rank_of, ConfThresh, IOUThresh, InferenceResult, PostProcessingError,
    YoloRuntimeError,
};

verus! {

/// A negative extent counts as no extent.
pub open spec fn clamp_zero(x: int) -> int {
    if x < 0 {
        0
    } else {
        x
    }
}

/// Area of a `[x1, y1, x2, y2]` box.
pub open spec fn box_area(b: Seq<int>) -> int {
    (b[2] - b[0]) * (b[3] - b[1])
}

/// Area shared by two `[x1, y1, x2, y2]` boxes. Width and height of the
/// shared region are clamped to zero before they are multiplied.
pub open spec fn box_overlap(a: Seq<int>, b: Seq<int>) -> int {
    clamp_zero(min_int(a[2], b[2]) - max_int(a[0], b[0])) * clamp_zero(
        min_int(a[3], b[3]) - max_int(a[1], b[1]),
    )
}

/// Intersection over union of two `[x1, y1, x2, y2]` boxes, as the exact
/// fraction `overlap / (area_a + area_b - overlap)`.
pub open spec fn box_iou(a: Seq<int>, b: Seq<int>) -> Ratio {
    Ratio {
        numerator: box_overlap(a, b) as i128,
        denominator: (box_area(a) + box_area(b) - box_overlap(a, b)) as i128,
    }
}

/// Every coordinate of the box is an `i32`.
pub open spec fn box_in_range(b: Seq<int>) -> bool {
    b.len() == 4 && forall|k: int| 0 <= k < 4 ==> i32::MIN <= #[trigger] b[k] <= i32::MAX
}

/// A box whose right edge lies right of its left edge and whose bottom edge
/// lies below its top edge overlaps itself completely.
pub proof fn lemma_box_iou_self(a: Seq<int>)
    requires
        box_in_range(a),
        a[0] < a[2],
        a[1] < a[3],
    ensures
        box_iou(a, a).is_one(),
{
    let w = a[2] - a[0];
    let h = a[3] - a[1];
    assert(0 < w * h < 0x1_0000_0000_0000_0000) by (nonlinear_arith)
        requires
            0 < w < 0x1_0000_0000,
            0 < h < 0x1_0000_0000,
    ;
}

/// The overlap ratio does not depend on the order of the two boxes.
pub proof fn lemma_box_iou_symmetric(a: Seq<int>, b: Seq<int>)
    ensures
        box_iou(a, b) == box_iou(b, a),
{
}

/// A product of two 33-bit magnitudes is a 65-bit magnitude.
proof fn lemma_product_bound(x: int, y: int)
    requires
        -0x1_0000_0000 <= x <= 0x1_0000_0000,
        -0x1_0000_0000 <= y <= 0x1_0000_0000,
    ensures
        -0x1_0000_0000_0000_0000 <= x * y <= 0x1_0000_0000_0000_0000,
        0 <= x && 0 <= y ==> 0 <= x * y,
{
    assert(-0x1_0000_0000_0000_0000 <= x * y <= 0x1_0000_0000_0000_0000) by (nonlinear_arith)
        requires
            -0x1_0000_0000 <= x <= 0x1_0000_0000,
            -0x1_0000_0000 <= y <= 0x1_0000_0000,
    ;
    assert(0 <= x && 0 <= y ==> 0 <= x * y) by (nonlinear_arith);
}

/// Bounds that keep the overlap arithmetic inside `i128`.
proof fn lemma_box_bounds(a: Seq<int>, b: Seq<int>)
    requires
        box_in_range(a),
        box_in_range(b),
    ensures
        -0x1_0000_0000_0000_0000 <= box_area(a) <= 0x1_0000_0000_0000_0000,
        -0x1_0000_0000_0000_0000 <= box_area(b) <= 0x1_0000_0000_0000_0000,
        0 <= box_overlap(a, b) <= 0x1_0000_0000_0000_0000,
{
    lemma_product_bound(a[2] - a[0], a[3] - a[1]);
    lemma_product_bound(b[2] - b[0], b[3] - b[1]);
    lemma_product_bound(
        clamp_zero(min_int(a[2], b[2]) - max_int(a[0], b[0])),
        clamp_zero(min_int(a[3], b[3]) - max_int(a[1], b[1])),
    );
}

/// The four corner coordinates of a box as integers.
pub open spec fn corner_seq(a: [i32; 4]) -> Seq<int> {
    seq![a@[0] as int, a@[1] as int, a@[2] as int, a@[3] as int]
}

/// Intersection over union of two boxes given by their corner coordinates.
pub fn corner_iou(a: [i32; 4], b: [i32; 4]) -> (r: Ratio)
    ensures
        r == box_iou(corner_seq(a), corner_seq(b)),
{
    let ghost sa = corner_seq(a);
    let ghost sb = corner_seq(b);
    proof {
        lemma_box_bounds(sa, sb);
    }
    let area_a: i128 = (a[2] as i128 - a[0] as i128) * (a[3] as i128 - a[1] as i128);
    let area_b: i128 = (b[2] as i128 - b[0] as i128) * (b[3] as i128 - b[1] as i128);
    let right: i128 = if a[2] <= b[2] { a[2] as i128 } else { b[2] as i128 };
    let left: i128 = if a[0] >= b[0] { a[0] as i128 } else { b[0] as i128 };
    let bottom: i128 = if a[3] <= b[3] { a[3] as i128 } else { b[3] as i128 };
    let top: i128 = if a[1] >= b[1] { a[1] as i128 } else { b[1] as i128 };
    let width: i128 = if right - left < 0 { 0 } else { right - left };
    let height: i128 = if bottom - top < 0 { 0 } else { bottom - top };
    let shared: i128 = width * height;
    Ratio { numerator: shared, denominator: area_a + area_b - shared }
}

/// Row `i` of a matrix with four columns, as a corner array.
fn matrix_row(m: &BoxMatrix, i: usize) -> (row: [i32; 4])
    requires
        i < matrix_cells(*m).len(),
        matrix_cells(*m)[i as int].len() == 4,
    ensures
        corner_seq(row) =~= matrix_cells(*m)[i as int],
{
    [matrix_get(m, i, 0), matrix_get(m, i, 1), matrix_get(m, i, 2), matrix_get(m, i, 3)]
}

/// Both matrices hold the same number of boxes, four coordinates each.
pub open spec fn pairable(a: Seq<Seq<int>>, b: Seq<Seq<int>>) -> bool {
    &&& a.len() == b.len()
    &&& forall|i: int| 0 <= i < a.len() ==> (#[trigger] a[i]).len() == 4
    &&& forall|i: int| 0 <= i < b.len() ==> (#[trigger] b[i]).len() == 4
}

/// The full pairwise overlap matrix of two box matrices of equal shape:
/// cell `(i, j)` is the intersection over union of box `i` of the first and
/// box `j` of the second. Matrices that cannot be paired are refused.
pub fn vectorized_iou(boxes_a: BoxMatrix, boxes_b: BoxMatrix) -> (r: Result<
    Vec<Vec<Ratio>>,
    PostProcessingError,
>)
    ensures
        match r {
            Ok(m) => {
                &&& pairable(matrix_cells(boxes_a), matrix_cells(boxes_b))
                &&& m.len() == matrix_cells(boxes_a).len()
                &&& forall|i: int| 0 <= i < m.len() ==> (#[trigger] m[i]).len() == m.len()
                &&& forall|i: int, j: int|
                    0 <= i < m.len() && 0 <= j < m.len() ==> #[trigger] m[i][j] == box_iou(
                        matrix_cells(boxes_a)[i],
                        matrix_cells(boxes_b)[j],
                    )
            },
            Err(e) => e == PostProcessingError::BroadcastArrayDims && !pairable(
                matrix_cells(boxes_a),
                matrix_cells(boxes_b),
            ),
        },
{
    let (num_boxes, cols_a) = matrix_dim(&boxes_a);
    let (rows_b, cols_b) = matrix_dim(&boxes_b);
    if num_boxes != rows_b || (num_boxes > 0 && (cols_a != 4 || cols_b != 4)) {
        proof {
            if num_boxes == rows_b {
                assert(matrix_cells(boxes_a)[0].len() == cols_a);
                assert(matrix_cells(boxes_b)[0].len() == cols_b);
            }
        }
        return Err(PostProcessingError::BroadcastArrayDims);
    }
    let ghost ca = matrix_cells(boxes_a);
    let ghost cb = matrix_cells(boxes_b);
    let mut m: Vec<Vec<Ratio>> = Vec::new();
    for i in 0..num_boxes
        invariant
            ca == matrix_cells(boxes_a),
            cb == matrix_cells(boxes_b),
            pairable(ca, cb),
            num_boxes == ca.len(),
            m.len() == i,
            forall|k: int| 0 <= k < i ==> (#[trigger] m[k]).len() == num_boxes,
            forall|k: int, j: int|
                0 <= k < i && 0 <= j < num_boxes ==> #[trigger] m[k][j] == box_iou(ca[k], cb[j]),
    {
        let a = matrix_row(&boxes_a, i);
        let mut row: Vec<Ratio> = Vec::new();
        for j in 0..num_boxes
            invariant
                ca == matrix_cells(boxes_a),
                cb == matrix_cells(boxes_b),
                pairable(ca, cb),
                num_boxes == ca.len(),
                i < num_boxes,
                corner_seq(a) =~= ca[i as int],
                row.len() == j,
                forall|k: int| 0 <= k < j ==> #[trigger] row[k] == box_iou(ca[i as int], cb[k]),
        {
            let b = matrix_row(&boxes_b, j);
            row.push(corner_iou(a, b));
        }
        m.push(row);
    }
    Ok(m)
}

/// Pairs in dictionary order: by first component, then by second.
pub open spec fn pair_before(p: (usize, usize), q: (usize, usize)) -> bool {
    p.0 < q.0 || (p.0 == q.0 && p.1 < q.1)
}

/// The pair `(i, j)` occurs in the list.
pub open spec fn listed(pairs: Seq<(usize, usize)>, i: int, j: int) -> bool {
    exists|k: int| 0 <= k < pairs.len() && (#[trigger] pairs[k]).0 == i && pairs[k].1 == j
}

/// Calls itertools' `combinations(2)` on the range `0..n` and collects the
/// index pairs it yields. Trusted: every pair `(i, j)` with `i < j < n` is
/// yielded, nothing else is, and the pairs come in dictionary order (so none
/// comes twice).
#[verifier::external_body]
fn index_pairs(n: usize) -> (pairs: Vec<(usize, usize)>)
    ensures
        forall|k: int| 0 <= k < pairs.len() ==> (#[trigger] pairs[k]).0 < pairs[k].1 < n,
        forall|i: int, j: int| 0 <= i < j < n ==> #[trigger] listed(pairs@, i, j),
        forall|k: int, l: int|
            0 <= k < l < pairs.len() ==> pair_before(#[trigger] pairs[k], #[trigger] pairs[l]),
{
    (0..n).combinations(2).map(|pair| (pair[0], pair[1])).collect()
}

/// `[left, top, right, bottom]` of a rectangle, the last covered column and
/// row standing for right and bottom.
pub open spec fn corners(r: Rect) -> Seq<int> {
    seq![r.left as int, r.top as int, r.spec_right(), r.spec_bottom()]
}

/// Detection `i` outranks detection `j`: it has the higher confidence, or the
/// same confidence and the earlier place in the list.
pub open spec fn precedes(s: Seq<InferenceResult>, i: int, j: int) -> bool {
    score_rank(s[i].confidence) > score_rank(s[j].confidence) || (score_rank(s[i].confidence)
        == score_rank(s[j].confidence) && i < j)
}

/// The two detections carry the same class label.
pub open spec fn same_class(a: InferenceResult, b: InferenceResult) -> bool {
    a.class@ == b.class@
}

/// The two detections share a class and their boxes overlap by more than the
/// threshold.
pub open spec fn overlaps(a: InferenceResult, b: InferenceResult, u: IOUThresh) -> bool {
    same_class(a, b) && box_iou(corners(a.b_box), corners(b.b_box)).exceeds(
        u.numerator as int,
        u.denominator as int,
    )
}

/// Detection `j` loses to some detection that outranks it. In a list in
/// descending order of confidence, the detections that outrank `j` are those
/// before it.
pub open spec fn suppressed(s: Seq<InferenceResult>, u: IOUThresh, j: int) -> bool {
    exists|i: int| 0 <= i < s.len() && i != j && #[trigger] precedes(s, i, j) && overlaps(s[i], s[j], u)
}

/// The detections among the first `n` that are not suppressed, in list order.
pub open spec fn survivors(s: Seq<InferenceResult>, u: IOUThresh, n: int) -> Seq<InferenceResult>
    decreases n,
{
    if n <= 0 {
        Seq::empty()
    } else if suppressed(s, u, n - 1) {
        survivors(s, u, n - 1)
    } else {
        survivors(s, u, n - 1).push(s[n - 1])
    }
}

/// The overlap recorded for an unordered pair: the cell above the diagonal.
pub open spec fn pair_cell(m: Seq<Vec<Ratio>>, i: int, j: int) -> Ratio {
    if i < j {
        m[i][j]
    } else {
        m[j][i]
    }
}

/// Detection `j` loses to some detection that outranks it, going by the
/// overlaps recorded in `m`.
pub open spec fn dropped(
    s: Seq<InferenceResult>,
    m: Seq<Vec<Ratio>>,
    u: IOUThresh,
    j: int,
) -> bool {
    exists|i: int|
        0 <= i < s.len() && i != j && #[trigger] precedes(s, i, j) && same_class(s[i], s[j])
            && pair_cell(m, i, j).exceeds(u.numerator as int, u.denominator as int)
}

/// Pair number `k` is a same-class pair that overlaps too much, and `j` is
/// the member of it that is outranked.
pub open spec fn hit_at(
    pairs: Seq<(usize, usize)>,
    s: Seq<InferenceResult>,
    m: Seq<Vec<Ratio>>,
    u: IOUThresh,
    k: int,
    j: int,
) -> bool {
    let (a, b) = (pairs[k].0 as int, pairs[k].1 as int);
    &&& same_class(s[a], s[b])
    &&& m[a][b].exceeds(u.numerator as int, u.denominator as int)
    &&& j == if score_rank(s[a].confidence) >= score_rank(s[b].confidence) {
        b
    } else {
        a
    }
}

/// Some pair among the first `upto` hits `j`.
pub open spec fn hit_before(
    pairs: Seq<(usize, usize)>,
    s: Seq<InferenceResult>,
    m: Seq<Vec<Ratio>>,
    u: IOUThresh,
    upto: int,
    j: int,
) -> bool {
    exists|k: int| 0 <= k < upto && #[trigger] hit_at(pairs, s, m, u, k, j)
}

/// Numerator and denominator are small enough to be multiplied by a
/// threshold's `u32` parts inside `i128`.
pub open spec fn comparable(ratio: Ratio) -> bool {
    &&& -0x4_0000_0000_0000_0000 <= ratio.numerator <= 0x4_0000_0000_0000_0000
    &&& -0x4_0000_0000_0000_0000 <= ratio.denominator <= 0x4_0000_0000_0000_0000
}

/// Whether `ratio` is strictly greater than the threshold.
pub fn exceeds_threshold(ratio: &Ratio, iou_thresh: &IOUThresh) -> (b: bool)
    requires
        comparable(*ratio),
    ensures
        b == ratio.exceeds(iou_thresh.numerator as int, iou_thresh.denominator as int),
{
    let (n, d) = (ratio.numerator, ratio.denominator);
    let (un, ud) = (iou_thresh.numerator as i128, iou_thresh.denominator as i128);
    assert(-0x4_0000_0000_0000_0000_0000_0000 <= n * ud <= 0x4_0000_0000_0000_0000_0000_0000
        && -0x4_0000_0000_0000_0000_0000_0000 <= un * d <= 0x4_0000_0000_0000_0000_0000_0000)
        by (nonlinear_arith)
        requires
            -0x4_0000_0000_0000_0000 <= n <= 0x4_0000_0000_0000_0000,
            -0x4_0000_0000_0000_0000 <= d <= 0x4_0000_0000_0000_0000,
            0 <= un <= 0xffff_ffff,
            0 <= ud <= 0xffff_ffff,
    ;
    d > 0 && n * ud > un * d
}

/// The matrix is square with one row and column per detection, and every cell
/// can be compared with a threshold.
pub open spec fn matrix_fits(m: Seq<Vec<Ratio>>, n: int) -> bool {
    &&& m.len() == n
    &&& forall|i: int| 0 <= i < n ==> (#[trigger] m[i]).len() == n
    &&& forall|i: int, j: int| 0 <= i < n && 0 <= j < n ==> comparable(#[trigger] m[i][j])
}

/// Being hit by one of all the pairs is the same as being dropped.
proof fn lemma_hits_are_drops(
    pairs: Seq<(usize, usize)>,
    s: Seq<InferenceResult>,
    m: Seq<Vec<Ratio>>,
    u: IOUThresh,
    j: int,
)
    requires
        0 <= j < s.len(),
        forall|k: int| 0 <= k < pairs.len() ==> (#[trigger] pairs[k]).0 < pairs[k].1 < s.len(),
        forall|a: int, b: int| 0 <= a < b < s.len() ==> #[trigger] listed(pairs, a, b),
    ensures
        hit_before(pairs, s, m, u, pairs.len() as int, j) == dropped(s, m, u, j),
{
    if hit_before(pairs, s, m, u, pairs.len() as int, j) {
        let k = choose|k: int| 0 <= k < pairs.len() && #[trigger] hit_at(pairs, s, m, u, k, j);
        let (a, b) = (pairs[k].0 as int, pairs[k].1 as int);
        if j == b {
            assert(precedes(s, a, j));
        } else {
            assert(precedes(s, b, j));
        }
    }
    if dropped(s, m, u, j) {
        let i = choose|i: int|
            0 <= i < s.len() && i != j && #[trigger] precedes(s, i, j) && same_class(s[i], s[j])
                && pair_cell(m, i, j).exceeds(u.numerator as int, u.denominator as int);
        let (a, b) = if i < j {
            (i, j)
        } else {
            (j, i)
        };
        assert(listed(pairs, a, b));
        let k = choose|k: int|
            0 <= k < pairs.len() && (#[trigger] pairs[k]).0 == a && pairs[k].1 == b;
        assert(hit_at(pairs, s, m, u, k, j));
    }
}

/// Greedy suppression against a given pairwise overlap matrix. Every
/// unordered pair of detections is examined once, reading the cell above the
/// diagonal; where the two share a class and overlap by more than the
/// threshold, the outranked one is marked. The answer has one flag per
/// detection, `true` for those to keep.
pub fn greedy_suppression(
    results: &Vec<InferenceResult>,
    iou_matrix: &Vec<Vec<Ratio>>,
    iou_thresh: &IOUThresh,
) -> (keep: Vec<bool>)
    requires
        matrix_fits(iou_matrix@, results.len() as int),
    ensures
        keep.len() == results.len(),
        forall|j: int|
            0 <= j < results.len() ==> #[trigger] keep[j] == !dropped(
                results@,
                iou_matrix@,
                *iou_thresh,
                j,
            ),
{
    let n = results.len();
    let pairs = index_pairs(n);
    let mut keep: Vec<bool> = Vec::new();
    for j in 0..n
        invariant
            keep.len() == j,
            forall|k: int| 0 <= k < j ==> #[trigger] keep[k],
    {
        keep.push(true);
    }
    for k in 0..pairs.len()
        invariant
            n == results.len(),
            keep.len() == n,
            matrix_fits(iou_matrix@, n as int),
            forall|q: int| 0 <= q < pairs.len() ==> (#[trigger] pairs[q]).0 < pairs[q].1 < n,
            forall|j: int|
                0 <= j < n ==> #[trigger] keep[j] == !hit_before(
                    pairs@,
                    results@,
                    iou_matrix@,
                    *iou_thresh,
                    k as int,
                    j,
                ),
    {
        let (a, b) = pairs[k];
        let ghost before = keep@;
        if results[a].class == results[b].class && exceeds_threshold(
            &iou_matrix[a][b],
            iou_thresh,
        ) {
            if rank_of(results[a].confidence) >= rank_of(results[b].confidence) {
                keep[b] = false;
            } else {
                keep[a] = false;
            }
        }
        proof {
            assert forall|j: int| 0 <= j < n implies #[trigger] keep[j] == !hit_before(
                pairs@,
                results@,
                iou_matrix@,
                *iou_thresh,
                k + 1,
                j,
            ) by {
                let now = hit_at(pairs@, results@, iou_matrix@, *iou_thresh, k as int, j);
                let earlier = hit_before(pairs@, results@, iou_matrix@, *iou_thresh, k as int, j);
                let later = hit_before(pairs@, results@, iou_matrix@, *iou_thresh, k + 1, j);
                assert(before[j] == !earlier);
                if later {
                    let w = choose|w: int|
                        0 <= w < k + 1 && #[trigger] hit_at(
                            pairs@,
                            results@,
                            iou_matrix@,
                            *iou_thresh,
                            w,
                            j,
                        );
                    if w < k {
                        assert(earlier);
                    }
                }
                assert(later == (earlier || now));
            }
        }
    }
    proof {
        assert forall|j: int| 0 <= j < n implies #[trigger] keep[j] == !dropped(
            results@,
            iou_matrix@,
            *iou_thresh,
            j,
        ) by {
            lemma_hits_are_drops(pairs@, results@, iou_matrix@, *iou_thresh, j);
        }
    }
    keep
}

/// Every detection's box is a well-formed rectangle.
pub open spec fn boxes_wf(s: Seq<InferenceResult>) -> bool {
    forall|i: int| 0 <= i < s.len() ==> (#[trigger] s[i]).b_box.wf()
}

/// Confidence never rises along the list.
pub open spec fn descending(s: Seq<InferenceResult>) -> bool {
    forall|i: int, j: int|
        0 <= i < j < s.len() ==> score_rank(#[trigger] s[i].confidence) >= score_rank(
            #[trigger] s[j].confidence,
        )
}

/// Where a new detection goes in a list: behind the last detection that
/// ranks at least as high.
pub open spec fn place_of(t: Seq<InferenceResult>, x: InferenceResult) -> int
    decreases t.len(),
{
    if t.len() == 0 || score_rank(t.last().confidence) >= score_rank(x.confidence) {
        t.len() as int
    } else {
        place_of(t.drop_last(), x)
    }
}

/// The first `n` detections in descending order of confidence, detections of
/// equal confidence in list order: each one in turn is placed behind the
/// last that ranks at least as high.
pub open spec fn by_confidence(s: Seq<InferenceResult>, n: int) -> Seq<InferenceResult>
    decreases n,
{
    if n <= 0 {
        Seq::empty()
    } else {
        let sorted = by_confidence(s, n - 1);
        sorted.insert(place_of(sorted, s[n - 1]), s[n - 1])
    }
}

/// `place_of` is the one position with only lower ranks behind it and a rank
/// at least as high right before it.
proof fn lemma_place_of(t: Seq<InferenceResult>, x: InferenceResult, pos: int)
    requires
        0 <= pos <= t.len(),
        forall|k: int| pos <= k < t.len() ==> score_rank(#[trigger] t[k].confidence) < score_rank(
            x.confidence,
        ),
        pos == 0 || score_rank(t[pos - 1].confidence) >= score_rank(x.confidence),
    ensures
        place_of(t, x) == pos,
    decreases t.len(),
{
    if pos < t.len() {
        assert(score_rank(t[t.len() - 1].confidence) < score_rank(x.confidence));
        lemma_place_of(t.drop_last(), x, pos);
    }
}

/// Bounds on `place_of`, and what stands around it.
proof fn lemma_place_bounds(t: Seq<InferenceResult>, x: InferenceResult)
    ensures
        0 <= place_of(t, x) <= t.len(),
        forall|k: int|
            place_of(t, x) <= k < t.len() ==> score_rank(#[trigger] t[k].confidence) < score_rank(
                x.confidence,
            ),
        place_of(t, x) == 0 || score_rank(t[place_of(t, x) - 1].confidence) >= score_rank(
            x.confidence,
        ),
    decreases t.len(),
{
    if !(t.len() == 0 || score_rank(t.last().confidence) >= score_rank(x.confidence)) {
        let head = t.drop_last();
        lemma_place_bounds(head, x);
        assert forall|k: int| place_of(t, x) <= k < t.len() implies score_rank(
            #[trigger] t[k].confidence,
        ) < score_rank(x.confidence) by {
            if k < head.len() {
                assert(t[k] == head[k]);
            }
        }
        if place_of(t, x) > 0 {
            assert(t[place_of(t, x) - 1] == head[place_of(head, x) - 1]);
        }
    }
}

/// Sorting gives a list of the same length in descending order.
pub proof fn lemma_by_confidence_descending(s: Seq<InferenceResult>, n: int)
    requires
        0 <= n <= s.len(),
    ensures
        by_confidence(s, n).len() == n,
        descending(by_confidence(s, n)),
    decreases n,
{
    if n > 0 {
        lemma_by_confidence_descending(s, n - 1);
        let t = by_confidence(s, n - 1);
        let x = s[n - 1];
        lemma_place_bounds(t, x);
        let p = place_of(t, x);
        let r = t.insert(p, x);
        assert forall|i: int, j: int| 0 <= i < j < r.len() implies score_rank(
            #[trigger] r[i].confidence,
        ) >= score_rank(#[trigger] r[j].confidence) by {
            if j < p {
                assert(r[i] == t[i] && r[j] == t[j]);
            } else if j == p {
                assert(r[i] == t[i]);
                if i < p - 1 {
                    assert(score_rank(t[i].confidence) >= score_rank(t[p - 1].confidence));
                }
            } else if i < p {
                assert(r[i] == t[i] && r[j] == t[j - 1]);
                if i < j - 1 {
                    assert(score_rank(t[i].confidence) >= score_rank(t[j - 1].confidence));
                }
            } else if i == p {
                assert(r[j] == t[j - 1]);
            } else {
                assert(r[i] == t[i - 1] && r[j] == t[j - 1]);
            }
        }
    }
}

/// A list that is in descending order already is left as it is.
pub proof fn lemma_by_confidence_of_descending(s: Seq<InferenceResult>, n: int)
    requires
        0 <= n <= s.len(),
        descending(s),
    ensures
        by_confidence(s, n) =~= s.subrange(0, n),
    decreases n,
{
    if n > 0 {
        lemma_by_confidence_of_descending(s, n - 1);
        let t = s.subrange(0, n - 1);
        if n > 1 {
            assert(t[n - 2] == s[n - 2]);
            assert(score_rank(s[n - 2].confidence) >= score_rank(s[n - 1].confidence));
        }
        lemma_place_of(t, s[n - 1], n - 1);
    }
}

/// Sorts detections by descending confidence. Detections of equal
/// confidence keep the order they came in.
pub fn sort_by_confidence(results: &Vec<InferenceResult>) -> (sorted: Vec<InferenceResult>)
    ensures
        sorted@ == by_confidence(results@, results.len() as int),
        sorted.len() == results.len(),
        boxes_wf(results@) ==> boxes_wf(sorted@),
{
    let mut sorted: Vec<InferenceResult> = Vec::new();
    for i in 0..results.len()
        invariant
            sorted.len() == i,
            sorted@ == by_confidence(results@, i as int),
            boxes_wf(results@) ==> boxes_wf(sorted@),
    {
        let x = results[i].duplicate();
        let key = rank_of(x.confidence);
        let mut pos: usize = sorted.len();
        while pos > 0 && rank_of(sorted[pos - 1].confidence) < key
            invariant
                pos <= sorted.len(),
                key == score_rank(x.confidence),
                forall|k: int|
                    pos <= k < sorted.len() ==> score_rank(#[trigger] sorted[k].confidence)
                        < score_rank(x.confidence),
            decreases pos,
        {
            pos = pos - 1;
        }
        proof {
            lemma_place_of(sorted@, x, pos as int);
            let before = sorted@;
            let after = before.insert(pos as int, x);
            if boxes_wf(results@) {
                assert forall|k: int| 0 <= k < after.len() implies (#[trigger] after[k]).b_box.wf() by {
                    if k < pos {
                        assert(after[k] == before[k]);
                    } else if k > pos {
                        assert(after[k] == before[k - 1]);
                    }
                }
            }
        }
        sorted.insert(pos, x);
    }
    sorted
}

/// The `[left, top, right, bottom]` corners of every detection, in order.
fn corner_list(results: &Vec<InferenceResult>) -> (b_boxes: Vec<[i32; 4]>)
    requires
        boxes_wf(results@),
    ensures
        b_boxes.len() == results.len(),
        forall|i: int|
            0 <= i < results.len() ==> corner_seq(b_boxes[i])
                =~= corners(results[i].b_box),
{
    let mut b_boxes: Vec<[i32; 4]> = Vec::new();
    for i in 0..results.len()
        invariant
            boxes_wf(results@),
            b_boxes.len() == i,
            forall|k: int|
                0 <= k < i ==> corner_seq(b_boxes[k]) =~= corners(
                    results[k].b_box,
                ),
    {
        let b = &results[i].b_box;
        b_boxes.push([b.left(), b.top(), b.right(), b.bottom()]);
    }
    b_boxes
}

/// What non-maximum suppression leaves of a list: the list is put in
/// descending order of confidence (ties in list order), and every detection
/// that loses to an earlier one of its class is taken out.
pub open spec fn nms_spec(s: Seq<InferenceResult>, u: IOUThresh) -> Seq<InferenceResult> {
    survivors(by_confidence(s, s.len() as int), u, s.len() as int)
}

/// Non-maximum suppression. The detections are sorted by descending
/// confidence, ties keeping their order; their boxes are packed into a
/// matrix and all pairwise overlaps are computed; then every pair of one
/// class that overlaps by more than the threshold costs the later of the two
/// its place. All pairs are judged on the full list, so a dropped detection
/// still suppresses others. The kept detections come back in sorted order.
pub fn non_maximum_supression(iou_thresh: &IOUThresh, results: Vec<InferenceResult>) -> (r: Result<
    Vec<InferenceResult>,
    PostProcessingError,
>)
    requires
        boxes_wf(results@),
    ensures
        r matches Ok(v) && v@ == nms_spec(results@, *iou_thresh),
{
    let n = results.len();
    if n == 0 {
        return Ok(Vec::new());
    }
    let sorted = sort_by_confidence(&results);
    let rows_a = corner_list(&sorted);
    let rows_b = corner_list(&sorted);
    let nd_a = bboxes_to_ndarray(rows_a);
    let nd_b = bboxes_to_ndarray(rows_b);
    let ghost cells_a = matrix_cells(nd_a);
    let ghost cells_b = matrix_cells(nd_b);
    proof {
        assert forall|i: int| 0 <= i < n implies #[trigger] cells_a[i] =~= corners(
            sorted[i].b_box,
        ) && #[trigger] cells_b[i] =~= corners(sorted[i].b_box) by {
            assert(corner_seq(rows_a[i]) =~= corners(sorted[i].b_box));
            assert(corner_seq(rows_b[i]) =~= corners(sorted[i].b_box));
        }
        assert(pairable(cells_a, cells_b));
    }
    let iou_matrix = match vectorized_iou(nd_a, nd_b) {
        Ok(m) => m,
        Err(e) => {
            return Err(e);
        },
    };
    proof {
        assert forall|i: int, j: int| 0 <= i < n && 0 <= j < n implies comparable(
            #[trigger] iou_matrix[i][j],
        ) by {
            lemma_corner_bounds(sorted[i].b_box);
            lemma_corner_bounds(sorted[j].b_box);
            lemma_box_bounds(corners(sorted[i].b_box), corners(sorted[j].b_box));
        }
    }
    let keep = greedy_suppression(&sorted, &iou_matrix, iou_thresh);
    proof {
        assert forall|j: int| 0 <= j < n implies dropped(sorted@, iou_matrix@, *iou_thresh, j)
            == suppressed(sorted@, *iou_thresh, j) by {
            assert forall|i: int| 0 <= i < n implies pair_cell(iou_matrix@, i, j) == box_iou(
                corners(sorted[i].b_box),
                corners(sorted[j].b_box),
            ) by {
                lemma_box_iou_symmetric(corners(sorted[i].b_box), corners(sorted[j].b_box));
            }
        }
    }
    let mut keepers: Vec<InferenceResult> = Vec::new();
    for j in 0..n
        invariant
            n == sorted.len(),
            keep.len() == n,
            forall|q: int|
                0 <= q < n ==> #[trigger] keep[q] == !suppressed(sorted@, *iou_thresh, q),
            keepers@ == survivors(sorted@, *iou_thresh, j as int),
    {
        if keep[j] {
            keepers.push(sorted[j].duplicate());
        }
    }
    Ok(keepers)
}

/// The corners of a well-formed rectangle are `i32` coordinates.
proof fn lemma_corner_bounds(r: Rect)
    requires
        r.wf(),
    ensures
        box_in_range(corners(r)),
{
}

/// Among the first `n` detections, the survivors are exactly the detections
/// at some strictly ascending positions, none of which is suppressed.
proof fn lemma_survivor_positions(s: Seq<InferenceResult>, u: IOUThresh, n: int) -> (at: Seq<int>)
    requires
        0 <= n <= s.len(),
    ensures
        at.len() == survivors(s, u, n).len(),
        forall|a: int| 0 <= a < at.len() ==> 0 <= #[trigger] at[a] < n,
        forall|a: int| 0 <= a < at.len() ==> !suppressed(s, u, #[trigger] at[a]),
        forall|a: int| 0 <= a < at.len() ==> survivors(s, u, n)[a] == s[#[trigger] at[a]],
        forall|a: int, b: int| 0 <= a < b < at.len() ==> #[trigger] at[a] < #[trigger] at[b],
        forall|j: int|
            0 <= j < n && !#[trigger] suppressed(s, u, j) ==> exists|a: int|
                0 <= a < at.len() && #[trigger] at[a] == j,
    decreases n,
{
    if n == 0 {
        Seq::empty()
    } else {
        let prev = lemma_survivor_positions(s, u, n - 1);
        if suppressed(s, u, n - 1) {
            prev
        } else {
            let at = prev.push(n - 1);
            assert(at[prev.len() as int] == n - 1);
            assert forall|j: int| 0 <= j < n && !#[trigger] suppressed(s, u, j) implies exists|
                a: int,
            |
                0 <= a < at.len() && #[trigger] at[a] == j by {
                if j < n - 1 {
                    let a = choose|a: int| 0 <= a < prev.len() && #[trigger] prev[a] == j;
                    assert(at[a] == j);
                } else {
                    assert(at[prev.len() as int] == j);
                }
            }
            at
        }
    }
}

/// A list in which nothing is suppressed survives whole.
proof fn lemma_survivors_of_clean(s: Seq<InferenceResult>, u: IOUThresh, n: int)
    requires
        0 <= n <= s.len(),
        forall|j: int| 0 <= j < s.len() ==> !suppressed(s, u, j),
    ensures
        survivors(s, u, n) =~= s.subrange(0, n),
    decreases n,
{
    if n > 0 {
        lemma_survivors_of_clean(s, u, n - 1);
    }
}

/// Nothing that survived is dropped when the survivors are suppressed again
/// with the same threshold.
pub proof fn lemma_suppression_idempotent(s: Seq<InferenceResult>, u: IOUThresh)
    ensures
        survivors(survivors(s, u, s.len() as int), u, survivors(s, u, s.len() as int).len() as int)
            == survivors(s, u, s.len() as int),
{
    let kept = survivors(s, u, s.len() as int);
    let at = lemma_survivor_positions(s, u, s.len() as int);
    assert forall|b: int| 0 <= b < kept.len() implies !suppressed(kept, u, b) by {
        if suppressed(kept, u, b) {
            let a = choose|a: int|
                0 <= a < kept.len() && a != b && #[trigger] precedes(kept, a, b) && overlaps(
                    kept[a],
                    kept[b],
                    u,
                );
            assert(kept[a] == s[at[a]] && kept[b] == s[at[b]]);
            if a < b {
                assert(at[a] < at[b]);
            } else {
                assert(at[b] < at[a]);
            }
            assert(precedes(s, at[a], at[b]));
            assert(suppressed(s, u, at[b]));
        }
    }
    lemma_survivors_of_clean(kept, u, kept.len() as int);
    assert(kept.subrange(0, kept.len() as int) =~= kept);
}

/// In a list in descending order of confidence, one detection outranks
/// another exactly when it stands before it. Suppression on such a list
/// therefore removes, of every offending pair, the later detection.
pub proof fn lemma_descending_rank(s: Seq<InferenceResult>, i: int, j: int)
    requires
        descending(s),
        0 <= i < s.len(),
        0 <= j < s.len(),
        i != j,
    ensures
        precedes(s, i, j) == (i < j),
{
    if i < j {
        assert(score_rank(s[i].confidence) >= score_rank(s[j].confidence));
    } else {
        assert(score_rank(s[j].confidence) >= score_rank(s[i].confidence));
    }
}

/// What survives of a list in descending order is in descending order.
pub proof fn lemma_survivors_descending(s: Seq<InferenceResult>, u: IOUThresh)
    requires
        descending(s),
    ensures
        descending(survivors(s, u, s.len() as int)),
{
    let kept = survivors(s, u, s.len() as int);
    let at = lemma_survivor_positions(s, u, s.len() as int);
    assert forall|i: int, j: int| 0 <= i < j < kept.len() implies score_rank(
        #[trigger] kept[i].confidence,
    ) >= score_rank(#[trigger] kept[j].confidence) by {
        assert(at[i] < at[j]);
        assert(kept[i] == s[at[i]] && kept[j] == s[at[j]]);
    }
}

/// Non-maximum suppression is idempotent: applied to its own result with the
/// same threshold, it gives that result back, in the same order.
pub proof fn lemma_nms_idempotent(s: Seq<InferenceResult>, u: IOUThresh)
    ensures
        nms_spec(nms_spec(s, u), u) == nms_spec(s, u),
{
    let n = s.len() as int;
    let sorted = by_confidence(s, n);
    lemma_by_confidence_descending(s, n);
    let kept = survivors(sorted, u, n);
    lemma_survivors_descending(sorted, u);
    lemma_by_confidence_of_descending(kept, kept.len() as int);
    assert(kept.subrange(0, kept.len() as int) =~= kept);
    lemma_suppression_idempotent(sorted, u);
}

/// No two survivors of one class overlap by more than the threshold.
pub proof fn lemma_survivors_apart(s: Seq<InferenceResult>, u: IOUThresh, a: int, b: int)
    requires
        0 <= a < survivors(s, u, s.len() as int).len(),
        0 <= b < survivors(s, u, s.len() as int).len(),
        a != b,
    ensures
        !overlaps(survivors(s, u, s.len() as int)[a], survivors(s, u, s.len() as int)[b], u),
{
    let kept = survivors(s, u, s.len() as int);
    let at = lemma_survivor_positions(s, u, s.len() as int);
    if overlaps(kept[a], kept[b], u) {
        if a < b {
            assert(at[a] < at[b]);
        } else {
            assert(at[b] < at[a]);
        }
        lemma_box_iou_symmetric(corners(kept[a].b_box), corners(kept[b].b_box));
        if precedes(s, at[a], at[b]) {
            assert(suppressed(s, u, at[b]));
        } else {
            assert(precedes(s, at[b], at[a]));
            assert(suppressed(s, u, at[a]));
        }
    }
}

/// A detection that no same-class detection both outranks and overlaps
/// beyond the threshold is among the survivors.
pub proof fn lemma_top_survives(s: Seq<InferenceResult>, u: IOUThresh, j: int)
    requires
        0 <= j < s.len(),
        forall|i: int|
            0 <= i < s.len() && i != j && #[trigger] precedes(s, i, j) ==> !overlaps(s[i], s[j], u),
    ensures
        exists|a: int|
            0 <= a < survivors(s, u, s.len() as int).len() && #[trigger] survivors(
                s,
                u,
                s.len() as int,
            )[a] == s[j],
{
    let at = lemma_survivor_positions(s, u, s.len() as int);
    assert(!suppressed(s, u, j));
    let a = choose|a: int| 0 <= a < at.len() && #[trigger] at[a] == j;
    assert(survivors(s, u, s.len() as int)[a] == s[j]);
}

/// The class scores of a candidate row: everything after the four box fields.
pub open spec fn class_scores(row: Seq<u32>) -> Seq<u32> {
    row.subrange(4, row.len() as int)
}

/// `idx` is the first position holding the greatest score.
pub open spec fn is_best(scores: Seq<u32>, idx: int) -> bool {
    &&& 0 <= idx < scores.len()
    &&& forall|k: int|
        0 <= k < scores.len() ==> score_rank(#[trigger] scores[k]) <= score_rank(scores[idx])
    &&& forall|k: int| 0 <= k < idx ==> score_rank(#[trigger] scores[k]) < score_rank(scores[idx])
}

/// The first position holding the greatest score.
pub open spec fn best_index(scores: Seq<u32>) -> int {
    choose|idx: int| is_best(scores, idx)
}

/// Only one position is the first to hold the greatest score.
pub proof fn lemma_best_unique(scores: Seq<u32>, i: int, j: int)
    requires
        is_best(scores, i),
        is_best(scores, j),
    ensures
        i == j,
{
    if i < j {
        assert(score_rank(scores[i]) < score_rank(scores[j]));
    } else if j < i {
        assert(score_rank(scores[j]) < score_rank(scores[i]));
    }
}

/// The winning class of a candidate row and its score, or `None` for a row
/// without class scores.
pub fn best_class(row: &Vec<u32>) -> (r: Option<(usize, u32)>)
    ensures
        match r {
            Some((idx, score)) => row.len() > 4 && idx == best_index(class_scores(row@))
                && is_best(class_scores(row@), idx as int) && score == class_scores(row@)[idx as int],
            None => row.len() <= 4,
        },
{
    if row.len() <= 4 {
        return None;
    }
    let ghost scores = class_scores(row@);
    let mut idx: usize = 0;
    let mut max: u32 = row[4];
    for p in 5..row.len()
        invariant
            row.len() > 4,
            scores == class_scores(row@),
            idx < p - 4,
            max == scores[idx as int],
            forall|k: int| 0 <= k < p - 4 ==> score_rank(#[trigger] scores[k]) <= score_rank(max),
            forall|k: int| 0 <= k < idx ==> score_rank(#[trigger] scores[k]) < score_rank(max),
    {
        assert(row[p as int] == scores[p - 4]);
        if rank_of(row[p]) > rank_of(max) {
            max = row[p];
            idx = p - 4;
        }
    }
    proof {
        assert(is_best(scores, idx as int));
        lemma_best_unique(scores, idx as int, best_index(scores));
    }
    Some((idx, max))
}

/// A pixel box `(left, top, width, height)` as a rectangle.
pub open spec fn rect_of(b: (i32, i32, u32, u32)) -> Rect {
    Rect { left: b.0, top: b.1, width: b.2, height: b.3 }
}

/// The row has class scores, and the greatest of them reaches the threshold.
pub open spec fn row_passes(row: Seq<u32>, t: ConfThresh) -> bool {
    row.len() > 4 && score_rank(class_scores(row)[best_index(class_scores(row))]) >= score_rank(t.0)
}

/// The row cannot be decoded: it has no class scores, or it passes the
/// threshold but its winning class has no name or its pixel box is not a
/// well-formed rectangle.
pub open spec fn row_broken(
    row: Seq<u32>,
    b: (i32, i32, u32, u32),
    t: ConfThresh,
    classes: Seq<String>,
) -> bool {
    row.len() <= 4 || (row_passes(row, t) && (best_index(class_scores(row)) >= classes.len()
        || !rect_of(b).wf()))
}

/// The detection a passing row stands for.
pub open spec fn detection_of(
    row: Seq<u32>,
    b: (i32, i32, u32, u32),
    classes: Seq<String>,
) -> InferenceResult {
    InferenceResult {
        b_box: rect_of(b),
        class: classes[best_index(class_scores(row))],
        confidence: class_scores(row)[best_index(class_scores(row))],
    }
}

/// The detections of the first `n` rows: one per passing row, in row order.
pub open spec fn detections(
    rows: Seq<Vec<u32>>,
    boxes: Seq<(i32, i32, u32, u32)>,
    t: ConfThresh,
    classes: Seq<String>,
    n: int,
) -> Seq<InferenceResult>
    decreases n,
{
    if n <= 0 {
        Seq::empty()
    } else if row_passes(rows[n - 1]@, t) {
        detections(rows, boxes, t, classes, n - 1).push(
            detection_of(rows[n - 1]@, boxes[n - 1], classes),
        )
    } else {
        detections(rows, boxes, t, classes, n - 1)
    }
}

/// Turns candidate rows into detections. Each row is four box fields followed
/// by one score per class; `boxes[i]` is the pixel box of row `i`, already
/// moved to its top-left corner, scaled back to the source image and
/// rounded. A row is reported when its greatest class score reaches the
/// threshold, under the name of the first class that holds that score. Rows
/// below the threshold are skipped. The call fails when the two lists differ
/// in length or any row cannot be decoded.
pub fn apply_confidence_and_scale(
    rows: &Vec<Vec<u32>>,
    boxes: &Vec<(i32, i32, u32, u32)>,
    conf_thresh: &ConfThresh,
    classes: &Vec<String>,
) -> (r: Result<Vec<InferenceResult>, PostProcessingError>)
    ensures
        match r {
            Ok(v) => {
                &&& rows.len() == boxes.len()
                &&& forall|i: int|
                    0 <= i < rows.len() ==> !row_broken(
                        (#[trigger] rows[i])@,
                        boxes[i],
                        *conf_thresh,
                        classes@,
                    )
                &&& v@ == detections(rows@, boxes@, *conf_thresh, classes@, rows.len() as int)
                &&& boxes_wf(v@)
            },
            Err(e) => {
                &&& e == PostProcessingError::RowShape
                &&& (rows.len() != boxes.len() || exists|i: int|
                    0 <= i < rows.len() && row_broken(
                        (#[trigger] rows[i])@,
                        boxes[i],
                        *conf_thresh,
                        classes@,
                    ))
            },
        },
{
    if rows.len() != boxes.len() {
        return Err(PostProcessingError::RowShape);
    }
    let mut results: Vec<InferenceResult> = Vec::new();
    for i in 0..rows.len()
        invariant
            rows.len() == boxes.len(),
            forall|k: int|
                0 <= k < i ==> !row_broken((#[trigger] rows[k])@, boxes[k], *conf_thresh, classes@),
            results@ == detections(rows@, boxes@, *conf_thresh, classes@, i as int),
            boxes_wf(results@),
    {
        let (index, max) = match best_class(&rows[i]) {
            Some(found) => found,
            None => {
                assert(row_broken(rows[i as int]@, boxes[i as int], *conf_thresh, classes@));
                return Err(PostProcessingError::RowShape);
            },
        };
        if rank_of(max) >= rank_of(conf_thresh.0) {
            let (left, top, width, height) = boxes[i];
            let b_box = match Rect::try_new(left, top, width, height) {
                Some(b) => b,
                None => {
                    assert(row_broken(rows[i as int]@, boxes[i as int], *conf_thresh, classes@));
                    return Err(PostProcessingError::RowShape);
                },
            };
            if index >= classes.len() {
                assert(row_broken(rows[i as int]@, boxes[i as int], *conf_thresh, classes@));
                return Err(PostProcessingError::RowShape);
            }
            results.push(InferenceResult { b_box, class: classes[index].clone(), confidence: max });
        }
    }
    Ok(results)
}

/// Everything after the inference engine has answered: candidate rows are
/// filtered by confidence and turned into detections, and overlapping
/// detections of one class are thinned out. `boxes[i]` is the pixel box of
/// row `i` in the source image.
pub fn post_process(
    rows: &Vec<Vec<u32>>,
    boxes: &Vec<(i32, i32, u32, u32)>,
    conf_thresh: &ConfThresh,
    iou_thresh: &IOUThresh,
    classes: &Vec<String>,
) -> (r: Result<Vec<InferenceResult>, YoloRuntimeError>)
    ensures
        match r {
            Ok(v) => {
                &&& rows.len() == boxes.len()
                &&& forall|i: int|
                    0 <= i < rows.len() ==> !row_broken(
                        (#[trigger] rows[i])@,
                        boxes[i],
                        *conf_thresh,
                        classes@,
                    )
                &&& v@ == nms_spec(
                    detections(rows@, boxes@, *conf_thresh, classes@, rows.len() as int),
                    *iou_thresh,
                )
            },
            Err(e) => {
                &&& e == YoloRuntimeError::PostProcessingError(PostProcessingError::RowShape)
                &&& (rows.len() != boxes.len() || exists|i: int|
                    0 <= i < rows.len() && row_broken(
                        (#[trigger] rows[i])@,
                        boxes[i],
                        *conf_thresh,
                        classes@,
                    ))
            },
        },
{
    let vec_results = match apply_confidence_and_scale(rows, boxes, conf_thresh, classes) {
        Ok(v) => v,
        Err(e) => {
            return Err(YoloRuntimeError::PostProcessingError(e));
        },
    };
    match non_maximum_supression(iou_thresh, vec_results) {
        Ok(v) => Ok(v),
        Err(e) => Err(YoloRuntimeError::PostProcessingError(e)),
    }
}

} // verus!
