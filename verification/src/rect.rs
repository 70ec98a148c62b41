//! Axis-aligned pixel rectangles and the exact overlap ratio of two of them.
//!
//! A rectangle covers whole pixels: one at `(4, 5)` of size `(6, 7)` reaches
//! from column 4 to column 9 and from row 5 to row 11, both ends included.

use vstd::prelude::*;

verus! {

/// A rectangular pixel region of non-zero width and height.
#[derive(Clone, Copy, Debug, PartialEq, Eq, Structural)]
pub struct Rect {
    pub left: i32,
    pub top: i32,
    pub width: u32,
    pub height: u32,
}

/// The top-left corner of a rectangle whose size is still to be given.
#[derive(Clone, Copy, Debug, PartialEq, Eq, Structural)]
pub struct RectPosition {
    pub left: i32,
    pub top: i32,
}

/// A fraction of two integers, kept unreduced so that it stays exact.
#[derive(Clone, Copy, Debug, PartialEq, Eq, Structural)]
pub struct Ratio {
    pub numerator: i128,
    pub denominator: i128,
}

impl Ratio {
    /// The fraction is exactly one.
    pub open spec fn is_one(self) -> bool {
        self.denominator != 0 && self.numerator == self.denominator
    }

    /// The fraction is exactly zero.
    pub open spec fn is_zero(self) -> bool {
        self.denominator != 0 && self.numerator == 0
    }

    /// The fraction has a positive denominator and is strictly greater than
    /// `numerator / denominator`. A fraction whose own denominator is not
    /// positive exceeds nothing.
    pub open spec fn exceeds(self, numerator: int, denominator: int) -> bool {
        self.denominator > 0 && self.numerator * denominator > numerator * self.denominator
    }
}

impl Rect {
    /// The size is not empty, and size and edge coordinates all fit in `i32`.
    pub open spec fn wf(self) -> bool {
        &&& 0 < self.width <= i32::MAX
        &&& 0 < self.height <= i32::MAX
        &&& self.left + self.width <= i32::MAX
        &&& self.top + self.height <= i32::MAX
    }

    /// Greatest x-coordinate covered.
    pub open spec fn spec_right(self) -> int {
        self.left + self.width - 1
    }

    /// Greatest y-coordinate covered.
    pub open spec fn spec_bottom(self) -> int {
        self.top + self.height - 1
    }

    /// Number of pixels covered.
    pub open spec fn area(self) -> int {
        self.width * self.height
    }

    /// Starts a rectangle at the given top-left corner.
    pub fn at(x: i32, y: i32) -> (p: RectPosition)
        ensures
            p == (RectPosition { left: x, top: y }),
    {
        RectPosition { left: x, top: y }
    }

    /// The rectangle with the given corner and size, if it is well formed.
    pub fn try_new(left: i32, top: i32, width: u32, height: u32) -> (r: Option<Rect>)
        ensures
            r == if (Rect { left, top, width, height }).wf() {
                Some(Rect { left, top, width, height })
            } else {
                None::<Rect>
            },
    {
        if 0 < width && width <= i32::MAX as u32 && 0 < height && height <= i32::MAX as u32
            && left as i64 + width as i64 <= i32::MAX as i64 && top as i64 + height as i64
            <= i32::MAX as i64 {
            Some(Rect { left, top, width, height })
        } else {
            None
        }
    }

    /// Smallest x-coordinate covered.
    pub fn left(&self) -> (x: i32)
        ensures
            x == self.left,
    {
        self.left
    }

    /// Smallest y-coordinate covered.
    pub fn top(&self) -> (y: i32)
        ensures
            y == self.top,
    {
        self.top
    }

    /// Greatest x-coordinate covered.
    pub fn right(&self) -> (x: i32)
        requires
            self.wf(),
        ensures
            x == self.spec_right(),
    {
        self.left + (self.width as i32) - 1
    }

    /// Greatest y-coordinate covered.
    pub fn bottom(&self) -> (y: i32)
        requires
            self.wf(),
        ensures
            y == self.spec_bottom(),
    {
        self.top + (self.height as i32) - 1
    }

    /// Width in pixels.
    pub fn width(&self) -> (w: u32)
        ensures
            w == self.width,
    {
        self.width
    }

    /// Height in pixels.
    pub fn height(&self) -> (h: u32)
        ensures
            h == self.height,
    {
        self.height
    }

    /// The pixels covered by both rectangles, or `None` if there are none.
    pub fn intersect(&self, other: Rect) -> (r: Option<Rect>)
        requires
            self.wf(),
            other.wf(),
        ensures
            r == intersection(*self, other),
            r matches Some(i) ==> i.wf(),
    {
        intersect_rects(*self, other)
    }
}

impl RectPosition {
    /// Completes the rectangle with its size.
    pub fn of_size(self, width: u32, height: u32) -> (r: Rect)
        requires
            (Rect { left: self.left, top: self.top, width, height }).wf(),
        ensures
            r == (Rect { left: self.left, top: self.top, width, height }),
    {
        Rect { left: self.left, top: self.top, width, height }
    }
}

pub open spec fn max_int(a: int, b: int) -> int {
    if a >= b {
        a
    } else {
        b
    }
}

pub open spec fn min_int(a: int, b: int) -> int {
    if a <= b {
        a
    } else {
        b
    }
}

/// The common region of two rectangles: it starts at the greater of the two
/// left and top edges and ends at the lesser of the two right and bottom
/// edges, and is absent when those bounds cross.
pub open spec fn intersection(a: Rect, b: Rect) -> Option<Rect> {
    let left = max_int(a.left as int, b.left as int);
    let top = max_int(a.top as int, b.top as int);
    let right = min_int(a.spec_right(), b.spec_right());
    let bottom = min_int(a.spec_bottom(), b.spec_bottom());
    if right < left || bottom < top {
        None
    } else {
        Some(
            Rect {
                left: left as i32,
                top: top as i32,
                width: (right - left + 1) as u32,
                height: (bottom - top + 1) as u32,
            },
        )
    }
}

/// Calls `imageproc::rect::Rect::intersect` on the two rectangles. Trusted:
/// imageproc takes the component-wise maximum of the top-left corners and the
/// minimum of the bottom-right corners, answers `None` when either bound
/// crosses, and otherwise sizes the result to include both bounds. Both
/// inputs must be well formed, since imageproc's edge arithmetic is plain
/// `i32` and its constructor refuses empty sizes.
#[verifier::external_body]
fn intersect_rects(a: Rect, b: Rect) -> (r: Option<Rect>)
    requires
        a.wf(),
        b.wf(),
    ensures
        r == intersection(a, b),
{
    let first = imageproc::rect::Rect::at(a.left, a.top).of_size(a.width, a.height);
    let second = imageproc::rect::Rect::at(b.left, b.top).of_size(b.width, b.height);
    match first.intersect(second) {
        Some(i) => Some(
            Rect { left: i.left(), top: i.top(), width: i.width(), height: i.height() },
        ),
        None => None,
    }
}

/// Pixels covered by both rectangles.
pub open spec fn overlap_area(a: Rect, b: Rect) -> int {
    match intersection(a, b) {
        Some(i) => i.area(),
        None => 0,
    }
}

/// Pixels covered by at least one of the rectangles.
pub open spec fn union_area(a: Rect, b: Rect) -> int {
    a.area() + b.area() - overlap_area(a, b)
}

/// Intersection over union as an exact fraction.
pub open spec fn iou_spec(a: Rect, b: Rect) -> Ratio {
    Ratio { numerator: overlap_area(a, b) as i128, denominator: union_area(a, b) as i128 }
}

/// The overlap never exceeds either rectangle, so the union is positive.
pub proof fn lemma_overlap_bounds(a: Rect, b: Rect)
    requires
        a.wf(),
        b.wf(),
    ensures
        0 <= overlap_area(a, b) <= a.area(),
        overlap_area(a, b) <= b.area(),
        0 < a.area() < 0x4000_0000_0000_0000,
        0 < b.area() < 0x4000_0000_0000_0000,
        0 < union_area(a, b) < 0x8000_0000_0000_0000,
        intersection(a, b) matches Some(i) ==> i.wf(),
{
    let (aw, ah, bw, bh) = (a.width as int, a.height as int, b.width as int, b.height as int);
    assert(0 < aw * ah < 0x4000_0000_0000_0000) by (nonlinear_arith)
        requires
            0 < aw <= 0x7fff_ffff,
            0 < ah <= 0x7fff_ffff,
    ;
    assert(0 < bw * bh < 0x4000_0000_0000_0000) by (nonlinear_arith)
        requires
            0 < bw <= 0x7fff_ffff,
            0 < bh <= 0x7fff_ffff,
    ;
    match intersection(a, b) {
        Some(i) => {
            let (iw, ih) = (i.width as int, i.height as int);
            assert(0 < iw <= aw && iw <= bw);
            assert(0 < ih <= ah && ih <= bh);
            assert(0 <= iw * ih <= aw * ah) by (nonlinear_arith)
                requires
                    0 < iw <= aw,
                    0 < ih <= ah,
            ;
            assert(iw * ih <= bw * bh) by (nonlinear_arith)
                requires
                    0 < iw <= bw,
                    0 < ih <= bh,
            ;
        },
        None => {},
    }
}

/// A rectangle overlaps itself completely.
pub proof fn lemma_iou_self(a: Rect)
    requires
        a.wf(),
    ensures
        iou_spec(a, a).is_one(),
{
    lemma_overlap_bounds(a, a);
    assert(intersection(a, a) == Some(a));
}

/// Rectangles that share no pixel have an overlap ratio of zero.
pub proof fn lemma_iou_disjoint(a: Rect, b: Rect)
    requires
        a.wf(),
        b.wf(),
        intersection(a, b) is None,
    ensures
        iou_spec(a, b).is_zero(),
{
    lemma_overlap_bounds(a, b);
}

/// The overlap ratio does not depend on the order of the two rectangles.
pub proof fn lemma_iou_symmetric(a: Rect, b: Rect)
    requires
        a.wf(),
        b.wf(),
    ensures
        iou_spec(a, b) == iou_spec(b, a),
{
    assert(intersection(a, b) == intersection(b, a));
}

/// Intersection over union of two rectangles: shared pixels over pixels
/// covered by either. Disjoint rectangles give zero.
pub fn iou(box1: Rect, box2: Rect) -> (r: Ratio)
    requires
        box1.wf(),
        box2.wf(),
    ensures
        r == iou_spec(box1, box2),
        r.denominator > 0,
        0 <= r.numerator <= r.denominator,
{
    proof {
        lemma_overlap_bounds(box1, box2);
    }
    let area1: u64 = box1.width as u64 * box1.height as u64;
    let area2: u64 = box2.width as u64 * box2.height as u64;
    let area_boxes: u64 = area1 + area2;
    match box1.intersect(box2) {
        Some(i) => {
            let shared: u64 = i.width as u64 * i.height as u64;
            Ratio { numerator: shared as i128, denominator: (area_boxes - shared) as i128 }
        },
        None => Ratio { numerator: 0, denominator: area_boxes as i128 },
    }
}

} // verus!
