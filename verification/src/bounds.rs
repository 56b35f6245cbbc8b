//! Bounding boxes of shapes and the manipulation handles around a box.

use crate::fixed::{fixed, Fixed};
use crate::model::{BoundingBox, HandleType, ScaleHandle, Shape, ShapeView, Transform};
use vstd::prelude::*;

verus! {

/// A shape's vertex carried into the space of its transform: scaled per
/// axis, then moved to the transform's position.
pub open spec fn world_point(t: Transform, p: (Fixed, Fixed)) -> (Fixed, Fixed) {
    (t.x.spec_add(p.0.spec_mul(t.scale_x)), t.y.spec_add(p.1.spec_mul(t.scale_y)))
}

/// The horizontal coordinates of the transformed vertices.
pub open spec fn world_xs(t: Transform, points: Seq<(Fixed, Fixed)>) -> Seq<Fixed> {
    Seq::new(points.len(), |i: int| world_point(t, points[i]).0)
}

/// The vertical coordinates of the transformed vertices.
pub open spec fn world_ys(t: Transform, points: Seq<(Fixed, Fixed)>) -> Seq<Fixed> {
    Seq::new(points.len(), |i: int| world_point(t, points[i]).1)
}

/// The least of the first `n` numbers of `s` (`1 <= n <= s.len()`).
pub open spec fn least(s: Seq<Fixed>, n: int) -> Fixed
    decreases n,
{
    if n <= 1 {
        s[0]
    } else {
        least(s, n - 1).spec_min(s[n - 1])
    }
}

/// The greatest of the first `n` numbers of `s` (`1 <= n <= s.len()`).
pub open spec fn greatest(s: Seq<Fixed>, n: int) -> Fixed
    decreases n,
{
    if n <= 1 {
        s[0]
    } else {
        greatest(s, n - 1).spec_max(s[n - 1])
    }
}

/// `least(s, n)` is a lower bound of the first `n` numbers and is one of
/// them.
pub proof fn lemma_least(s: Seq<Fixed>, n: int)
    requires
        1 <= n <= s.len(),
    ensures
        forall|i: int| 0 <= i < n ==> least(s, n)@ <= (#[trigger] s[i])@,
        exists|i: int| 0 <= i < n && least(s, n) == #[trigger] s[i],
    decreases n,
{
    if n > 1 {
        lemma_least(s, n - 1);
        let k = choose|i: int| 0 <= i < n - 1 && least(s, n - 1) == #[trigger] s[i];
        if s[n - 1]@ < least(s, n - 1)@ {
            assert(least(s, n) == s[n - 1]);
        } else {
            assert(least(s, n) == s[k]);
        }
    } else {
        assert(least(s, n) == s[0]);
    }
}

/// `greatest(s, n)` is an upper bound of the first `n` numbers and is one of
/// them.
pub proof fn lemma_greatest(s: Seq<Fixed>, n: int)
    requires
        1 <= n <= s.len(),
    ensures
        forall|i: int| 0 <= i < n ==> greatest(s, n)@ >= (#[trigger] s[i])@,
        exists|i: int| 0 <= i < n && greatest(s, n) == #[trigger] s[i],
    decreases n,
{
    if n > 1 {
        lemma_greatest(s, n - 1);
        let k = choose|i: int| 0 <= i < n - 1 && greatest(s, n - 1) == #[trigger] s[i];
        if s[n - 1]@ > greatest(s, n - 1)@ {
            assert(greatest(s, n) == s[n - 1]);
        } else {
            assert(greatest(s, n) == s[k]);
        }
    } else {
        assert(greatest(s, n) == s[0]);
    }
}

/// The box spanned by the transformed vertices of a polygon; the zero box for
/// a polygon without vertices.
pub open spec fn polygon_bounds(t: Transform, points: Seq<(Fixed, Fixed)>) -> BoundingBox {
    if points.len() == 0 {
        BoundingBox::empty()
    } else {
        let n = points.len() as int;
        let min_x = least(world_xs(t, points), n);
        let max_x = greatest(world_xs(t, points), n);
        let min_y = least(world_ys(t, points), n);
        let max_y = greatest(world_ys(t, points), n);
        BoundingBox { x: min_x, y: min_y, width: max_x.spec_sub(min_x), height: max_y.spec_sub(min_y) }
    }
}

/// The axis-aligned box of a shape under a transform.
///
/// A rectangle's box starts at the transform's position. An ellipse's box is
/// centred on it. A line's box spans its two end points, a polygon's box its
/// vertices.
pub open spec fn shape_bounds(t: Transform, shape: ShapeView) -> BoundingBox {
    match shape {
        ShapeView::Rect { w, h } => BoundingBox {
            x: t.x,
            y: t.y,
            width: w.spec_mul(t.scale_x),
            height: h.spec_mul(t.scale_y),
        },
        ShapeView::Ellipse { rx, ry } => {
            let ex = rx.spec_mul(t.scale_x);
            let ey = ry.spec_mul(t.scale_y);
            BoundingBox {
                x: t.x.spec_sub(ex),
                y: t.y.spec_sub(ey),
                width: ex.spec_add(ex),
                height: ey.spec_add(ey),
            }
        },
        ShapeView::Line { x2, y2 } => {
            let end = world_point(t, (x2, y2));
            BoundingBox {
                x: t.x.spec_min(end.0),
                y: t.y.spec_min(end.1),
                width: end.0.spec_sub(t.x).spec_abs(),
                height: end.1.spec_sub(t.y).spec_abs(),
            }
        },
        ShapeView::Polygon { points } => polygon_bounds(t, points),
    }
}

/// The eight handles around `b`, each a square of side `size` centred on a
/// corner or on the middle of an edge: the corners first, then top, right,
/// bottom and left.
pub open spec fn handles_of(b: BoundingBox, size: Fixed) -> Seq<ScaleHandle> {
    let half = size.spec_half();
    let left = b.x.spec_sub(half);
    let top = b.y.spec_sub(half);
    let right = b.x.spec_add(b.width).spec_sub(half);
    let bottom = b.y.spec_add(b.height).spec_sub(half);
    let center = b.x.spec_add(b.width.spec_half()).spec_sub(half);
    let middle = b.y.spec_add(b.height.spec_half()).spec_sub(half);
    seq![
        ScaleHandle { handle_type: HandleType::TopLeft, x: left, y: top, size },
        ScaleHandle { handle_type: HandleType::TopRight, x: right, y: top, size },
        ScaleHandle { handle_type: HandleType::BottomLeft, x: left, y: bottom, size },
        ScaleHandle { handle_type: HandleType::BottomRight, x: right, y: bottom, size },
        ScaleHandle { handle_type: HandleType::Top, x: center, y: top, size },
        ScaleHandle { handle_type: HandleType::Right, x: right, y: middle, size },
        ScaleHandle { handle_type: HandleType::Bottom, x: center, y: bottom, size },
        ScaleHandle { handle_type: HandleType::Left, x: left, y: middle, size },
    ]
}

/// The squares of `handles` together span exactly the rectangle from
/// `(left, top)` to `(right, bottom)`: none reaches beyond it and each of its
/// four sides is touched.
pub open spec fn handles_span(
    handles: Seq<ScaleHandle>,
    left: int,
    top: int,
    right: int,
    bottom: int,
) -> bool {
    &&& forall|i: int|
        0 <= i < handles.len() ==> {
            let h = #[trigger] handles[i];
            &&& left <= h.x@
            &&& top <= h.y@
            &&& h.x@ + h.size@ <= right
            &&& h.y@ + h.size@ <= bottom
        }
    &&& exists|i: int| 0 <= i < handles.len() && (#[trigger] handles[i]).x@ == left
    &&& exists|i: int| 0 <= i < handles.len() && (#[trigger] handles[i]).y@ == top
    &&& exists|i: int| 0 <= i < handles.len() && { let h = #[trigger] handles[i]; h.x@ + h.size@ == right }
    &&& exists|i: int| 0 <= i < handles.len() && { let h = #[trigger] handles[i]; h.y@ + h.size@ == bottom }
}

impl BoundingBox {
    /// The box of `shape` under `transform`.
    pub fn from_shape(transform: &Transform, shape: &Shape) -> (b: BoundingBox)
        ensures
            b == shape_bounds(*transform, shape@),
    {
        match shape {
            Shape::Rect { w, h } => BoundingBox {
                x: transform.x,
                y: transform.y,
                width: w.mul(transform.scale_x),
                height: h.mul(transform.scale_y),
            },
            Shape::Ellipse { rx, ry } => {
                let ex = rx.mul(transform.scale_x);
                let ey = ry.mul(transform.scale_y);
                BoundingBox {
                    x: transform.x.sub(ex),
                    y: transform.y.sub(ey),
                    width: ex.add(ex),
                    height: ey.add(ey),
                }
            },
            Shape::Line { x2, y2 } => {
                let end_x = transform.x.add(x2.mul(transform.scale_x));
                let end_y = transform.y.add(y2.mul(transform.scale_y));
                BoundingBox {
                    x: transform.x.min(end_x),
                    y: transform.y.min(end_y),
                    width: end_x.sub(transform.x).abs(),
                    height: end_y.sub(transform.y).abs(),
                }
            },
            Shape::Polygon { points } => {
                if points.len() == 0 {
                    return BoundingBox::default();
                }
                let ghost xs = world_xs(*transform, points@);
                let ghost ys = world_ys(*transform, points@);
                let first_x = transform.x.add(points[0].0.mul(transform.scale_x));
                let first_y = transform.y.add(points[0].1.mul(transform.scale_y));
                let mut min_x = first_x;
                let mut max_x = first_x;
                let mut min_y = first_y;
                let mut max_y = first_y;
                let mut i: usize = 1;
                while i < points.len()
                    invariant
                        1 <= i <= points.len(),
                        xs == world_xs(*transform, points@),
                        ys == world_ys(*transform, points@),
                        min_x == least(xs, i as int),
                        max_x == greatest(xs, i as int),
                        min_y == least(ys, i as int),
                        max_y == greatest(ys, i as int),
                    decreases points.len() - i,
                {
                    let world_x = transform.x.add(points[i].0.mul(transform.scale_x));
                    let world_y = transform.y.add(points[i].1.mul(transform.scale_y));
                    min_x = min_x.min(world_x);
                    max_x = max_x.max(world_x);
                    min_y = min_y.min(world_y);
                    max_y = max_y.max(world_y);
                    i += 1;
                }
                BoundingBox { x: min_x, y: min_y, width: max_x.sub(min_x), height: max_y.sub(min_y) }
            },
        }
    }

    /// The eight handles of side `handle_size` around the box.
    pub fn generate_handles(&self, handle_size: Fixed) -> (handles: Vec<ScaleHandle>)
        ensures
            handles@ == handles_of(*self, handle_size),
            handles@.len() == 8,
    {
        let half = handle_size.half();
        let left = self.x.sub(half);
        let top = self.y.sub(half);
        let right = self.x.add(self.width).sub(half);
        let bottom = self.y.add(self.height).sub(half);
        let center = self.x.add(self.width.half()).sub(half);
        let middle = self.y.add(self.height.half()).sub(half);
        let mut handles: Vec<ScaleHandle> = Vec::new();
        handles.push(ScaleHandle { handle_type: HandleType::TopLeft, x: left, y: top, size: handle_size });
        handles.push(ScaleHandle { handle_type: HandleType::TopRight, x: right, y: top, size: handle_size });
        handles.push(ScaleHandle { handle_type: HandleType::BottomLeft, x: left, y: bottom, size: handle_size });
        handles.push(ScaleHandle { handle_type: HandleType::BottomRight, x: right, y: bottom, size: handle_size });
        handles.push(ScaleHandle { handle_type: HandleType::Top, x: center, y: top, size: handle_size });
        handles.push(ScaleHandle { handle_type: HandleType::Right, x: right, y: middle, size: handle_size });
        handles.push(ScaleHandle { handle_type: HandleType::Bottom, x: center, y: bottom, size: handle_size });
        handles.push(ScaleHandle { handle_type: HandleType::Left, x: left, y: middle, size: handle_size });
        assert(handles@ =~= handles_of(*self, handle_size));
        handles
    }
}

/// With scale one on both axes, the box of a rectangle is its position and
/// its own width and height.
pub proof fn lemma_rect_bounds(t: Transform, w: Fixed, h: Fixed)
    requires
        t.scale_x@ == 1000,
        t.scale_y@ == 1000,
    ensures
        shape_bounds(t, ShapeView::Rect { w, h }) == (BoundingBox { x: t.x, y: t.y, width: w, height: h }),
{
    lemma_times_one(w, t.scale_x);
    lemma_times_one(h, t.scale_y);
}

/// With scale one on both axes, the box of an ellipse centred at `(cx, cy)`
/// with radii `(rx, ry)` starts at `(cx - rx, cy - ry)` and is `2 rx` wide and
/// `2 ry` high, wherever those four numbers are representable (each is
/// saturated otherwise).
pub proof fn lemma_ellipse_bounds(t: Transform, rx: Fixed, ry: Fixed)
    requires
        t.scale_x@ == 1000,
        t.scale_y@ == 1000,
    ensures
        shape_bounds(t, ShapeView::Ellipse { rx, ry }) == (BoundingBox {
            x: fixed(t.x@ - rx@),
            y: fixed(t.y@ - ry@),
            width: fixed(2 * rx@),
            height: fixed(2 * ry@),
        }),
{
    lemma_times_one(rx, t.scale_x);
    lemma_times_one(ry, t.scale_y);
}

/// Multiplying by one changes nothing.
pub proof fn lemma_times_one(v: Fixed, one: Fixed)
    requires
        one@ == 1000,
    ensures
        v.spec_mul(one) == v,
{
    assert(v@ * 1000 / 1000 == v@) by (nonlinear_arith);
    assert((-(v@ * 1000)) / 1000 == -v@) by (nonlinear_arith);
}

/// The handles of a box, taken together, cover the box grown by half a handle
/// on each side.
///
/// Each handle starts half a handle before its corner or middle. Half of a
/// size that is an odd count of thousandths is rounded down, so the far
/// sides then lie the rounded-up half beyond the box: `size - half`, which is
/// `half` itself for every other size.
///
/// This is stated for a box of non-negative width and height, a handle size
/// that is not negative, and a grown box that is representable.
pub proof fn lemma_handles_span(b: BoundingBox, size: Fixed)
    requires
        b.width@ >= 0,
        b.height@ >= 0,
        size@ >= 0,
        -0x8000_0000 <= b.x@ - size@ / 2,
        -0x8000_0000 <= b.y@ - size@ / 2,
        b.x@ + b.width@ + (size@ - size@ / 2) <= 0x7fff_ffff,
        b.y@ + b.height@ + (size@ - size@ / 2) <= 0x7fff_ffff,
    ensures
        handles_of(b, size).len() == 8,
        handles_span(
            handles_of(b, size),
            b.x@ - size@ / 2,
            b.y@ - size@ / 2,
            b.x@ + b.width@ + (size@ - size@ / 2),
            b.y@ + b.height@ + (size@ - size@ / 2),
        ),
        size@ % 2 == 0 ==> size@ - size@ / 2 == size@ / 2,
{
    let hs = handles_of(b, size);
    assert(hs[0].x@ == b.x@ - size@ / 2);
    assert(hs[0].y@ == b.y@ - size@ / 2);
    assert(hs[3].x@ + hs[3].size@ == b.x@ + b.width@ + (size@ - size@ / 2));
    assert(hs[3].y@ + hs[3].size@ == b.y@ + b.height@ + (size@ - size@ / 2));
}

} // verus!
