//! Hitboxes: the regions in which an entity reacts to the pointer, and the
//! tests that decide whether a point lies in one.
//!
//! Positions and extents are carried into the space of the transform with
//! saturating arithmetic; the containment tests themselves are decided
//! exactly, without rounding.

use crate::bounds::world_point;
use crate::fixed::Fixed;
use crate::model::{Shape, ShapeView, Transform};
use vstd::prelude::*;

verus! {

/// The interactive region of an entity, independent of what is painted.
#[derive(PartialEq, Eq, Debug)]
pub enum Hitbox {
    /// The entity's own shape; `tolerance` is the distance within which a
    /// line is still hit.
    FromShape { tolerance: Fixed },
    /// A rectangle at an offset from the entity's position.
    Rect { x: Fixed, y: Fixed, w: Fixed, h: Fixed },
    /// A circle around a centre given relative to the entity.
    Circle { x: Fixed, y: Fixed, radius: Fixed },
    /// A polygon of vertices given relative to the entity.
    Polygon { points: Vec<(Fixed, Fixed)> },
    /// Hit where any of its parts is hit.
    Multiple(Vec<Hitbox>),
    /// Never hit.
    NonInteractive,
}

/// Two hitboxes are of the same kind with the same measures, part by part.
pub open spec fn same_region(a: Hitbox, b: Hitbox) -> bool
    decreases a,
{
    match (a, b) {
        (Hitbox::FromShape { tolerance: t1 }, Hitbox::FromShape { tolerance: t2 }) => t1 == t2,
        (Hitbox::Rect { x: x1, y: y1, w: w1, h: h1 }, Hitbox::Rect { x: x2, y: y2, w: w2, h: h2 }) => x1 == x2 && y1
            == y2 && w1 == w2 && h1 == h2,
        (Hitbox::Circle { x: x1, y: y1, radius: r1 }, Hitbox::Circle { x: x2, y: y2, radius: r2 }) => x1 == x2 && y1
            == y2 && r1 == r2,
        (Hitbox::Polygon { points: p1 }, Hitbox::Polygon { points: p2 }) => p1@ == p2@,
        (Hitbox::Multiple(m1), Hitbox::Multiple(m2)) => m1@.len() == m2@.len() && forall|i: int|
            0 <= i < m1@.len() ==> same_region(#[trigger] m1@[i], m2@[i]),
        (Hitbox::NonInteractive, Hitbox::NonInteractive) => true,
        _ => false,
    }
}

/// `(dx, dy)` is no longer than `r`.
pub open spec fn within_radius(dx: int, dy: int, r: int) -> bool {
    dx * dx + dy * dy <= r * r
}

/// `(px, py)` lies in the closed rectangle at `(left, top)` of width `w` and
/// height `h`.
pub open spec fn rect_contains(px: int, py: int, left: int, top: int, w: int, h: int) -> bool {
    left <= px <= left + w && top <= py <= top + h
}

/// `(dx / rx)^2 + (dy / ry)^2 <= 1`, for radii other than zero; an ellipse
/// with a zero radius contains nothing.
pub open spec fn ellipse_contains(dx: int, dy: int, rx: int, ry: int) -> bool {
    rx != 0 && ry != 0 && (dx * dx) * (ry * ry) + (dy * dy) * (rx * rx) <= (rx * rx) * (ry * ry)
}

/// The point `(px, py)` is within `tol` of the segment from the origin to
/// `(ex, ey)`.
///
/// The point is projected onto the segment's line. Where the projection
/// falls before the origin or beyond the end, the distance to that end
/// counts; between them it is the distance to the line, whose square is
/// `cross^2 / len2`. A segment of length zero is never hit, nor any segment
/// with a negative tolerance.
pub open spec fn near_segment(px: int, py: int, ex: int, ey: int, tol: int) -> bool {
    let len2 = ex * ex + ey * ey;
    let dot = px * ex + py * ey;
    let cross = px * ey - py * ex;
    tol >= 0 && len2 > 0 && if dot <= 0 {
        px * px + py * py <= tol * tol
    } else if dot >= len2 {
        (px - ex) * (px - ex) + (py - ey) * (py - ey) <= tol * tol
    } else {
        cross * cross <= (tol * tol) * len2
    }
}

/// A ray from `(px, py)` toward greater `x` crosses the edge between
/// `(xi, yi)` and `(xj, yj)`: the edge's ends lie on different sides of the
/// ray's line, and the edge meets that line beyond `px`.
pub open spec fn edge_crossed(xi: int, yi: int, xj: int, yj: int, px: int, py: int) -> bool {
    ((yi > py) != (yj > py)) && if yj > yi {
        (px - xi) * (yj - yi) < (xj - xi) * (py - yi)
    } else {
        (px - xi) * (yj - yi) > (xj - xi) * (py - yi)
    }
}

/// The vertex before `i` on the closed outline of `n` vertices.
pub open spec fn before(i: int, n: int) -> int {
    if i == 0 {
        n - 1
    } else {
        i - 1
    }
}

/// How many of the first `n` edges of the closed outline `world` the ray from
/// `(px, py)` crosses; edge `i` joins vertex `i` to the vertex before it.
pub open spec fn crossings(world: Seq<(Fixed, Fixed)>, px: int, py: int, n: int) -> int
    decreases n,
{
    if n <= 0 {
        0
    } else {
        let i = n - 1;
        let j = before(i, world.len() as int);
        crossings(world, px, py, n - 1) + if edge_crossed(
            world[i].0@,
            world[i].1@,
            world[j].0@,
            world[j].1@,
            px,
            py,
        ) {
            1int
        } else {
            0int
        }
    }
}

/// The vertices of a polygon carried into the space of a transform.
pub open spec fn world_points(t: Transform, points: Seq<(Fixed, Fixed)>) -> Seq<(Fixed, Fixed)> {
    Seq::new(points.len(), |i: int| world_point(t, points[i]))
}

/// The even-odd rule: a point is inside a polygon when a ray from it crosses
/// the outline an odd number of times. Fewer than three vertices enclose
/// nothing.
pub open spec fn polygon_contains(world: Seq<(Fixed, Fixed)>, px: int, py: int) -> bool {
    world.len() >= 3 && crossings(world, px, py, world.len() as int) % 2 == 1
}

/// Whether `(px, py)` hits `shape` under `t`; `tolerance` widens lines only.
pub open spec fn shape_hits(px: Fixed, py: Fixed, t: Transform, shape: ShapeView, tolerance: Fixed) -> bool {
    match shape {
        ShapeView::Rect { w, h } => rect_contains(
            px@,
            py@,
            t.x@,
            t.y@,
            w.spec_mul(t.scale_x)@,
            h.spec_mul(t.scale_y)@,
        ),
        ShapeView::Ellipse { rx, ry } => ellipse_contains(
            px@ - t.x@,
            py@ - t.y@,
            rx.spec_mul(t.scale_x)@,
            ry.spec_mul(t.scale_y)@,
        ),
        ShapeView::Line { x2, y2 } => near_segment(
            px@ - t.x@,
            py@ - t.y@,
            x2.spec_mul(t.scale_x)@,
            y2.spec_mul(t.scale_y)@,
            tolerance@,
        ),
        ShapeView::Polygon { points } => polygon_contains(world_points(t, points), px@, py@),
    }
}

/// The hitbox an entity has when none was set: its shape, with a tolerance of
/// eight for a line and of two for any other shape.
pub open spec fn default_hitbox(shape: ShapeView) -> Hitbox {
    match shape {
        ShapeView::Line { .. } => Hitbox::FromShape { tolerance: Fixed { raw: 8000 } },
        _ => Hitbox::FromShape { tolerance: Fixed { raw: 2000 } },
    }
}

/// The radius within which a handle of side `visual_size` is hit: three
/// quarters of the side, and at least `floor`.
pub open spec fn handle_radius(visual_size: Fixed, floor: Fixed) -> Fixed {
    visual_size.spec_mul(Fixed { raw: 750 }).spec_max(floor)
}

/// The rectangle `(x, y, w, h)` widened evenly about its centre until
/// neither side is shorter than `min_size`.
pub open spec fn padded_rect(x: Fixed, y: Fixed, w: Fixed, h: Fixed, min_size: Fixed) -> Hitbox {
    let final_w = w.spec_max(min_size);
    let final_h = h.spec_max(min_size);
    Hitbox::Rect {
        x: x.spec_sub(final_w.spec_sub(w).spec_half()),
        y: y.spec_sub(final_h.spec_sub(h).spec_half()),
        w: final_w,
        h: final_h,
    }
}

impl Clone for Hitbox {
    /// A copy that is hit exactly where this hitbox is.
    #[verifier::loop_isolation(false)]
    fn clone(&self) -> (r: Hitbox)
        ensures
            same_region(*self, r),
        decreases self,
    {
        match self {
            Hitbox::FromShape { tolerance } => Hitbox::FromShape { tolerance: *tolerance },
            Hitbox::Rect { x, y, w, h } => Hitbox::Rect { x: *x, y: *y, w: *w, h: *h },
            Hitbox::Circle { x, y, radius } => Hitbox::Circle { x: *x, y: *y, radius: *radius },
            Hitbox::Polygon { points } => {
                let mut copy: Vec<(Fixed, Fixed)> = Vec::new();
                let mut i: usize = 0;
                while i < points.len()
                    invariant
                        i <= points.len(),
                        copy@ =~= points@.take(i as int),
                    decreases points.len() - i,
                {
                    copy.push(points[i]);
                    i += 1;
                }
                assert(points@.take(i as int) =~= points@);
                Hitbox::Polygon { points: copy }
            },
            Hitbox::Multiple(parts) => {
                let mut copy: Vec<Hitbox> = Vec::new();
                let mut i: usize = 0;
                while i < parts.len()
                    invariant
                        i <= parts.len(),
                        copy@.len() == i,
                        forall|k: int| 0 <= k < i ==> same_region(#[trigger] parts@[k], copy@[k]),
                    decreases parts.len() - i,
                {
                    proof {
                        assert(decreases_to!(*parts => parts[i as int]));
                    }
                    let part = parts[i].clone();
                    copy.push(part);
                    i += 1;
                }
                Hitbox::Multiple(copy)
            },
            Hitbox::NonInteractive => Hitbox::NonInteractive,
        }
    }
}

impl Default for Hitbox {
    fn default() -> (r: Hitbox)
        ensures
            r == (Hitbox::FromShape { tolerance: Fixed { raw: 5000 } }),
    {
        Hitbox::FromShape { tolerance: Fixed::from_raw(5000) }
    }
}

impl Hitbox {
    /// Whether the point `(px, py)` hits this hitbox of an entity placed by
    /// `t` whose shape is `shape`.
    pub open spec fn hits(self, px: Fixed, py: Fixed, t: Transform, shape: ShapeView) -> bool
        decreases self,
    {
        match self {
            Hitbox::FromShape { tolerance } => shape_hits(px, py, t, shape, tolerance),
            Hitbox::Rect { x, y, w, h } => rect_contains(
                px@,
                py@,
                t.x.spec_add(x)@,
                t.y.spec_add(y)@,
                w.spec_mul(t.scale_x)@,
                h.spec_mul(t.scale_y)@,
            ),
            Hitbox::Circle { x, y, radius } => {
                let c = world_point(t, (x, y));
                within_radius(px@ - c.0@, py@ - c.1@, radius.spec_mul(t.scale_x.spec_max(t.scale_y))@)
            },
            Hitbox::Polygon { points } => polygon_contains(world_points(t, points@), px@, py@),
            Hitbox::Multiple(parts) => exists|i: int|
                0 <= i < parts@.len() && (#[trigger] parts@[i]).hits(px, py, t, shape),
            Hitbox::NonInteractive => false,
        }
    }

    /// The hitbox an entity has when none was set for it.
    pub fn from_shape(shape: &Shape) -> (r: Hitbox)
        ensures
            r == default_hitbox(shape@),
    {
        match shape {
            Shape::Line { .. } => Hitbox::FromShape { tolerance: Fixed::from_raw(8000) },
            _ => Hitbox::FromShape { tolerance: Fixed::from_raw(2000) },
        }
    }

    /// A circular hitbox for a handle drawn with side `visual_size`: larger
    /// than the drawing, and of radius twelve at least.
    pub fn scale_handle(center_x: Fixed, center_y: Fixed, visual_size: Fixed) -> (r: Hitbox)
        ensures
            r == (Hitbox::Circle {
                x: center_x,
                y: center_y,
                radius: handle_radius(visual_size, Fixed { raw: 12000 }),
            }),
    {
        let hit_radius = visual_size.mul(Fixed::from_raw(750)).max(Fixed::from_raw(12000));
        Hitbox::Circle { x: center_x, y: center_y, radius: hit_radius }
    }

    /// A rectangular hitbox that is at least `min_size` on each side, grown
    /// evenly about the centre of the given rectangle.
    pub fn accessible_rect(x: Fixed, y: Fixed, w: Fixed, h: Fixed, min_size: Fixed) -> (r: Hitbox)
        ensures
            r == padded_rect(x, y, w, h, min_size),
    {
        let final_w = w.max(min_size);
        let final_h = h.max(min_size);
        let offset_x = final_w.sub(w).half();
        let offset_y = final_h.sub(h).half();
        Hitbox::Rect { x: x.sub(offset_x), y: y.sub(offset_y), w: final_w, h: final_h }
    }

    /// Decides whether the click at `(click_x, click_y)` hits this hitbox.
    ///
    /// The result is a function of the arguments alone.
    #[verifier::loop_isolation(false)]
    pub fn hit_test(&self, click_x: Fixed, click_y: Fixed, transform: &Transform, shape: &Shape) -> (hit: bool)
        ensures
            hit == self.hits(click_x, click_y, *transform, shape@),
        decreases self,
    {
        match self {
            Hitbox::FromShape { tolerance } => hit_test_shape(click_x, click_y, transform, shape, *tolerance),
            Hitbox::Rect { x, y, w, h } => {
                let world_x = transform.x.add(*x);
                let world_y = transform.y.add(*y);
                let world_w = w.mul(transform.scale_x);
                let world_h = h.mul(transform.scale_y);
                in_rect(click_x, click_y, world_x, world_y, world_w, world_h)
            },
            Hitbox::Circle { x, y, radius } => {
                let world_x = transform.x.add(x.mul(transform.scale_x));
                let world_y = transform.y.add(y.mul(transform.scale_y));
                let world_radius = radius.mul(transform.scale_x.max(transform.scale_y));
                in_circle(click_x, click_y, world_x, world_y, world_radius)
            },
            Hitbox::Polygon { points } => in_polygon(points, click_x, click_y, transform),
            Hitbox::Multiple(parts) => {
                let mut i: usize = 0;
                while i < parts.len()
                    invariant
                        i <= parts.len(),
                        forall|k: int| 0 <= k < i ==> !(#[trigger] parts@[k]).hits(click_x, click_y, *transform, shape@),
                    decreases parts.len() - i,
                {
                    proof {
                        assert(decreases_to!(*parts => parts[i as int]));
                    }
                    if parts[i].hit_test(click_x, click_y, transform, shape) {
                        assert(parts@[i as int].hits(click_x, click_y, *transform, shape@));
                        return true;
                    }
                    i += 1;
                }
                false
            },
            Hitbox::NonInteractive => false,
        }
    }
}

/// Decides whether a click hits a shape itself.
pub fn hit_test_shape(click_x: Fixed, click_y: Fixed, transform: &Transform, shape: &Shape, tolerance: Fixed) -> (hit: bool)
    ensures
        hit == shape_hits(click_x, click_y, *transform, shape@, tolerance),
{
    match shape {
        Shape::Rect { w, h } => {
            let world_w = w.mul(transform.scale_x);
            let world_h = h.mul(transform.scale_y);
            in_rect(click_x, click_y, transform.x, transform.y, world_w, world_h)
        },
        Shape::Ellipse { rx, ry } => {
            let world_rx = rx.mul(transform.scale_x);
            let world_ry = ry.mul(transform.scale_y);
            in_ellipse(click_x, click_y, transform.x, transform.y, world_rx, world_ry)
        },
        Shape::Line { x2, y2 } => {
            let world_x2 = x2.mul(transform.scale_x);
            let world_y2 = y2.mul(transform.scale_y);
            on_segment(click_x, click_y, transform.x, transform.y, world_x2, world_y2, tolerance)
        },
        Shape::Polygon { points } => in_polygon(points, click_x, click_y, transform),
    }
}

/// The product of two bounded integers is bounded by the product of their
/// bounds.
pub proof fn lemma_mul_range(a: int, b: int, m: int, n: int)
    by (nonlinear_arith)
    requires
        -m <= a <= m,
        -n <= b <= n,
    ensures
        -(m * n) <= a * b <= m * n,
{
}

/// A square is not negative.
pub proof fn lemma_square_nonneg(a: int)
    by (nonlinear_arith)
    ensures
        a * a >= 0,
{
}

fn in_rect(px: Fixed, py: Fixed, left: Fixed, top: Fixed, w: Fixed, h: Fixed) -> (r: bool)
    ensures
        r == rect_contains(px@, py@, left@, top@, w@, h@),
{
    let x: i64 = px.raw as i64;
    let y: i64 = py.raw as i64;
    let l: i64 = left.raw as i64;
    let t: i64 = top.raw as i64;
    x >= l && x <= l + w.raw as i64 && y >= t && y <= t + h.raw as i64
}

/// The square of a sum or difference of a few raw values.
fn square(d: i64) -> (r: u128)
    requires
        -0x2_0000_0000 <= d <= 0x2_0000_0000,
    ensures
        r == d * d,
{
    proof {
        lemma_mul_range(d as int, d as int, 0x2_0000_0000, 0x2_0000_0000);
        lemma_square_nonneg(d as int);
    }
    let wide: i128 = d as i128;
    (wide * wide) as u128
}

/// Whether `(px, py)` is within `radius` of `(cx, cy)`.
pub fn in_circle(px: Fixed, py: Fixed, cx: Fixed, cy: Fixed, radius: Fixed) -> (r: bool)
    ensures
        r == within_radius(px@ - cx@, py@ - cy@, radius@),
{
    let dx: i64 = px.raw as i64 - cx.raw as i64;
    let dy: i64 = py.raw as i64 - cy.raw as i64;
    proof {
        lemma_mul_range(dx as int, dx as int, 0xffff_ffff, 0xffff_ffff);
        lemma_mul_range(dy as int, dy as int, 0xffff_ffff, 0xffff_ffff);
    }
    square(dx) + square(dy) <= square(radius.raw as i64)
}

fn in_ellipse(px: Fixed, py: Fixed, cx: Fixed, cy: Fixed, rx: Fixed, ry: Fixed) -> (r: bool)
    ensures
        r == ellipse_contains(px@ - cx@, py@ - cy@, rx@, ry@),
{
    if rx.raw == 0 || ry.raw == 0 {
        return false;
    }
    let dx2: u128 = square(px.raw as i64 - cx.raw as i64);
    let dy2: u128 = square(py.raw as i64 - cy.raw as i64);
    let rx2: u128 = square(rx.raw as i64);
    let ry2: u128 = square(ry.raw as i64);
    proof {
        lemma_mul_range(px@ - cx@, px@ - cx@, 0xffff_ffff, 0xffff_ffff);
        lemma_mul_range(py@ - cy@, py@ - cy@, 0xffff_ffff, 0xffff_ffff);
        lemma_mul_range(rx@, rx@, 0x8000_0000, 0x8000_0000);
        lemma_mul_range(ry@, ry@, 0x8000_0000, 0x8000_0000);
        lemma_mul_range(dx2 as int, ry2 as int, 0xffff_fffe_0000_0001int, 0x4000_0000_0000_0000int);
        lemma_mul_range(dy2 as int, rx2 as int, 0xffff_fffe_0000_0001int, 0x4000_0000_0000_0000int);
        lemma_mul_range(rx2 as int, ry2 as int, 0x4000_0000_0000_0000int, 0x4000_0000_0000_0000int);
    }
    dx2 * ry2 + dy2 * rx2 <= rx2 * ry2
}

fn on_segment(px: Fixed, py: Fixed, ox: Fixed, oy: Fixed, ex: Fixed, ey: Fixed, tolerance: Fixed) -> (r: bool)
    ensures
        r == near_segment(px@ - ox@, py@ - oy@, ex@, ey@, tolerance@),
{
    if tolerance.raw < 0 {
        return false;
    }
    let rel_x: i64 = px.raw as i64 - ox.raw as i64;
    let rel_y: i64 = py.raw as i64 - oy.raw as i64;
    let end_x: i64 = ex.raw as i64;
    let end_y: i64 = ey.raw as i64;
    proof {
        lemma_mul_range(ex@, ex@, 0x8000_0000, 0x8000_0000);
        lemma_mul_range(ey@, ey@, 0x8000_0000, 0x8000_0000);
        lemma_mul_range(tolerance@, tolerance@, 0x8000_0000, 0x8000_0000);
        lemma_mul_range(rel_x as int, end_x as int, 0xffff_ffff, 0x8000_0000);
        lemma_mul_range(rel_y as int, end_y as int, 0xffff_ffff, 0x8000_0000);
        lemma_mul_range(rel_x as int, end_y as int, 0xffff_ffff, 0x8000_0000);
        lemma_mul_range(rel_y as int, end_x as int, 0xffff_ffff, 0x8000_0000);
        lemma_mul_range(rel_x as int, rel_x as int, 0xffff_ffff, 0xffff_ffff);
        lemma_mul_range(rel_y as int, rel_y as int, 0xffff_ffff, 0xffff_ffff);
        lemma_mul_range(rel_x - end_x, rel_x - end_x, 0x1_8000_0000, 0x1_8000_0000);
        lemma_mul_range(rel_y - end_y, rel_y - end_y, 0x1_8000_0000, 0x1_8000_0000);
    }
    let tol2: u128 = square(tolerance.raw as i64);
    let len2: u128 = square(end_x) + square(end_y);
    if len2 == 0 {
        return false;
    }
    let dot: i128 = (rel_x as i128) * (end_x as i128) + (rel_y as i128) * (end_y as i128);
    if dot <= 0 {
        square(rel_x) + square(rel_y) <= tol2
    } else if dot as u128 >= len2 {
        square(rel_x - end_x) + square(rel_y - end_y) <= tol2
    } else {
        let cross: i128 = (rel_x as i128) * (end_y as i128) - (rel_y as i128) * (end_x as i128);
        let size: u128 = if cross < 0 { (-cross) as u128 } else { cross as u128 };
        proof {
            lemma_mul_range(cross as int, cross as int, 0xffff_ffff_0000_0000, 0xffff_ffff_0000_0000);
            lemma_mul_range(size as int, size as int, 0xffff_ffff_0000_0000, 0xffff_ffff_0000_0000);
            lemma_mul_range(tol2 as int, len2 as int, 0x4000_0000_0000_0000int, 0x8000_0000_0000_0000int);
            assert(size * size == cross * cross) by (nonlinear_arith)
                requires
                    size == cross || size == -cross,
            ;
        }
        size * size <= tol2 * len2
    }
}

/// Whether the ray from `(px, py)` crosses the edge from `(xi, yi)` to
/// `(xj, yj)`.
fn crosses(xi: Fixed, yi: Fixed, xj: Fixed, yj: Fixed, px: Fixed, py: Fixed) -> (r: bool)
    ensures
        r == edge_crossed(xi@, yi@, xj@, yj@, px@, py@),
{
    if (yi.raw > py.raw) == (yj.raw > py.raw) {
        return false;
    }
    let run: i128 = (xj.raw as i64 - xi.raw as i64) as i128;
    let rise: i128 = (yj.raw as i64 - yi.raw as i64) as i128;
    let along: i128 = (px.raw as i64 - xi.raw as i64) as i128;
    let up: i128 = (py.raw as i64 - yi.raw as i64) as i128;
    proof {
        lemma_mul_range(along as int, rise as int, 0xffff_ffff, 0xffff_ffff);
        lemma_mul_range(run as int, up as int, 0xffff_ffff, 0xffff_ffff);
    }
    if rise > 0 {
        along * rise < run * up
    } else {
        along * rise > run * up
    }
}

/// The even-odd test of a click against a polygon placed by `transform`.
fn in_polygon(points: &Vec<(Fixed, Fixed)>, px: Fixed, py: Fixed, transform: &Transform) -> (r: bool)
    ensures
        r == polygon_contains(world_points(*transform, points@), px@, py@),
{
    let n = points.len();
    if n < 3 {
        return false;
    }
    let ghost world = world_points(*transform, points@);
    let mut inside = false;
    let mut j: usize = n - 1;
    let mut i: usize = 0;
    while i < n
        invariant
            n == points.len(),
            n >= 3,
            i <= n,
            j as int == before(i as int, n as int) || i == n,
            world == world_points(*transform, points@),
            inside == (crossings(world, px@, py@, i as int) % 2 == 1),
        decreases n - i,
    {
        let xi = points[i].0.mul(transform.scale_x).add(transform.x);
        let yi = points[i].1.mul(transform.scale_y).add(transform.y);
        let xj = points[j].0.mul(transform.scale_x).add(transform.x);
        let yj = points[j].1.mul(transform.scale_y).add(transform.y);
        assert(world[i as int] == (xi, yi));
        assert(world[j as int] == (xj, yj));
        if crosses(xi, yi, xj, yj, px, py) {
            inside = !inside;
        }
        j = i;
        i += 1;
    }
    inside
}

/// Hitboxes of the same kind and measures are hit by the same points.
pub proof fn lemma_same_region_same_hits(a: Hitbox, b: Hitbox, px: Fixed, py: Fixed, t: Transform, shape: ShapeView)
    requires
        same_region(a, b),
    ensures
        a.hits(px, py, t, shape) == b.hits(px, py, t, shape),
    decreases a,
{
    match (a, b) {
        (Hitbox::Multiple(m1), Hitbox::Multiple(m2)) => {
            assert forall|i: int| 0 <= i < m1@.len() implies (#[trigger] m1@[i]).hits(px, py, t, shape) == m2@[i].hits(
                px,
                py,
                t,
                shape,
            ) by {
                assert(same_region(m1@[i], m2@[i]));
                lemma_same_region_same_hits(m1@[i], m2@[i], px, py, t, shape);
            }
            if a.hits(px, py, t, shape) {
                let i = choose|i: int| 0 <= i < m1@.len() && (#[trigger] m1@[i]).hits(px, py, t, shape);
                assert(m2@[i].hits(px, py, t, shape));
            }
            if b.hits(px, py, t, shape) {
                let i = choose|i: int| 0 <= i < m2@.len() && (#[trigger] m2@[i]).hits(px, py, t, shape);
                assert(m1@[i].hits(px, py, t, shape));
            }
        },
        _ => {},
    }
}

/// A polygon of fewer than three vertices is never hit, as a hitbox of its
/// own or as the shape behind a derived hitbox.
pub proof fn lemma_small_polygon_never_hit(
    points: Vec<(Fixed, Fixed)>,
    px: Fixed,
    py: Fixed,
    t: Transform,
    shape: ShapeView,
    tolerance: Fixed,
)
    requires
        points@.len() < 3,
    ensures
        !(Hitbox::Polygon { points }).hits(px, py, t, shape),
        !(Hitbox::FromShape { tolerance }).hits(px, py, t, ShapeView::Polygon { points: points@ }),
{
}

} // verus!
