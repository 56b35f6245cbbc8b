//! The pixel discipline: documents and events are in CSS pixels, hit tests
//! and drawing work in physical pixels, and the device pixel ratio carries
//! one into the other.

use crate::fixed::Fixed;
use crate::model::{BoundingBox, Shape, ShapeView, Style, StyleView, Transform};
use vstd::prelude::*;

verus! {

/// The points of a polygon, each coordinate multiplied by `dpr`.
pub open spec fn physical_points(points: Seq<(Fixed, Fixed)>, dpr: Fixed) -> Seq<(Fixed, Fixed)> {
    Seq::new(points.len(), |i: int| (points[i].0.spec_mul(dpr), points[i].1.spec_mul(dpr)))
}

/// A shape with every extent multiplied by `dpr`.
pub open spec fn physical_shape(shape: ShapeView, dpr: Fixed) -> ShapeView {
    match shape {
        ShapeView::Rect { w, h } => ShapeView::Rect { w: w.spec_mul(dpr), h: h.spec_mul(dpr) },
        ShapeView::Ellipse { rx, ry } => ShapeView::Ellipse { rx: rx.spec_mul(dpr), ry: ry.spec_mul(dpr) },
        ShapeView::Line { x2, y2 } => ShapeView::Line { x2: x2.spec_mul(dpr), y2: y2.spec_mul(dpr) },
        ShapeView::Polygon { points } => ShapeView::Polygon { points: physical_points(points, dpr) },
    }
}

/// A transform with its position multiplied by `dpr`; rotation and scale
/// stay. It places a shape whose measures are in physical pixels already.
pub open spec fn physical_position(t: Transform, dpr: Fixed) -> Transform {
    Transform { x: t.x.spec_mul(dpr), y: t.y.spec_mul(dpr), ..t }
}

/// A transform with its position and its scale multiplied by `dpr`; the
/// rotation stays. A shape placed by it, left in its own measures, lies in
/// physical pixels.
pub open spec fn physical_transform(t: Transform, dpr: Fixed) -> Transform {
    Transform {
        x: t.x.spec_mul(dpr),
        y: t.y.spec_mul(dpr),
        rotation: t.rotation,
        scale_x: t.scale_x.spec_mul(dpr),
        scale_y: t.scale_y.spec_mul(dpr),
    }
}

/// A box with its corner and its sides multiplied by `dpr`.
pub open spec fn physical_box(b: BoundingBox, dpr: Fixed) -> BoundingBox {
    BoundingBox {
        x: b.x.spec_mul(dpr),
        y: b.y.spec_mul(dpr),
        width: b.width.spec_mul(dpr),
        height: b.height.spec_mul(dpr),
    }
}

/// The dash lengths, each multiplied by `dpr`.
pub open spec fn physical_dash(dash: Seq<Fixed>, dpr: Fixed) -> Seq<Fixed> {
    Seq::new(dash.len(), |i: int| dash[i].spec_mul(dpr))
}

/// A style with the stroke width multiplied by `dpr`, and the dash pattern
/// and its offset too where there is a pattern.
pub open spec fn physical_style(style: StyleView, dpr: Fixed) -> StyleView {
    StyleView {
        stroke_width: style.stroke_width.spec_mul(dpr),
        dash: physical_dash(style.dash, dpr),
        dash_offset: if style.dash.len() > 0 {
            style.dash_offset.spec_mul(dpr)
        } else {
            style.dash_offset
        },
        ..style
    }
}

pub fn to_physical_shape(shape: &Shape, dpr: Fixed) -> (r: Shape)
    ensures
        r@ == physical_shape(shape@, dpr),
{
    match shape {
        Shape::Rect { w, h } => Shape::Rect { w: w.mul(dpr), h: h.mul(dpr) },
        Shape::Ellipse { rx, ry } => Shape::Ellipse { rx: rx.mul(dpr), ry: ry.mul(dpr) },
        Shape::Line { x2, y2 } => Shape::Line { x2: x2.mul(dpr), y2: y2.mul(dpr) },
        Shape::Polygon { points } => {
            let mut scaled: Vec<(Fixed, Fixed)> = Vec::new();
            let mut i: usize = 0;
            while i < points.len()
                invariant
                    i <= points.len(),
                    scaled@.len() == i,
                    forall|k: int| 0 <= k < i ==> scaled@[k] == physical_points(points@, dpr)[k],
                decreases points.len() - i,
            {
                scaled.push((points[i].0.mul(dpr), points[i].1.mul(dpr)));
                i += 1;
            }
            assert(scaled@ =~= physical_points(points@, dpr));
            Shape::Polygon { points: scaled }
        },
    }
}

pub fn to_physical_position(t: &Transform, dpr: Fixed) -> (r: Transform)
    ensures
        r == physical_position(*t, dpr),
{
    Transform { x: t.x.mul(dpr), y: t.y.mul(dpr), rotation: t.rotation, scale_x: t.scale_x, scale_y: t.scale_y }
}

pub fn to_physical_transform(t: &Transform, dpr: Fixed) -> (r: Transform)
    ensures
        r == physical_transform(*t, dpr),
{
    Transform {
        x: t.x.mul(dpr),
        y: t.y.mul(dpr),
        rotation: t.rotation,
        scale_x: t.scale_x.mul(dpr),
        scale_y: t.scale_y.mul(dpr),
    }
}

pub fn to_physical_box(b: &BoundingBox, dpr: Fixed) -> (r: BoundingBox)
    ensures
        r == physical_box(*b, dpr),
{
    BoundingBox { x: b.x.mul(dpr), y: b.y.mul(dpr), width: b.width.mul(dpr), height: b.height.mul(dpr) }
}

pub fn to_physical_style(style: &Style, dpr: Fixed) -> (r: Style)
    ensures
        r@ == physical_style(style@, dpr),
{
    let mut dash: Vec<Fixed> = Vec::new();
    let mut i: usize = 0;
    while i < style.dash.len()
        invariant
            i <= style.dash.len(),
            dash@.len() == i,
            forall|k: int| 0 <= k < i ==> dash@[k] == physical_dash(style.dash@, dpr)[k],
        decreases style.dash.len() - i,
    {
        dash.push(style.dash[i].mul(dpr));
        i += 1;
    }
    assert(dash@ =~= physical_dash(style.dash@, dpr));
    let dash_offset = if style.dash.len() > 0 {
        style.dash_offset.mul(dpr)
    } else {
        style.dash_offset
    };
    Style {
        fill: style.fill,
        stroke: style.stroke,
        stroke_width: style.stroke_width.mul(dpr),
        opacity: style.opacity,
        stroke_cap: style.stroke_cap,
        stroke_join: style.stroke_join,
        dash,
        dash_offset,
    }
}

/// At a ratio of one, physical pixels are CSS pixels.
pub proof fn lemma_ratio_one(t: Transform, shape: ShapeView, b: BoundingBox, one: Fixed)
    requires
        one@ == 1000,
    ensures
        physical_position(t, one) == t,
        physical_transform(t, one) == t,
        physical_box(b, one) == b,
        physical_shape(shape, one) == shape,
{
    crate::bounds::lemma_times_one(t.x, one);
    crate::bounds::lemma_times_one(t.y, one);
    crate::bounds::lemma_times_one(t.scale_x, one);
    crate::bounds::lemma_times_one(t.scale_y, one);
    crate::bounds::lemma_times_one(b.x, one);
    crate::bounds::lemma_times_one(b.y, one);
    crate::bounds::lemma_times_one(b.width, one);
    crate::bounds::lemma_times_one(b.height, one);
    match shape {
        ShapeView::Rect { w, h } => {
            crate::bounds::lemma_times_one(w, one);
            crate::bounds::lemma_times_one(h, one);
        },
        ShapeView::Ellipse { rx, ry } => {
            crate::bounds::lemma_times_one(rx, one);
            crate::bounds::lemma_times_one(ry, one);
        },
        ShapeView::Line { x2, y2 } => {
            crate::bounds::lemma_times_one(x2, one);
            crate::bounds::lemma_times_one(y2, one);
        },
        ShapeView::Polygon { points } => {
            assert forall|i: int| 0 <= i < points.len() implies physical_points(points, one)[i] == points[i] by {
                crate::bounds::lemma_times_one(points[i].0, one);
                crate::bounds::lemma_times_one(points[i].1, one);
            }
            assert(physical_points(points, one) =~= points);
        },
    }
}

} // verus!
