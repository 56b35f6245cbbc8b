use momentum::fixed::Fixed;
use momentum::hitbox::{hit_test_shape, in_circle, Hitbox};
use momentum::model::{BoundingBox, HandleType, Shape, Transform};

fn px(n: i32) -> Fixed {
    Fixed::from_int(n)
}

fn at(x: i32, y: i32) -> Transform {
    Transform::at(px(x), px(y))
}

fn scaled(x: i32, y: i32, sx: i32, sy: i32) -> Transform {
    Transform { scale_x: Fixed::from_raw(sx), scale_y: Fixed::from_raw(sy), ..at(x, y) }
}

fn bbox(x: i32, y: i32, w: i32, h: i32) -> BoundingBox {
    BoundingBox { x: px(x), y: px(y), width: px(w), height: px(h) }
}

#[test]
fn default_transform_has_scale_one() {
    let t = Transform::default();
    assert_eq!(t.x, px(0));
    assert_eq!(t.y, px(0));
    assert_eq!(t.rotation, px(0));
    assert_eq!(t.scale_x, px(1));
    assert_eq!(t.scale_y, px(1));
}

#[test]
fn rectangle_box_is_position_and_size() {
    let b = BoundingBox::from_shape(&at(10, 20), &Shape::Rect { w: px(100), h: px(80) });
    assert_eq!(b, bbox(10, 20, 100, 80));
}

#[test]
fn rectangle_box_follows_the_scale() {
    let b = BoundingBox::from_shape(&scaled(10, 20, 1_500, 500), &Shape::Rect { w: px(100), h: px(80) });
    assert_eq!(b, bbox(10, 20, 150, 40));
}

#[test]
fn ellipse_box_is_centred_on_the_position() {
    let b = BoundingBox::from_shape(&at(100, 50), &Shape::Ellipse { rx: px(30), ry: px(20) });
    assert_eq!(b, bbox(70, 30, 60, 40));
}

#[test]
fn ellipse_box_follows_the_scale() {
    let b = BoundingBox::from_shape(&scaled(100, 50, 2_000, 500), &Shape::Ellipse { rx: px(30), ry: px(20) });
    assert_eq!(b, bbox(40, 40, 120, 20));
}

#[test]
fn line_box_spans_both_ends() {
    let b = BoundingBox::from_shape(&at(100, 250), &Shape::Line { x2: px(100), y2: px(50) });
    assert_eq!(b, bbox(100, 250, 100, 50));
    let back = BoundingBox::from_shape(&at(100, 250), &Shape::Line { x2: px(-40), y2: px(-10) });
    assert_eq!(back, bbox(60, 240, 40, 10));
}

#[test]
fn polygon_box_spans_all_vertices() {
    let shape = Shape::Polygon { points: vec![(px(0), px(0)), (px(50), px(-10)), (px(20), px(70)), (px(-5), px(30))] };
    let b = BoundingBox::from_shape(&at(10, 20), &shape);
    assert_eq!(b, bbox(5, 10, 55, 80));
    let doubled = BoundingBox::from_shape(&scaled(10, 20, 2_000, 2_000), &shape);
    assert_eq!(doubled, bbox(0, 0, 110, 160));
}

#[test]
fn polygon_of_one_vertex_has_a_box_without_extent() {
    let shape = Shape::Polygon { points: vec![(px(7), px(9))] };
    assert_eq!(BoundingBox::from_shape(&at(1, 1), &shape), bbox(8, 10, 0, 0));
}

#[test]
fn empty_polygon_has_the_zero_box() {
    let shape = Shape::Polygon { points: vec![] };
    assert_eq!(BoundingBox::from_shape(&at(10, 20), &shape), bbox(0, 0, 0, 0));
    assert_eq!(BoundingBox::default(), bbox(0, 0, 0, 0));
}

#[test]
fn eight_handles_stand_on_corners_and_edges() {
    let handles = bbox(10, 20, 100, 80).generate_handles(px(10));
    assert_eq!(handles.len(), 8);
    let expected = [
        (HandleType::TopLeft, 5, 15),
        (HandleType::TopRight, 105, 15),
        (HandleType::BottomLeft, 5, 95),
        (HandleType::BottomRight, 105, 95),
        (HandleType::Top, 55, 15),
        (HandleType::Right, 105, 55),
        (HandleType::Bottom, 55, 95),
        (HandleType::Left, 5, 55),
    ];
    for (handle, (kind, x, y)) in handles.iter().zip(expected.iter()) {
        assert_eq!(handle.handle_type, *kind);
        assert_eq!(handle.x, px(*x));
        assert_eq!(handle.y, px(*y));
        assert_eq!(handle.size, px(10));
    }
}

#[test]
fn handles_span_the_box_grown_by_half_a_handle() {
    let handles = bbox(10, 20, 100, 80).generate_handles(px(10));
    let left = handles.iter().map(|h| h.x.raw).min().unwrap();
    let top = handles.iter().map(|h| h.y.raw).min().unwrap();
    let right = handles.iter().map(|h| h.x.raw + h.size.raw).max().unwrap();
    let bottom = handles.iter().map(|h| h.y.raw + h.size.raw).max().unwrap();
    assert_eq!((left, top, right, bottom), (5_000, 15_000, 115_000, 105_000));
}

#[test]
fn a_handle_of_odd_size_reaches_the_rounded_up_half_beyond_the_box() {
    let b = BoundingBox { x: px(0), y: px(0), width: px(10), height: px(20) };
    let handles = b.generate_handles(Fixed::from_raw(3));
    let left = handles.iter().map(|h| h.x.raw).min().unwrap();
    let top = handles.iter().map(|h| h.y.raw).min().unwrap();
    let right = handles.iter().map(|h| h.x.raw + h.size.raw).max().unwrap();
    let bottom = handles.iter().map(|h| h.y.raw + h.size.raw).max().unwrap();
    assert_eq!((left, top, right, bottom), (-1, -1, 10_002, 20_002));
}

#[test]
fn handle_numbers_are_fixed() {
    let all = [
        HandleType::TopLeft,
        HandleType::TopRight,
        HandleType::BottomLeft,
        HandleType::BottomRight,
        HandleType::Top,
        HandleType::Right,
        HandleType::Bottom,
        HandleType::Left,
    ];
    for (n, h) in all.iter().enumerate() {
        assert_eq!(h.to_u8() as usize, n);
        assert_eq!(HandleType::from_u8(n as u8), *h);
    }
    assert_eq!(HandleType::from_u8(8), HandleType::TopLeft);
    assert_eq!(HandleType::from_u8(255), HandleType::TopLeft);
}

#[test]
fn rectangle_is_hit_on_and_within_its_sides() {
    let t = at(10, 20);
    let shape = Shape::Rect { w: px(100), h: px(80) };
    let hitbox = Hitbox::from_shape(&shape);
    assert!(hitbox.hit_test(px(60), px(60), &t, &shape));
    assert!(hitbox.hit_test(px(10), px(20), &t, &shape));
    assert!(hitbox.hit_test(px(110), px(100), &t, &shape));
    assert!(!hitbox.hit_test(px(5), px(5), &t, &shape));
    assert!(!hitbox.hit_test(px(111), px(60), &t, &shape));
    assert!(!hitbox.hit_test(px(60), px(101), &t, &shape));
    assert!(!hitbox.hit_test(Fixed::from_raw(9_999), px(60), &t, &shape));
}

#[test]
fn ellipse_is_hit_by_the_quadratic_form() {
    let t = at(100, 100);
    let shape = Shape::Ellipse { rx: px(50), ry: px(30) };
    let hitbox = Hitbox::from_shape(&shape);
    assert!(hitbox.hit_test(px(100), px(100), &t, &shape));
    assert!(hitbox.hit_test(px(150), px(100), &t, &shape));
    assert!(hitbox.hit_test(px(100), px(130), &t, &shape));
    assert!(hitbox.hit_test(px(130), px(110), &t, &shape));
    assert!(!hitbox.hit_test(px(151), px(100), &t, &shape));
    assert!(!hitbox.hit_test(px(140), px(120), &t, &shape));
    assert!(!hitbox.hit_test(px(150), px(130), &t, &shape));
}

#[test]
fn ellipse_without_extent_is_never_hit() {
    let t = at(100, 100);
    let flat = Shape::Ellipse { rx: px(50), ry: px(0) };
    assert!(!hit_test_shape(px(100), px(100), &t, &flat, px(2)));
    let point = Shape::Ellipse { rx: px(0), ry: px(0) };
    assert!(!hit_test_shape(px(100), px(100), &t, &point, px(2)));
}

#[test]
fn line_is_hit_within_its_tolerance() {
    let t = at(0, 0);
    let shape = Shape::Line { x2: px(100), y2: px(0) };
    let hitbox = Hitbox::from_shape(&shape);
    assert!(hitbox.hit_test(px(50), px(8), &t, &shape));
    assert!(hitbox.hit_test(px(50), px(-8), &t, &shape));
    assert!(!hitbox.hit_test(px(50), px(9), &t, &shape));
    assert!(hitbox.hit_test(px(-5), px(0), &t, &shape));
    assert!(hitbox.hit_test(px(-8), px(0), &t, &shape));
    assert!(!hitbox.hit_test(px(-9), px(0), &t, &shape));
    assert!(hitbox.hit_test(px(108), px(0), &t, &shape));
    assert!(!hitbox.hit_test(px(109), px(0), &t, &shape));
    assert!(!hitbox.hit_test(px(106), px(6), &t, &shape));
}

#[test]
fn slanted_line_is_hit_by_the_distance_to_it() {
    let t = at(10, 10);
    let shape = Shape::Line { x2: px(30), y2: px(40) };
    // The point (45, 10) is 28 away from the line through (10, 10) and (40, 50).
    assert!(hit_test_shape(px(45), px(10), &t, &shape, px(28)));
    assert!(!hit_test_shape(px(45), px(10), &t, &shape, Fixed::from_raw(27_999)));
}

#[test]
fn line_without_length_or_with_negative_tolerance_is_never_hit() {
    let t = at(10, 10);
    let point = Shape::Line { x2: px(0), y2: px(0) };
    assert!(!hit_test_shape(px(10), px(10), &t, &point, px(8)));
    let line = Shape::Line { x2: px(100), y2: px(0) };
    assert!(hit_test_shape(px(50), px(10), &t, &line, px(0)));
    assert!(!hit_test_shape(px(50), px(10), &t, &line, px(-1)));
}

#[test]
fn polygon_is_hit_inside_only() {
    let t = at(10, 10);
    let shape = Shape::Polygon { points: vec![(px(0), px(0)), (px(100), px(0)), (px(0), px(100))] };
    let hitbox = Hitbox::from_shape(&shape);
    assert!(hitbox.hit_test(px(20), px(20), &t, &shape));
    assert!(hitbox.hit_test(px(50), px(50), &t, &shape));
    assert!(!hitbox.hit_test(px(100), px(100), &t, &shape));
    assert!(!hitbox.hit_test(px(5), px(20), &t, &shape));
    assert!(!hitbox.hit_test(px(20), px(5), &t, &shape));
}

#[test]
fn polygon_with_a_notch_follows_the_even_odd_rule() {
    let t = at(0, 0);
    let points = vec![
        (px(0), px(0)),
        (px(100), px(0)),
        (px(100), px(100)),
        (px(50), px(20)),
        (px(0), px(100)),
    ];
    let hitbox = Hitbox::Polygon { points };
    let shape = Shape::Rect { w: px(1), h: px(1) };
    assert!(hitbox.hit_test(px(50), px(10), &t, &shape));
    assert!(!hitbox.hit_test(px(50), px(60), &t, &shape));
    assert!(hitbox.hit_test(px(90), px(60), &t, &shape));
    assert!(hitbox.hit_test(px(10), px(60), &t, &shape));
}

#[test]
fn polygon_of_fewer_than_three_vertices_is_never_hit() {
    let t = at(0, 0);
    let shape = Shape::Rect { w: px(100), h: px(100) };
    for points in [vec![], vec![(px(0), px(0))], vec![(px(0), px(0)), (px(100), px(100))]] {
        let as_shape = Shape::Polygon { points: points.clone() };
        assert!(!Hitbox::from_shape(&as_shape).hit_test(px(50), px(50), &t, &as_shape));
        assert!(!Hitbox::Polygon { points }.hit_test(px(50), px(50), &t, &shape));
    }
}

#[test]
fn rectangular_hitbox_passes_over_the_shape() {
    let t = scaled(100, 100, 2_000, 1_000);
    let shape = Shape::Line { x2: px(1), y2: px(1) };
    let hitbox = Hitbox::Rect { x: px(-10), y: px(-10), w: px(20), h: px(20) };
    assert!(hitbox.hit_test(px(90), px(90), &t, &shape));
    assert!(hitbox.hit_test(px(130), px(110), &t, &shape));
    assert!(!hitbox.hit_test(px(131), px(110), &t, &shape));
    assert!(!hitbox.hit_test(px(89), px(100), &t, &shape));
    assert!(!hitbox.hit_test(px(100), px(111), &t, &shape));
}

#[test]
fn circular_hitbox_scales_with_the_larger_axis() {
    let shape = Shape::Rect { w: px(1), h: px(1) };
    let hitbox = Hitbox::Circle { x: px(10), y: px(0), radius: px(5) };
    let plain = at(100, 100);
    assert!(hitbox.hit_test(px(110), px(105), &plain, &shape));
    assert!(hitbox.hit_test(px(113), px(104), &plain, &shape));
    assert!(!hitbox.hit_test(px(114), px(104), &plain, &shape));
    let wide = scaled(100, 100, 2_000, 1_000);
    assert!(hitbox.hit_test(px(120), px(110), &wide, &shape));
    assert!(!hitbox.hit_test(px(120), px(111), &wide, &shape));
}

#[test]
fn composite_hitbox_is_hit_where_a_part_is() {
    let t = at(0, 0);
    let shape = Shape::Rect { w: px(1), h: px(1) };
    let hitbox = Hitbox::Multiple(vec![
        Hitbox::NonInteractive,
        Hitbox::Circle { x: px(0), y: px(0), radius: px(5) },
        Hitbox::Multiple(vec![Hitbox::Rect { x: px(50), y: px(50), w: px(10), h: px(10) }]),
    ]);
    assert!(hitbox.hit_test(px(3), px(4), &t, &shape));
    assert!(hitbox.hit_test(px(55), px(55), &t, &shape));
    assert!(!hitbox.hit_test(px(30), px(30), &t, &shape));
    assert!(!Hitbox::Multiple(vec![]).hit_test(px(0), px(0), &t, &shape));
}

#[test]
fn non_interactive_hitbox_is_never_hit() {
    let shape = Shape::Rect { w: px(100), h: px(100) };
    assert!(!Hitbox::NonInteractive.hit_test(px(50), px(50), &at(0, 0), &shape));
}

#[test]
fn hit_test_gives_the_same_answer_twice() {
    let t = at(10, 20);
    let shape = Shape::Ellipse { rx: px(50), ry: px(30) };
    let hitbox = Hitbox::from_shape(&shape);
    for (x, y) in [(10, 20), (60, 20), (61, 20), (10, 51), (-40, 20)] {
        let first = hitbox.hit_test(px(x), px(y), &t, &shape);
        let second = hitbox.hit_test(px(x), px(y), &t, &shape);
        assert_eq!(first, second);
    }
}

#[test]
fn default_hitboxes_have_their_tolerances() {
    assert_eq!(Hitbox::default(), Hitbox::FromShape { tolerance: px(5) });
    assert_eq!(Hitbox::from_shape(&Shape::Line { x2: px(1), y2: px(1) }), Hitbox::FromShape { tolerance: px(8) });
    assert_eq!(Hitbox::from_shape(&Shape::Rect { w: px(1), h: px(1) }), Hitbox::FromShape { tolerance: px(2) });
    assert_eq!(Hitbox::from_shape(&Shape::Ellipse { rx: px(1), ry: px(1) }), Hitbox::FromShape { tolerance: px(2) });
    assert_eq!(Hitbox::from_shape(&Shape::Polygon { points: vec![] }), Hitbox::FromShape { tolerance: px(2) });
}

#[test]
fn handle_hitbox_is_larger_than_the_handle() {
    assert_eq!(Hitbox::scale_handle(px(5), px(6), px(10)), Hitbox::Circle { x: px(5), y: px(6), radius: px(12) });
    assert_eq!(Hitbox::scale_handle(px(5), px(6), px(20)), Hitbox::Circle { x: px(5), y: px(6), radius: px(15) });
    assert_eq!(Hitbox::scale_handle(px(5), px(6), px(16)), Hitbox::Circle { x: px(5), y: px(6), radius: px(12) });
}

#[test]
fn accessible_rectangle_grows_about_its_centre() {
    assert_eq!(
        Hitbox::accessible_rect(px(10), px(10), px(20), px(60), px(44)),
        Hitbox::Rect { x: px(-2), y: px(10), w: px(44), h: px(60) }
    );
    assert_eq!(
        Hitbox::accessible_rect(px(0), px(0), px(50), px(50), px(44)),
        Hitbox::Rect { x: px(0), y: px(0), w: px(50), h: px(50) }
    );
}

#[test]
fn circle_test_is_closed() {
    assert!(in_circle(px(3), px(4), px(0), px(0), px(5)));
    assert!(!in_circle(px(3), px(4), px(0), px(0), Fixed::from_raw(4_999)));
    assert!(in_circle(px(0), px(0), px(3), px(4), px(-5)));
}

#[test]
fn far_points_do_not_overflow() {
    let t = Transform::at(Fixed::from_raw(i32::MIN), Fixed::from_raw(i32::MIN));
    let far = Fixed::from_raw(i32::MAX);
    let big = Fixed::from_raw(i32::MAX);
    assert!(!hit_test_shape(far, far, &t, &Shape::Ellipse { rx: big, ry: big }, px(2)));
    assert!(!hit_test_shape(far, far, &t, &Shape::Line { x2: big, y2: Fixed::from_raw(i32::MIN) }, big));
    assert!(hit_test_shape(far, far, &t, &Shape::Rect { w: big, h: big }, px(2)) == false);
    let points = vec![(big, big), (Fixed::from_raw(i32::MIN), big), (big, Fixed::from_raw(i32::MIN))];
    let _ = hit_test_shape(far, far, &t, &Shape::Polygon { points }, px(2));
}
