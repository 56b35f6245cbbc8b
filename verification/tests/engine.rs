use momentum::engine::MomentumEcsApp;
use momentum::fixed::Fixed;
use momentum::gesture::{apply_change, compute_axis_factor, compute_scale_factors, rescale, Change};
use momentum::group::{combined_bounds, entity_index, snapshot};
use momentum::hitbox::Hitbox;
use momentum::model::{BoundingBox, Color, EntityId, HandleType, Shape, Style, Transform};
use momentum::pointer::{detect_handle, find_entity_at, hit_test_entity};
use momentum::usecases::Document;

fn px(n: i32) -> Fixed {
    Fixed::from_int(n)
}

fn bbox(x: i32, y: i32, w: i32, h: i32) -> BoundingBox {
    BoundingBox { x: px(x), y: px(y), width: px(w), height: px(h) }
}

fn app_with_rect(x: i32, y: i32, w: i32, h: i32) -> MomentumEcsApp {
    let mut app = MomentumEcsApp::new();
    app.send_create_rect(px(x), px(y), px(w), px(h));
    app.run_frame();
    app
}

fn click(app: &mut MomentumEcsApp, x: i32, y: i32, additive: bool) {
    app.send_pointer_down_with_modifiers(px(x), px(y), additive, false);
    app.run_frame();
}

fn position(app: &MomentumEcsApp, index: usize) -> (Fixed, Fixed) {
    let t = app.document().entities[index].1;
    (t.x, t.y)
}

fn scale(app: &MomentumEcsApp, index: usize) -> (Fixed, Fixed) {
    let t = app.document().entities[index].1;
    (t.scale_x, t.scale_y)
}

#[test]
fn a_new_engine_is_idle() {
    let mut app = MomentumEcsApp::new();
    assert_eq!(app.frames(), 0);
    assert_eq!(app.document().count(), 0);
    assert!(app.get_selected_entities().is_empty());
    assert!(!app.is_moving());
    assert!(!app.is_scaling());
    assert_eq!(app.canvas_dpr.0, px(1));
    assert!(app.renderer.is_none());
    assert!(app.can_run_frame());
}

#[test]
fn frames_are_counted() {
    let mut app = MomentumEcsApp::new();
    app.run_frame();
    app.run_frame();
    app.run_frame();
    assert_eq!(app.frames(), 3);
}

#[test]
fn a_frame_cannot_run_when_the_counter_is_spent() {
    let mut app = MomentumEcsApp::new();
    app.state.frames = u64::MAX;
    assert!(!app.can_run_frame());
}

#[test]
fn a_frame_cannot_run_when_identifiers_run_out() {
    let mut app = MomentumEcsApp::new();
    app.core.0.next_id = u64::MAX - 1;
    app.send_create_rect(px(0), px(0), px(1), px(1));
    assert!(app.can_run_frame());
    app.send_create_line(px(0), px(0), px(1), px(1));
    assert!(!app.can_run_frame());
}

#[test]
fn requests_create_entities_in_the_next_frame() {
    let mut app = MomentumEcsApp::new();
    app.send_create_rect(px(200), px(150), px(150), px(100));
    app.send_create_ellipse(px(300), px(150), px(50), px(40));
    app.send_create_line(px(100), px(250), px(200), px(300));
    assert_eq!(app.document().count(), 0);
    app.run_frame();
    let doc = app.document();
    assert_eq!(doc.count(), 3);
    assert_eq!(doc.entities[0].0, EntityId(1));
    assert_eq!(doc.entities[0].1, Transform::at(px(200), px(150)));
    assert_eq!(doc.entities[0].3, Shape::Rect { w: px(150), h: px(100) });
    assert_eq!(doc.entities[1].0, EntityId(2));
    assert_eq!(doc.entities[1].1, Transform::at(px(300), px(150)));
    assert_eq!(doc.entities[1].3, Shape::Ellipse { rx: px(50), ry: px(40) });
    assert_eq!(doc.entities[2].0, EntityId(3));
    assert_eq!(doc.entities[2].1, Transform::at(px(100), px(250)));
    assert_eq!(doc.entities[2].3, Shape::Line { x2: px(100), y2: px(50) });
    app.run_frame();
    assert_eq!(app.document().count(), 3);
}

#[test]
fn rectangles_are_created_before_ellipses_and_lines() {
    let mut app = MomentumEcsApp::new();
    app.send_create_line(px(0), px(0), px(1), px(1));
    app.send_create_ellipse(px(0), px(0), px(1), px(1));
    app.send_create_rect(px(0), px(0), px(1), px(1));
    app.send_create_rect(px(5), px(5), px(1), px(1));
    app.run_frame();
    let doc = app.document();
    assert!(matches!(doc.entities[0].3, Shape::Rect { .. }));
    assert!(matches!(doc.entities[1].3, Shape::Rect { .. }));
    assert_eq!(doc.entities[1].1, Transform::at(px(5), px(5)));
    assert!(matches!(doc.entities[2].3, Shape::Ellipse { .. }));
    assert!(matches!(doc.entities[3].3, Shape::Line { .. }));
}

#[test]
fn new_entities_have_the_outline_style() {
    let app = app_with_rect(10, 20, 100, 80);
    let expected = Style {
        stroke: Some(Color(Fixed::from_raw(100), Fixed::from_raw(120), Fixed::from_raw(160), px(1))),
        stroke_width: px(2),
        opacity: px(1),
        ..Style::default()
    };
    assert_eq!(app.document().entities[0].2, expected);
}

#[test]
fn a_click_selects_and_a_click_on_nothing_clears() {
    let mut app = app_with_rect(10, 20, 100, 80);
    click(&mut app, 60, 60, false);
    assert_eq!(app.get_selected_entities(), vec![EntityId(1)]);
    click(&mut app, 5, 5, false);
    assert!(app.get_selected_entities().is_empty());
}

#[test]
fn a_press_without_modifiers_selects_too() {
    let mut app = app_with_rect(10, 20, 100, 80);
    app.send_pointer_down(px(60), px(60));
    app.run_frame();
    assert_eq!(app.get_selected_entities(), vec![EntityId(1)]);
}

#[test]
fn a_plain_click_replaces_the_selection() {
    let mut app = app_with_rect(0, 0, 50, 50);
    app.send_create_rect(px(200), px(0), px(50), px(50));
    app.run_frame();
    click(&mut app, 25, 25, false);
    assert_eq!(app.get_selected_entities(), vec![EntityId(1)]);
    click(&mut app, 225, 25, false);
    assert_eq!(app.get_selected_entities(), vec![EntityId(2)]);
}

#[test]
fn an_additive_click_toggles() {
    let mut app = app_with_rect(0, 0, 50, 50);
    app.send_create_rect(px(200), px(0), px(50), px(50));
    app.run_frame();
    click(&mut app, 25, 25, true);
    click(&mut app, 225, 25, true);
    assert_eq!(app.get_selected_entities(), vec![EntityId(1), EntityId(2)]);
    click(&mut app, 25, 25, true);
    assert_eq!(app.get_selected_entities(), vec![EntityId(2)]);
}

#[test]
fn an_additive_click_on_nothing_keeps_the_selection() {
    let mut app = app_with_rect(0, 0, 50, 50);
    click(&mut app, 25, 25, false);
    click(&mut app, 500, 500, true);
    assert_eq!(app.get_selected_entities(), vec![EntityId(1)]);
}

#[test]
fn the_first_entity_in_paint_order_is_hit() {
    let mut app = app_with_rect(0, 0, 100, 100);
    app.send_create_rect(px(50), px(50), px(100), px(100));
    app.run_frame();
    click(&mut app, 75, 75, false);
    assert_eq!(app.get_selected_entities(), vec![EntityId(1)]);
    click(&mut app, 125, 125, false);
    assert_eq!(app.get_selected_entities(), vec![EntityId(2)]);
}

#[test]
fn presses_of_one_frame_are_resolved_in_order() {
    let mut app = app_with_rect(0, 0, 50, 50);
    app.send_create_rect(px(200), px(0), px(50), px(50));
    app.run_frame();
    app.send_pointer_down_with_modifiers(px(25), px(25), false, false);
    app.send_pointer_down_with_modifiers(px(225), px(25), true, false);
    app.send_pointer_down_with_modifiers(px(25), px(25), true, false);
    app.run_frame();
    assert_eq!(app.get_selected_entities(), vec![EntityId(2)]);
    assert!(app.queue.pointer_down.is_empty());
}

#[test]
fn a_press_on_a_handle_starts_scaling() {
    let mut app = app_with_rect(200, 200, 150, 100);
    click(&mut app, 275, 250, false);
    assert_eq!(app.get_selected_entities(), vec![EntityId(1)]);
    let result = app.send_pointer_down_with_modifiers(px(200), px(200), false, false);
    assert_eq!(result.clicked_handle_type, Some(0));
    assert!(!result.entity_selected);
    app.run_frame();
    assert!(app.is_scaling());
    assert_eq!(app.scale_state.handle_type, Some(HandleType::TopLeft));
    assert_eq!(app.scale_state.initial_bounds, bbox(200, 200, 150, 100));
    assert_eq!(app.scale_state.initial_transforms, vec![(EntityId(1), Transform::at(px(200), px(200)))]);
    assert_eq!(app.get_selected_entities(), vec![EntityId(1)]);
    assert!(app.queue.scale_start.is_empty());
}

#[test]
fn a_handle_wins_over_the_entity_under_it() {
    let mut app = app_with_rect(200, 200, 150, 100);
    app.send_create_rect(px(340), px(290), px(50), px(50));
    app.run_frame();
    click(&mut app, 275, 250, false);
    // The bottom-right corner of the selection lies inside the second rectangle.
    click(&mut app, 352, 302, false);
    assert!(app.is_scaling());
    assert_eq!(app.scale_state.handle_type, Some(HandleType::BottomRight));
    assert_eq!(app.get_selected_entities(), vec![EntityId(1)]);
}

#[test]
fn handles_are_found_around_the_selection() {
    let mut app = app_with_rect(200, 200, 150, 100);
    assert_eq!(app.detect_handle_click(px(200), px(200)), None);
    click(&mut app, 275, 250, false);
    assert_eq!(app.detect_handle_click(px(200), px(200)), Some(0));
    assert_eq!(app.detect_handle_click(px(350), px(200)), Some(1));
    assert_eq!(app.detect_handle_click(px(200), px(300)), Some(2));
    assert_eq!(app.detect_handle_click(px(350), px(300)), Some(3));
    assert_eq!(app.detect_handle_click(px(275), px(200)), Some(4));
    assert_eq!(app.detect_handle_click(px(350), px(250)), Some(5));
    assert_eq!(app.detect_handle_click(px(275), px(300)), Some(6));
    assert_eq!(app.detect_handle_click(px(200), px(250)), Some(7));
    assert_eq!(app.detect_handle_click(px(275), px(250)), None);
    assert_eq!(app.detect_handle_click(px(100), px(100)), None);
}

#[test]
fn a_handle_is_taken_within_twelve_pixels() {
    let mut app = app_with_rect(200, 200, 150, 100);
    click(&mut app, 275, 250, false);
    assert_eq!(app.detect_handle_click(px(188), px(200)), Some(0));
    assert_eq!(app.detect_handle_click(px(187), px(200)), None);
    assert_eq!(app.detect_handle_click(px(191), px(192)), None);
    assert_eq!(app.detect_handle_click(px(192), px(192)), Some(0));
}

#[test]
fn handles_follow_the_pixel_ratio() {
    let mut app = app_with_rect(100, 100, 75, 50);
    app.selection.select(EntityId(1));
    app.set_canvas_dpr(px(2));
    assert_eq!(app.detect_handle_click(px(100), px(100)), Some(0));
    assert_eq!(app.detect_handle_click(px(175), px(150)), Some(3));
    assert_eq!(app.detect_handle_click(px(112), px(100)), Some(0));
    assert_eq!(app.detect_handle_click(px(113), px(100)), None);
}

#[test]
fn a_selection_of_unknown_entities_has_no_handles() {
    let mut app = app_with_rect(200, 200, 150, 100);
    app.selection.select(EntityId(42));
    assert_eq!(app.detect_handle_click(px(200), px(200)), None);
    let doc = Document::new();
    assert_eq!(detect_handle(&doc.entities, &vec![EntityId(1)], px(1), px(0), px(0)), None);
}

#[test]
fn a_move_places_entities_relative_to_the_start() {
    let mut app = app_with_rect(10, 20, 100, 80);
    click(&mut app, 60, 60, false);
    app.send_move_start(px(100), px(100));
    app.run_frame();
    assert!(app.is_moving());
    app.send_move_update(px(30), px(30));
    app.run_frame();
    assert_eq!(position(&app, 0), (px(40), px(50)));
    app.send_move_update(px(5), px(5));
    app.run_frame();
    assert_eq!(position(&app, 0), (px(15), px(25)));
    app.send_move_end();
    app.run_frame();
    assert!(!app.is_moving());
    assert!(app.move_state.initial_positions.is_empty());
    assert_eq!(position(&app, 0), (px(15), px(25)));
}

#[test]
fn of_several_updates_in_one_frame_the_last_counts() {
    let mut app = app_with_rect(10, 20, 100, 80);
    click(&mut app, 60, 60, false);
    app.send_move_start(px(100), px(100));
    app.send_move_update(px(30), px(30));
    app.send_move_update(px(-7), px(2));
    app.run_frame();
    assert_eq!(position(&app, 0), (px(3), px(22)));
}

#[test]
fn a_move_moves_every_selected_entity_and_no_other() {
    let mut app = app_with_rect(0, 0, 50, 50);
    app.send_create_rect(px(200), px(0), px(50), px(50));
    app.send_create_rect(px(400), px(0), px(50), px(50));
    app.run_frame();
    click(&mut app, 25, 25, true);
    click(&mut app, 425, 25, true);
    app.send_move_start(px(0), px(0));
    app.send_move_update(px(10), px(-20));
    app.run_frame();
    assert_eq!(position(&app, 0), (px(10), px(-20)));
    assert_eq!(position(&app, 1), (px(200), px(0)));
    assert_eq!(position(&app, 2), (px(410), px(-20)));
}

#[test]
fn a_move_multiplies_the_displacement_by_the_pixel_ratio() {
    let mut app = app_with_rect(10, 20, 100, 80);
    app.selection.select(EntityId(1));
    app.set_canvas_dpr(px(2));
    app.send_move_start(px(0), px(0));
    app.send_move_update(px(30), px(5));
    app.run_frame();
    assert_eq!(position(&app, 0), (px(70), px(30)));
}

#[test]
fn a_move_without_a_selection_does_not_start() {
    let mut app = app_with_rect(10, 20, 100, 80);
    app.send_move_start(px(0), px(0));
    app.send_move_update(px(30), px(30));
    app.run_frame();
    assert!(!app.is_moving());
    assert_eq!(position(&app, 0), (px(10), px(20)));
    assert!(app.queue.move_start.is_empty());
    assert!(app.queue.move_update.is_empty());
}

#[test]
fn updates_without_a_gesture_are_dropped() {
    let mut app = app_with_rect(10, 20, 100, 80);
    app.send_move_update(px(30), px(30));
    app.send_scale_update(px(30), px(30));
    app.run_frame();
    assert!(app.queue.move_update.is_empty());
    assert!(app.queue.scale_update.is_empty());
    click(&mut app, 60, 60, false);
    app.send_move_start(px(0), px(0));
    app.run_frame();
    assert_eq!(position(&app, 0), (px(10), px(20)));
    assert_eq!(scale(&app, 0), (px(1), px(1)));
}

#[test]
fn ending_a_gesture_that_is_not_under_way_is_harmless() {
    let mut app = app_with_rect(10, 20, 100, 80);
    app.send_move_end();
    app.send_scale_end();
    app.run_frame();
    app.send_move_end();
    app.send_move_end();
    app.send_scale_end();
    app.run_frame();
    assert!(!app.is_moving());
    assert!(!app.is_scaling());
    assert!(app.queue.move_end.is_empty());
    assert!(app.queue.scale_end.is_empty());
    assert_eq!(position(&app, 0), (px(10), px(20)));
}

#[test]
fn scaling_multiplies_the_initial_scale() {
    let mut app = app_with_rect(0, 0, 100, 100);
    click(&mut app, 50, 50, false);
    app.send_scale_start(HandleType::BottomRight, px(100), px(100));
    app.run_frame();
    assert!(app.is_scaling());
    app.send_scale_update(px(50), px(25));
    app.run_frame();
    assert_eq!(scale(&app, 0), (Fixed::from_raw(1_500), Fixed::from_raw(1_250)));
    app.send_scale_update(px(-50), px(100));
    app.run_frame();
    assert_eq!(scale(&app, 0), (Fixed::from_raw(500), px(2)));
    app.send_scale_end();
    app.run_frame();
    assert!(!app.is_scaling());
    assert_eq!(app.scale_state.handle_type, None);
    assert!(app.scale_state.initial_transforms.is_empty());
    assert_eq!(scale(&app, 0), (Fixed::from_raw(500), px(2)));
}

#[test]
fn scaling_never_collapses_or_inverts() {
    let mut app = app_with_rect(0, 0, 100, 100);
    click(&mut app, 50, 50, false);
    app.send_scale_start(HandleType::BottomRight, px(100), px(100));
    app.send_scale_update(px(-100), px(-5_000));
    app.run_frame();
    assert_eq!(scale(&app, 0), (Fixed::from_raw(100), Fixed::from_raw(100)));
    app.send_scale_update(px(-95), px(-89));
    app.run_frame();
    assert_eq!(scale(&app, 0), (Fixed::from_raw(100), Fixed::from_raw(110)));
}

#[test]
fn a_positive_scale_never_reaches_zero() {
    let mut app = app_with_rect(0, 0, 100, 100);
    click(&mut app, 50, 50, false);
    for raw in [100, 10, 1, 1, 1] {
        app.send_scale_start(HandleType::BottomRight, px(0), px(0));
        app.send_scale_update(px(-100_000), px(-100_000));
        app.send_scale_end();
        app.run_frame();
        assert_eq!(scale(&app, 0), (Fixed::from_raw(raw), Fixed::from_raw(raw)));
    }
    app.send_scale_start(HandleType::BottomRight, px(0), px(0));
    app.send_scale_update(px(9), px(9));
    app.run_frame();
    assert_eq!(scale(&app, 0), (Fixed::from_raw(10), Fixed::from_raw(10)));
}

#[test]
fn a_small_scale_keeps_its_sign_under_any_factor_of_a_gesture() {
    let mut doc = Document::new();
    let t = Transform { scale_x: Fixed::from_raw(5), scale_y: Fixed::from_raw(-5), ..Transform::default() };
    doc.create_shape(t, Style::default(), Shape::Rect { w: px(5), h: px(5) });
    let record = vec![(EntityId(1), t)];
    apply_change(&mut doc.entities, &record, Change::Scale { fx: Fixed::from_raw(100), fy: Fixed::from_raw(100) });
    assert_eq!(doc.entities[0].1.scale_x, Fixed::from_raw(1));
    assert_eq!(doc.entities[0].1.scale_y, Fixed::from_raw(-1));
    apply_change(&mut doc.entities, &record, Change::Scale { fx: px(2), fy: px(2) });
    assert_eq!(doc.entities[0].1.scale_x, Fixed::from_raw(10));
    assert_eq!(doc.entities[0].1.scale_y, Fixed::from_raw(-10));
    assert_eq!(rescale(Fixed::from_raw(0), px(2)), Fixed::from_raw(0));
    assert_eq!(rescale(Fixed::from_raw(5), px(0)), Fixed::from_raw(0));
    assert_eq!(rescale(Fixed::from_raw(1), Fixed::from_raw(999)), Fixed::from_raw(1));
}

#[test]
fn a_second_gesture_measures_against_the_scaled_box() {
    let mut app = app_with_rect(0, 0, 100, 100);
    click(&mut app, 50, 50, false);
    app.send_scale_start(HandleType::Right, px(100), px(50));
    app.send_scale_update(px(100), px(0));
    app.send_scale_end();
    app.run_frame();
    assert_eq!(scale(&app, 0), (px(2), px(1)));
    app.send_scale_start(HandleType::Right, px(200), px(50));
    app.send_scale_update(px(100), px(0));
    app.run_frame();
    assert_eq!(app.scale_state.initial_bounds, bbox(0, 0, 200, 100));
    assert_eq!(scale(&app, 0), (px(3), px(1)));
}

#[test]
fn each_handle_scales_its_own_sides() {
    let b = bbox(0, 0, 200, 100);
    let f = |h| compute_scale_factors(h, &b, px(50), px(25));
    let r = |x: i32, y: i32| (Fixed::from_raw(x), Fixed::from_raw(y));
    assert_eq!(f(HandleType::TopLeft), r(750, 750));
    assert_eq!(f(HandleType::TopRight), r(1_250, 750));
    assert_eq!(f(HandleType::BottomLeft), r(750, 1_250));
    assert_eq!(f(HandleType::BottomRight), r(1_250, 1_250));
    assert_eq!(f(HandleType::Top), r(1_000, 750));
    assert_eq!(f(HandleType::Bottom), r(1_000, 1_250));
    assert_eq!(f(HandleType::Left), r(750, 1_000));
    assert_eq!(f(HandleType::Right), r(1_250, 1_000));
}

#[test]
fn a_box_thinner_than_a_pixel_counts_as_one_pixel() {
    assert_eq!(compute_axis_factor(px(2), px(0), true), px(3));
    assert_eq!(compute_axis_factor(px(2), Fixed::from_raw(500), true), px(3));
    assert_eq!(compute_axis_factor(px(2), px(-40), true), px(3));
    assert_eq!(compute_axis_factor(px(2), px(4), true), Fixed::from_raw(1_500));
    assert_eq!(compute_axis_factor(px(2), px(4), false), Fixed::from_raw(500));
    assert_eq!(compute_axis_factor(px(4), px(4), false), Fixed::from_raw(100));
    assert_eq!(compute_axis_factor(px(400), px(4), false), Fixed::from_raw(100));
}

#[test]
fn a_scale_without_a_selection_does_not_start() {
    let mut app = app_with_rect(0, 0, 100, 100);
    app.send_scale_start(HandleType::BottomRight, px(100), px(100));
    app.send_scale_update(px(50), px(50));
    app.run_frame();
    assert!(!app.is_scaling());
    assert_eq!(scale(&app, 0), (px(1), px(1)));
}

#[test]
fn the_box_of_two_entities_is_the_union_of_their_boxes() {
    let mut app = app_with_rect(150, 100, 100, 80);
    app.send_create_rect(px(300), px(200), px(120), px(60));
    app.run_frame();
    click(&mut app, 190, 140, true);
    click(&mut app, 360, 230, true);
    let selected = app.get_selected_entities();
    assert_eq!(selected, vec![EntityId(1), EntityId(2)]);
    let doc = app.document();
    let first = BoundingBox::from_shape(&doc.entities[0].1, &doc.entities[0].3);
    let second = BoundingBox::from_shape(&doc.entities[1].1, &doc.entities[1].3);
    assert_eq!(first, bbox(150, 100, 100, 80));
    assert_eq!(second, bbox(300, 200, 120, 60));
    assert_eq!(combined_bounds(&doc.entities, &selected), Some(bbox(150, 100, 270, 160)));
}

#[test]
fn the_box_of_a_selection_passes_over_unknown_entities() {
    let mut doc = Document::new();
    doc.create_shape(Transform::at(px(10), px(20)), Style::default(), Shape::Ellipse { rx: px(5), ry: px(5) });
    assert_eq!(combined_bounds(&doc.entities, &vec![]), None);
    assert_eq!(combined_bounds(&doc.entities, &vec![EntityId(7)]), None);
    assert_eq!(combined_bounds(&doc.entities, &vec![EntityId(7), EntityId(1)]), Some(bbox(5, 15, 10, 10)));
}

#[test]
fn a_snapshot_holds_the_selected_entities_that_exist() {
    let mut doc = Document::new();
    doc.create_shape(Transform::at(px(1), px(2)), Style::default(), Shape::Rect { w: px(5), h: px(5) });
    doc.create_shape(Transform::at(px(3), px(4)), Style::default(), Shape::Rect { w: px(5), h: px(5) });
    let taken = snapshot(&doc.entities, &vec![EntityId(2), EntityId(9), EntityId(1)]);
    assert_eq!(taken, vec![(EntityId(2), Transform::at(px(3), px(4))), (EntityId(1), Transform::at(px(1), px(2)))]);
    assert_eq!(entity_index(&doc.entities, EntityId(2)), Some(1));
    assert_eq!(entity_index(&doc.entities, EntityId(9)), None);
}

#[test]
fn a_change_rederives_from_the_record() {
    let mut doc = Document::new();
    doc.create_shape(Transform::at(px(1), px(2)), Style::default(), Shape::Rect { w: px(5), h: px(5) });
    let record = vec![(EntityId(1), Transform::at(px(100), px(200))), (EntityId(5), Transform::default())];
    apply_change(&mut doc.entities, &record, Change::Move { dx: px(1), dy: px(-1) });
    assert_eq!(doc.entities[0].1, Transform::at(px(101), px(199)));
    apply_change(&mut doc.entities, &record, Change::Scale { fx: px(3), fy: Fixed::from_raw(500) });
    assert_eq!(
        doc.entities[0].1,
        Transform { scale_x: px(3), scale_y: Fixed::from_raw(500), ..Transform::at(px(101), px(199)) }
    );
}

#[test]
fn an_entity_is_tested_by_its_own_hitbox_first() {
    let mut doc = Document::new();
    let shape = Shape::Rect { w: px(100), h: px(100) };
    let a = doc.create_shape(Transform::default(), Style::default(), Shape::Rect { w: px(100), h: px(100) });
    let t = Transform::default();
    assert!(hit_test_entity(px(50), px(50), a, &t, &shape, &doc));
    doc.set_hitbox(a, Hitbox::NonInteractive);
    assert!(!hit_test_entity(px(50), px(50), a, &t, &shape, &doc));
    doc.set_hitbox(a, Hitbox::Circle { x: px(200), y: px(200), radius: px(10) });
    assert!(hit_test_entity(px(205), px(205), a, &t, &shape, &doc));
    assert_eq!(find_entity_at(&doc, px(1), px(205), px(205)), Some(a));
    assert_eq!(find_entity_at(&doc, px(1), px(50), px(50)), None);
    doc.remove_hitbox(a);
    assert_eq!(find_entity_at(&doc, px(1), px(50), px(50)), Some(a));
}

#[test]
fn a_non_interactive_entity_lets_the_click_through() {
    let mut app = app_with_rect(0, 0, 100, 100);
    app.send_create_rect(px(0), px(0), px(100), px(100));
    app.run_frame();
    app.core.0.set_hitbox(EntityId(1), Hitbox::NonInteractive);
    click(&mut app, 50, 50, false);
    assert_eq!(app.get_selected_entities(), vec![EntityId(2)]);
}

#[test]
fn the_canvas_is_at_least_one_pixel_and_the_ratio_a_half() {
    let mut app = MomentumEcsApp::new();
    app.set_canvas_size(0, 600);
    assert_eq!((app.canvas_size.w, app.canvas_size.h), (1, 600));
    app.set_canvas_size(800, 0);
    assert_eq!((app.canvas_size.w, app.canvas_size.h), (800, 1));
    app.set_canvas_dpr(Fixed::from_raw(250));
    assert_eq!(app.canvas_dpr.0, Fixed::from_raw(500));
    app.set_canvas_dpr(Fixed::from_raw(1_250));
    assert_eq!(app.canvas_dpr.0, Fixed::from_raw(1_250));
}

#[test]
fn entities_are_tested_in_physical_pixels() {
    let mut app = app_with_rect(100, 100, 50, 50);
    app.set_canvas_dpr(px(2));
    // The rectangle covers (200, 200) to (300, 300) in physical pixels: every length is doubled once.
    assert_eq!(find_entity_at(app.document(), px(2), px(120), px(120)), Some(EntityId(1)));
    assert_eq!(find_entity_at(app.document(), px(2), px(99), px(120)), None);
    assert_eq!(find_entity_at(app.document(), px(2), px(150), px(150)), Some(EntityId(1)));
    assert_eq!(find_entity_at(app.document(), px(2), px(151), px(150)), None);
    assert_eq!(find_entity_at(app.document(), px(2), px(150), px(151)), None);
    click(&mut app, 120, 120, false);
    assert_eq!(app.get_selected_entities(), vec![EntityId(1)]);
}

#[test]
fn a_press_beside_the_drawn_box_misses_at_any_ratio() {
    let mut app = app_with_rect(10, 20, 100, 80);
    app.set_canvas_dpr(px(2));
    // Drawn from (20, 40) to (220, 200); the press lands on (300, 300).
    click(&mut app, 150, 150, false);
    assert!(app.get_selected_entities().is_empty());
    click(&mut app, 110, 100, false);
    assert_eq!(app.get_selected_entities(), vec![EntityId(1)]);
}

#[test]
fn hitboxes_of_their_own_follow_the_ratio_too() {
    let mut app = app_with_rect(100, 100, 10, 10);
    app.core.0.set_hitbox(EntityId(1), Hitbox::Circle { x: px(5), y: px(5), radius: px(10) });
    app.set_canvas_dpr(px(2));
    // The circle lies around (210, 210) with radius 20 in physical pixels.
    assert_eq!(find_entity_at(app.document(), px(2), px(115), px(105)), Some(EntityId(1)));
    assert_eq!(find_entity_at(app.document(), px(2), px(116), px(105)), None);
}

#[test]
fn an_idle_frame_changes_nothing_but_the_count() {
    let mut app = app_with_rect(10, 20, 100, 80);
    click(&mut app, 60, 60, false);
    app.send_move_start(px(0), px(0));
    app.send_move_update(px(5), px(5));
    app.run_frame();
    let before = (app.document().clone(), app.get_selected_entities(), app.is_moving(), app.is_scaling());
    let frames = app.frames();
    app.run_frame();
    assert_eq!(app.frames(), frames + 1);
    assert_eq!(app.document().entities, before.0.entities);
    assert_eq!(app.document().next_id, before.0.next_id);
    assert_eq!(app.get_selected_entities(), before.1);
    assert_eq!(app.is_moving(), before.2);
    assert_eq!(app.is_scaling(), before.3);
}

#[test]
fn a_cloned_hitbox_is_hit_where_its_source_is() {
    let hitbox = Hitbox::Multiple(vec![
        Hitbox::Polygon { points: vec![(px(0), px(0)), (px(10), px(0)), (px(0), px(10))] },
        Hitbox::Multiple(vec![Hitbox::Circle { x: px(50), y: px(50), radius: px(5) }, Hitbox::NonInteractive]),
        Hitbox::Rect { x: px(1), y: px(2), w: px(3), h: px(4) },
        Hitbox::FromShape { tolerance: px(2) },
    ]);
    assert_eq!(hitbox.clone(), hitbox);
}
