use momentum::fixed::Fixed;
use momentum::hitbox::Hitbox;
use momentum::model::{EntityId, Shape, Style, Transform};
use momentum::selection::Selection;
use momentum::usecases::Document;

fn px(n: i32) -> Fixed {
    Fixed::from_int(n)
}

fn rect(doc: &mut Document, x: i32, y: i32, w: i32, h: i32) -> EntityId {
    doc.create_shape(Transform::at(px(x), px(y)), Style::default(), Shape::Rect { w: px(w), h: px(h) })
}

#[test]
fn new_document_is_empty() {
    let doc = Document::new();
    assert_eq!(doc.count(), 0);
    assert!(doc.entities.is_empty());
    assert!(doc.hitboxes.is_empty());
    assert_eq!(doc.next_id, 1);
    assert_eq!(doc.free_ids(), u64::MAX - 1);
    assert_eq!(Document::default().count(), 0);
}

#[test]
fn identifiers_are_handed_out_in_sequence() {
    let mut doc = Document::new();
    let a = rect(&mut doc, 10, 20, 100, 80);
    let b = rect(&mut doc, 0, 0, 1, 1);
    let c = doc.create_shape(Transform::default(), Style::default(), Shape::Ellipse { rx: px(5), ry: px(6) });
    assert_eq!((a, b, c), (EntityId(1), EntityId(2), EntityId(3)));
    assert_eq!(doc.count(), 3);
    assert_eq!(doc.next_id, 4);
}

#[test]
fn entities_are_kept_in_the_order_of_creation() {
    let mut doc = Document::new();
    rect(&mut doc, 10, 20, 100, 80);
    doc.create_shape(Transform::at(px(3), px(4)), Style::default(), Shape::Line { x2: px(5), y2: px(6) });
    assert_eq!(doc.entities[0].0, EntityId(1));
    assert_eq!(doc.entities[0].1, Transform::at(px(10), px(20)));
    assert_eq!(doc.entities[0].3, Shape::Rect { w: px(100), h: px(80) });
    assert_eq!(doc.entities[1].0, EntityId(2));
    assert_eq!(doc.entities[1].1, Transform::at(px(3), px(4)));
    assert_eq!(doc.entities[1].3, Shape::Line { x2: px(5), y2: px(6) });
}

#[test]
fn an_entity_without_a_hitbox_has_none() {
    let mut doc = Document::new();
    let id = rect(&mut doc, 0, 0, 10, 10);
    assert!(doc.get_hitbox(id).is_none());
    assert!(doc.get_hitbox(EntityId(99)).is_none());
}

#[test]
fn created_with_a_hitbox_an_entity_has_it() {
    let mut doc = Document::new();
    let id = doc.create_shape_with_hitbox(
        Transform::default(),
        Style::default(),
        Shape::Rect { w: px(10), h: px(10) },
        Hitbox::NonInteractive,
    );
    assert_eq!(id, EntityId(1));
    assert_eq!(doc.count(), 1);
    assert_eq!(doc.get_hitbox(id), Some(&Hitbox::NonInteractive));
}

#[test]
fn the_last_hitbox_set_counts() {
    let mut doc = Document::new();
    let a = rect(&mut doc, 0, 0, 10, 10);
    let b = rect(&mut doc, 0, 0, 10, 10);
    doc.set_hitbox(a, Hitbox::NonInteractive);
    doc.set_hitbox(b, Hitbox::Circle { x: px(1), y: px(2), radius: px(3) });
    doc.set_hitbox(a, Hitbox::Rect { x: px(1), y: px(2), w: px(3), h: px(4) });
    assert_eq!(doc.get_hitbox(a), Some(&Hitbox::Rect { x: px(1), y: px(2), w: px(3), h: px(4) }));
    assert_eq!(doc.get_hitbox(b), Some(&Hitbox::Circle { x: px(1), y: px(2), radius: px(3) }));
    assert_eq!(doc.hitboxes.len(), 2);
}

#[test]
fn a_hitbox_set_before_its_entity_is_replaced_on_creation() {
    let mut doc = Document::new();
    doc.set_hitbox(EntityId(1), Hitbox::NonInteractive);
    let id = doc.create_shape_with_hitbox(
        Transform::default(),
        Style::default(),
        Shape::Rect { w: px(10), h: px(10) },
        Hitbox::FromShape { tolerance: px(4) },
    );
    assert_eq!(doc.get_hitbox(id), Some(&Hitbox::FromShape { tolerance: px(4) }));
}

#[test]
fn a_removed_hitbox_is_gone() {
    let mut doc = Document::new();
    let a = rect(&mut doc, 0, 0, 10, 10);
    let b = rect(&mut doc, 0, 0, 10, 10);
    doc.set_hitbox(a, Hitbox::NonInteractive);
    doc.set_hitbox(b, Hitbox::NonInteractive);
    doc.remove_hitbox(a);
    assert!(doc.get_hitbox(a).is_none());
    assert_eq!(doc.get_hitbox(b), Some(&Hitbox::NonInteractive));
    doc.remove_hitbox(a);
    doc.remove_hitbox(EntityId(77));
    assert_eq!(doc.hitboxes.len(), 1);
    assert_eq!(doc.count(), 2);
}

#[test]
fn repeated_entries_for_one_entity_are_all_removed() {
    let mut doc = Document::new();
    doc.hitboxes.push((EntityId(5), Hitbox::NonInteractive));
    doc.hitboxes.push((EntityId(6), Hitbox::NonInteractive));
    doc.hitboxes.push((EntityId(5), Hitbox::FromShape { tolerance: px(1) }));
    assert_eq!(doc.get_hitbox(EntityId(5)), Some(&Hitbox::NonInteractive));
    doc.remove_hitbox(EntityId(5));
    assert!(doc.get_hitbox(EntityId(5)).is_none());
    assert_eq!(doc.hitboxes.len(), 1);
}

#[test]
fn selecting_twice_selects_once() {
    let mut s = Selection::default();
    assert!(!s.is_selected(EntityId(1)));
    s.select(EntityId(1));
    s.select(EntityId(1));
    s.select(EntityId(2));
    assert_eq!(s.selected, vec![EntityId(1), EntityId(2)]);
    assert!(s.is_selected(EntityId(1)));
    assert!(s.is_selected(EntityId(2)));
    assert!(!s.is_selected(EntityId(3)));
}

#[test]
fn deselecting_keeps_the_others_in_order() {
    let mut s = Selection::default();
    for n in [4, 2, 9, 7] {
        s.select(EntityId(n));
    }
    s.deselect(EntityId(2));
    assert_eq!(s.selected, vec![EntityId(4), EntityId(9), EntityId(7)]);
    s.deselect(EntityId(2));
    assert_eq!(s.selected, vec![EntityId(4), EntityId(9), EntityId(7)]);
}

#[test]
fn deselecting_removes_every_occurrence() {
    let mut s = Selection { selected: vec![EntityId(1), EntityId(2), EntityId(1)] };
    s.deselect(EntityId(1));
    assert_eq!(s.selected, vec![EntityId(2)]);
}

#[test]
fn toggling_adds_then_removes() {
    let mut s = Selection::default();
    s.toggle(EntityId(3));
    assert_eq!(s.selected, vec![EntityId(3)]);
    s.toggle(EntityId(5));
    assert_eq!(s.selected, vec![EntityId(3), EntityId(5)]);
    s.toggle(EntityId(3));
    assert_eq!(s.selected, vec![EntityId(5)]);
    s.toggle(EntityId(3));
    assert_eq!(s.selected, vec![EntityId(5), EntityId(3)]);
}

#[test]
fn clearing_empties_the_selection() {
    let mut s = Selection::default();
    s.select(EntityId(1));
    s.select(EntityId(2));
    s.clear();
    assert!(s.selected.is_empty());
    s.clear();
    assert!(s.selected.is_empty());
}

#[test]
fn a_selection_may_name_an_entity_that_does_not_exist() {
    let mut s = Selection::default();
    s.select(EntityId(1234));
    assert!(s.is_selected(EntityId(1234)));
}

#[test]
fn setting_a_hitbox_leaves_one_entry_for_the_entity() {
    let mut doc = Document::new();
    doc.hitboxes.push((EntityId(5), Hitbox::NonInteractive));
    doc.hitboxes.push((EntityId(6), Hitbox::FromShape { tolerance: px(1) }));
    doc.hitboxes.push((EntityId(5), Hitbox::FromShape { tolerance: px(2) }));
    doc.hitboxes.push((EntityId(7), Hitbox::FromShape { tolerance: px(3) }));
    doc.set_hitbox(EntityId(5), Hitbox::Circle { x: px(0), y: px(0), radius: px(9) });
    assert_eq!(
        doc.hitboxes,
        vec![
            (EntityId(6), Hitbox::FromShape { tolerance: px(1) }),
            (EntityId(7), Hitbox::FromShape { tolerance: px(3) }),
            (EntityId(5), Hitbox::Circle { x: px(0), y: px(0), radius: px(9) }),
        ]
    );
    doc.set_hitbox(EntityId(6), Hitbox::NonInteractive);
    assert_eq!(doc.hitboxes.iter().filter(|(id, _)| *id == EntityId(6)).count(), 1);
    assert_eq!(doc.hitboxes.last(), Some(&(EntityId(6), Hitbox::NonInteractive)));
    assert_eq!(doc.hitboxes.len(), 3);
}

#[test]
fn an_identifier_is_written_in_decimal() {
    assert_eq!(EntityId(0).to_string(), "0");
    assert_eq!(EntityId(7).to_string(), "7");
    assert_eq!(EntityId(10).to_string(), "10");
    assert_eq!(EntityId(1234567890).to_string(), "1234567890");
    assert_eq!(EntityId(9_007_199_254_740_993).to_string(), "9007199254740993");
    assert_eq!(EntityId(u64::MAX).to_string(), "18446744073709551615");
}
