//! The steps of a frame that consume queued events: the frame counter, the
//! creation of entities, and the two gestures.
//!
//! Every step empties the queue it reads, also when the events in it have no
//! effect.

use crate::events::{CreateEllipse, CreateLine, CreateRect, InputQueue, MoveUpdate, ScaleUpdate};
use crate::fixed::Fixed;
use crate::gesture::{apply_change, compute_scale_factors, rederived, scale_factors, Change, MoveState, ScaleState};
use crate::group::{combined_bounds, combined_box, snapshot, snapshot_of};
use crate::model::{BoundingBox, Color, EntityId, HandleType, Shape, ShapeView, StrokeCap, StrokeJoin, Style, StyleView,
    Transform};
use crate::resources::{AppState, CanvasDpr, CoreDoc};
use crate::selection::Selection;
use crate::usecases::{entity_ids, DocumentView, EntityView};
use vstd::prelude::*;

verus! {

/// Counts the frame.
pub fn tick_system(state: &mut AppState)
    requires
        old(state).frames < u64::MAX,
    ensures
        final(state).frames == old(state).frames + 1,
{
    state.frames += 1;
}

/// The style of a newly created entity: a dark stroke of width two, fully
/// opaque, no fill.
pub open spec fn outline_style() -> StyleView {
    StyleView {
        stroke: Some(Color(Fixed { raw: 100 }, Fixed { raw: 120 }, Fixed { raw: 160 }, Fixed { raw: 1000 })),
        stroke_width: Fixed { raw: 2000 },
        opacity: Fixed { raw: 1000 },
        ..Style::plain()
    }
}

/// What a request for a rectangle asks for: the position and the shape.
pub open spec fn rect_request(ev: CreateRect) -> (Fixed, Fixed, ShapeView) {
    (ev.x, ev.y, ShapeView::Rect { w: ev.w, h: ev.h })
}

/// What a request for an ellipse asks for: the centre and the shape.
pub open spec fn ellipse_request(ev: CreateEllipse) -> (Fixed, Fixed, ShapeView) {
    (ev.x, ev.y, ShapeView::Ellipse { rx: ev.rx, ry: ev.ry })
}

/// What a request for a line asks for: the start, and the end relative to
/// it.
pub open spec fn line_request(ev: CreateLine) -> (Fixed, Fixed, ShapeView) {
    (ev.x1, ev.y1, ShapeView::Line { x2: ev.x2.spec_sub(ev.x1), y2: ev.y2.spec_sub(ev.y1) })
}

/// The entity that `request` creates under the number `number`: at the
/// requested position with no rotation and scale one, in the outline style,
/// with the requested shape.
pub open spec fn new_entity(number: int, request: (Fixed, Fixed, ShapeView)) -> EntityView {
    (EntityId(number as u64), Transform::spec_at(request.0, request.1), outline_style(), request.2)
}

/// The document with one entity appended for each of `requests`, in order,
/// numbered from the document's next identifier on. Nothing else changes.
pub open spec fn with_created(doc: DocumentView, requests: Seq<(Fixed, Fixed, ShapeView)>) -> DocumentView {
    DocumentView {
        entities: doc.entities + Seq::new(requests.len(), |k: int| new_entity(doc.next_id + k, requests[k])),
        next_id: (doc.next_id + requests.len()) as u64,
        ..doc
    }
}

fn outline() -> (style: Style)
    ensures
        style@ == outline_style(),
{
    Style {
        fill: None,
        stroke: Some(Color(Fixed::from_raw(100), Fixed::from_raw(120), Fixed::from_raw(160), Fixed::from_raw(1000))),
        stroke_width: Fixed::from_raw(2000),
        opacity: Fixed::from_raw(1000),
        stroke_cap: StrokeCap::Butt,
        stroke_join: StrokeJoin::Miter,
        dash: Vec::new(),
        dash_offset: Fixed::zero(),
    }
}

/// Creates a rectangle for every queued request.
#[verifier::loop_isolation(false)]
pub fn handle_create_rect_system(queue: &mut InputQueue, core: &mut CoreDoc)
    requires
        old(core).0.next_id + old(queue).create_rect@.len() <= u64::MAX,
    ensures
        final(core).0@ == with_created(
            old(core).0@,
            Seq::new(old(queue).create_rect@.len(), |k: int| rect_request(old(queue).create_rect@[k])),
        ),
        final(core).0.hitboxes@ == old(core).0.hitboxes@,
        old(core).0.well_formed() ==> final(core).0.well_formed(),
        final(queue).create_rect@.len() == 0,
        *final(queue) == (InputQueue { create_rect: final(queue).create_rect, ..*old(queue) }),
{
    let mut events: Vec<CreateRect> = Vec::new();
    std::mem::swap(&mut events, &mut queue.create_rect);
    let ghost requests = Seq::new(events@.len(), |k: int| rect_request(events@[k]));
    let mut k: usize = 0;
    proof {
        assert(with_created(core.0@, requests.take(0)).entities =~= core.0@.entities);
    }
    while k < events.len()
        invariant
            k <= events.len(),
            events@ == old(queue).create_rect@,
            requests == Seq::new(events@.len(), |k: int| rect_request(events@[k])),
            old(core).0.next_id + events@.len() <= u64::MAX,
            core.0@ == with_created(old(core).0@, requests.take(k as int)),
            core.0.hitboxes@ == old(core).0.hitboxes@,
            old(core).0.well_formed() ==> core.0.well_formed(),
        decreases events.len() - k,
    {
        let ev = events[k];
        core.0.create_shape(Transform::at(ev.x, ev.y), outline(), Shape::Rect { w: ev.w, h: ev.h });
        proof {
            assert(requests.take(k + 1)[k as int] == requests[k as int]);
            assert(core.0@.entities =~= with_created(old(core).0@, requests.take(k + 1)).entities);
        }
        k += 1;
    }
    proof {
        assert(requests.take(k as int) =~= requests);
    }
}

/// Creates an ellipse for every queued request.
#[verifier::loop_isolation(false)]
pub fn handle_create_ellipse_system(queue: &mut InputQueue, core: &mut CoreDoc)
    requires
        old(core).0.next_id + old(queue).create_ellipse@.len() <= u64::MAX,
    ensures
        final(core).0@ == with_created(
            old(core).0@,
            Seq::new(old(queue).create_ellipse@.len(), |k: int| ellipse_request(old(queue).create_ellipse@[k])),
        ),
        final(core).0.hitboxes@ == old(core).0.hitboxes@,
        old(core).0.well_formed() ==> final(core).0.well_formed(),
        final(queue).create_ellipse@.len() == 0,
        *final(queue) == (InputQueue { create_ellipse: final(queue).create_ellipse, ..*old(queue) }),
{
    let mut events: Vec<CreateEllipse> = Vec::new();
    std::mem::swap(&mut events, &mut queue.create_ellipse);
    let ghost requests = Seq::new(events@.len(), |k: int| ellipse_request(events@[k]));
    let mut k: usize = 0;
    proof {
        assert(with_created(core.0@, requests.take(0)).entities =~= core.0@.entities);
    }
    while k < events.len()
        invariant
            k <= events.len(),
            events@ == old(queue).create_ellipse@,
            requests == Seq::new(events@.len(), |k: int| ellipse_request(events@[k])),
            old(core).0.next_id + events@.len() <= u64::MAX,
            core.0@ == with_created(old(core).0@, requests.take(k as int)),
            core.0.hitboxes@ == old(core).0.hitboxes@,
            old(core).0.well_formed() ==> core.0.well_formed(),
        decreases events.len() - k,
    {
        let ev = events[k];
        core.0.create_shape(Transform::at(ev.x, ev.y), outline(), Shape::Ellipse { rx: ev.rx, ry: ev.ry });
        proof {
            assert(requests.take(k + 1)[k as int] == requests[k as int]);
            assert(core.0@.entities =~= with_created(old(core).0@, requests.take(k + 1)).entities);
        }
        k += 1;
    }
    proof {
        assert(requests.take(k as int) =~= requests);
    }
}

/// Creates a line for every queued request.
#[verifier::loop_isolation(false)]
pub fn handle_create_line_system(queue: &mut InputQueue, core: &mut CoreDoc)
    requires
        old(core).0.next_id + old(queue).create_line@.len() <= u64::MAX,
    ensures
        final(core).0@ == with_created(
            old(core).0@,
            Seq::new(old(queue).create_line@.len(), |k: int| line_request(old(queue).create_line@[k])),
        ),
        final(core).0.hitboxes@ == old(core).0.hitboxes@,
        old(core).0.well_formed() ==> final(core).0.well_formed(),
        final(queue).create_line@.len() == 0,
        *final(queue) == (InputQueue { create_line: final(queue).create_line, ..*old(queue) }),
{
    let mut events: Vec<CreateLine> = Vec::new();
    std::mem::swap(&mut events, &mut queue.create_line);
    let ghost requests = Seq::new(events@.len(), |k: int| line_request(events@[k]));
    let mut k: usize = 0;
    proof {
        assert(with_created(core.0@, requests.take(0)).entities =~= core.0@.entities);
    }
    while k < events.len()
        invariant
            k <= events.len(),
            events@ == old(queue).create_line@,
            requests == Seq::new(events@.len(), |k: int| line_request(events@[k])),
            old(core).0.next_id + events@.len() <= u64::MAX,
            core.0@ == with_created(old(core).0@, requests.take(k as int)),
            core.0.hitboxes@ == old(core).0.hitboxes@,
            old(core).0.well_formed() ==> core.0.well_formed(),
        decreases events.len() - k,
    {
        let ev = events[k];
        core.0.create_shape(
            Transform::at(ev.x1, ev.y1),
            outline(),
            Shape::Line { x2: ev.x2.sub(ev.x1), y2: ev.y2.sub(ev.y1) },
        );
        proof {
            assert(requests.take(k + 1)[k as int] == requests[k as int]);
            assert(core.0@.entities =~= with_created(old(core).0@, requests.take(k + 1)).entities);
        }
        k += 1;
    }
    proof {
        assert(requests.take(k as int) =~= requests);
    }
}

/// The change that an update of the move gesture asks for: its displacement
/// in physical pixels.
pub open spec fn move_change(ev: MoveUpdate, dpr: Fixed) -> Change {
    Change::Move { dx: ev.dx.spec_mul(dpr), dy: ev.dy.spec_mul(dpr) }
}

/// The change that an update of the scale gesture asks for: the factors that
/// its displacement gives on `handle`, for a selection that measured
/// `bounds` at the start.
pub open spec fn scale_change(ev: ScaleUpdate, handle: HandleType, bounds: BoundingBox) -> Change {
    let f = scale_factors(handle, bounds, ev.dx, ev.dy);
    Change::Scale { fx: f.0, fy: f.1 }
}

/// The entities after each of `changes` was applied in turn to the entities
/// that `record` names.
pub open spec fn changes_applied(entities: Seq<EntityView>, record: Seq<(EntityId, Transform)>, changes: Seq<Change>) -> Seq<
    EntityView,
>
    decreases changes.len(),
{
    if changes.len() == 0 {
        entities
    } else {
        rederived(
            changes_applied(entities, record, changes.drop_last()),
            record,
            changes.last(),
            record.len() as int,
        )
    }
}

/// Starts a move gesture if a start is queued and anything is selected: the
/// transforms of the selected entities are recorded as they are now.
pub fn handle_move_start_system(
    queue: &mut InputQueue,
    move_state: &mut MoveState,
    selection: &Selection,
    core: &CoreDoc,
)
    ensures
        final(queue).move_start@.len() == 0,
        *final(queue) == (InputQueue { move_start: final(queue).move_start, ..*old(queue) }),
        old(queue).move_start@.len() > 0 && selection.selected@.len() > 0 ==> final(move_state).is_moving && final(move_state).initial_positions@ == snapshot_of(core.0@.entities, selection.selected@),
        !(old(queue).move_start@.len() > 0 && selection.selected@.len() > 0) ==> *final(move_state) == *old(move_state),
{
    let started = queue.move_start.len() > 0;
    queue.move_start.clear();
    if started && selection.selected.len() > 0 {
        move_state.initial_positions = snapshot(&core.0.entities, &selection.selected);
        move_state.is_moving = true;
    }
}

/// Applies every queued update of the move gesture, in order: each places
/// the recorded entities at their recorded positions plus its displacement.
/// Without a gesture under way the updates are dropped.
#[verifier::loop_isolation(false)]
pub fn handle_move_update_system(queue: &mut InputQueue, move_state: &MoveState, core: &mut CoreDoc, dpr: &CanvasDpr)
    ensures
        final(queue).move_update@.len() == 0,
        *final(queue) == (InputQueue { move_update: final(queue).move_update, ..*old(queue) }),
        final(core).0@ == (DocumentView {
            entities: if move_state.is_moving {
                changes_applied(
                    old(core).0@.entities,
                    move_state.initial_positions@,
                    Seq::new(old(queue).move_update@.len(), |k: int| move_change(old(queue).move_update@[k], dpr.0)),
                )
            } else {
                old(core).0@.entities
            },
            ..old(core).0@
        }),
        final(core).0.hitboxes@ == old(core).0.hitboxes@,
        old(core).0.well_formed() ==> final(core).0.well_formed(),
{
    let mut events: Vec<MoveUpdate> = Vec::new();
    std::mem::swap(&mut events, &mut queue.move_update);
    if !move_state.is_moving {
        return;
    }
    let ghost changes = Seq::new(events@.len(), |k: int| move_change(events@[k], dpr.0));
    let mut k: usize = 0;
    while k < events.len()
        invariant
            k <= events.len(),
            core.0@.entities == changes_applied(old(core).0@.entities, move_state.initial_positions@, changes.take(k as int)),
            core.0.hitboxes@ == old(core).0.hitboxes@,
            core.0.next_id == old(core).0.next_id,
            entity_ids(core.0@.entities) == entity_ids(old(core).0@.entities),
        decreases events.len() - k,
    {
        let ev = events[k];
        let change = Change::Move { dx: ev.dx.mul(dpr.0), dy: ev.dy.mul(dpr.0) };
        proof {
            assert(changes.take(k + 1).drop_last() =~= changes.take(k as int));
            crate::gesture::lemma_rederived(
                core.0@.entities,
                move_state.initial_positions@,
                change,
                move_state.initial_positions@.len() as int,
            );
        }
        apply_change(&mut core.0.entities, &move_state.initial_positions, change);
        k += 1;
    }
    proof {
        assert(changes.take(k as int) =~= changes);
        lemma_same_ids_well_formed(old(core).0@, core.0@);
    }
}

/// Ends the move gesture if an end is queued: the gesture is no longer under
/// way and its record is dropped. Ending a gesture that is not under way
/// changes nothing but the queue.
pub fn handle_move_end_system(queue: &mut InputQueue, move_state: &mut MoveState)
    ensures
        final(queue).move_end@.len() == 0,
        *final(queue) == (InputQueue { move_end: final(queue).move_end, ..*old(queue) }),
        old(queue).move_end@.len() > 0 ==> !final(move_state).is_moving && final(move_state).initial_positions@.len()
            == 0,
        old(queue).move_end@.len() == 0 ==> *final(move_state) == *old(move_state),
{
    let ended = queue.move_end.len() > 0;
    queue.move_end.clear();
    if ended {
        move_state.is_moving = false;
        move_state.initial_positions.clear();
    }
}

/// The box that a scale gesture measures against: the box around the
/// selected entities, or the zero box where the document holds none of
/// them.
pub open spec fn gesture_bounds(entities: Seq<EntityView>, selected: Seq<EntityId>) -> BoundingBox {
    match combined_box(entities, selected) {
        Some(b) => b,
        None => BoundingBox::empty(),
    }
}

/// Starts a scale gesture if a start is queued and anything is selected: the
/// transforms of the selected entities and the box around them are recorded
/// as they are now, before anything is scaled. Of several queued starts the
/// last names the handle.
pub fn handle_scale_start_system(
    queue: &mut InputQueue,
    scale_state: &mut ScaleState,
    selection: &Selection,
    core: &CoreDoc,
)
    ensures
        final(queue).scale_start@.len() == 0,
        *final(queue) == (InputQueue { scale_start: final(queue).scale_start, ..*old(queue) }),
        old(queue).scale_start@.len() > 0 && selection.selected@.len() > 0 ==> {
            &&& final(scale_state).is_scaling
            &&& final(scale_state).handle_type == Some(old(queue).scale_start@.last().handle_type)
            &&& final(scale_state).initial_transforms@ == snapshot_of(core.0@.entities, selection.selected@)
            &&& final(scale_state).initial_bounds == gesture_bounds(core.0@.entities, selection.selected@)
        },
        !(old(queue).scale_start@.len() > 0 && selection.selected@.len() > 0) ==> *final(scale_state) == *old(scale_state),
{
    let n = queue.scale_start.len();
    if n > 0 && selection.selected.len() > 0 {
        let handle_type = queue.scale_start[n - 1].handle_type;
        scale_state.initial_transforms = snapshot(&core.0.entities, &selection.selected);
        scale_state.initial_bounds = match combined_bounds(&core.0.entities, &selection.selected) {
            Some(b) => b,
            None => BoundingBox::default(),
        };
        scale_state.handle_type = Some(handle_type);
        scale_state.is_scaling = true;
    }
    queue.scale_start.clear();
}

/// Applies every queued update of the scale gesture, in order: each gives
/// the recorded entities their recorded scale times the factors of its
/// displacement. Without a gesture under way, or without a handle, the
/// updates are dropped.
#[verifier::loop_isolation(false)]
pub fn handle_scale_update_system(queue: &mut InputQueue, scale_state: &ScaleState, core: &mut CoreDoc)
    ensures
        final(queue).scale_update@.len() == 0,
        *final(queue) == (InputQueue { scale_update: final(queue).scale_update, ..*old(queue) }),
        final(core).0@ == (DocumentView {
            entities: if scale_state.is_scaling && scale_state.handle_type is Some {
                changes_applied(
                    old(core).0@.entities,
                    scale_state.initial_transforms@,
                    Seq::new(
                        old(queue).scale_update@.len(),
                        |k: int|
                            scale_change(
                                old(queue).scale_update@[k],
                                scale_state.handle_type.unwrap(),
                                scale_state.initial_bounds,
                            ),
                    ),
                )
            } else {
                old(core).0@.entities
            },
            ..old(core).0@
        }),
        final(core).0.hitboxes@ == old(core).0.hitboxes@,
        old(core).0.well_formed() ==> final(core).0.well_formed(),
{
    let mut events: Vec<ScaleUpdate> = Vec::new();
    std::mem::swap(&mut events, &mut queue.scale_update);
    if !scale_state.is_scaling {
        return;
    }
    let handle_type = match scale_state.handle_type {
        Some(h) => h,
        None => {
            return;
        },
    };
    let ghost changes = Seq::new(
        events@.len(),
        |k: int| scale_change(events@[k], handle_type, scale_state.initial_bounds),
    );
    let mut k: usize = 0;
    while k < events.len()
        invariant
            k <= events.len(),
            core.0@.entities == changes_applied(old(core).0@.entities, scale_state.initial_transforms@, changes.take(k as int)),
            core.0.hitboxes@ == old(core).0.hitboxes@,
            core.0.next_id == old(core).0.next_id,
            entity_ids(core.0@.entities) == entity_ids(old(core).0@.entities),
        decreases events.len() - k,
    {
        let ev = events[k];
        let factors = compute_scale_factors(handle_type, &scale_state.initial_bounds, ev.dx, ev.dy);
        let change = Change::Scale { fx: factors.0, fy: factors.1 };
        proof {
            assert(changes.take(k + 1).drop_last() =~= changes.take(k as int));
            crate::gesture::lemma_rederived(
                core.0@.entities,
                scale_state.initial_transforms@,
                change,
                scale_state.initial_transforms@.len() as int,
            );
        }
        apply_change(&mut core.0.entities, &scale_state.initial_transforms, change);
        k += 1;
    }
    proof {
        assert(changes.take(k as int) =~= changes);
        lemma_same_ids_well_formed(old(core).0@, core.0@);
    }
}

/// Ends the scale gesture if an end is queued: the gesture is no longer
/// under way, and its handle and its record are dropped. Ending a gesture
/// that is not under way changes nothing but the queue.
pub fn handle_scale_end_system(queue: &mut InputQueue, scale_state: &mut ScaleState)
    ensures
        final(queue).scale_end@.len() == 0,
        *final(queue) == (InputQueue { scale_end: final(queue).scale_end, ..*old(queue) }),
        old(queue).scale_end@.len() > 0 ==> {
            &&& !final(scale_state).is_scaling
            &&& final(scale_state).handle_type is None
            &&& final(scale_state).initial_transforms@.len() == 0
            &&& final(scale_state).initial_bounds == old(scale_state).initial_bounds
        },
        old(queue).scale_end@.len() == 0 ==> *final(scale_state) == *old(scale_state),
{
    let ended = queue.scale_end.len() > 0;
    queue.scale_end.clear();
    if ended {
        scale_state.is_scaling = false;
        scale_state.handle_type = None;
        scale_state.initial_transforms.clear();
    }
}

/// Of several updates of one gesture only the last shows: the entities end
/// where that update alone would have put them.
pub proof fn lemma_last_update_counts(entities: Seq<EntityView>, record: Seq<(EntityId, Transform)>, changes: Seq<Change>)
    requires
        changes.len() > 0,
        forall|k: int| 0 <= k < changes.len() ==> ((#[trigger] changes[k]) is Move <==> changes[0] is Move),
    ensures
        changes_applied(entities, record, changes) == rederived(
            entities,
            record,
            changes.last(),
            record.len() as int,
        ),
    decreases changes.len(),
{
    let front = changes.drop_last();
    if front.len() > 0 {
        assert(front[0] == changes[0]);
        assert forall|k: int| 0 <= k < front.len() implies ((#[trigger] front[k]) is Move <==> front[0] is Move) by {
            assert(front[k] == changes[k]);
        }
        lemma_last_update_counts(entities, record, front);
        assert(front.last() == changes[changes.len() - 2]);
        crate::gesture::lemma_change_is_absolute(entities, record, front.last(), changes.last());
    } else {
        assert(changes_applied(entities, record, front) == entities);
    }
}

/// An update of the scale gesture never collapses or inverts an entity: the
/// entity that the record at `k` names last keeps the sign of its recorded
/// scale, and a tenth of its size at least, on both axes.
pub proof fn lemma_scale_update_keeps_scale(
    entities: Seq<EntityView>,
    record: Seq<(EntityId, Transform)>,
    ev: ScaleUpdate,
    handle: HandleType,
    bounds: BoundingBox,
    j: int,
    k: int,
)
    requires
        0 <= j < entities.len(),
        crate::gesture::last_record_for(entities, record, j, record.len() as int) == Some(k),
    ensures
        ({
            let after = rederived(entities, record, scale_change(ev, handle, bounds), record.len() as int);
            &&& after.len() == entities.len()
            &&& crate::gesture::scale_kept(record[k].1.scale_x, after[j].1.scale_x)
            &&& crate::gesture::scale_kept(record[k].1.scale_y, after[j].1.scale_y)
        }),
{
    crate::gesture::lemma_rederived(entities, record, scale_change(ev, handle, bounds), record.len() as int);
    crate::gesture::lemma_scale_is_clamped(handle, bounds, ev.dx, ev.dy, record[k].1.scale_x);
    crate::gesture::lemma_scale_is_clamped(handle, bounds, ev.dx, ev.dy, record[k].1.scale_y);
}

/// Changes keep every entity in its place and under its identifier.
pub proof fn lemma_changes_keep_ids(entities: Seq<EntityView>, record: Seq<(EntityId, Transform)>, changes: Seq<Change>)
    ensures
        changes_applied(entities, record, changes).len() == entities.len(),
        entity_ids(changes_applied(entities, record, changes)) == entity_ids(entities),
    decreases changes.len(),
{
    if changes.len() > 0 {
        lemma_changes_keep_ids(entities, record, changes.drop_last());
        crate::gesture::lemma_rederived(
            changes_applied(entities, record, changes.drop_last()),
            record,
            changes.last(),
            record.len() as int,
        );
    }
}

/// Creating entities keeps a document well formed, as long as the
/// identifiers do not run out.
pub proof fn lemma_created_well_formed(doc: DocumentView, requests: Seq<(Fixed, Fixed, ShapeView)>)
    requires
        doc.well_formed(),
        doc.next_id + requests.len() <= u64::MAX,
    ensures
        with_created(doc, requests).well_formed(),
{
    let after = with_created(doc, requests);
    let n = doc.entities.len() as int;
    let ids = entity_ids(after.entities);
    assert forall|i: int| 0 <= i < after.entities.len() implies (#[trigger] after.entities[i]).0.0 < after.next_id by {
        if i < n {
            assert(after.entities[i] == doc.entities[i]);
            assert(doc.entities[i].0.0 < doc.next_id);
        } else {
            assert(after.entities[i] == new_entity(doc.next_id + (i - n), requests[i - n]));
        }
    }
    assert forall|i: int, j: int| 0 <= i < ids.len() && 0 <= j < ids.len() && i != j implies ids[i] != ids[j] by {
        if i < n {
            assert(after.entities[i] == doc.entities[i]);
            assert(doc.entities[i].0.0 < doc.next_id);
            assert(entity_ids(doc.entities)[i] == doc.entities[i].0);
        } else {
            assert(after.entities[i] == new_entity(doc.next_id + (i - n), requests[i - n]));
        }
        if j < n {
            assert(after.entities[j] == doc.entities[j]);
            assert(doc.entities[j].0.0 < doc.next_id);
            assert(entity_ids(doc.entities)[j] == doc.entities[j].0);
        } else {
            assert(after.entities[j] == new_entity(doc.next_id + (j - n), requests[j - n]));
        }
    }
}

/// A document whose entities keep their identifiers stays well formed.
pub proof fn lemma_same_ids_well_formed(before: DocumentView, after: DocumentView)
    requires
        entity_ids(after.entities) == entity_ids(before.entities),
        after.next_id == before.next_id,
    ensures
        before.well_formed() ==> after.well_formed(),
{
    if before.well_formed() {
        assert(after.entities.len() == entity_ids(after.entities).len());
        assert(before.entities.len() == entity_ids(before.entities).len());
        assert forall|i: int| 0 <= i < after.entities.len() implies (#[trigger] after.entities[i]).0.0
            < after.next_id by {
            assert(entity_ids(after.entities)[i] == after.entities[i].0);
            assert(entity_ids(before.entities)[i] == before.entities[i].0);
        }
    }
}

} // verus!
