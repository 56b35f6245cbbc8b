//! What a press of the pointer means: a handle of the selection first, an
//! entity otherwise, empty space last.

use crate::bounds::handles_of;
use crate::dpr::{physical_box, physical_transform, to_physical_box, to_physical_transform};
use crate::events::{InputQueue, PointerDown, ScaleStart};
use crate::fixed::Fixed;
use crate::group::{combined_bounds, combined_box};
use crate::hitbox::{default_hitbox, handle_radius, in_circle, within_radius, Hitbox};
use crate::model::{EntityId, HandleType, ScaleHandle, Shape, ShapeView, Transform};
use crate::resources::{CanvasDpr, CoreDoc};
use crate::selection::{toggled, Selection};
use crate::usecases::{entity_views, Document, Entity, EntityView};
use vstd::prelude::*;

verus! {

/// The side of a handle in physical pixels: ten CSS pixels.
pub open spec fn handle_side(dpr: Fixed) -> Fixed {
    (Fixed { raw: 10000 }).spec_mul(dpr)
}

/// The distance from a handle's centre within which a press takes the
/// handle: three quarters of its side, and twelve CSS pixels at least.
pub open spec fn handle_reach(dpr: Fixed) -> Fixed {
    handle_radius(handle_side(dpr), (Fixed { raw: 12000 }).spec_mul(dpr))
}

/// The point `(px, py)` is within `reach` of the centre of `h`.
pub open spec fn handle_struck(h: ScaleHandle, px: Fixed, py: Fixed, reach: Fixed) -> bool {
    let cx = h.x.spec_add(h.size.spec_half());
    let cy = h.y.spec_add(h.size.spec_half());
    reach@ >= 0 && within_radius(px@ - cx@, py@ - cy@, reach@)
}

/// The kind of the first of the first `n` handles that the point strikes.
pub open spec fn first_struck(handles: Seq<ScaleHandle>, px: Fixed, py: Fixed, reach: Fixed, n: int) -> Option<
    HandleType,
>
    decreases n,
{
    if n <= 0 {
        None
    } else {
        match first_struck(handles, px, py, reach, n - 1) {
            Some(h) => Some(h),
            None => if handle_struck(handles[n - 1], px, py, reach) {
                Some(handles[n - 1].handle_type)
            } else {
                None
            },
        }
    }
}

/// The handle of the selection under the CSS-pixel point `(x, y)`.
///
/// The handles stand around the box of the selected entities, carried into
/// physical pixels; the first struck, in the order in which handles are
/// generated, is the one. Without a selected entity in the document there
/// are no handles.
pub open spec fn handle_under(entities: Seq<EntityView>, selected: Seq<EntityId>, dpr: Fixed, x: Fixed, y: Fixed) -> Option<
    HandleType,
> {
    match combined_box(entities, selected) {
        Some(b) => first_struck(
            handles_of(physical_box(b, dpr), handle_side(dpr)),
            x.spec_mul(dpr),
            y.spec_mul(dpr),
            handle_reach(dpr),
            8,
        ),
        None => None,
    }
}

/// Whether the physical point `(px, py)` hits the entity `id`, placed by
/// `t` with the shape `shape`: by the hitbox set for it, or else by the
/// default hitbox of its shape.
pub open spec fn entity_hit(
    overrides: Map<EntityId, Hitbox>,
    id: EntityId,
    t: Transform,
    shape: ShapeView,
    px: Fixed,
    py: Fixed,
) -> bool {
    if overrides.contains_key(id) {
        overrides[id].hits(px, py, t, shape)
    } else {
        default_hitbox(shape).hits(px, py, t, shape)
    }
}

/// Whether the physical point `(px, py)` hits the document's entity `e`.
///
/// The entity's transform is carried into physical pixels, position and
/// scale; its shape keeps its own measures, so that every length is
/// multiplied by the ratio once, as it is when the entity is drawn.
pub open spec fn entity_struck(e: EntityView, overrides: Map<EntityId, Hitbox>, dpr: Fixed, px: Fixed, py: Fixed) -> bool {
    entity_hit(overrides, e.0, physical_transform(e.1, dpr), e.3, px, py)
}

/// The first of the first `n` entities, in paint order, that the point hits.
pub open spec fn first_entity_struck(
    entities: Seq<EntityView>,
    overrides: Map<EntityId, Hitbox>,
    dpr: Fixed,
    px: Fixed,
    py: Fixed,
    n: int,
) -> Option<EntityId>
    decreases n,
{
    if n <= 0 {
        None
    } else {
        match first_entity_struck(entities, overrides, dpr, px, py, n - 1) {
            Some(id) => Some(id),
            None => if entity_struck(entities[n - 1], overrides, dpr, px, py) {
                Some(entities[n - 1].0)
            } else {
                None
            },
        }
    }
}

/// The entity under the CSS-pixel point `(x, y)`: the first hit in paint
/// order.
pub open spec fn entity_under(
    entities: Seq<EntityView>,
    overrides: Map<EntityId, Hitbox>,
    dpr: Fixed,
    x: Fixed,
    y: Fixed,
) -> Option<EntityId> {
    first_entity_struck(entities, overrides, dpr, x.spec_mul(dpr), y.spec_mul(dpr), entities.len() as int)
}

/// The selection after a click that hit `hit`.
///
/// A plain click on an entity selects that entity alone, and on empty space
/// it clears the selection. With the additive modifier a click on an entity
/// toggles it, and a click on empty space changes nothing.
pub open spec fn selection_after_click(selected: Seq<EntityId>, hit: Option<EntityId>, additive: bool) -> Seq<
    EntityId,
> {
    match hit {
        Some(id) => if additive {
            toggled(selected, id)
        } else {
            seq![id]
        },
        None => if additive {
            selected
        } else {
            Seq::empty()
        },
    }
}

/// What one press of the pointer does: the selection after it, and the
/// scale gesture that it starts, if any.
///
/// A press on a handle of the selection starts a scale gesture and leaves
/// the selection as it is; no entity is tested then. Any other press is a
/// click on the entity under it, or on empty space.
pub open spec fn pointer_down_step(
    entities: Seq<EntityView>,
    overrides: Map<EntityId, Hitbox>,
    dpr: Fixed,
    selected: Seq<EntityId>,
    ev: PointerDown,
) -> (Seq<EntityId>, Option<ScaleStart>) {
    match handle_under(entities, selected, dpr, ev.x, ev.y) {
        Some(h) => (selected, Some(ScaleStart { handle_type: h, x: ev.x, y: ev.y })),
        None => (
            selection_after_click(selected, entity_under(entities, overrides, dpr, ev.x, ev.y), ev.ctrl_key),
            None,
        ),
    }
}

/// What a queue of presses does, taken in order: the selection after the
/// last, and `starts` with the scale gestures that were started.
pub open spec fn pointer_down_all(
    entities: Seq<EntityView>,
    overrides: Map<EntityId, Hitbox>,
    dpr: Fixed,
    selected: Seq<EntityId>,
    starts: Seq<ScaleStart>,
    events: Seq<PointerDown>,
) -> (Seq<EntityId>, Seq<ScaleStart>)
    decreases events.len(),
{
    if events.len() == 0 {
        (selected, starts)
    } else {
        let before = pointer_down_all(entities, overrides, dpr, selected, starts, events.drop_last());
        let step = pointer_down_step(entities, overrides, dpr, before.0, events.last());
        (
            step.0,
            match step.1 {
                Some(start) => before.1.push(start),
                None => before.1,
            },
        )
    }
}

/// Finds the handle of the selection under the CSS-pixel point `(x, y)`.
#[verifier::loop_isolation(false)]
pub fn detect_handle(entities: &Vec<Entity>, selected: &Vec<EntityId>, dpr: Fixed, x: Fixed, y: Fixed) -> (r: Option<
    HandleType,
>)
    ensures
        r == handle_under(entity_views(entities@), selected@, dpr, x, y),
{
    if selected.len() == 0 {
        return None;
    }
    let click_x = x.mul(dpr);
    let click_y = y.mul(dpr);
    match combined_bounds(entities, selected) {
        None => None,
        Some(bounds) => {
            let combined_bbox = to_physical_box(&bounds, dpr);
            let handle_size = Fixed::from_raw(10000).mul(dpr);
            let handles = combined_bbox.generate_handles(handle_size);
            let hit_radius = handle_size.mul(Fixed::from_raw(750)).max(Fixed::from_raw(12000).mul(dpr));
            let mut i: usize = 0;
            while i < handles.len()
                invariant
                    i <= handles.len(),
                    handles@.len() == 8,
                    first_struck(handles@, click_x, click_y, hit_radius, i as int) is None,
                decreases handles.len() - i,
            {
                let handle = handles[i];
                let center_x = handle.x.add(handle.size.half());
                let center_y = handle.y.add(handle.size.half());
                if hit_radius.raw >= 0 && in_circle(click_x, click_y, center_x, center_y, hit_radius) {
                    proof {
                        lemma_first_struck_stays(handles@, click_x, click_y, hit_radius, i as int + 1, 8);
                    }
                    return Some(handle.handle_type);
                }
                i += 1;
            }
            None
        },
    }
}

/// Once a handle is struck, later handles do not change the answer.
pub proof fn lemma_first_struck_stays(handles: Seq<ScaleHandle>, px: Fixed, py: Fixed, reach: Fixed, n: int, m: int)
    requires
        n <= m,
        first_struck(handles, px, py, reach, n) is Some,
    ensures
        first_struck(handles, px, py, reach, m) == first_struck(handles, px, py, reach, n),
    decreases m - n,
{
    if n < m {
        lemma_first_struck_stays(handles, px, py, reach, n, m - 1);
    }
}

/// Once an entity is hit, entities painted later do not change the answer.
pub proof fn lemma_first_entity_stays(
    entities: Seq<EntityView>,
    overrides: Map<EntityId, Hitbox>,
    dpr: Fixed,
    px: Fixed,
    py: Fixed,
    n: int,
    m: int,
)
    requires
        n <= m,
        first_entity_struck(entities, overrides, dpr, px, py, n) is Some,
    ensures
        first_entity_struck(entities, overrides, dpr, px, py, m) == first_entity_struck(
            entities,
            overrides,
            dpr,
            px,
            py,
            n,
        ),
    decreases m - n,
{
    if n < m {
        lemma_first_entity_stays(entities, overrides, dpr, px, py, n, m - 1);
    }
}

/// Tests a click against one entity: by the hitbox set for it in `core`, or
/// else by the default hitbox of its shape.
pub fn hit_test_entity(
    click_x: Fixed,
    click_y: Fixed,
    entity_id: EntityId,
    transform: &Transform,
    shape: &Shape,
    core: &Document,
) -> (hit: bool)
    ensures
        hit == entity_hit(core@.overrides, entity_id, *transform, shape@, click_x, click_y),
{
    match core.get_hitbox(entity_id) {
        Some(hitbox) => hitbox.hit_test(click_x, click_y, transform, shape),
        None => {
            let default_hitbox = Hitbox::from_shape(shape);
            default_hitbox.hit_test(click_x, click_y, transform, shape)
        },
    }
}

/// Finds the entity under the CSS-pixel point `(x, y)`: the first hit in
/// paint order.
#[verifier::loop_isolation(false)]
pub fn find_entity_at(core: &Document, dpr: Fixed, x: Fixed, y: Fixed) -> (r: Option<EntityId>)
    ensures
        r == entity_under(core@.entities, core@.overrides, dpr, x, y),
{
    let click_x = x.mul(dpr);
    let click_y = y.mul(dpr);
    let mut i: usize = 0;
    while i < core.entities.len()
        invariant
            i <= core.entities.len(),
            first_entity_struck(core@.entities, core@.overrides, dpr, click_x, click_y, i as int) is None,
        decreases core.entities.len() - i,
    {
        let id = core.entities[i].0;
        let transform_physical = to_physical_transform(&core.entities[i].1, dpr);
        if hit_test_entity(click_x, click_y, id, &transform_physical, &core.entities[i].3, core) {
            proof {
                lemma_first_entity_stays(
                    core@.entities,
                    core@.overrides,
                    dpr,
                    click_x,
                    click_y,
                    i as int + 1,
                    core.entities@.len() as int,
                );
            }
            return Some(id);
        }
        i += 1;
    }
    None
}

/// Resolves every queued press of the pointer, in the order of arrival, and
/// empties the queue.
///
/// Each press is resolved against the selection as the presses before it
/// left it. Scale gestures that were started are queued behind those that
/// wait already.
pub fn handle_pointer_down_system(queue: &mut InputQueue, core: &CoreDoc, selection: &mut Selection, dpr: &CanvasDpr)
    ensures
        final(queue).pointer_down@.len() == 0,
        (final(selection).selected@, final(queue).scale_start@) == pointer_down_all(
            core.0@.entities,
            core.0@.overrides,
            dpr.0,
            old(selection).selected@,
            old(queue).scale_start@,
            old(queue).pointer_down@,
        ),
        *final(queue) == (InputQueue {
            pointer_down: final(queue).pointer_down,
            scale_start: final(queue).scale_start,
            ..*old(queue)
        }),
{
    let mut events: Vec<PointerDown> = Vec::new();
    std::mem::swap(&mut events, &mut queue.pointer_down);
    let mut k: usize = 0;
    while k < events.len()
        invariant
            k <= events.len(),
            events@ == old(queue).pointer_down@,
            queue.pointer_down@.len() == 0,
            (selection.selected@, queue.scale_start@) == pointer_down_all(
                core.0@.entities,
                core.0@.overrides,
                dpr.0,
                old(selection).selected@,
                old(queue).scale_start@,
                events@.take(k as int),
            ),
            *queue == (InputQueue {
                pointer_down: queue.pointer_down,
                scale_start: queue.scale_start,
                ..*old(queue)
            }),
        decreases events.len() - k,
    {
        let event = events[k];
        proof {
            assert(events@.take(k + 1).drop_last() =~= events@.take(k as int));
        }
        match detect_handle(&core.0.entities, &selection.selected, dpr.0, event.x, event.y) {
            Some(handle_type) => {
                queue.scale_start.push(ScaleStart { handle_type, x: event.x, y: event.y });
            },
            None => {
                match find_entity_at(&core.0, dpr.0, event.x, event.y) {
                    Some(entity_id) => {
                        if event.ctrl_key {
                            selection.toggle(entity_id);
                        } else {
                            selection.clear();
                            selection.select(entity_id);
                            assert(selection.selected@ =~= seq![entity_id]);
                        }
                    },
                    None => {
                        if !event.ctrl_key {
                            selection.clear();
                        }
                    },
                }
            },
        }
        k += 1;
    }
    proof {
        assert(events@.take(k as int) =~= events@);
    }
}

} // verus!
