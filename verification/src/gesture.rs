//! Move and scale gestures: the state each keeps between its start and its
//! end, and how an update of the pointer re-derives the transforms of the
//! entities it acts on.
//!
//! A gesture records the transforms of the selected entities when it starts.
//! Every update computes the new transforms from that record and from the
//! pointer's distance from the start, never from the transforms as the
//! update before left them, so that nothing drifts.

use crate::fixed::Fixed;
use crate::group::{entity_index, find_entity, snapshot_of};
use crate::lookup::{lemma_position, position};
use crate::model::{BoundingBox, EntityId, HandleType, Transform};
use crate::usecases::{entity_ids, entity_views, Entity, EntityView};
use vstd::prelude::*;

verus! {

/// The state of the move gesture.
#[derive(Debug)]
pub struct MoveState {
    pub is_moving: bool,
    /// The entities that move, each with its transform at the start.
    pub initial_positions: Vec<(EntityId, Transform)>,
}

impl Default for MoveState {
    fn default() -> (r: MoveState)
        ensures
            !r.is_moving,
            r.initial_positions@.len() == 0,
    {
        MoveState { is_moving: false, initial_positions: Vec::new() }
    }
}

/// The state of the scale gesture.
#[derive(Debug)]
pub struct ScaleState {
    pub is_scaling: bool,
    /// The handle that is dragged.
    pub handle_type: Option<HandleType>,
    /// The entities that are scaled, each with its transform at the start.
    pub initial_transforms: Vec<(EntityId, Transform)>,
    /// The box around those entities at the start.
    pub initial_bounds: BoundingBox,
}

impl Default for ScaleState {
    fn default() -> (r: ScaleState)
        ensures
            !r.is_scaling,
            r.handle_type is None,
            r.initial_transforms@.len() == 0,
            r.initial_bounds == BoundingBox::empty(),
    {
        ScaleState {
            is_scaling: false,
            handle_type: None,
            initial_transforms: Vec::new(),
            initial_bounds: BoundingBox::default(),
        }
    }
}

/// What an update of a gesture asks for: a displacement from the initial
/// position, or a factor on the initial scale, per axis.
#[derive(Debug, Clone, Copy, PartialEq, Eq, Structural)]
pub enum Change {
    Move { dx: Fixed, dy: Fixed },
    Scale { fx: Fixed, fy: Fixed },
}

/// The scale `scale` multiplied by `factor`, never rounded to nothing: where
/// a positive factor would round a scale other than zero to zero, the
/// result is one thousandth with the sign of the scale.
pub open spec fn rescaled(scale: Fixed, factor: Fixed) -> Fixed {
    let product = scale.spec_mul(factor);
    if factor@ > 0 && product@ == 0 && scale@ > 0 {
        Fixed { raw: 1 }
    } else if factor@ > 0 && product@ == 0 && scale@ < 0 {
        Fixed { raw: -1i32 }
    } else {
        product
    }
}

/// Multiplies a scale by a factor without letting it collapse to zero.
pub fn rescale(scale: Fixed, factor: Fixed) -> (r: Fixed)
    ensures
        r == rescaled(scale, factor),
        factor@ > 0 && scale@ > 0 ==> r@ > 0,
        factor@ > 0 && scale@ < 0 ==> r@ < 0,
{
    proof {
        if factor@ > 0 && scale@ > 0 {
            assert(scale@ * factor@ > 0) by (nonlinear_arith)
                requires
                    scale@ > 0,
                    factor@ > 0,
            ;
        }
        if factor@ > 0 && scale@ < 0 {
            assert(scale@ * factor@ < 0) by (nonlinear_arith)
                requires
                    scale@ < 0,
                    factor@ > 0,
            ;
        }
    }
    let product = scale.mul(factor);
    if factor.raw > 0 && product.raw == 0 && scale.raw > 0 {
        Fixed::from_raw(1)
    } else if factor.raw > 0 && product.raw == 0 && scale.raw < 0 {
        Fixed::from_raw(-1)
    } else {
        product
    }
}

/// The transform that `change` gives an entity: position or scale come from
/// the transform `initial` recorded at the start of the gesture, everything
/// else stays as it is in `current`.
pub open spec fn rederive(current: Transform, initial: Transform, change: Change) -> Transform {
    match change {
        Change::Move { dx, dy } => Transform { x: initial.x.spec_add(dx), y: initial.y.spec_add(dy), ..current },
        Change::Scale { fx, fy } => Transform {
            scale_x: rescaled(initial.scale_x, fx),
            scale_y: rescaled(initial.scale_y, fy),
            ..current
        },
    }
}

/// The entity `e` with the transform that `change` gives it.
pub open spec fn changed(e: EntityView, initial: Transform, change: Change) -> EntityView {
    (e.0, rederive(e.1, initial, change), e.2, e.3)
}

/// The entities after `change` was applied for the first `n` records of
/// `record`, in order: each record re-derives the transform of the entity it
/// names, and a record that names no entity does nothing.
pub open spec fn rederived(entities: Seq<EntityView>, record: Seq<(EntityId, Transform)>, change: Change, n: int) -> Seq<
    EntityView,
>
    decreases n,
{
    if n <= 0 {
        entities
    } else {
        let before = rederived(entities, record, change, n - 1);
        match find_entity(before, record[n - 1].0) {
            Some(i) => before.update(i, changed(before[i], record[n - 1].1, change)),
            None => before,
        }
    }
}

/// The last of the first `n` records that names the entity at `j`.
pub open spec fn last_record_for(entities: Seq<EntityView>, record: Seq<(EntityId, Transform)>, j: int, n: int) -> Option<
    int,
>
    decreases n,
{
    if n <= 0 {
        None
    } else if find_entity(entities, record[n - 1].0) == Some(j) {
        Some(n - 1)
    } else {
        last_record_for(entities, record, j, n - 1)
    }
}

/// The factor by which one axis is scaled when the pointer is `delta` away
/// from the start of the gesture and the selection measured `dimension`
/// along that axis at the start.
///
/// It is `1 + delta / max(dimension, 1)` where dragging toward greater
/// coordinates grows the selection (`grows`), `1 - delta / max(dimension, 1)`
/// where it shrinks it, and never less than a tenth.
pub open spec fn axis_factor(delta: Fixed, dimension: Fixed, grows: bool) -> Fixed {
    let one = Fixed { raw: 1000 };
    let ratio = delta.spec_div(dimension.spec_max(one));
    let factor = if grows {
        one.spec_add(ratio)
    } else {
        one.spec_sub(ratio)
    };
    factor.spec_max(Fixed { raw: 100 })
}

/// The factors, per axis, of a scale gesture on `handle` whose pointer is
/// `(dx, dy)` away from its start, for a selection whose box was `bounds` at
/// the start.
///
/// A corner scales both axes, an edge only the axis across it. The right and
/// bottom sides grow the selection when dragged toward greater coordinates,
/// the left and top sides shrink it.
pub open spec fn scale_factors(handle: HandleType, bounds: BoundingBox, dx: Fixed, dy: Fixed) -> (Fixed, Fixed) {
    let one = Fixed { raw: 1000 };
    match handle {
        HandleType::TopLeft => (axis_factor(dx, bounds.width, false), axis_factor(dy, bounds.height, false)),
        HandleType::TopRight => (axis_factor(dx, bounds.width, true), axis_factor(dy, bounds.height, false)),
        HandleType::BottomLeft => (axis_factor(dx, bounds.width, false), axis_factor(dy, bounds.height, true)),
        HandleType::BottomRight => (axis_factor(dx, bounds.width, true), axis_factor(dy, bounds.height, true)),
        HandleType::Top => (one, axis_factor(dy, bounds.height, false)),
        HandleType::Bottom => (one, axis_factor(dy, bounds.height, true)),
        HandleType::Left => (axis_factor(dx, bounds.width, false), one),
        HandleType::Right => (axis_factor(dx, bounds.width, true), one),
    }
}

/// Computes the factor of one axis.
pub fn compute_axis_factor(delta: Fixed, dimension: Fixed, grows: bool) -> (f: Fixed)
    ensures
        f == axis_factor(delta, dimension, grows),
        f@ >= 100,
{
    let one = Fixed::one();
    let ratio = delta.div(dimension.max(one));
    let factor = if grows {
        one.add(ratio)
    } else {
        one.sub(ratio)
    };
    factor.max(Fixed::from_raw(100))
}

/// Computes the factors of a scale gesture. Neither is ever less than a
/// tenth, however far the pointer is dragged.
pub fn compute_scale_factors(handle: HandleType, bounds: &BoundingBox, dx: Fixed, dy: Fixed) -> (f: (Fixed, Fixed))
    ensures
        f == scale_factors(handle, *bounds, dx, dy),
        f.0@ >= 100,
        f.1@ >= 100,
{
    let one = Fixed::one();
    match handle {
        HandleType::TopLeft => (
            compute_axis_factor(dx, bounds.width, false),
            compute_axis_factor(dy, bounds.height, false),
        ),
        HandleType::TopRight => (
            compute_axis_factor(dx, bounds.width, true),
            compute_axis_factor(dy, bounds.height, false),
        ),
        HandleType::BottomLeft => (
            compute_axis_factor(dx, bounds.width, false),
            compute_axis_factor(dy, bounds.height, true),
        ),
        HandleType::BottomRight => (
            compute_axis_factor(dx, bounds.width, true),
            compute_axis_factor(dy, bounds.height, true),
        ),
        HandleType::Top => (one, compute_axis_factor(dy, bounds.height, false)),
        HandleType::Bottom => (one, compute_axis_factor(dy, bounds.height, true)),
        HandleType::Left => (compute_axis_factor(dx, bounds.width, false), one),
        HandleType::Right => (compute_axis_factor(dx, bounds.width, true), one),
    }
}

/// A scale gesture never collapses or inverts a shape.
///
/// Its factors are never less than a tenth. A positive scale stays positive,
/// however small it is and however far the pointer is dragged, and is never
/// less than a tenth of what it was, to within a thousandth; a scale of one
/// never falls below a tenth. A negative scale stays negative, and a scale
/// of zero stays zero.
pub proof fn lemma_scale_is_clamped(handle: HandleType, bounds: BoundingBox, dx: Fixed, dy: Fixed, initial: Fixed)
    ensures
        scale_factors(handle, bounds, dx, dy).0@ >= 100,
        scale_factors(handle, bounds, dx, dy).1@ >= 100,
        scale_kept(initial, rescaled(initial, scale_factors(handle, bounds, dx, dy).0)),
        scale_kept(initial, rescaled(initial, scale_factors(handle, bounds, dx, dy).1)),
{
    let f = scale_factors(handle, bounds, dx, dy);
    lemma_rescaled_from_tenth(initial, f.0);
    lemma_rescaled_from_tenth(initial, f.1);
}

/// What a scale gesture keeps of a scale: its sign, and a tenth of its size
/// at least.
pub open spec fn scale_kept(initial: Fixed, result: Fixed) -> bool {
    &&& initial@ > 0 ==> result@ >= 1 && 10 * result@ > initial@ - 10
    &&& initial@ == 1000 ==> result@ >= 100
    &&& initial@ < 0 ==> result@ <= -1
    &&& initial@ == 0 ==> result@ == 0
}

/// A scale multiplied by a factor of a tenth or more keeps its sign and a
/// tenth of its size.
pub proof fn lemma_rescaled_from_tenth(s: Fixed, f: Fixed)
    requires
        f@ >= 100,
    ensures
        scale_kept(s, rescaled(s, f)),
{
    if s@ > 0 {
        assert(s@ * f@ >= 100 * s@) by (nonlinear_arith)
            requires
                s@ > 0,
                f@ >= 100,
        ;
    } else if s@ < 0 {
        assert(s@ * f@ <= 100 * s@) by (nonlinear_arith)
            requires
                s@ < 0,
                f@ >= 100,
        ;
    } else {
        assert(s@ * f@ == 0) by (nonlinear_arith)
            requires
                s@ == 0,
        ;
    }
}

/// Applies `change` to every entity that `record` names.
pub fn apply_change(entities: &mut Vec<Entity>, record: &Vec<(EntityId, Transform)>, change: Change)
    ensures
        entity_views(final(entities)@) == rederived(
            entity_views(old(entities)@),
            record@,
            change,
            record@.len() as int,
        ),
        final(entities)@.len() == old(entities)@.len(),
{
    let mut k: usize = 0;
    while k < record.len()
        invariant
            k <= record.len(),
            entity_views(entities@) == rederived(entity_views(old(entities)@), record@, change, k as int),
            entities@.len() == old(entities)@.len(),
        decreases record.len() - k,
    {
        let id = record[k].0;
        let initial = record[k].1;
        match entity_index(entities, id) {
            Some(i) => {
                let ghost before = entity_views(entities@);
                match change {
                    Change::Move { dx, dy } => {
                        entities[i].1.x = initial.x.add(dx);
                        entities[i].1.y = initial.y.add(dy);
                    },
                    Change::Scale { fx, fy } => {
                        entities[i].1.scale_x = rescale(initial.scale_x, fx);
                        entities[i].1.scale_y = rescale(initial.scale_y, fy);
                    },
                }
                assert(entity_views(entities@) =~= before.update(
                    i as int,
                    changed(before[i as int], initial, change),
                ));
            },
            None => {},
        }
        k += 1;
    }
}

/// Applying a change keeps every entity in its place, with its identifier,
/// style and shape, and gives the entity at `j` the transform re-derived from
/// the last record that names it.
pub proof fn lemma_rederived(entities: Seq<EntityView>, record: Seq<(EntityId, Transform)>, change: Change, n: int)
    requires
        0 <= n <= record.len(),
    ensures
        rederived(entities, record, change, n).len() == entities.len(),
        entity_ids(rederived(entities, record, change, n)) == entity_ids(entities),
        forall|j: int|
            0 <= j < entities.len() ==> #[trigger] rederived(entities, record, change, n)[j] == (match last_record_for(
                entities,
                record,
                j,
                n,
            ) {
                Some(k) => changed(entities[j], record[k].1, change),
                None => entities[j],
            }),
    decreases n,
{
    if n > 0 {
        lemma_rederived(entities, record, change, n - 1);
        let before = rederived(entities, record, change, n - 1);
        let after = rederived(entities, record, change, n);
        let id = record[n - 1].0;
        lemma_position(entity_ids(entities), id);
        assert(entity_ids(after) =~= entity_ids(entities));
        assert forall|j: int| 0 <= j < entities.len() implies #[trigger] after[j] == (match last_record_for(
            entities,
            record,
            j,
            n,
        ) {
            Some(k) => changed(entities[j], record[k].1, change),
            None => entities[j],
        }) by {
            assert(before[j] == (match last_record_for(entities, record, j, n - 1) {
                Some(k) => changed(entities[j], record[k].1, change),
                None => entities[j],
            }));
        }
    }
}

/// A change is absolute: applied after an earlier change of the same kind, it
/// leaves the entities exactly where it would have left them without the
/// earlier one.
pub proof fn lemma_change_is_absolute(
    entities: Seq<EntityView>,
    record: Seq<(EntityId, Transform)>,
    earlier: Change,
    later: Change,
)
    requires
        earlier is Move <==> later is Move,
    ensures
        rederived(
            rederived(entities, record, earlier, record.len() as int),
            record,
            later,
            record.len() as int,
        ) == rederived(entities, record, later, record.len() as int),
{
    let n = record.len() as int;
    let mid = rederived(entities, record, earlier, n);
    lemma_rederived(entities, record, earlier, n);
    lemma_rederived(mid, record, later, n);
    lemma_rederived(entities, record, later, n);
    let twice = rederived(mid, record, later, n);
    let once = rederived(entities, record, later, n);
    assert forall|j: int| 0 <= j < entities.len() implies twice[j] == once[j] by {
        lemma_same_records(entities, mid, record, j, n);
        assert(twice[j] == (match last_record_for(mid, record, j, n) {
            Some(k) => changed(mid[j], record[k].1, later),
            None => mid[j],
        }));
        assert(once[j] == (match last_record_for(entities, record, j, n) {
            Some(k) => changed(entities[j], record[k].1, later),
            None => entities[j],
        }));
        assert(mid[j] == (match last_record_for(entities, record, j, n) {
            Some(k) => changed(entities[j], record[k].1, earlier),
            None => entities[j],
        }));
    }
    assert(twice =~= once);
}

/// Which record names an entity depends on the identifiers alone.
pub proof fn lemma_same_records(a: Seq<EntityView>, b: Seq<EntityView>, record: Seq<(EntityId, Transform)>, j: int, n: int)
    requires
        entity_ids(a) == entity_ids(b),
    ensures
        last_record_for(a, record, j, n) == last_record_for(b, record, j, n),
    decreases n,
{
    if n > 0 {
        lemma_same_records(a, b, record, j, n - 1);
    }
}

/// After any number of updates of a move gesture, a selected entity stands at
/// its position from the start of the gesture plus the displacement of the
/// last update, whatever the earlier updates asked for.
///
/// `start` holds the entities when the gesture started; no two of them share
/// an identifier.
pub proof fn lemma_move_from_start(
    start: Seq<EntityView>,
    selected: Seq<EntityId>,
    earlier: Change,
    dx: Fixed,
    dy: Fixed,
    j: int,
)
    requires
        entity_ids(start).no_duplicates(),
        0 <= j < start.len(),
        selected.contains(start[j].0),
        earlier is Move,
    ensures
        ({
            let record = snapshot_of(start, selected);
            let n = record.len() as int;
            let after = rederived(rederived(start, record, earlier, n), record, Change::Move { dx, dy }, n);
            &&& after.len() == start.len()
            &&& after[j].1.x == start[j].1.x.spec_add(dx)
            &&& after[j].1.y == start[j].1.y.spec_add(dy)
        }),
{
    let record = snapshot_of(start, selected);
    let n = record.len() as int;
    let later = Change::Move { dx, dy };
    lemma_change_is_absolute(start, record, earlier, later);
    lemma_rederived(start, record, later, n);
    lemma_recorded(start, selected, j);
    lemma_last_record(start, selected, j, n);
}

/// A selected entity of a document without repeated identifiers is named by
/// a record of the snapshot.
pub proof fn lemma_recorded(start: Seq<EntityView>, selected: Seq<EntityId>, j: int)
    requires
        entity_ids(start).no_duplicates(),
        0 <= j < start.len(),
        selected.contains(start[j].0),
    ensures
        exists|k: int|
            0 <= k < snapshot_of(start, selected).len() && find_entity(start, (#[trigger] snapshot_of(
                start,
                selected,
            )[k]).0) == Some(j),
    decreases selected.len(),
{
    let id = start[j].0;
    let keys = entity_ids(start);
    lemma_position(keys, id);
    assert(keys[j] == id);
    assert(find_entity(start, id) == Some(j)) by {
        let p = position(keys, id).unwrap();
        if p != j {
            assert(keys[p] == keys[j]);
        }
    }
    let front = selected.drop_last();
    let record = snapshot_of(start, selected);
    if selected.last() == id {
        assert(record[record.len() - 1].0 == id);
    } else {
        let m = choose|m: int| 0 <= m < selected.len() && selected[m] == id;
        assert(front[m] == id);
        lemma_recorded(start, front, j);
        let k = choose|k: int|
            0 <= k < snapshot_of(start, front).len() && find_entity(start, (#[trigger] snapshot_of(start, front)[k]).0)
                == Some(j);
        assert(record[k] == snapshot_of(start, front)[k]);
    }
}

/// A record that names the entity at `j` holds the transform that the entity
/// had at the start.
pub proof fn lemma_last_record(start: Seq<EntityView>, selected: Seq<EntityId>, j: int, n: int)
    requires
        0 <= j < start.len(),
        0 <= n <= snapshot_of(start, selected).len(),
    ensures
        match last_record_for(start, snapshot_of(start, selected), j, n) {
            Some(k) => 0 <= k < n && snapshot_of(start, selected)[k].1 == start[j].1,
            None => forall|k: int|
                0 <= k < n ==> find_entity(start, (#[trigger] snapshot_of(start, selected)[k]).0) != Some(j),
        },
    decreases n,
{
    if n > 0 {
        lemma_last_record(start, selected, j, n - 1);
        crate::group::lemma_snapshot_entries(start, selected, n - 1);
    }
}

} // verus!
