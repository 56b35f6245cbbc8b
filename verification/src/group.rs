//! What a set of selected entities has in common: where each is found in the
//! document, the box around all of them, and their transforms at one moment.

use crate::bounds::shape_bounds;
use crate::fixed::Fixed;
use crate::lookup::{lemma_position_absent, lemma_position_is, position};
use crate::model::{BoundingBox, EntityId, Transform};
use crate::usecases::{entity_ids, entity_views, Entity, EntityView};
use vstd::prelude::*;

verus! {

/// Where the entity `id` stands in `entities`; the first counts. `None` for
/// an identifier that names no entity.
pub open spec fn find_entity(entities: Seq<EntityView>, id: EntityId) -> Option<int> {
    position(entity_ids(entities), id)
}

/// The index of the entity `id`, if the document holds it.
pub fn entity_index(entities: &Vec<Entity>, id: EntityId) -> (r: Option<usize>)
    ensures
        match r {
            Some(i) => find_entity(entity_views(entities@), id) == Some(i as int) && i < entities@.len(),
            None => find_entity(entity_views(entities@), id) is None,
        },
{
    let ghost keys = entity_ids(entity_views(entities@));
    let mut i: usize = 0;
    while i < entities.len()
        invariant
            i <= entities.len(),
            keys == entity_ids(entity_views(entities@)),
            forall|k: int| 0 <= k < i ==> keys[k] != id,
        decreases entities.len() - i,
    {
        if entities[i].0 == id {
            proof {
                lemma_position_is(keys, id, i as int);
            }
            return Some(i);
        }
        i += 1;
    }
    proof {
        lemma_position_absent(keys, id);
    }
    None
}

/// The least and greatest coordinates of a region, per axis.
#[derive(Clone, Copy, PartialEq, Eq, Debug, Structural)]
pub struct Extent {
    pub min_x: Fixed,
    pub max_x: Fixed,
    pub min_y: Fixed,
    pub max_y: Fixed,
}

/// The extent of a box: from its corner to its corner plus its sides.
pub open spec fn box_extent(b: BoundingBox) -> Extent {
    Extent { min_x: b.x, max_x: b.x.spec_add(b.width), min_y: b.y, max_y: b.y.spec_add(b.height) }
}

/// The box of an extent.
pub open spec fn extent_box(e: Extent) -> BoundingBox {
    BoundingBox { x: e.min_x, y: e.min_y, width: e.max_x.spec_sub(e.min_x), height: e.max_y.spec_sub(e.min_y) }
}

/// The union of two extents.
pub open spec fn union(a: Extent, b: Extent) -> Extent {
    Extent {
        min_x: a.min_x.spec_min(b.min_x),
        max_x: a.max_x.spec_max(b.max_x),
        min_y: a.min_y.spec_min(b.min_y),
        max_y: a.max_y.spec_max(b.max_y),
    }
}

/// `e` joined to what was gathered so far.
pub open spec fn join(gathered: Option<Extent>, e: Extent) -> Extent {
    match gathered {
        Some(g) => union(g, e),
        None => e,
    }
}

/// The extent of the box of the entity at `i`.
pub open spec fn entity_extent(entities: Seq<EntityView>, i: int) -> Extent {
    box_extent(shape_bounds(entities[i].1, entities[i].3))
}

/// The union of the boxes of the selected entities that the document holds;
/// `None` if it holds none of them.
pub open spec fn selected_extent(entities: Seq<EntityView>, selected: Seq<EntityId>) -> Option<Extent>
    decreases selected.len(),
{
    if selected.len() == 0 {
        None
    } else {
        let gathered = selected_extent(entities, selected.drop_last());
        match find_entity(entities, selected.last()) {
            Some(i) => Some(join(gathered, entity_extent(entities, i))),
            None => gathered,
        }
    }
}

/// The box around the selected entities that the document holds.
pub open spec fn combined_box(entities: Seq<EntityView>, selected: Seq<EntityId>) -> Option<BoundingBox> {
    match selected_extent(entities, selected) {
        Some(e) => Some(extent_box(e)),
        None => None,
    }
}

/// The selected entities that the document holds, each with its transform,
/// in the order of the selection.
pub open spec fn snapshot_of(entities: Seq<EntityView>, selected: Seq<EntityId>) -> Seq<(EntityId, Transform)>
    decreases selected.len(),
{
    if selected.len() == 0 {
        Seq::empty()
    } else {
        let taken = snapshot_of(entities, selected.drop_last());
        match find_entity(entities, selected.last()) {
            Some(i) => taken.push((selected.last(), entities[i].1)),
            None => taken,
        }
    }
}

/// Computes the box around the selected entities; identifiers that name no
/// entity are passed over.
pub fn combined_bounds(entities: &Vec<Entity>, selected: &Vec<EntityId>) -> (r: Option<BoundingBox>)
    ensures
        r == combined_box(entity_views(entities@), selected@),
{
    let mut gathered: Option<Extent> = None;
    let mut k: usize = 0;
    while k < selected.len()
        invariant
            k <= selected.len(),
            gathered == selected_extent(entity_views(entities@), selected@.take(k as int)),
        decreases selected.len() - k,
    {
        proof {
            assert(selected@.take(k + 1).drop_last() =~= selected@.take(k as int));
        }
        match entity_index(entities, selected[k]) {
            Some(i) => {
                let bbox = BoundingBox::from_shape(&entities[i].1, &entities[i].3);
                let found = Extent {
                    min_x: bbox.x,
                    max_x: bbox.x.add(bbox.width),
                    min_y: bbox.y,
                    max_y: bbox.y.add(bbox.height),
                };
                gathered = match gathered {
                    Some(g) => Some(
                        Extent {
                            min_x: g.min_x.min(found.min_x),
                            max_x: g.max_x.max(found.max_x),
                            min_y: g.min_y.min(found.min_y),
                            max_y: g.max_y.max(found.max_y),
                        },
                    ),
                    None => Some(found),
                };
            },
            None => {},
        }
        k += 1;
    }
    proof {
        assert(selected@.take(k as int) =~= selected@);
    }
    match gathered {
        Some(e) => Some(
            BoundingBox { x: e.min_x, y: e.min_y, width: e.max_x.sub(e.min_x), height: e.max_y.sub(e.min_y) },
        ),
        None => None,
    }
}

/// Records the transforms of the selected entities as they are now;
/// identifiers that name no entity are passed over.
pub fn snapshot(entities: &Vec<Entity>, selected: &Vec<EntityId>) -> (r: Vec<(EntityId, Transform)>)
    ensures
        r@ == snapshot_of(entity_views(entities@), selected@),
{
    let mut taken: Vec<(EntityId, Transform)> = Vec::new();
    let mut k: usize = 0;
    while k < selected.len()
        invariant
            k <= selected.len(),
            taken@ == snapshot_of(entity_views(entities@), selected@.take(k as int)),
        decreases selected.len() - k,
    {
        proof {
            assert(selected@.take(k + 1).drop_last() =~= selected@.take(k as int));
        }
        match entity_index(entities, selected[k]) {
            Some(i) => {
                taken.push((selected[k], entities[i].1));
            },
            None => {},
        }
        k += 1;
    }
    proof {
        assert(selected@.take(k as int) =~= selected@);
    }
    taken
}

/// An extent reaches at least as far as `inner` does on every side.
pub open spec fn covers(outer: Extent, inner: Extent) -> bool {
    &&& outer.min_x@ <= inner.min_x@
    &&& outer.min_y@ <= inner.min_y@
    &&& outer.max_x@ >= inner.max_x@
    &&& outer.max_y@ >= inner.max_y@
}

/// The box around a selection covers the box of every selected entity that
/// the document holds.
pub proof fn lemma_selected_extent_covers(entities: Seq<EntityView>, selected: Seq<EntityId>, k: int)
    requires
        0 <= k < selected.len(),
        find_entity(entities, selected[k]) is Some,
    ensures
        selected_extent(entities, selected) is Some,
        covers(
            selected_extent(entities, selected).unwrap(),
            entity_extent(entities, find_entity(entities, selected[k]).unwrap()),
        ),
    decreases selected.len(),
{
    let front = selected.drop_last();
    if k < selected.len() - 1 {
        assert(front[k] == selected[k]);
        lemma_selected_extent_covers(entities, front, k);
    }
}

/// The box around two entities is the union of their two boxes.
pub proof fn lemma_pair_extent(entities: Seq<EntityView>, a: EntityId, b: EntityId)
    requires
        find_entity(entities, a) is Some,
        find_entity(entities, b) is Some,
    ensures
        selected_extent(entities, seq![a, b]) == Some(
            union(
                entity_extent(entities, find_entity(entities, a).unwrap()),
                entity_extent(entities, find_entity(entities, b).unwrap()),
            ),
        ),
{
    let both = seq![a, b];
    assert(both.drop_last() =~= seq![a]);
    assert(seq![a].drop_last() =~= Seq::<EntityId>::empty());
    assert(both.last() == b);
    assert(seq![a].last() == a);
    reveal_with_fuel(selected_extent, 3);
}

/// Only entities found in the document are in a snapshot, each under one of
/// the selected identifiers and with the transform that it has in the
/// document.
pub proof fn lemma_snapshot_entries(entities: Seq<EntityView>, selected: Seq<EntityId>, k: int)
    requires
        0 <= k < snapshot_of(entities, selected).len(),
    ensures
        selected.contains(snapshot_of(entities, selected)[k].0),
        find_entity(entities, snapshot_of(entities, selected)[k].0) is Some,
        snapshot_of(entities, selected)[k].1 == entities[find_entity(
            entities,
            snapshot_of(entities, selected)[k].0,
        ).unwrap()].1,
    decreases selected.len(),
{
    if selected.len() > 0 {
        let front = selected.drop_last();
        let taken = snapshot_of(entities, front);
        if k < taken.len() {
            lemma_snapshot_entries(entities, front, k);
            let id = taken[k].0;
            let j = choose|j: int| 0 <= j < front.len() && front[j] == id;
            assert(selected[j] == id);
        } else {
            assert(selected[selected.len() - 1] == selected.last());
        }
    }
}

} // verus!
