//! The document: the entities of a scene in paint order, and the hitboxes
//! that were set for some of them.

use crate::hitbox::Hitbox;
use crate::lookup::{is_first, lemma_position, lemma_position_absent, lemma_position_is, position};
use crate::model::{EntityId, Shape, ShapeView, Style, StyleView, Transform};
use vstd::prelude::*;

verus! {

/// An entity as the document stores it.
pub type Entity = (EntityId, Transform, Style, Shape);

/// An entity as contracts speak of it: its style and shape by their views.
pub type EntityView = (EntityId, Transform, StyleView, ShapeView);

/// The view of one entity.
pub open spec fn entity_view(e: Entity) -> EntityView {
    (e.0, e.1, e.2@, e.3@)
}

/// The views of `entities`, in order.
pub open spec fn entity_views(entities: Seq<Entity>) -> Seq<EntityView> {
    Seq::new(entities.len(), |i: int| entity_view(entities[i]))
}

/// The identifiers of `entities`, in order.
pub open spec fn entity_ids(entities: Seq<EntityView>) -> Seq<EntityId> {
    Seq::new(entities.len(), |i: int| entities[i].0)
}

/// The identifiers for which `hitboxes` holds an entry, in order.
pub open spec fn hitbox_ids(hitboxes: Seq<(EntityId, Hitbox)>) -> Seq<EntityId> {
    hitboxes.map_values(|e: (EntityId, Hitbox)| e.0)
}

/// The hitbox that `hitboxes` gives `id`: that of the first entry for it.
pub open spec fn hitbox_of(hitboxes: Seq<(EntityId, Hitbox)>, id: EntityId) -> Option<Hitbox> {
    match position(hitbox_ids(hitboxes), id) {
        Some(i) => Some(hitboxes[i].1),
        None => None,
    }
}

/// The list `hitboxes` without the entries for `id`, the rest in order.
pub open spec fn entries_without(hitboxes: Seq<(EntityId, Hitbox)>, id: EntityId) -> Seq<(EntityId, Hitbox)>
    decreases hitboxes.len(),
{
    if hitboxes.len() == 0 {
        hitboxes
    } else if hitboxes.last().0 == id {
        entries_without(hitboxes.drop_last(), id)
    } else {
        entries_without(hitboxes.drop_last(), id).push(hitboxes.last())
    }
}

/// The list `hitboxes`, read as a map from identifiers to hitboxes.
pub open spec fn overrides_of(hitboxes: Seq<(EntityId, Hitbox)>) -> Map<EntityId, Hitbox> {
    Map::new(
        |id: EntityId| hitbox_of(hitboxes, id) is Some,
        |id: EntityId| hitbox_of(hitboxes, id).unwrap(),
    )
}

/// A document as contracts speak of it.
pub struct DocumentView {
    /// The entities in paint order.
    pub entities: Seq<EntityView>,
    /// The hitboxes that were set, by entity.
    pub overrides: Map<EntityId, Hitbox>,
    /// The number that the next entity gets as its identifier.
    pub next_id: u64,
}

impl DocumentView {
    /// The document without entities, whose first entity will be number one.
    pub open spec fn empty() -> DocumentView {
        DocumentView { entities: Seq::empty(), overrides: Map::empty(), next_id: 1 }
    }

    /// No two entities share an identifier, and every identifier in use was
    /// handed out before: it is below the next one.
    pub open spec fn well_formed(self) -> bool {
        &&& entity_ids(self.entities).no_duplicates()
        &&& forall|i: int| 0 <= i < self.entities.len() ==> (#[trigger] self.entities[i]).0.0 < self.next_id
    }
}

/// An ordered collection of entities, with an optional hitbox per entity.
///
/// Entities are painted, and tested against the pointer, in the order in
/// which they were created. An entity without a hitbox of its own is tested
/// by its shape.
#[derive(Clone, Debug)]
pub struct Document {
    pub entities: Vec<Entity>,
    pub hitboxes: Vec<(EntityId, Hitbox)>,
    /// The number that the next entity gets as its identifier.
    pub next_id: u64,
}

impl View for Document {
    type V = DocumentView;

    open spec fn view(&self) -> DocumentView {
        DocumentView {
            entities: entity_views(self.entities@),
            overrides: overrides_of(self.hitboxes@),
            next_id: self.next_id,
        }
    }
}

impl Document {
    /// The hitboxes that were set, by entity.
    pub open spec fn overrides(&self) -> Map<EntityId, Hitbox> {
        overrides_of(self.hitboxes@)
    }

    /// The document's view is well formed.
    pub open spec fn well_formed(&self) -> bool {
        self@.well_formed()
    }

    /// The empty document; its first entity will be number one.
    pub fn new() -> (doc: Document)
        ensures
            doc.entities@.len() == 0,
            doc.hitboxes@.len() == 0,
            doc.next_id == 1,
            doc@ == DocumentView::empty(),
            doc.well_formed(),
    {
        let doc = Document { entities: Vec::new(), hitboxes: Vec::new(), next_id: 1 };
        proof {
            assert(doc@.entities =~= Seq::<EntityView>::empty());
            lemma_position_absent(hitbox_ids(doc.hitboxes@), EntityId(0));
            assert forall|id: EntityId| !(#[trigger] doc@.overrides.contains_key(id)) by {
                lemma_position_absent(hitbox_ids(doc.hitboxes@), id);
            }
            assert(doc@.overrides =~= Map::<EntityId, Hitbox>::empty());
        }
        doc
    }

    /// How many more entities the document can number.
    pub fn free_ids(&self) -> (n: u64)
        ensures
            n == u64::MAX - self.next_id,
    {
        u64::MAX - self.next_id
    }

    /// Appends an entity and returns its identifier, the next in sequence.
    ///
    /// In a well-formed document the identifier is new, and the document
    /// stays well formed.
    pub fn create_shape(&mut self, transform: Transform, style: Style, shape: Shape) -> (id: EntityId)
        requires
            old(self).next_id < u64::MAX,
        ensures
            id == EntityId(old(self).next_id),
            final(self)@ == (DocumentView {
                entities: old(self)@.entities.push((id, transform, style@, shape@)),
                next_id: (old(self).next_id + 1) as u64,
                ..old(self)@
            }),
            final(self).entities@.len() == old(self).entities@.len() + 1,
            final(self).hitboxes@ == old(self).hitboxes@,
            old(self).well_formed() ==> final(self).well_formed() && !entity_ids(old(self)@.entities).contains(id),
    {
        let id = EntityId(self.next_id);
        self.next_id += 1;
        self.entities.push((id, transform, style, shape));
        proof {
            assert(self@.entities =~= old(self)@.entities.push((id, transform, style@, shape@)));
            if old(self).well_formed() {
                lemma_fresh_id(old(self)@, (id, transform, style@, shape@));
            }
        }
        id
    }

    /// Appends an entity as [`Document::create_shape`] does and gives it
    /// `hitbox` as its own.
    pub fn create_shape_with_hitbox(&mut self, transform: Transform, style: Style, shape: Shape, hitbox: Hitbox) -> (id:
        EntityId)
        requires
            old(self).next_id < u64::MAX,
        ensures
            id == EntityId(old(self).next_id),
            final(self)@ == (DocumentView {
                entities: old(self)@.entities.push((id, transform, style@, shape@)),
                overrides: old(self)@.overrides.insert(id, hitbox),
                next_id: (old(self).next_id + 1) as u64,
            }),
            final(self).hitboxes@ == entries_without(old(self).hitboxes@, id).push((id, hitbox)),
            old(self).well_formed() ==> final(self).well_formed() && !entity_ids(old(self)@.entities).contains(id),
    {
        let id = self.create_shape(transform, style, shape);
        self.set_hitbox(id, hitbox);
        id
    }

    /// Gives the entity `entity_id` the hitbox `hitbox`, in place of any it
    /// had: the last one set counts.
    pub fn set_hitbox(&mut self, entity_id: EntityId, hitbox: Hitbox)
        ensures
            final(self)@ == (DocumentView {
                overrides: old(self)@.overrides.insert(entity_id, hitbox),
                ..old(self)@
            }),
            final(self).hitboxes@ == entries_without(old(self).hitboxes@, entity_id).push((entity_id, hitbox)),
            final(self).entities@ == old(self).entities@,
    {
        self.remove_hitbox(entity_id);
        let ghost cleared = self.hitboxes@;
        self.hitboxes.push((entity_id, hitbox));
        proof {
            lemma_push_entry(cleared, entity_id, hitbox);
            assert(old(self)@.overrides.remove(entity_id).insert(entity_id, hitbox) =~= old(self)@.overrides.insert(
                entity_id,
                hitbox,
            ));
        }
    }

    /// The hitbox that was set for `entity_id`; `None` where the entity is
    /// tested by its shape.
    pub fn get_hitbox(&self, entity_id: EntityId) -> (r: Option<&Hitbox>)
        ensures
            match r {
                Some(h) => self.overrides().contains_key(entity_id) && *h == self.overrides()[entity_id],
                None => !self.overrides().contains_key(entity_id),
            },
    {
        let ghost keys = hitbox_ids(self.hitboxes@);
        let mut i: usize = 0;
        while i < self.hitboxes.len()
            invariant
                i <= self.hitboxes.len(),
                keys == hitbox_ids(self.hitboxes@),
                forall|k: int| 0 <= k < i ==> keys[k] != entity_id,
            decreases self.hitboxes.len() - i,
        {
            if self.hitboxes[i].0 == entity_id {
                proof {
                    lemma_position_is(keys, entity_id, i as int);
                }
                return Some(&self.hitboxes[i].1);
            }
            i += 1;
        }
        proof {
            lemma_position_absent(keys, entity_id);
        }
        None
    }

    /// Takes away the hitbox of `entity_id`, which is tested by its shape
    /// from then on. Every entry for the entity leaves the list; the others
    /// keep their order.
    pub fn remove_hitbox(&mut self, entity_id: EntityId)
        ensures
            final(self)@ == (DocumentView { overrides: old(self)@.overrides.remove(entity_id), ..old(self)@ }),
            final(self).hitboxes@ == entries_without(old(self).hitboxes@, entity_id),
            forall|k: int| 0 <= k < final(self).hitboxes@.len() ==> (#[trigger] final(self).hitboxes@[k]).0 != entity_id,
            final(self).entities@ == old(self).entities@,
            final(self).next_id == old(self).next_id,
    {
        let ghost start = self.hitboxes@;
        let ghost mut seen: int = 0;
        let mut i: usize = 0;
        while i < self.hitboxes.len()
            invariant
                i <= self.hitboxes.len(),
                start == old(self).hitboxes@,
                i <= seen <= start.len(),
                self.hitboxes@.len() - i == start.len() - seen,
                self.hitboxes@.take(i as int) == entries_without(start.take(seen), entity_id),
                forall|k: int| i <= k < self.hitboxes@.len() ==> self.hitboxes@[k] == start[k - i + seen],
                forall|k: int| 0 <= k < i ==> (#[trigger] self.hitboxes@[k]).0 != entity_id,
                overrides_of(self.hitboxes@).remove(entity_id) == old(self).overrides().remove(entity_id),
                self.entities@ == old(self).entities@,
                self.next_id == old(self).next_id,
            decreases self.hitboxes.len() - i,
        {
            proof {
                assert(start.take(seen + 1).drop_last() =~= start.take(seen));
                assert(start.take(seen + 1).last() == start[seen]);
            }
            if self.hitboxes[i].0 == entity_id {
                let ghost before = self.hitboxes@;
                self.hitboxes.remove(i);
                proof {
                    lemma_remove_entry(before, i as int);
                    assert(self.hitboxes@.take(i as int) =~= before.take(i as int));
                    seen = seen + 1;
                }
            } else {
                proof {
                    assert(self.hitboxes@.take(i + 1) =~= self.hitboxes@.take(i as int).push(self.hitboxes@[i as int]));
                    seen = seen + 1;
                }
                i += 1;
            }
        }
        proof {
            assert(self.hitboxes@.take(i as int) =~= self.hitboxes@);
            assert(start.take(seen) =~= start);
            let keys = hitbox_ids(self.hitboxes@);
            assert forall|k: int| 0 <= k < keys.len() implies keys[k] != entity_id by {
                assert(self.hitboxes@[k].0 != entity_id);
            }
            lemma_position_absent(keys, entity_id);
            assert(overrides_of(self.hitboxes@).remove(entity_id) =~= overrides_of(self.hitboxes@));
        }
    }

    /// The number of entities.
    pub fn count(&self) -> (n: usize)
        ensures
            n == self.entities@.len(),
    {
        self.entities.len()
    }
}

impl Default for Document {
    fn default() -> (doc: Document)
        ensures
            doc.entities@.len() == 0,
            doc.hitboxes@.len() == 0,
            doc.next_id == 1,
            doc@ == DocumentView::empty(),
            doc.well_formed(),
    {
        Document::new()
    }
}

/// An entity numbered with the next identifier of a well-formed document is
/// new to it, and the document with that entity is well formed.
pub proof fn lemma_fresh_id(doc: DocumentView, e: EntityView)
    requires
        doc.well_formed(),
        e.0.0 == doc.next_id,
        doc.next_id < u64::MAX,
    ensures
        !entity_ids(doc.entities).contains(e.0),
        (DocumentView { entities: doc.entities.push(e), next_id: (doc.next_id + 1) as u64, ..doc }).well_formed(),
{
    let before = entity_ids(doc.entities);
    let after = entity_ids(doc.entities.push(e));
    assert(after =~= before.push(e.0));
    assert forall|k: int| 0 <= k < before.len() implies before[k] != e.0 by {
        assert(doc.entities[k].0.0 < doc.next_id);
    }
    assert forall|i: int, j: int| 0 <= i < after.len() && 0 <= j < after.len() && i != j implies after[i]
        != after[j] by {
        if i < before.len() && j < before.len() {
            assert(before[i] != before[j]);
        }
    }
    let more = doc.entities.push(e);
    assert forall|i: int| 0 <= i < more.len() implies (#[trigger] more[i]).0.0 < doc.next_id + 1 by {
        if i < doc.entities.len() {
            assert(doc.entities[i].0.0 < doc.next_id);
        }
    }
    if before.contains(e.0) {
        let k = choose|k: int| 0 <= k < before.len() && before[k] == e.0;
        assert(before[k] != e.0);
    }
}

/// A list without the entries for an entity holds none for it, and after an
/// entry for the entity is appended it holds exactly that one.
pub proof fn lemma_entries_without(hitboxes: Seq<(EntityId, Hitbox)>, id: EntityId)
    ensures
        forall|k: int|
            0 <= k < entries_without(hitboxes, id).len() ==> (#[trigger] entries_without(hitboxes, id)[k]).0 != id,
        entries_without(hitboxes, id).len() <= hitboxes.len(),
    decreases hitboxes.len(),
{
    if hitboxes.len() > 0 {
        lemma_entries_without(hitboxes.drop_last(), id);
    }
}

/// Taking one entry out of a list changes the hitbox of no other entity.
pub proof fn lemma_remove_entry(hitboxes: Seq<(EntityId, Hitbox)>, i: int)
    requires
        0 <= i < hitboxes.len(),
    ensures
        overrides_of(hitboxes.remove(i)).remove(hitboxes[i].0) == overrides_of(hitboxes).remove(hitboxes[i].0),
{
    let gone = hitboxes[i].0;
    let rest = hitboxes.remove(i);
    let keys = hitbox_ids(hitboxes);
    let rest_keys = hitbox_ids(rest);
    assert forall|id: EntityId| id != gone implies hitbox_of(rest, id) == hitbox_of(hitboxes, id) by {
        lemma_position(keys, id);
        match position(keys, id) {
            Some(j) => {
                let j2 = if j < i { j } else { j - 1 };
                assert(rest[j2] == hitboxes[j]);
                assert forall|k: int| 0 <= k < j2 implies rest_keys[k] != id by {
                    let k1 = if k < i { k } else { k + 1 };
                    assert(rest[k] == hitboxes[k1]);
                    assert(keys[k1] != id);
                }
                assert(is_first(rest_keys, id, j2));
                lemma_position_is(rest_keys, id, j2);
            },
            None => {
                assert forall|k: int| 0 <= k < rest_keys.len() implies rest_keys[k] != id by {
                    let k1 = if k < i { k } else { k + 1 };
                    assert(rest[k] == hitboxes[k1]);
                    assert(keys[k1] != id);
                }
                lemma_position_absent(rest_keys, id);
            },
        }
    }
    assert(overrides_of(rest).remove(gone) =~= overrides_of(hitboxes).remove(gone));
}

/// Appending an entry for an entity that has none sets that entity's hitbox
/// and no other.
pub proof fn lemma_push_entry(hitboxes: Seq<(EntityId, Hitbox)>, id: EntityId, hitbox: Hitbox)
    requires
        forall|k: int| 0 <= k < hitboxes.len() ==> (#[trigger] hitboxes[k]).0 != id,
    ensures
        overrides_of(hitboxes.push((id, hitbox))) == overrides_of(hitboxes).insert(id, hitbox),
{
    let more = hitboxes.push((id, hitbox));
    let keys = hitbox_ids(hitboxes);
    let more_keys = hitbox_ids(more);
    assert forall|other: EntityId| hitbox_of(more, other) == (if other == id {
        Some(hitbox)
    } else {
        hitbox_of(hitboxes, other)
    }) by {
        if other == id {
            assert forall|k: int| 0 <= k < hitboxes.len() implies more_keys[k] != id by {
                assert(more[k] == hitboxes[k]);
            }
            assert(is_first(more_keys, id, hitboxes.len() as int));
            lemma_position_is(more_keys, id, hitboxes.len() as int);
        } else {
            lemma_position(keys, other);
            match position(keys, other) {
                Some(j) => {
                    assert(more[j] == hitboxes[j]);
                    assert forall|k: int| 0 <= k < j implies more_keys[k] != other by {
                        assert(more[k] == hitboxes[k]);
                        assert(keys[k] != other);
                    }
                    assert(is_first(more_keys, other, j));
                    lemma_position_is(more_keys, other, j);
                },
                None => {
                    assert forall|k: int| 0 <= k < more_keys.len() implies more_keys[k] != other by {
                        if k < hitboxes.len() {
                            assert(more[k] == hitboxes[k]);
                            assert(keys[k] != other);
                        }
                    }
                    lemma_position_absent(more_keys, other);
                },
            }
        }
    }
    assert(overrides_of(more) =~= overrides_of(hitboxes).insert(id, hitbox));
}

} // verus!
