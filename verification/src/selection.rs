//! The selection: the entities that the next gesture acts on.

use crate::model::EntityId;
use vstd::prelude::*;

verus! {

/// `s` with `id` at its end, unless `s` holds it already.
pub open spec fn with_id(s: Seq<EntityId>, id: EntityId) -> Seq<EntityId> {
    if s.contains(id) {
        s
    } else {
        s.push(id)
    }
}

/// `s` without any occurrence of `id`, the rest in order.
pub open spec fn without_id(s: Seq<EntityId>, id: EntityId) -> Seq<EntityId>
    decreases s.len(),
{
    if s.len() == 0 {
        s
    } else if s.last() == id {
        without_id(s.drop_last(), id)
    } else {
        without_id(s.drop_last(), id).push(s.last())
    }
}

/// `s` without `id` if it holds it, with `id` if it does not.
pub open spec fn toggled(s: Seq<EntityId>, id: EntityId) -> Seq<EntityId> {
    if s.contains(id) {
        without_id(s, id)
    } else {
        s.push(id)
    }
}

/// The selected entities, in the order in which they were selected.
///
/// The selection is used as a set. It may name entities that the document
/// does not hold; those are passed over wherever entities are looked up.
#[derive(Debug)]
pub struct Selection {
    pub selected: Vec<EntityId>,
}

impl View for Selection {
    type V = Set<EntityId>;

    /// The selection as a set.
    open spec fn view(&self) -> Set<EntityId> {
        self.selected@.to_set()
    }
}

impl Default for Selection {
    fn default() -> (r: Selection)
        ensures
            r.selected@.len() == 0,
    {
        Selection { selected: Vec::new() }
    }
}

impl Selection {
    pub fn is_selected(&self, id: EntityId) -> (r: bool)
        ensures
            r == self.selected@.contains(id),
            r == self@.contains(id),
    {
        let mut i: usize = 0;
        while i < self.selected.len()
            invariant
                i <= self.selected.len(),
                forall|k: int| 0 <= k < i ==> self.selected@[k] != id,
            decreases self.selected.len() - i,
        {
            if self.selected[i] == id {
                return true;
            }
            i += 1;
        }
        false
    }

    /// Adds `id` to the selection; selecting a selected entity changes
    /// nothing.
    pub fn select(&mut self, id: EntityId)
        ensures
            final(self).selected@ == with_id(old(self).selected@, id),
            final(self)@ == old(self)@.insert(id),
    {
        if !self.is_selected(id) {
            self.selected.push(id);
        }
        proof {
            lemma_with_id(old(self).selected@, id);
        }
    }

    /// Takes `id` out of the selection.
    pub fn deselect(&mut self, id: EntityId)
        ensures
            final(self).selected@ == without_id(old(self).selected@, id),
            final(self)@ == old(self)@.remove(id),
    {
        let mut kept: Vec<EntityId> = Vec::new();
        let mut i: usize = 0;
        while i < self.selected.len()
            invariant
                i <= self.selected.len(),
                kept@ == without_id(self.selected@.take(i as int), id),
            decreases self.selected.len() - i,
        {
            let e = self.selected[i];
            proof {
                assert(self.selected@.take(i + 1).drop_last() =~= self.selected@.take(i as int));
            }
            if e != id {
                kept.push(e);
            }
            i += 1;
        }
        proof {
            assert(self.selected@.take(i as int) =~= self.selected@);
            lemma_without_id(old(self).selected@, id);
        }
        self.selected = kept;
    }

    /// Empties the selection.
    pub fn clear(&mut self)
        ensures
            final(self).selected@ == Seq::<EntityId>::empty(),
            final(self)@ == Set::<EntityId>::empty(),
    {
        self.selected.clear();
        assert(self@ =~= Set::<EntityId>::empty());
    }

    /// Selects `id` if it is not selected, and takes it out if it is.
    pub fn toggle(&mut self, id: EntityId)
        ensures
            final(self).selected@ == toggled(old(self).selected@, id),
            final(self)@ == (if old(self)@.contains(id) {
                old(self)@.remove(id)
            } else {
                old(self)@.insert(id)
            }),
    {
        if self.is_selected(id) {
            self.deselect(id);
        } else {
            self.select(id);
        }
    }
}

/// Adding an identifier to a list adds it to the set of its members, and
/// keeps a list without repetitions free of them.
pub proof fn lemma_with_id(s: Seq<EntityId>, id: EntityId)
    ensures
        with_id(s, id).to_set() == s.to_set().insert(id),
        s.no_duplicates() ==> with_id(s, id).no_duplicates(),
        with_id(with_id(s, id), id) == with_id(s, id),
{
    let t = with_id(s, id);
    assert forall|e: EntityId| t.to_set().contains(e) <==> s.to_set().insert(id).contains(e) by {
        if s.contains(id) {
        } else {
            if t.contains(e) {
                let k = choose|k: int| 0 <= k < t.len() && t[k] == e;
                if k < s.len() {
                    assert(s[k] == e);
                }
            }
            if s.contains(e) {
                let k = choose|k: int| 0 <= k < s.len() && s[k] == e;
                assert(t[k] == e);
            }
            assert(t[s.len() as int] == id);
        }
    }
    assert(t.to_set() =~= s.to_set().insert(id));
    if !s.contains(id) {
        assert(t[s.len() as int] == id);
        assert(t.contains(id));
    }
}

/// Taking an identifier out of a list takes it out of the set of its
/// members, and keeps a list without repetitions free of them.
pub proof fn lemma_without_id(s: Seq<EntityId>, id: EntityId)
    ensures
        without_id(s, id).to_set() == s.to_set().remove(id),
        !without_id(s, id).contains(id),
        s.no_duplicates() ==> without_id(s, id).no_duplicates(),
        !s.contains(id) ==> without_id(s, id) == s,
    decreases s.len(),
{
    let t = without_id(s, id);
    if s.len() == 0 {
        assert(t.to_set() =~= s.to_set().remove(id));
    } else {
        let front = s.drop_last();
        lemma_without_id(front, id);
        let tf = without_id(front, id);
        assert(s =~= front.push(s.last()));
        assert forall|e: EntityId| t.to_set().contains(e) <==> s.to_set().remove(id).contains(e) by {
            if t.contains(e) {
                let k = choose|k: int| 0 <= k < t.len() && t[k] == e;
                if k < tf.len() {
                    assert(tf[k] == e);
                    assert(tf.to_set().contains(e));
                    assert(front.contains(e));
                    let j = choose|j: int| 0 <= j < front.len() && front[j] == e;
                    assert(s[j] == e);
                } else {
                    assert(e == s.last());
                    assert(s[s.len() - 1] == e);
                }
            }
            if s.contains(e) && e != id {
                let j = choose|j: int| 0 <= j < s.len() && s[j] == e;
                if j < front.len() {
                    assert(front[j] == e);
                    assert(front.to_set().remove(id).contains(e));
                    assert(tf.contains(e));
                    let k = choose|k: int| 0 <= k < tf.len() && tf[k] == e;
                    assert(t[k] == e);
                } else {
                    assert(t[t.len() - 1] == e);
                }
            }
        }
        assert(t.to_set() =~= s.to_set().remove(id));
        if t.contains(id) {
            assert(t.to_set().contains(id));
        }
        if s.no_duplicates() {
            assert forall|i: int, j: int| 0 <= i < front.len() && 0 <= j < front.len() && i != j implies front[i]
                != front[j] by {
                assert(s[i] != s[j]);
            }
            if s.last() != id {
                assert forall|i: int, j: int| 0 <= i < t.len() && 0 <= j < t.len() && i != j implies t[i]
                    != t[j] by {
                    if i < tf.len() && j < tf.len() {
                        assert(tf[i] != tf[j]);
                    } else {
                        let k = if i < tf.len() { i } else { j };
                        assert(tf[k] == t[k]);
                        assert(tf.to_set().contains(tf[k]));
                        assert(front.contains(tf[k]));
                        let m = choose|m: int| 0 <= m < front.len() && front[m] == tf[k];
                        assert(s[m] != s[s.len() - 1]);
                    }
                }
            }
        }
        if !s.contains(id) {
            assert forall|k: int| 0 <= k < front.len() implies front[k] != id by {
                assert(s[k] == front[k]);
            }
            assert(!front.contains(id));
            assert(s.last() == s[s.len() - 1]);
            assert(t =~= s);
        }
    }
}

/// Toggling an identifier twice gives back the same set.
pub proof fn lemma_toggle_twice(s: Seq<EntityId>, id: EntityId)
    ensures
        toggled(toggled(s, id), id).to_set() == s.to_set(),
        !s.contains(id) ==> toggled(toggled(s, id), id) == s,
{
    lemma_without_id(s, id);
    if s.contains(id) {
        let t = without_id(s, id);
        lemma_with_id(t, id);
        assert(toggled(t, id) == t.push(id));
        assert(t.push(id).to_set() =~= s.to_set());
    } else {
        let t = s.push(id);
        assert(t[s.len() as int] == id);
        assert(t.contains(id));
        assert(t.drop_last() =~= s);
    }
}

} // verus!
