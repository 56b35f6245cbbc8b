//! Finding an identifier in a list: the first match counts.

use crate::model::EntityId;
use vstd::prelude::*;

verus! {

/// Where `id` first stands in `keys`, if anywhere.
pub open spec fn position(keys: Seq<EntityId>, id: EntityId) -> Option<int> {
    keys.index_of_first(id)
}

/// `i` is the first place in `keys` that holds `id`.
pub open spec fn is_first(keys: Seq<EntityId>, id: EntityId, i: int) -> bool {
    &&& 0 <= i < keys.len()
    &&& keys[i] == id
    &&& forall|k: int| 0 <= k < i ==> keys[k] != id
}

/// `position` is the first place of `id`, and is `None` exactly when `id`
/// stands nowhere in `keys`.
pub proof fn lemma_position(keys: Seq<EntityId>, id: EntityId)
    ensures
        match position(keys, id) {
            Some(i) => is_first(keys, id, i),
            None => forall|k: int| 0 <= k < keys.len() ==> keys[k] != id,
        },
{
    keys.index_of_first_ensures(id);
    match position(keys, id) {
        Some(i) => {},
        None => {
            assert forall|k: int| 0 <= k < keys.len() implies keys[k] != id by {
                if keys[k] == id {
                    assert(keys.contains(id));
                }
            }
        },
    }
}

/// A first place is the position.
pub proof fn lemma_position_is(keys: Seq<EntityId>, id: EntityId, i: int)
    requires
        is_first(keys, id, i),
    ensures
        position(keys, id) == Some(i),
{
    lemma_position(keys, id);
}

/// An identifier that stands nowhere has no position.
pub proof fn lemma_position_absent(keys: Seq<EntityId>, id: EntityId)
    requires
        forall|k: int| 0 <= k < keys.len() ==> keys[k] != id,
    ensures
        position(keys, id) == None::<int>,
{
    lemma_position(keys, id);
}

} // verus!
