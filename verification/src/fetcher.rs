//! The batch fetcher: many single lookups, folded into one map.
//!
//! The lookups of a batch run side by side, up to [`FETCH_CEILING`] at a
//! time, and end in any order. What each of them answered is folded here into
//! the map that the batch answers with.

use crate::domain::Item;
use crate::result::Error;
use std::collections::HashMap;
use vstd::prelude::*;

verus! {

broadcast use vstd::std_specs::hash::group_hash_axioms;

/// How many lookups of one batch may be under way at the same time.
pub const FETCH_CEILING: usize = 50;

/// The ids of `outcomes`, in their order.
pub open spec fn asked(outcomes: Seq<(u32, Result<Option<Item>, Error>)>) -> Seq<u32> {
    outcomes.map_values(|outcome: (u32, Result<Option<Item>, Error>)| outcome.0)
}

/// The map that a batch answers with: for each id, the item of the last of
/// its lookups that found one. A lookup that found nothing, or failed, adds
/// nothing.
pub open spec fn collected(outcomes: Seq<(u32, Result<Option<Item>, Error>)>) -> Map<u32, Item>
    decreases outcomes.len(),
{
    if outcomes.len() == 0 {
        Map::empty()
    } else {
        let before = collected(outcomes.drop_last());
        match outcomes.last().1 {
            Ok(Some(item)) => before.insert(outcomes.last().0, item),
            _ => before,
        }
    }
}

/// Folds the outcomes of a batch of lookups, each with the id that was asked
/// for, into the map of the items that were found. An id whose lookup found
/// nothing is left out, and so is one whose lookup failed: a batch answers
/// with what it could get.
pub fn collect_items(outcomes: Vec<(u32, Result<Option<Item>, Error>)>) -> (found: HashMap<
    u32,
    Item,
>)
    ensures
        found@ == collected(outcomes@),
        outcomes@.len() == 0 ==> found@ == Map::<u32, Item>::empty(),
        found@.dom().subset_of(asked(outcomes@).to_set()),
        found@.len() <= asked(outcomes@).to_set().len(),
{
    proof {
        batch_finds_at_most_the_ids_asked(outcomes@);
    }
    let mut found: HashMap<u32, Item> = HashMap::new();
    let ghost all = outcomes@;
    for outcome in it: outcomes.into_iter()
        invariant
            it.seq() == all,
            found@ == collected(all.take(it.index() as int)),
    {
        proof {
            assert(all.take(it.index() + 1).drop_last() == all.take(it.index() as int));
        }
        let (id, answer) = outcome;
        match answer {
            Ok(Some(item)) => {
                found.insert(id, item);
            },
            _ => {},
        }
    }
    assert(all.take(all.len() as int) == all);
    found
}

/// What the upstream holds under `id` in the snapshot `upstream`.
pub open spec fn resolve(upstream: Map<u32, Item>, id: u32) -> Option<Item> {
    if upstream.contains_key(id) {
        Some(upstream[id])
    } else {
        None
    }
}

/// A batch finds items only under ids that were asked for, and at most one
/// per id: however often an id was asked for, the map has no more entries
/// than there are distinct ids.
pub proof fn batch_finds_at_most_the_ids_asked(outcomes: Seq<(u32, Result<Option<Item>, Error>)>)
    ensures
        collected(outcomes).dom().subset_of(asked(outcomes).to_set()),
        collected(outcomes).dom().finite(),
        collected(outcomes).len() <= asked(outcomes).to_set().len(),
    decreases outcomes.len(),
{
    let ids = asked(outcomes).to_set();
    vstd::seq_lib::seq_to_set_is_finite(asked(outcomes));
    if outcomes.len() > 0 {
        let front = outcomes.drop_last();
        batch_finds_at_most_the_ids_asked(front);
        assert forall|id: u32| collected(outcomes).dom().contains(id) implies ids.contains(id) by {
            if id == outcomes.last().0 {
                assert(asked(outcomes)[outcomes.len() - 1] == id);
            } else {
                assert(collected(front).dom().contains(id));
                let i = choose|i: int| 0 <= i < asked(front).len() && asked(front)[i] == id;
                assert(asked(outcomes)[i] == id);
            }
        }
    }
    vstd::set_lib::lemma_len_subset(collected(outcomes).dom(), ids);
}

/// Whether the lookup at place `i` of `outcomes` was one of `id` that found
/// an item.
pub open spec fn found_at(outcomes: Seq<(u32, Result<Option<Item>, Error>)>, id: u32, i: int) -> bool {
    0 <= i < outcomes.len() && outcomes[i].0 == id && outcomes[i].1 is Ok
        && outcomes[i].1->Ok_0 is Some
}

/// An id has an entry in the map of a batch exactly when one of its lookups
/// found an item.
pub proof fn batch_holds_the_ids_that_were_found(
    outcomes: Seq<(u32, Result<Option<Item>, Error>)>,
    id: u32,
)
    ensures
        collected(outcomes).contains_key(id) <==> exists|i: int| found_at(outcomes, id, i),
    decreases outcomes.len(),
{
    if outcomes.len() > 0 {
        let front = outcomes.drop_last();
        batch_holds_the_ids_that_were_found(front, id);
        if exists|i: int| found_at(front, id, i) {
            let i = choose|i: int| found_at(front, id, i);
            assert(found_at(outcomes, id, i));
        }
        if exists|i: int| found_at(outcomes, id, i) {
            let i = choose|i: int| found_at(outcomes, id, i);
            if i < front.len() {
                assert(found_at(front, id, i));
            }
        }
        if found_at(outcomes, id, outcomes.len() - 1) {
            assert(collected(outcomes).contains_key(id));
        }
    }
}

/// The entry of an id is the item that the last of its successful lookups
/// found.
pub proof fn batch_keeps_the_item_found_last(
    outcomes: Seq<(u32, Result<Option<Item>, Error>)>,
    id: u32,
    i: int,
)
    requires
        found_at(outcomes, id, i),
        forall|j: int| i < j < outcomes.len() ==> !found_at(outcomes, id, j),
    ensures
        collected(outcomes).contains_key(id),
        collected(outcomes)[id] == outcomes[i].1->Ok_0->0,
    decreases outcomes.len(),
{
    if i < outcomes.len() - 1 {
        let front = outcomes.drop_last();
        assert(!found_at(outcomes, id, outcomes.len() - 1));
        assert(found_at(front, id, i));
        assert forall|j: int| i < j < front.len() implies !found_at(front, id, j) by {
            assert(!found_at(outcomes, id, j));
        }
        batch_keeps_the_item_found_last(front, id, i);
    }
}

/// Where every lookup of a batch answers with what one snapshot of the
/// upstream holds, the batch finds exactly the ids asked for that the
/// snapshot resolves, each with its item, in whatever order the lookups end
/// and however often an id was asked for.
pub proof fn batch_finds_the_resolvable_ids(
    upstream: Map<u32, Item>,
    outcomes: Seq<(u32, Result<Option<Item>, Error>)>,
)
    requires
        forall|i: int|
            0 <= i < outcomes.len() ==> (#[trigger] outcomes[i]).1 == Ok::<Option<Item>, Error>(
                resolve(upstream, outcomes[i].0),
            ),
    ensures
        collected(outcomes) == upstream.restrict(asked(outcomes).to_set()),
    decreases outcomes.len(),
{
    let ids = asked(outcomes).to_set();
    if outcomes.len() == 0 {
        assert(collected(outcomes) =~= upstream.restrict(ids));
    } else {
        let front = outcomes.drop_last();
        let last = outcomes.last();
        assert forall|i: int| 0 <= i < front.len() implies (#[trigger] front[i]).1 == Ok::<
            Option<Item>,
            Error,
        >(resolve(upstream, front[i].0)) by {
            assert(front[i] == outcomes[i]);
        }
        batch_finds_the_resolvable_ids(upstream, front);
        assert forall|id: u32| ids.contains(id) <==> (asked(front).to_set().contains(id) || id
            == last.0) by {
            if ids.contains(id) {
                let i = choose|i: int| 0 <= i < asked(outcomes).len() && asked(outcomes)[i] == id;
                if i < front.len() {
                    assert(asked(front)[i] == id);
                }
            }
            if asked(front).to_set().contains(id) {
                let i = choose|i: int| 0 <= i < asked(front).len() && asked(front)[i] == id;
                assert(asked(outcomes)[i] == id);
            }
            if id == last.0 {
                assert(asked(outcomes)[outcomes.len() - 1] == id);
            }
        }
        assert(collected(outcomes) =~= upstream.restrict(ids));
    }
}

} // verus!
