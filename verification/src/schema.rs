//! What a listing query decides: how many ids of a ranked list to load, and
//! in what order to hand out the items that were found.

use crate::domain::Item;
use std::collections::HashMap;
use vstd::prelude::*;

verus! {

broadcast use vstd::std_specs::hash::group_hash_axioms;

/// The most items that one listing loads, and the number it loads where the
/// query names none.
pub const PAGE_LIMIT: u32 = 50;

/// The number of ids that a listing loads where the query asks for `limit`.
pub open spec fn page_size(limit: Option<u32>) -> u32 {
    match limit {
        Some(asked) if asked < PAGE_LIMIT => asked,
        _ => PAGE_LIMIT,
    }
}

/// The ids that a listing loads: the first [`page_size`] ids of the list.
pub open spec fn page_of(ids: Seq<u32>, limit: Option<u32>) -> Seq<u32> {
    if ids.len() <= page_size(limit) {
        ids
    } else {
        ids.take(page_size(limit) as int)
    }
}

/// The items of `found` in the order of the list `ids`: each id that has an
/// item contributes it where the id stands first in the list.
pub open spec fn in_list_order(ids: Seq<u32>, found: Map<u32, Item>) -> Seq<Item>
    decreases ids.len(),
{
    if ids.len() == 0 {
        Seq::empty()
    } else {
        let before = in_list_order(ids.drop_last(), found);
        if found.contains_key(ids.last()) && !ids.drop_last().contains(ids.last()) {
            before.push(found[ids.last()])
        } else {
            before
        }
    }
}

/// The ids of the ranked list `ids` that a listing loads where the query
/// asks for `limit` items: at most [`PAGE_LIMIT`], from the front.
pub fn page(ids: &Vec<u32>, limit: Option<u32>) -> (out: Vec<u32>)
    ensures
        out@ == page_of(ids@, limit),
{
    let size: u32 = match limit {
        Some(asked) => if asked < PAGE_LIMIT {
            asked
        } else {
            PAGE_LIMIT
        },
        None => PAGE_LIMIT,
    };
    let mut out: Vec<u32> = Vec::new();
    let mut i: usize = 0;
    while i < ids.len() && i < size as usize
        invariant
            i <= ids.len(),
            i <= size,
            size == page_size(limit),
            out@ == ids@.take(i as int),
        decreases ids.len() - i,
    {
        out.push(ids[i]);
        i = i + 1;
    }
    out
}

/// Hands out the items of `found` in the order of the list `ids`. An id
/// without an item is passed over, and an item is handed out once, at the
/// first place of its id in the list.
pub fn arrange(ids: &Vec<u32>, found: HashMap<u32, Item>) -> (out: Vec<Item>)
    ensures
        out@ == in_list_order(ids@, found@),
{
    let mut rest = found;
    let mut out: Vec<Item> = Vec::new();
    let mut i: usize = 0;
    while i < ids.len()
        invariant
            i <= ids.len(),
            out@ == in_list_order(ids@.take(i as int), found@),
            rest@ == found@.remove_keys(ids@.take(i as int).to_set()),
        decreases ids.len() - i,
    {
        let id: u32 = ids[i];
        let ghost before = rest@;
        let ghost seen = ids@.take(i as int);
        let taken = rest.remove(&id);
        proof {
            let prefix = ids@.take(i + 1);
            assert(prefix.drop_last() == seen);
            assert(prefix.last() == id);
            assert(before.contains_key(id) <==> found@.contains_key(id) && !seen.contains(id));
            assert(rest@ =~= found@.remove_keys(prefix.to_set())) by {
                assert forall|key: u32| prefix.to_set().contains(key) <==> (seen.to_set().contains(
                    key,
                ) || key == id) by {
                    if prefix.contains(key) {
                        let j = choose|j: int| 0 <= j < prefix.len() && prefix[j] == key;
                        if j < i {
                            assert(seen[j] == key);
                        }
                    }
                    if seen.contains(key) {
                        let j = choose|j: int| 0 <= j < seen.len() && seen[j] == key;
                        assert(prefix[j] == key);
                    }
                    if key == id {
                        assert(prefix[i as int] == key);
                    }
                }
            }
        }
        match taken {
            Some(item) => {
                out.push(item);
            },
            None => {},
        }
        i = i + 1;
    }
    assert(ids@.take(i as int) == ids@);
    out
}

/// An item is handed out exactly when it is the item of an id of the list.
pub proof fn items_of_the_list_are_handed_out(ids: Seq<u32>, found: Map<u32, Item>, item: Item)
    ensures
        in_list_order(ids, found).contains(item) <==> exists|i: int|
            0 <= i < ids.len() && found.contains_key(#[trigger] ids[i]) && found[ids[i]] == item,
    decreases ids.len(),
{
    if ids.len() > 0 {
        let front = ids.drop_last();
        let last = ids.last();
        let before = in_list_order(front, found);
        let after = in_list_order(ids, found);
        items_of_the_list_are_handed_out(front, found, item);
        if after.contains(item) {
            let k = choose|k: int| 0 <= k < after.len() && after[k] == item;
            if k < before.len() {
                assert(before[k] == item);
                assert(before.contains(item));
                let i = choose|i: int|
                    0 <= i < front.len() && found.contains_key(#[trigger] front[i])
                        && found[front[i]] == item;
                assert(ids[i] == front[i]);
            } else {
                assert(ids[ids.len() - 1] == last);
            }
        }
        if exists|i: int|
            0 <= i < ids.len() && found.contains_key(#[trigger] ids[i]) && found[ids[i]] == item {
            let i = choose|i: int|
                0 <= i < ids.len() && found.contains_key(#[trigger] ids[i]) && found[ids[i]]
                    == item;
            if i < front.len() {
                assert(front[i] == ids[i]);
                assert(before.contains(item));
                let k = choose|k: int| 0 <= k < before.len() && before[k] == item;
                assert(after[k] == item);
            } else if front.contains(last) {
                let j = choose|j: int| 0 <= j < front.len() && front[j] == last;
                assert(found.contains_key(front[j]) && found[front[j]] == item);
                assert(before.contains(item));
                let k = choose|k: int| 0 <= k < before.len() && before[k] == item;
                assert(after[k] == item);
            } else {
                assert(after[after.len() - 1] == item);
            }
        }
    }
}

/// No more items are handed out than the list has ids.
pub proof fn no_more_items_than_ids(ids: Seq<u32>, found: Map<u32, Item>)
    ensures
        in_list_order(ids, found).len() <= ids.len(),
    decreases ids.len(),
{
    if ids.len() > 0 {
        no_more_items_than_ids(ids.drop_last(), found);
    }
}

} // verus!
