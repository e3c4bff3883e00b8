//! The tree walker: the descendants of an item, level by level, and its
//! ancestors, parent by parent, both with a fuse on the size of the result.
//!
//! A walk never fetches. It names the ids to fetch next, takes what the
//! lookups answered, and knows when it is done.

use crate::domain::Item;
use crate::fetcher::resolve;
use crate::result::Error;
use std::collections::HashMap;
use vstd::prelude::*;

verus! {

broadcast use vstd::std_specs::hash::group_hash_axioms;

/// The recommended fuse: the number of items at which a walk stops.
pub const DEFAULT_CAP: usize = 10_000;

/// What a walk over descendants holds, as mathematical values.
pub struct WalkView {
    /// The ids to fetch next.
    pub frontier: Seq<u32>,
    /// The items found so far, each under the id it was fetched by.
    pub found: Map<u32, Item>,
    /// The fuse: the walk records no more items than this.
    pub cap: nat,
}

/// The state of one round while the frontier is gone through: the items
/// recorded, the frontier of the next round, and what was fetched and has not
/// been looked at yet.
pub struct Round {
    pub found: Map<u32, Item>,
    pub next: Seq<u32>,
    pub rest: Map<u32, Item>,
}

/// One id of the frontier is gone through: where an item was fetched for it,
/// and the fuse leaves room, the item is recorded and its children join the
/// next frontier. An item fetched for it is looked at once, however often the
/// id stands in the frontier.
pub open spec fn visit(round: Round, id: u32, cap: nat) -> Round {
    if !round.rest.contains_key(id) {
        round
    } else if round.found.len() < cap {
        Round {
            found: round.found.insert(id, round.rest[id]),
            next: round.next + round.rest[id]@.kids(),
            rest: round.rest.remove(id),
        }
    } else {
        Round { found: round.found, next: round.next, rest: round.rest.remove(id) }
    }
}

/// The ids of `frontier` are gone through in order.
pub open spec fn visit_all(start: Round, frontier: Seq<u32>, cap: nat) -> Round {
    frontier.fold_left(start, |round: Round, id: u32| visit(round, id, cap))
}

impl WalkView {
    /// A walk is done when there is nothing left to fetch, or when the fuse
    /// has been reached.
    pub open spec fn done(self) -> bool {
        self.frontier.len() == 0 || self.found.len() >= self.cap
    }

    /// The walk after one round, in which `fetched` is what the lookups of
    /// the frontier answered.
    pub open spec fn absorb(self, fetched: Map<u32, Item>) -> WalkView {
        let round = visit_all(
            Round { found: self.found, next: Seq::empty(), rest: fetched },
            self.frontier,
            self.cap,
        );
        WalkView { frontier: round.next, found: round.found, cap: self.cap }
    }
}

/// A breadth-first walk over the descendants of an item.
pub struct Descendants {
    frontier: Vec<u32>,
    found: HashMap<u32, Item>,
    cap: usize,
}

impl View for Descendants {
    type V = WalkView;

    closed spec fn view(&self) -> WalkView {
        WalkView { frontier: self.frontier@, found: self.found@, cap: self.cap as nat }
    }
}

impl Descendants {
    #[verifier::type_invariant]
    spec fn within_cap(self) -> bool {
        self.found@.len() <= self.cap
    }

    /// A walk over the descendants of `root` that records at most `cap`
    /// items. It starts at the children of `root`; without a root there is
    /// nothing to walk.
    pub fn start(root: Option<&Item>, cap: usize) -> (out: Descendants)
        ensures
            out@.frontier == match root {
                Some(item) => item@.kids(),
                None => Seq::<u32>::empty(),
            },
            out@.found == Map::<u32, Item>::empty(),
            out@.cap == cap,
    {
        let frontier = match root {
            Some(item) => item.kids(),
            None => Vec::new(),
        };
        Descendants { frontier, found: HashMap::new(), cap }
    }

    /// The ids to fetch next.
    pub fn frontier(&self) -> (out: &Vec<u32>)
        ensures
            out@ == self@.frontier,
    {
        &self.frontier
    }

    /// The number of items found so far. It never exceeds the fuse.
    pub fn len(&self) -> (out: usize)
        ensures
            out == self@.found.len(),
            out <= self@.cap,
    {
        proof {
            use_type_invariant(self);
        }
        self.found.len()
    }

    /// Whether the walk is over: nothing is left to fetch, or the fuse has
    /// been reached.
    pub fn is_done(&self) -> (out: bool)
        ensures
            out == self@.done(),
    {
        self.frontier.len() == 0 || self.found.len() >= self.cap
    }

    /// One round: `fetched` is what the lookups of the frontier answered.
    /// Every item in it that was fetched for an id of the frontier is
    /// recorded, and the children of the recorded items become the next
    /// frontier. An id without an item in `fetched` is passed over, and its
    /// children with it. Where the fuse is reached within the round, the
    /// items beyond it are dropped.
    pub fn absorb(&mut self, fetched: HashMap<u32, Item>)
        ensures
            final(self)@ == old(self)@.absorb(fetched@),
            final(self)@.found.len() <= final(self)@.cap,
    {
        proof {
            use_type_invariant(&*self);
        }
        // The round works on the parts of the walk by value and puts the
        // walk together again at its end.
        let mut walk = Descendants { frontier: Vec::new(), found: HashMap::new(), cap: 0 };
        core::mem::swap(self, &mut walk);
        let Descendants { frontier, found, cap } = walk;
        let mut found = found;
        let mut rest = fetched;
        let mut next: Vec<u32> = Vec::new();
        let ghost start = Round { found: found@, next: Seq::empty(), rest: fetched@ };
        let mut i: usize = 0;
        while i < frontier.len()
            invariant
                i <= frontier.len(),
                found@.len() <= cap,
                (Round { found: found@, next: next@, rest: rest@ }) == visit_all(
                    start,
                    frontier@.take(i as int),
                    cap as nat,
                ),
            decreases frontier.len() - i,
        {
            let ghost before = Round { found: found@, next: next@, rest: rest@ };
            let id: u32 = frontier[i];
            match rest.remove(&id) {
                Some(item) => {
                    if found.len() < cap {
                        let mut kids = item.kids();
                        next.append(&mut kids);
                        found.insert(id, item);
                    }
                },
                None => {},
            }
            proof {
                assert(frontier@.take(i + 1).drop_last() == frontier@.take(i as int));
                assert(rest@ =~= visit(before, id, cap as nat).rest);
            }
            i = i + 1;
        }
        *self = Descendants { frontier: next, found, cap };
    }

    /// The items found, each under the id it was fetched by.
    pub fn finish(self) -> (out: HashMap<u32, Item>)
        ensures
            out@ == self@.found,
            out@.len() <= self@.cap,
    {
        proof {
            use_type_invariant(&self);
        }
        self.found
    }
}

/// What a walk over ancestors holds, as mathematical values.
pub struct ClimbView {
    /// The id to fetch next: the parent of the item fetched last.
    pub next: Option<u32>,
    /// The ancestors found so far, each under the id it was fetched by.
    pub found: Map<u32, Item>,
    /// The fuse: the walk records no more items than this.
    pub cap: nat,
}

/// What a lookup found, where a lookup that failed counts as one that found
/// nothing.
pub open spec fn tolerated(answer: Result<Option<Item>, Error>) -> Option<Item> {
    match answer {
        Ok(found) => found,
        Err(_) => None,
    }
}

impl ClimbView {
    /// A walk is done when there is no parent left to fetch, or when the
    /// fuse has been reached.
    pub open spec fn done(self) -> bool {
        self.next is None || self.found.len() >= self.cap
    }

    /// The walk after the lookup of the next id has answered with `parent`:
    /// an item is recorded, and the walk goes on with that item's own
    /// parent. The walk ends where nothing was found, where the item has no
    /// parent, and where the fuse leaves no room.
    pub open spec fn absorb(self, parent: Option<Item>) -> ClimbView {
        if self.next is Some && parent is Some && self.found.len() < self.cap {
            ClimbView {
                next: parent->0@.parent(),
                found: self.found.insert(self.next->0, parent->0),
                cap: self.cap,
            }
        } else {
            ClimbView { next: None, found: self.found, cap: self.cap }
        }
    }
}

/// A walk up the chain of parents of an item.
pub struct Ancestors {
    next: Option<u32>,
    found: HashMap<u32, Item>,
    cap: usize,
}

impl View for Ancestors {
    type V = ClimbView;

    closed spec fn view(&self) -> ClimbView {
        ClimbView { next: self.next, found: self.found@, cap: self.cap as nat }
    }
}

impl Ancestors {
    #[verifier::type_invariant]
    spec fn within_cap(self) -> bool {
        self.found@.len() <= self.cap
    }

    /// A walk over the ancestors of `item` that records at most `cap` items.
    /// It starts at the parent of `item`; without an item, or with one that
    /// has no parent, there is nothing to walk.
    pub fn start(item: Option<&Item>, cap: usize) -> (out: Ancestors)
        ensures
            out@.next == match item {
                Some(item) => item@.parent(),
                None => None::<u32>,
            },
            out@.found == Map::<u32, Item>::empty(),
            out@.cap == cap,
    {
        let next = match item {
            Some(item) => item.parent(),
            None => None,
        };
        Ancestors { next, found: HashMap::new(), cap }
    }

    /// The id to fetch next.
    pub fn next(&self) -> (out: Option<u32>)
        ensures
            out == self@.next,
    {
        self.next
    }

    /// The number of items found so far. It never exceeds the fuse.
    pub fn len(&self) -> (out: usize)
        ensures
            out == self@.found.len(),
            out <= self@.cap,
    {
        proof {
            use_type_invariant(self);
        }
        self.found.len()
    }

    /// Whether the walk is over: there is no parent left to fetch, or the
    /// fuse has been reached.
    pub fn is_done(&self) -> (out: bool)
        ensures
            out == self@.done(),
    {
        self.next.is_none() || self.found.len() >= self.cap
    }

    /// One step: `answer` is what the lookup of the next id answered. An
    /// item is recorded under that id, and the walk goes on with the item's
    /// own parent. A lookup that found nothing ends the walk, and so does one
    /// that failed: the walk answers with the ancestors it could get.
    pub fn absorb(&mut self, answer: Result<Option<Item>, Error>)
        ensures
            final(self)@ == old(self)@.absorb(tolerated(answer)),
            final(self)@.found.len() <= final(self)@.cap,
    {
        proof {
            use_type_invariant(&*self);
        }
        // The step works on the parts of the walk by value and puts the walk
        // together again at its end.
        let mut walk = Ancestors { next: None, found: HashMap::new(), cap: 0 };
        core::mem::swap(self, &mut walk);
        let Ancestors { next, found, cap } = walk;
        let mut found = found;
        let mut onward: Option<u32> = None;
        match (next, answer) {
            (Some(id), Ok(Some(parent))) => {
                if found.len() < cap {
                    onward = parent.parent();
                    found.insert(id, parent);
                }
            },
            _ => {},
        }
        *self = Ancestors { next: onward, found, cap };
    }

    /// The ancestors found, each under the id it was fetched by.
    pub fn finish(self) -> (out: HashMap<u32, Item>)
        ensures
            out@ == self@.found,
            out@.len() <= self@.cap,
    {
        proof {
            use_type_invariant(&self);
        }
        self.found
    }
}

/// What the lookups of `ids` answer where the upstream holds `upstream` and
/// every lookup succeeds: the items of the ids that resolve.
pub open spec fn fetch(upstream: Map<u32, Item>, ids: Seq<u32>) -> Map<u32, Item> {
    upstream.restrict(ids.to_set())
}

/// The walk over descendants after at most `rounds` more rounds against the
/// upstream snapshot `upstream`. A walk that is done stays as it is.
pub open spec fn walked(upstream: Map<u32, Item>, walk: WalkView, rounds: nat) -> WalkView
    decreases rounds,
{
    if rounds == 0 || walk.done() {
        walk
    } else {
        walked(upstream, walk.absorb(fetch(upstream, walk.frontier)), (rounds - 1) as nat)
    }
}

/// The items of `upstream` form a finite tree, or any graph without a cycle,
/// exactly when some height orders them: every child that an item lists
/// stands lower than the item.
pub open spec fn lower_children(upstream: Map<u32, Item>, height: spec_fn(u32) -> nat) -> bool {
    forall|id: u32, k: int|
        upstream.contains_key(id) && 0 <= k < upstream[id]@.kids().len() ==> height(
            #[trigger] upstream[id]@.kids()[k],
        ) < height(id)
}

/// Every id of `ids` stands lower than `bound`.
pub open spec fn all_below(ids: Seq<u32>, height: spec_fn(u32) -> nat, bound: nat) -> bool {
    forall|i: int| 0 <= i < ids.len() ==> height(#[trigger] ids[i]) < bound
}

/// A walk without children to fetch is done from the start and has found
/// nothing: an item with no children has no descendants.
pub proof fn childless_root_has_no_descendants(upstream: Map<u32, Item>, cap: nat, rounds: nat)
    ensures
        (WalkView { frontier: Seq::empty(), found: Map::empty(), cap }).done(),
        walked(upstream, WalkView { frontier: Seq::empty(), found: Map::empty(), cap }, rounds)
            == (WalkView { frontier: Seq::empty(), found: Map::empty(), cap }),
{
}

/// The walk over ancestors after at most `steps` more lookups against the
/// upstream snapshot `upstream`. A walk that is done stays as it is.
pub open spec fn climbed(upstream: Map<u32, Item>, walk: ClimbView, steps: nat) -> ClimbView
    decreases steps,
{
    if steps == 0 || walk.done() {
        walk
    } else {
        climbed(upstream, walk.absorb(resolve(upstream, walk.next->0)), (steps - 1) as nat)
    }
}

/// The chains of parents in `upstream` are finite exactly when some height
/// orders them: the parent that an item names stands lower than the item.
pub open spec fn lower_parents(upstream: Map<u32, Item>, height: spec_fn(u32) -> nat) -> bool {
    forall|id: u32|
        upstream.contains_key(id) && (#[trigger] upstream[id])@.parent() is Some ==> height(
            upstream[id]@.parent()->0,
        ) < height(id)
}

/// On a finite chain of parents a walk comes to its end: where every parent
/// stands lower than its child and the id to fetch next stands lower than
/// `bound`, the walk is done after at most `bound` lookups.
pub proof fn climb_ends_on_finite_chain(
    upstream: Map<u32, Item>,
    height: spec_fn(u32) -> nat,
    walk: ClimbView,
    bound: nat,
)
    requires
        lower_parents(upstream, height),
        walk.next is Some ==> height(walk.next->0) < bound,
    ensures
        climbed(upstream, walk, bound).done(),
    decreases bound,
{
    if bound > 0 && !walk.done() {
        let answer = resolve(upstream, walk.next->0);
        climb_ends_on_finite_chain(upstream, height, walk.absorb(answer), (bound - 1) as nat);
    }
}

/// The ids of the first `steps` items on the chain of parents that starts at
/// `next`, as far as `upstream` resolves it.
pub open spec fn parents(upstream: Map<u32, Item>, next: Option<u32>, steps: nat) -> Set<u32>
    decreases steps,
{
    if steps == 0 || next is None || !upstream.contains_key(next->0) {
        Set::empty()
    } else {
        parents(upstream, upstream[next->0]@.parent(), (steps - 1) as nat).insert(next->0)
    }
}

/// Whether the fuse stays out of reach during the next `steps` lookups of a
/// walk against `upstream`.
pub open spec fn fuse_above_chain(upstream: Map<u32, Item>, walk: ClimbView, steps: nat) -> bool
    decreases steps,
{
    steps == 0 || (walk.found.len() + 1 < walk.cap && fuse_above_chain(
        upstream,
        walk.absorb(resolve(upstream, walk.next->0)),
        (steps - 1) as nat,
    ))
}

/// While the fuse is out of reach, a walk records the chain of parents item
/// by item: after a number of lookups it holds that many items of the chain,
/// or all of them where the chain is shorter.
pub proof fn climb_finds_the_chain(upstream: Map<u32, Item>, walk: ClimbView, steps: nat)
    requires
        walk.found.dom().finite(),
        fuse_above_chain(upstream, walk, steps),
    ensures
        climbed(upstream, walk, steps).found == walk.found.union_prefer_right(
            upstream.restrict(parents(upstream, walk.next, steps)),
        ),
    decreases steps,
{
    let chain = upstream.restrict(parents(upstream, walk.next, steps));
    if steps == 0 || walk.done() {
        assert(walk.found =~= walk.found.union_prefer_right(chain));
    } else {
        let after = walk.absorb(resolve(upstream, walk.next->0));
        climb_finds_the_chain(upstream, after, (steps - 1) as nat);
        assert(climbed(upstream, walk, steps).found =~= walk.found.union_prefer_right(chain));
    }
}

/// A walk up from an item without a parent, such as a story, is done from the
/// start and stays without ancestors, whatever it is told.
pub proof fn parentless_item_has_no_ancestors(cap: nat, answer: Option<Item>)
    ensures
        (ClimbView { next: None, found: Map::empty(), cap }).done(),
        (ClimbView { next: None, found: Map::empty(), cap }).absorb(answer) == (ClimbView {
            next: None,
            found: Map::empty(),
            cap,
        }),
{
}

/// A round never takes the result over the fuse, whatever the lookups
/// answered: a frontier that names ids again and again, or an item that
/// lists itself as its child, cannot make the result grow beyond it.
pub proof fn round_stays_within_cap(walk: WalkView, fetched: Map<u32, Item>)
    requires
        walk.found.dom().finite(),
        walk.found.len() <= walk.cap,
    ensures
        walk.absorb(fetched).found.dom().finite(),
        walk.absorb(fetched).found.len() <= walk.cap,
{
    lemma_visits_stay_within_cap(
        Round { found: walk.found, next: Seq::empty(), rest: fetched },
        walk.frontier,
        walk.cap,
    );
}

proof fn lemma_visits_stay_within_cap(start: Round, frontier: Seq<u32>, cap: nat)
    requires
        start.found.dom().finite(),
        start.found.len() <= cap,
    ensures
        visit_all(start, frontier, cap).found.dom().finite(),
        visit_all(start, frontier, cap).found.len() <= cap,
    decreases frontier.len(),
{
    if frontier.len() > 0 {
        lemma_visits_stay_within_cap(start, frontier.drop_last(), cap);
    }
}

/// Whether `kid` is a child that the item fetched for `id` lists.
pub open spec fn child_of(fetched: Map<u32, Item>, id: u32, kid: u32) -> bool {
    fetched.contains_key(id) && fetched[id]@.kids().contains(kid)
}

/// A round records every item that was fetched for an id of the frontier,
/// where the items recorded before and those of the round fit under the
/// fuse together, and the next frontier holds exactly the children of the
/// items of the round. An item that was recorded before under the same id is
/// replaced.
pub proof fn round_records_what_was_fetched(walk: WalkView, fetched: Map<u32, Item>)
    requires
        walk.found.dom().finite(),
        fetched.dom().finite(),
        walk.found.len() + fetched.restrict(walk.frontier.to_set()).len() <= walk.cap,
    ensures
        walk.absorb(fetched).found == walk.found.union_prefer_right(
            fetched.restrict(walk.frontier.to_set()),
        ),
        forall|kid: u32|
            walk.absorb(fetched).frontier.contains(kid) <==> exists|id: u32|
                walk.frontier.contains(id) && #[trigger] child_of(fetched, id, kid),
{
    lemma_visits_record_what_fits(walk.found, fetched, walk.frontier, walk.cap);
}

proof fn lemma_visits_record_what_fits(
    found: Map<u32, Item>,
    fetched: Map<u32, Item>,
    frontier: Seq<u32>,
    cap: nat,
)
    requires
        found.dom().finite(),
        fetched.dom().finite(),
        found.len() + fetched.restrict(frontier.to_set()).len() <= cap,
    ensures
        visit_all(Round { found, next: Seq::empty(), rest: fetched }, frontier, cap).found
            == found.union_prefer_right(fetched.restrict(frontier.to_set())),
        visit_all(Round { found, next: Seq::empty(), rest: fetched }, frontier, cap).rest
            == fetched.remove_keys(frontier.to_set()),
        forall|kid: u32|
            visit_all(
                Round { found, next: Seq::empty(), rest: fetched },
                frontier,
                cap,
            ).next.contains(kid) <==> exists|id: u32|
                frontier.contains(id) && #[trigger] child_of(fetched, id, kid),
    decreases frontier.len(),
{
    let start = Round { found, next: Seq::empty(), rest: fetched };
    let all = frontier.to_set();
    if frontier.len() == 0 {
        assert(visit_all(start, frontier, cap).found =~= found.union_prefer_right(
            fetched.restrict(all),
        ));
        assert(visit_all(start, frontier, cap).rest =~= fetched.remove_keys(all));
    } else {
        let front = frontier.drop_last();
        let id = frontier.last();
        let seen = front.to_set();
        assert forall|key: u32| all.contains(key) <==> (seen.contains(key) || key == id) by {
            if all.contains(key) {
                let i = choose|i: int| 0 <= i < frontier.len() && frontier[i] == key;
                if i < front.len() {
                    assert(front[i] == key);
                }
            }
            if seen.contains(key) {
                let i = choose|i: int| 0 <= i < front.len() && front[i] == key;
                assert(frontier[i] == key);
            }
            if key == id {
                assert(frontier[frontier.len() - 1] == key);
            }
        }
        let part = fetched.restrict(seen).dom();
        let whole = fetched.restrict(all).dom();
        assert(whole.subset_of(fetched.dom()));
        vstd::set_lib::lemma_len_subset(whole, fetched.dom());
        assert(part.subset_of(whole));
        vstd::set_lib::lemma_len_subset(part, whole);
        lemma_visits_record_what_fits(found, fetched, front, cap);
        let before = visit_all(start, front, cap);
        let after = visit(before, id, cap);
        assert(visit_all(start, frontier, cap) == after);
        if before.rest.contains_key(id) {
            assert(whole =~= part.insert(id));
            assert(before.found.dom() =~= found.dom().union(part));
            vstd::set_lib::lemma_len_union(found.dom(), part);
            assert(before.found.len() < cap);
        }
        assert(after.found =~= found.union_prefer_right(fetched.restrict(all)));
        assert(after.rest =~= fetched.remove_keys(all));
        assert forall|kid: u32| after.next.contains(kid) <==> exists|other: u32|
            frontier.contains(other) && #[trigger] child_of(fetched, other, kid) by {
            let kids = fetched[id]@.kids();
            if after.next.contains(kid) {
                let i = choose|i: int| 0 <= i < after.next.len() && after.next[i] == kid;
                if i < before.next.len() {
                    assert(before.next[i] == kid);
                    assert(before.next.contains(kid));
                    let other = choose|other: u32|
                        front.contains(other) && #[trigger] child_of(fetched, other, kid);
                    assert(all.contains(other));
                } else {
                    assert(before.rest.contains_key(id));
                    assert(kids[i - before.next.len()] == kid);
                    assert(all.contains(id) && child_of(fetched, id, kid));
                }
            }
            if exists|other: u32|
                frontier.contains(other) && #[trigger] child_of(fetched, other, kid) {
                let other = choose|other: u32|
                    frontier.contains(other) && #[trigger] child_of(fetched, other, kid);
                assert(all.contains(other));
                if seen.contains(other) {
                    assert(front.contains(other) && child_of(fetched, other, kid));
                    assert(before.next.contains(kid));
                    let i = choose|i: int| 0 <= i < before.next.len() && before.next[i] == kid;
                    assert(after.next[i] == before.next[i]);
                } else {
                    assert(other == id);
                    assert(before.rest.contains_key(id));
                    let j = choose|j: int| 0 <= j < kids.len() && kids[j] == kid;
                    assert(after.next[before.next.len() + j] == kid);
                }
            }
        }
    }
}

/// The children that the items of `ids` list in `upstream`.
pub open spec fn children(upstream: Map<u32, Item>, ids: Set<u32>) -> Set<u32> {
    Set::new(
        |kid: u32| exists|id: u32| ids.contains(id) && #[trigger] child_of(upstream, id, kid),
    )
}

/// The ids that stand `depth` levels below `ids` in `upstream`.
pub open spec fn level(upstream: Map<u32, Item>, ids: Set<u32>, depth: nat) -> Set<u32>
    decreases depth,
{
    if depth == 0 {
        ids
    } else {
        level(upstream, children(upstream, ids), (depth - 1) as nat)
    }
}

/// The ids of the first `depth` levels from `ids` on downwards in
/// `upstream`, the level of `ids` itself being the first.
pub open spec fn levels(upstream: Map<u32, Item>, ids: Set<u32>, depth: nat) -> Set<u32>
    decreases depth,
{
    if depth == 0 {
        Set::empty()
    } else {
        ids.union(levels(upstream, children(upstream, ids), (depth - 1) as nat))
    }
}

/// Whether the fuse stays out of reach during the next `rounds` rounds of a
/// walk against `upstream`.
pub open spec fn fuse_out_of_reach(upstream: Map<u32, Item>, walk: WalkView, rounds: nat) -> bool
    decreases rounds,
{
    rounds == 0 || (walk.found.len() + fetch(upstream, walk.frontier).len() < walk.cap
        && fuse_out_of_reach(
        upstream,
        walk.absorb(fetch(upstream, walk.frontier)),
        (rounds - 1) as nat,
    ))
}

/// While the fuse is out of reach, a walk finds the tree level by level:
/// after a number of rounds it has recorded every item of that many levels
/// that the upstream resolves, and its frontier is the level below them.
pub proof fn walk_finds_every_level(upstream: Map<u32, Item>, walk: WalkView, rounds: nat)
    requires
        upstream.dom().finite(),
        walk.found.dom().finite(),
        fuse_out_of_reach(upstream, walk, rounds),
    ensures
        walked(upstream, walk, rounds).frontier.to_set() == level(
            upstream,
            walk.frontier.to_set(),
            rounds,
        ),
        walked(upstream, walk, rounds).found == walk.found.union_prefer_right(
            upstream.restrict(levels(upstream, walk.frontier.to_set(), rounds)),
        ),
    decreases rounds,
{
    let ids = walk.frontier.to_set();
    if rounds == 0 {
        assert(walk.found =~= walk.found.union_prefer_right(
            upstream.restrict(levels(upstream, ids, rounds)),
        ));
    } else if walk.done() {
        assert(ids =~= Set::<u32>::empty());
        lemma_nothing_below_nothing(upstream, rounds);
        assert(walk.found =~= walk.found.union_prefer_right(
            upstream.restrict(levels(upstream, ids, rounds)),
        ));
    } else {
        let fetched = fetch(upstream, walk.frontier);
        let after = walk.absorb(fetched);
        assert(fetched.dom().subset_of(upstream.dom()));
        vstd::set_lib::lemma_len_subset(fetched.dom(), upstream.dom());
        assert(fetched.restrict(ids) =~= fetched);
        round_records_what_was_fetched(walk, fetched);
        round_stays_within_cap(walk, fetched);
        assert(after.frontier.to_set() =~= children(upstream, ids)) by {
            assert forall|kid: u32|
                after.frontier.to_set().contains(kid) <==> children(upstream, ids).contains(
                    kid,
                ) by {
                if after.frontier.contains(kid) {
                    let id = choose|id: u32|
                        walk.frontier.contains(id) && #[trigger] child_of(fetched, id, kid);
                    assert(ids.contains(id) && child_of(upstream, id, kid));
                }
                if children(upstream, ids).contains(kid) {
                    let id = choose|id: u32|
                        ids.contains(id) && #[trigger] child_of(upstream, id, kid);
                    assert(walk.frontier.contains(id) && child_of(fetched, id, kid));
                }
            }
        }
        walk_finds_every_level(upstream, after, (rounds - 1) as nat);
        assert(walked(upstream, walk, rounds).found =~= walk.found.union_prefer_right(
            upstream.restrict(levels(upstream, ids, rounds)),
        ));
    }
}

/// Below no ids at all there is nothing, at any depth.
proof fn lemma_nothing_below_nothing(upstream: Map<u32, Item>, depth: nat)
    ensures
        level(upstream, Set::empty(), depth) == Set::<u32>::empty(),
        levels(upstream, Set::empty(), depth) == Set::<u32>::empty(),
    decreases depth,
{
    if depth > 0 {
        assert(children(upstream, Set::empty()) =~= Set::<u32>::empty());
        lemma_nothing_below_nothing(upstream, (depth - 1) as nat);
        assert(levels(upstream, Set::empty(), depth) =~= Set::<u32>::empty());
    }
}

/// On a finite tree a walk comes to its end: where every child stands lower
/// than its parent and the frontier stands lower than `bound`, the walk is
/// done after at most `bound` rounds.
pub proof fn walk_ends_on_finite_tree(
    upstream: Map<u32, Item>,
    height: spec_fn(u32) -> nat,
    walk: WalkView,
    bound: nat,
)
    requires
        lower_children(upstream, height),
        all_below(walk.frontier, height, bound),
    ensures
        walked(upstream, walk, bound).done(),
    decreases bound,
{
    if bound == 0 {
        if walk.frontier.len() > 0 {
            assert(height(walk.frontier[0]) < bound);
        }
    } else if !walk.done() {
        let fetched = fetch(upstream, walk.frontier);
        let start = Round { found: walk.found, next: Seq::empty(), rest: fetched };
        lemma_next_frontier_is_lower(upstream, height, start, walk.frontier, walk.cap, bound);
        walk_ends_on_finite_tree(upstream, height, walk.absorb(fetched), (bound - 1) as nat);
    }
}

/// Every entry of `part` is an entry of `whole`.
spec fn taken_from(part: Map<u32, Item>, whole: Map<u32, Item>) -> bool {
    forall|id: u32| #[trigger]
        part.contains_key(id) ==> whole.contains_key(id) && part[id] == whole[id]
}

proof fn lemma_next_frontier_is_lower(
    upstream: Map<u32, Item>,
    height: spec_fn(u32) -> nat,
    start: Round,
    frontier: Seq<u32>,
    cap: nat,
    bound: nat,
)
    requires
        bound > 0,
        lower_children(upstream, height),
        all_below(frontier, height, bound),
        all_below(start.next, height, (bound - 1) as nat),
        taken_from(start.rest, upstream),
    ensures
        all_below(visit_all(start, frontier, cap).next, height, (bound - 1) as nat),
        taken_from(visit_all(start, frontier, cap).rest, upstream),
    decreases frontier.len(),
{
    if frontier.len() > 0 {
        let front = frontier.drop_last();
        let id = frontier.last();
        assert forall|i: int| 0 <= i < front.len() implies height(#[trigger] front[i])
            < bound by {
            assert(front[i] == frontier[i]);
        }
        lemma_next_frontier_is_lower(upstream, height, start, front, cap, bound);
        let before = visit_all(start, front, cap);
        let after = visit(before, id, cap);
        assert(visit_all(start, frontier, cap) == after);
        assert(height(id) < bound) by {
            assert(frontier[frontier.len() - 1] == id);
        }
        if before.rest.contains_key(id) && before.found.len() < cap {
            let kids = before.rest[id]@.kids();
            assert(upstream.contains_key(id) && upstream[id] == before.rest[id]);
            assert forall|i: int| 0 <= i < after.next.len() implies height(
                #[trigger] after.next[i],
            ) < bound - 1 by {
                if i < before.next.len() {
                    assert(after.next[i] == before.next[i]);
                } else {
                    let k = i - before.next.len();
                    assert(after.next[i] == kids[k]);
                    assert(height(upstream[id]@.kids()[k]) < height(id));
                }
            }
        }
    }
}

} // verus!
