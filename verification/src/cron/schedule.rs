//! The order of the background task's work, as a machine that is told what
//! came of the last piece of work and answers with the next one.
//!
//! One round fetches the top list, saves its ranks, warms the item cache
//! with it and pauses; then it fetches the recent changes, stores the changed
//! items and pauses again. A piece of work that fails is skipped; the round
//! goes on.

use vstd::prelude::*;

verus! {

/// The pause between the two halves of a round, in seconds.
pub const PAUSE_SECONDS: u64 = 20;

/// The piece of work whose outcome the task is waiting for.
#[derive(Debug, Clone, Copy, PartialEq, Eq, Structural)]
pub enum Phase {
    /// Fetching the top list.
    TopStories,
    /// Saving the ranks of the top list.
    SavingRank,
    /// Loading the items of the top list into the cache.
    WarmingCache,
    /// Pausing after the ranks.
    PauseAfterRanks,
    /// Fetching the recent changes.
    Updates,
    /// Fetching and storing the changed items.
    StoringUpdates,
    /// Pausing after the changes.
    PauseAfterUpdates,
}

/// What came of the piece of work that the task was told to do.
#[derive(Debug, PartialEq, Eq)]
pub enum Event {
    /// The upstream answered with a list of ids.
    Listed(Vec<u32>),
    /// The work was done and has nothing to hand back.
    Finished,
    /// The work failed.
    Failed,
}

/// The next piece of work.
#[derive(Debug, PartialEq, Eq)]
pub enum Action {
    /// Fetch the top list from the upstream.
    FetchTopStories,
    /// Run a snapshot cycle over this ranked list.
    SaveRank(Vec<u32>),
    /// Load these items into the cache.
    CacheItems(Vec<u32>),
    /// Pause for this many seconds.
    Sleep(u64),
    /// Fetch the recent changes from the upstream.
    FetchUpdates,
    /// Fetch these items and store them.
    StoreItems(Vec<u32>),
}

/// What an [`Event`] holds, as mathematical values.
pub enum EventView {
    Listed(Seq<u32>),
    Finished,
    Failed,
}

/// What an [`Action`] holds, as mathematical values.
pub enum ActionView {
    FetchTopStories,
    SaveRank(Seq<u32>),
    CacheItems(Seq<u32>),
    Sleep(u64),
    FetchUpdates,
    StoreItems(Seq<u32>),
}

impl View for Event {
    type V = EventView;

    open spec fn view(&self) -> EventView {
        match self {
            Event::Listed(ids) => EventView::Listed(ids@),
            Event::Finished => EventView::Finished,
            Event::Failed => EventView::Failed,
        }
    }
}

impl View for Action {
    type V = ActionView;

    open spec fn view(&self) -> ActionView {
        match self {
            Action::FetchTopStories => ActionView::FetchTopStories,
            Action::SaveRank(ids) => ActionView::SaveRank(ids@),
            Action::CacheItems(ids) => ActionView::CacheItems(ids@),
            Action::Sleep(seconds) => ActionView::Sleep(*seconds),
            Action::FetchUpdates => ActionView::FetchUpdates,
            Action::StoreItems(ids) => ActionView::StoreItems(ids@),
        }
    }
}

/// The state of the background task: the work it waits for, and the top list
/// of the round while its ranks are being saved.
pub struct Snapshotter {
    phase: Phase,
    held: Vec<u32>,
}

/// What a [`Snapshotter`] holds, as mathematical values.
pub struct SnapshotterView {
    pub phase: Phase,
    pub held: Seq<u32>,
}

impl View for Snapshotter {
    type V = SnapshotterView;

    closed spec fn view(&self) -> SnapshotterView {
        SnapshotterView { phase: self.phase, held: self.held@ }
    }
}

/// The state after `event` arrives in `state`, and the work to do next.
pub open spec fn transition(state: SnapshotterView, event: EventView) -> (
    SnapshotterView,
    ActionView,
) {
    let nothing = Seq::<u32>::empty();
    match state.phase {
        Phase::TopStories => match event {
            EventView::Listed(ids) => (
                SnapshotterView { phase: Phase::SavingRank, held: ids },
                ActionView::SaveRank(ids),
            ),
            _ => (
                SnapshotterView { phase: Phase::PauseAfterRanks, held: nothing },
                ActionView::Sleep(PAUSE_SECONDS),
            ),
        },
        Phase::SavingRank => (
            SnapshotterView { phase: Phase::WarmingCache, held: nothing },
            ActionView::CacheItems(state.held),
        ),
        Phase::WarmingCache => (
            SnapshotterView { phase: Phase::PauseAfterRanks, held: nothing },
            ActionView::Sleep(PAUSE_SECONDS),
        ),
        Phase::PauseAfterRanks => (
            SnapshotterView { phase: Phase::Updates, held: nothing },
            ActionView::FetchUpdates,
        ),
        Phase::Updates => match event {
            EventView::Listed(ids) => (
                SnapshotterView { phase: Phase::StoringUpdates, held: nothing },
                ActionView::StoreItems(ids),
            ),
            _ => (
                SnapshotterView { phase: Phase::PauseAfterUpdates, held: nothing },
                ActionView::Sleep(PAUSE_SECONDS),
            ),
        },
        Phase::StoringUpdates => (
            SnapshotterView { phase: Phase::PauseAfterUpdates, held: nothing },
            ActionView::Sleep(PAUSE_SECONDS),
        ),
        Phase::PauseAfterUpdates => (
            SnapshotterView { phase: Phase::TopStories, held: nothing },
            ActionView::FetchTopStories,
        ),
    }
}

/// An upper bound on the pieces of work that are still to be done in `phase`
/// before the top list is fetched again.
pub open spec fn steps_to_next_round(phase: Phase) -> nat {
    match phase {
        Phase::TopStories => 7,
        Phase::SavingRank => 6,
        Phase::WarmingCache => 5,
        Phase::PauseAfterRanks => 4,
        Phase::Updates => 3,
        Phase::StoringUpdates => 2,
        Phase::PauseAfterUpdates => 1,
    }
}

/// The background task at its start, and its first piece of work: to fetch
/// the top list.
pub fn start() -> (out: (Snapshotter, Action))
    ensures
        out.0@ == (SnapshotterView { phase: Phase::TopStories, held: Seq::<u32>::empty() }),
        out.1@ == ActionView::FetchTopStories,
{
    (Snapshotter { phase: Phase::TopStories, held: Vec::new() }, Action::FetchTopStories)
}

impl Snapshotter {
    /// The piece of work whose outcome the task is waiting for.
    pub fn phase(&self) -> (out: Phase)
        ensures
            out == self@.phase,
    {
        self.phase
    }

    /// Takes what came of the last piece of work and answers with the next
    /// one. Every event is accepted in every phase: one that the phase has no
    /// use for counts as the end of the work.
    pub fn step(&mut self, event: Event) -> (action: Action)
        ensures
            (final(self)@, action@) == transition(old(self)@, event@),
    {
        let mut held: Vec<u32> = Vec::new();
        core::mem::swap(&mut self.held, &mut held);
        match self.phase {
            Phase::TopStories => match event {
                Event::Listed(ids) => {
                    self.phase = Phase::SavingRank;
                    self.held = ids.clone();
                    Action::SaveRank(ids)
                },
                _ => {
                    self.phase = Phase::PauseAfterRanks;
                    Action::Sleep(PAUSE_SECONDS)
                },
            },
            Phase::SavingRank => {
                self.phase = Phase::WarmingCache;
                Action::CacheItems(held)
            },
            Phase::WarmingCache => {
                self.phase = Phase::PauseAfterRanks;
                Action::Sleep(PAUSE_SECONDS)
            },
            Phase::PauseAfterRanks => {
                self.phase = Phase::Updates;
                Action::FetchUpdates
            },
            Phase::Updates => match event {
                Event::Listed(ids) => {
                    self.phase = Phase::StoringUpdates;
                    Action::StoreItems(ids)
                },
                _ => {
                    self.phase = Phase::PauseAfterUpdates;
                    Action::Sleep(PAUSE_SECONDS)
                },
            },
            Phase::StoringUpdates => {
                self.phase = Phase::PauseAfterUpdates;
                Action::Sleep(PAUSE_SECONDS)
            },
            Phase::PauseAfterUpdates => {
                self.phase = Phase::TopStories;
                Action::FetchTopStories
            },
        }
    }
}

/// The background task never stops and never gets stuck: whatever comes of a
/// piece of work, failure included, the task is handed a next one, and unless
/// that is the fetch of the top list it is strictly closer to that fetch than
/// before.
pub proof fn failure_never_halts_the_task(state: SnapshotterView, event: EventView)
    ensures
        state.phase == Phase::PauseAfterUpdates ==> transition(state, event).0.phase
            == Phase::TopStories && transition(state, event).1 == ActionView::FetchTopStories,
        state.phase != Phase::PauseAfterUpdates ==> steps_to_next_round(
            transition(state, event).0.phase,
        ) < steps_to_next_round(state.phase),
{
}

} // verus!
