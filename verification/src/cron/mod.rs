//! The background work: the recurring rank snapshot, the order in which the
//! background task does its work, and the window of the historical sweep.

pub mod backfill;
pub mod rank;
pub mod schedule;

pub use backfill::{backfill_window, cursor_from_text, cursor_to_text, BackfillWindow};
pub use rank::{
    after_cycle, cap_list, capped, change_compressed, changed_ranks, in_time_order, latest_rank,
    latest_record, list_rows, none_after, ranks_of, save_rank, ListRow, RankHistory, RankRecord,
    Tables, TopList, RANK_METRIC, TOP_STORIES_KEY, TOP_STORIES_LIMIT,
};
pub use schedule::{start, Action, Event, Phase, Snapshotter, PAUSE_SECONDS};
