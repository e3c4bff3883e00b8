//! The rank snapshot: what one cycle writes, given the ranked list it read
//! and the rank history so far.
//!
//! Times are numbers that grow with the clock. Their unit and their epoch
//! are the caller's: only their order is read here.

use vstd::prelude::*;

verus! {

/// How many entries of the ranked list one cycle records.
pub const TOP_STORIES_LIMIT: usize = 30;

/// The key under which the rows of the top list are stored.
pub const TOP_STORIES_KEY: &'static str = "top_stories";

/// The name of the metric that the rank history holds.
pub const RANK_METRIC: &'static str = "rank";

/// "Item `item_id` had rank `value` as of `created_at`": one entry of the
/// append-only rank history.
#[derive(Debug, Clone, Copy, PartialEq, Eq, Structural)]
pub struct RankRecord {
    pub item_id: i64,
    pub value: i64,
    pub created_at: i64,
}

/// One row of the stored top list: the item at zero-based position
/// `ordering`, as of `created_at`.
#[derive(Debug, Clone, Copy, PartialEq, Eq, Structural)]
pub struct ListRow {
    pub item_id: i64,
    pub ordering: i64,
    pub created_at: i64,
}

/// The most recent record of `item_id` in `log`: the one with the greatest
/// time, and of several with that time the one appended last.
pub open spec fn latest_record(log: Seq<RankRecord>, item_id: i64) -> Option<RankRecord>
    decreases log.len(),
{
    if log.len() == 0 {
        None
    } else {
        let earlier = latest_record(log.drop_last(), item_id);
        if log.last().item_id != item_id {
            earlier
        } else if earlier is Some && earlier->0.created_at > log.last().created_at {
            earlier
        } else {
            Some(log.last())
        }
    }
}

/// The rank most recently recorded for `item_id` in `log`.
pub open spec fn latest_rank(log: Seq<RankRecord>, item_id: i64) -> Option<i64> {
    match latest_record(log, item_id) {
        Some(record) => Some(record.value),
        None => None,
    }
}

/// A history is change-compressed when no record repeats the rank that was
/// the most recent for its item when the record was written.
pub open spec fn change_compressed(log: Seq<RankRecord>) -> bool {
    forall|i: int|
        0 <= i < log.len() ==> latest_rank(log.take(i), (#[trigger] log[i]).item_id) != Some(
            log[i].value,
        )
}

/// The records of `log` stand in the order of their times.
pub open spec fn in_time_order(log: Seq<RankRecord>) -> bool {
    forall|i: int, j: int| 0 <= i <= j < log.len() ==> log[i].created_at <= log[j].created_at
}

/// No record of `log` is later than `time`.
pub open spec fn none_after(log: Seq<RankRecord>, time: i64) -> bool {
    forall|i: int| 0 <= i < log.len() ==> (#[trigger] log[i]).created_at <= time
}

/// The rank history: an append-only log that holds a record only where an
/// item's rank differs from the one most recently recorded for it.
pub struct RankHistory {
    records: Vec<RankRecord>,
}

impl View for RankHistory {
    type V = Seq<RankRecord>;

    closed spec fn view(&self) -> Seq<RankRecord> {
        self.records@
    }
}

impl RankHistory {
    #[verifier::type_invariant]
    spec fn compressed(self) -> bool {
        change_compressed(self.records@)
    }

    /// An empty history.
    pub fn new() -> (out: RankHistory)
        ensures
            out@ == Seq::<RankRecord>::empty(),
    {
        RankHistory { records: Vec::new() }
    }

    /// The number of records.
    pub fn len(&self) -> (out: usize)
        ensures
            out == self@.len(),
    {
        self.records.len()
    }

    /// The records in the order in which they were written. They are
    /// change-compressed, whatever was recorded.
    pub fn records(&self) -> (out: &Vec<RankRecord>)
        ensures
            out@ == self@,
            change_compressed(out@),
    {
        proof {
            use_type_invariant(self);
        }
        &self.records
    }

    /// The rank most recently recorded for `item_id`, by the time of the
    /// records.
    pub fn latest(&self, item_id: i64) -> (out: Option<i64>)
        ensures
            out == latest_rank(self@, item_id),
    {
        let mut best: Option<RankRecord> = None;
        let mut i: usize = 0;
        while i < self.records.len()
            invariant
                i <= self.records.len(),
                best == latest_record(self.records@.take(i as int), item_id),
            decreases self.records.len() - i,
        {
            let record = self.records[i];
            proof {
                assert(self.records@.take(i + 1).drop_last() == self.records@.take(i as int));
            }
            if record.item_id == item_id {
                let later = match best {
                    Some(found) => found.created_at > record.created_at,
                    None => false,
                };
                if !later {
                    best = Some(record);
                }
            }
            i = i + 1;
        }
        assert(self.records@.take(i as int) == self.records@);
        match best {
            Some(record) => Some(record.value),
            None => None,
        }
    }

    /// Writes "item `item_id` had rank `value` as of `created_at`", unless
    /// `value` is the rank most recently recorded for that item. Returns
    /// whether a record was written.
    pub fn record(&mut self, item_id: i64, value: i64, created_at: i64) -> (written: bool)
        ensures
            written == (latest_rank(old(self)@, item_id) != Some(value)),
            final(self)@ == if written {
                old(self)@.push(RankRecord { item_id, value, created_at })
            } else {
                old(self)@
            },
            change_compressed(final(self)@),
    {
        proof {
            use_type_invariant(&*self);
        }
        let unchanged = match self.latest(item_id) {
            Some(existing) => existing == value,
            None => false,
        };
        if unchanged {
            false
        } else {
            // The records are taken out, extended and put back.
            let mut history = RankHistory { records: Vec::new() };
            core::mem::swap(self, &mut history);
            let mut records = history.records;
            proof {
                changed_rank_keeps_history_compressed(
                    records@,
                    RankRecord { item_id, value, created_at },
                );
            }
            records.push(RankRecord { item_id, value, created_at });
            *self = RankHistory { records };
            true
        }
    }
}

/// The stored top list: the rows of the latest cycle, in rank order.
pub struct TopList {
    rows: Vec<ListRow>,
}

impl View for TopList {
    type V = Seq<ListRow>;

    closed spec fn view(&self) -> Seq<ListRow> {
        self.rows@
    }
}

impl TopList {
    /// An empty list.
    pub fn new() -> (out: TopList)
        ensures
            out@ == Seq::<ListRow>::empty(),
    {
        TopList { rows: Vec::new() }
    }

    /// The rows in rank order.
    pub fn rows(&self) -> (out: &Vec<ListRow>)
        ensures
            out@ == self@,
    {
        &self.rows
    }

    /// Drops every row and stores `ids` in their place, each at its
    /// zero-based position, as of `created_at`. Nothing of what the list
    /// held before is kept.
    pub fn replace(&mut self, ids: &Vec<u32>, created_at: i64)
        ensures
            final(self)@ == list_rows(ids@, created_at),
    {
        let mut rows: Vec<ListRow> = Vec::new();
        let mut i: usize = 0;
        while i < ids.len()
            invariant
                i <= ids.len(),
                rows@ == list_rows(ids@.take(i as int), created_at),
            decreases ids.len() - i,
        {
            rows.push(ListRow { item_id: ids[i] as i64, ordering: i as i64, created_at });
            i = i + 1;
            assert(rows@ == list_rows(ids@.take(i as int), created_at));
        }
        assert(ids@.take(i as int) == ids@);
        self.rows = rows;
    }
}

/// The rows that stand for the ranked list `ids` as of `created_at`: one per
/// entry, in order, each with its zero-based position.
pub open spec fn list_rows(ids: Seq<u32>, created_at: i64) -> Seq<ListRow> {
    Seq::new(
        ids.len(),
        |i: int| ListRow { item_id: ids[i] as i64, ordering: i as i64, created_at },
    )
}

/// The entries of a ranked list that a cycle records: its first
/// [`TOP_STORIES_LIMIT`].
pub open spec fn capped(ids: Seq<u32>) -> Seq<u32> {
    if ids.len() <= TOP_STORIES_LIMIT {
        ids
    } else {
        ids.take(TOP_STORIES_LIMIT as int)
    }
}

/// The history after a cycle over the ranked list `ids` as of `created_at`:
/// entry by entry, the one-based position is written as the item's rank
/// where it differs from the rank most recently recorded for the item.
pub open spec fn after_cycle(log: Seq<RankRecord>, ids: Seq<u32>, created_at: i64) -> Seq<
    RankRecord,
>
    decreases ids.len(),
{
    if ids.len() == 0 {
        log
    } else {
        let before = after_cycle(log, ids.drop_last(), created_at);
        let item_id = ids.last() as i64;
        let value = ids.len() as i64;
        if latest_rank(before, item_id) == Some(value) {
            before
        } else {
            before.push(RankRecord { item_id, value, created_at })
        }
    }
}

/// The two tables that the snapshot writes: the stored top list and the rank
/// history.
pub struct Tables {
    pub list: TopList,
    pub metrics: RankHistory,
}

impl Tables {
    /// Two empty tables.
    pub fn new() -> (out: Tables)
        ensures
            out.list@ == Seq::<ListRow>::empty(),
            out.metrics@ == Seq::<RankRecord>::empty(),
    {
        Tables { list: TopList::new(), metrics: RankHistory::new() }
    }
}

/// The first [`TOP_STORIES_LIMIT`] entries of `ids`.
pub fn cap_list(ids: &Vec<u32>) -> (out: Vec<u32>)
    ensures
        out@ == capped(ids@),
{
    let mut out: Vec<u32> = Vec::new();
    let mut i: usize = 0;
    while i < ids.len() && i < TOP_STORIES_LIMIT
        invariant
            i <= ids.len(),
            i <= TOP_STORIES_LIMIT,
            out@ == ids@.take(i as int),
        decreases ids.len() - i,
    {
        out.push(ids[i]);
        i = i + 1;
        assert(out@ == ids@.take(i as int));
    }
    assert(ids@.take(ids@.len() as int) == ids@);
    out
}

/// One snapshot cycle over the ranked list `top_stories` as of `ts`.
///
/// The stored top list is replaced by the first [`TOP_STORIES_LIMIT`]
/// entries. For each of them, in order, the one-based position is recorded as
/// the item's rank unless it is the rank most recently recorded for that
/// item. The records that were written are returned in the order of writing.
pub fn save_rank(tables: &mut Tables, top_stories: &Vec<u32>, ts: i64) -> (written: Vec<RankRecord>)
    ensures
        final(tables).list@ == list_rows(capped(top_stories@), ts),
        final(tables).metrics@ == after_cycle(old(tables).metrics@, capped(top_stories@), ts),
        final(tables).metrics@ == old(tables).metrics@ + written@,
        change_compressed(final(tables).metrics@),
{
    let entries = cap_list(top_stories);
    tables.list.replace(&entries, ts);
    let mut written: Vec<RankRecord> = Vec::new();
    let mut i: usize = 0;
    assert(old(tables).metrics@ + written@ == old(tables).metrics@);
    while i < entries.len()
        invariant
            i <= entries.len(),
            entries.len() <= TOP_STORIES_LIMIT,
            tables.list@ == list_rows(entries@, ts),
            tables.metrics@ == after_cycle(old(tables).metrics@, entries@.take(i as int), ts),
            tables.metrics@ == old(tables).metrics@ + written@,
        decreases entries.len() - i,
    {
        let item_id: i64 = entries[i] as i64;
        let value: i64 = (i + 1) as i64;
        let ghost before = tables.metrics@;
        proof {
            assert(entries@.take(i + 1).drop_last() == entries@.take(i as int));
        }
        if tables.metrics.record(item_id, value, ts) {
            written.push(RankRecord { item_id, value, created_at: ts });
            assert(before.push(RankRecord { item_id, value, created_at: ts }) == old(
                tables,
            ).metrics@ + written@);
        }
        i = i + 1;
    }
    assert(entries@.take(i as int) == entries@);
    proof {
        use_type_invariant(&tables.metrics);
    }
    written
}

/// Writing a record whose value differs from the rank most recently recorded
/// for its item keeps a history change-compressed.
pub proof fn changed_rank_keeps_history_compressed(log: Seq<RankRecord>, record: RankRecord)
    requires
        change_compressed(log),
        latest_rank(log, record.item_id) != Some(record.value),
    ensures
        change_compressed(log.push(record)),
{
    let after = log.push(record);
    assert forall|i: int| 0 <= i < after.len() implies latest_rank(
        after.take(i),
        (#[trigger] after[i]).item_id,
    ) != Some(after[i].value) by {
        if i < log.len() {
            assert(after.take(i) == log.take(i));
            assert(after[i] == log[i]);
        } else {
            assert(after.take(i) == log);
        }
    }
}

/// The most recent record of an item is one of the records of that item.
pub proof fn latest_record_is_in_the_log(log: Seq<RankRecord>, item_id: i64) -> (at: int)
    requires
        latest_record(log, item_id) is Some,
    ensures
        0 <= at < log.len(),
        log[at] == latest_record(log, item_id)->0,
        log[at].item_id == item_id,
    decreases log.len(),
{
    if latest_record(log, item_id) == Some(log.last()) && log.last().item_id == item_id {
        log.len() - 1
    } else {
        let at = latest_record_is_in_the_log(log.drop_last(), item_id);
        assert(log.drop_last()[at] == log[at]);
        at
    }
}

/// A record that is written no earlier than every record before it is the
/// most recent one of its item from then on; for every other item nothing
/// changes.
pub proof fn newest_record_is_latest(log: Seq<RankRecord>, record: RankRecord, item_id: i64)
    requires
        none_after(log, record.created_at),
    ensures
        latest_record(log.push(record), item_id) == if record.item_id == item_id {
            Some(record)
        } else {
            latest_record(log, item_id)
        },
{
    assert(log.push(record).drop_last() == log);
    if record.item_id == item_id && latest_record(log, item_id) is Some {
        let at = latest_record_is_in_the_log(log, item_id);
    }
}

/// In a history whose records stand in the order of their times, two records
/// of one item with no record of that item between them never hold the same
/// rank: the history holds changes only.
pub proof fn neighbours_differ_in_time_order(log: Seq<RankRecord>, i: int, j: int)
    requires
        change_compressed(log),
        in_time_order(log),
        0 <= i < j < log.len(),
        log[i].item_id == log[j].item_id,
        forall|k: int| i < k < j ==> log[k].item_id != log[j].item_id,
    ensures
        log[i].value != log[j].value,
{
    lemma_latest_in_time_order(log.take(j), log[j].item_id, i);
    assert(log.take(j)[i] == log[i]);
}

proof fn lemma_latest_in_time_order(log: Seq<RankRecord>, item_id: i64, at: int)
    requires
        in_time_order(log),
        0 <= at < log.len(),
        log[at].item_id == item_id,
        forall|k: int| at < k < log.len() ==> log[k].item_id != item_id,
    ensures
        latest_record(log, item_id) == Some(log[at]),
    decreases log.len(),
{
    let front = log.drop_last();
    if at == log.len() - 1 {
        if latest_record(front, item_id) is Some {
            let earlier = latest_record_is_in_the_log(front, item_id);
            assert(front[earlier] == log[earlier]);
        }
    } else {
        assert(log[log.len() - 1].item_id != item_id);
        assert(front[at] == log[at]);
        lemma_latest_in_time_order(front, item_id, at);
    }
}

/// The rank of every entry of the ranked list `ids` as of `created_at`: the
/// one-based position.
pub open spec fn ranks_of(ids: Seq<u32>, created_at: i64) -> Seq<RankRecord> {
    Seq::new(
        ids.len(),
        |i: int| RankRecord { item_id: ids[i] as i64, value: (i + 1) as i64, created_at },
    )
}

/// The ranks of the entries of `ids` that differ from the rank most recently
/// recorded for the item in `log`.
pub open spec fn changed_ranks(log: Seq<RankRecord>, ids: Seq<u32>, created_at: i64) -> Seq<
    RankRecord,
> {
    ranks_of(ids, created_at).filter(
        |record: RankRecord| latest_rank(log, record.item_id) != Some(record.value),
    )
}

/// A cycle over a list without repeated ids writes exactly the ranks that
/// have changed, in the order of the list: each entry is held against the
/// history as it was before the cycle.
pub proof fn cycle_writes_the_changed_ranks(log: Seq<RankRecord>, ids: Seq<u32>, created_at: i64)
    requires
        ids.no_duplicates(),
        ids.len() <= i64::MAX,
    ensures
        after_cycle(log, ids, created_at) == log + changed_ranks(log, ids, created_at),
    decreases ids.len(),
{
    let changed = |record: RankRecord| latest_rank(log, record.item_id) != Some(record.value);
    if ids.len() == 0 {
        assert(ranks_of(ids, created_at) =~= Seq::<RankRecord>::empty());
        ranks_of(ids, created_at).lemma_filter_len(changed);
        assert(log + changed_ranks(log, ids, created_at) =~= log);
    } else {
        let front = ids.drop_last();
        let record = RankRecord {
            item_id: ids.last() as i64,
            value: ids.len() as i64,
            created_at,
        };
        cycle_writes_the_changed_ranks(log, front, created_at);
        let written = changed_ranks(log, front, created_at);
        assert(ranks_of(ids, created_at) =~= ranks_of(front, created_at).push(record));
        ranks_of(front, created_at).lemma_filter_push(record, changed);
        assert forall|k: int| 0 <= k < written.len() implies (#[trigger] written[k]).item_id
            != record.item_id by {
            ranks_of(front, created_at).lemma_filter_contains_rev(changed, written[k]);
            let i = choose|i: int|
                0 <= i < front.len() && ranks_of(front, created_at)[i] == written[k];
            assert(front[i] == ids[i]);
            assert(ids[i] != ids[ids.len() - 1]);
        }
        lemma_other_items_leave_latest(log, written, record.item_id);
        if changed(record) {
            assert(log + written.push(record) =~= (log + written).push(record));
        }
    }
}

/// Records of other items leave the most recent record of an item as it is.
proof fn lemma_other_items_leave_latest(
    log: Seq<RankRecord>,
    more: Seq<RankRecord>,
    item_id: i64,
)
    requires
        forall|k: int| 0 <= k < more.len() ==> (#[trigger] more[k]).item_id != item_id,
    ensures
        latest_record(log + more, item_id) == latest_record(log, item_id),
    decreases more.len(),
{
    if more.len() == 0 {
        assert(log + more =~= log);
    } else {
        assert((log + more).drop_last() =~= log + more.drop_last());
        assert((log + more).last() == more[more.len() - 1]);
        lemma_other_items_leave_latest(log, more.drop_last(), item_id);
    }
}

/// A cycle as of `created_at` adds no record later than `created_at`.
proof fn lemma_cycle_adds_none_after(log: Seq<RankRecord>, ids: Seq<u32>, created_at: i64)
    requires
        none_after(log, created_at),
    ensures
        none_after(after_cycle(log, ids, created_at), created_at),
    decreases ids.len(),
{
    if ids.len() > 0 {
        lemma_cycle_adds_none_after(log, ids.drop_last(), created_at);
    }
}

/// After a cycle that is no earlier than the records before it, over a list
/// without repeated ids, the rank most recently recorded for each entry is
/// its one-based position.
pub proof fn cycle_records_every_position(
    log: Seq<RankRecord>,
    ids: Seq<u32>,
    created_at: i64,
    i: int,
)
    requires
        none_after(log, created_at),
        ids.no_duplicates(),
        0 <= i < ids.len() <= i64::MAX,
    ensures
        latest_rank(after_cycle(log, ids, created_at), ids[i] as i64) == Some((i + 1) as i64),
    decreases ids.len(),
{
    let front = ids.drop_last();
    let before = after_cycle(log, front, created_at);
    let record = RankRecord {
        item_id: ids.last() as i64,
        value: ids.len() as i64,
        created_at,
    };
    lemma_cycle_adds_none_after(log, front, created_at);
    newest_record_is_latest(before, record, ids[i] as i64);
    if i < ids.len() - 1 {
        assert(front[i] == ids[i]);
        assert(ids[ids.len() - 1] != ids[i]);
        cycle_records_every_position(log, front, created_at, i);
    }
}

/// A cycle over the list that the cycle before it saw writes nothing: where
/// no id stands twice in the list and the first cycle was no earlier than the
/// records before it, the second finds every entry with its rank unchanged,
/// whenever it runs.
pub proof fn repeated_list_writes_nothing(
    log: Seq<RankRecord>,
    ids: Seq<u32>,
    first: i64,
    second: i64,
)
    requires
        none_after(log, first),
        ids.no_duplicates(),
        ids.len() <= i64::MAX,
    ensures
        after_cycle(after_cycle(log, ids, first), ids, second) == after_cycle(log, ids, first),
{
    lemma_known_ranks_write_nothing(log, ids, first, second, ids.len());
    assert(ids.take(ids.len() as int) == ids);
}

proof fn lemma_known_ranks_write_nothing(
    log: Seq<RankRecord>,
    ids: Seq<u32>,
    first: i64,
    second: i64,
    n: nat,
)
    requires
        none_after(log, first),
        ids.no_duplicates(),
        n <= ids.len() <= i64::MAX,
    ensures
        after_cycle(after_cycle(log, ids, first), ids.take(n as int), second) == after_cycle(
            log,
            ids,
            first,
        ),
    decreases n,
{
    if n > 0 {
        let prefix = ids.take(n as int);
        assert(prefix.drop_last() == ids.take(n - 1));
        lemma_known_ranks_write_nothing(log, ids, first, second, (n - 1) as nat);
        cycle_records_every_position(log, ids, first, n - 1);
    }
}

} // verus!
