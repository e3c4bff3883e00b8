use chrono::Utc;
use item_store::cron::{cap_list, save_rank, ListRow, RankHistory, RankRecord, Tables, TopList};
use item_store::cron::{RANK_METRIC, TOP_STORIES_KEY, TOP_STORIES_LIMIT};

fn setup() -> Tables {
    Tables::new()
}

fn ranks(pool: &Tables) -> Vec<(i64, i64)> {
    pool.metrics.records().iter().map(|record| (record.item_id, record.value)).collect()
}

fn ranks_of(pool: &Tables, item_id: i64) -> Vec<(i64,)> {
    pool.metrics
        .records()
        .iter()
        .filter(|record| record.item_id == item_id)
        .map(|record| (record.value,))
        .collect()
}

fn list(pool: &Tables) -> Vec<(i64, i64)> {
    pool.list.rows().iter().map(|row| (row.item_id, row.ordering)).collect()
}

#[test]
fn saves_ranks_when_none_exist() {
    let mut pool = setup();

    save_rank(&mut pool, &vec![40], Utc::now().timestamp());

    let got = ranks(&pool);
    let want = vec![(40, 1)];
    assert_eq!(got, want)
}

#[test]
fn saves_ranks_when_duplicate_exists() {
    let mut pool = setup();
    let t2 = Utc::now().timestamp();
    let t1 = t2 - 1;

    save_rank(&mut pool, &vec![40], t1);
    save_rank(&mut pool, &vec![40], t2);

    let got = ranks(&pool);
    let want = vec![(40, 1)];
    assert_eq!(got, want)
}

#[test]
fn saves_ranks_when_duplicate_exists_but_rank_changes() {
    let mut pool = setup();
    let t4 = Utc::now().timestamp();
    let t3 = t4 - 1;
    let t2 = t3 - 1;
    let t1 = t2 - 1;

    save_rank(&mut pool, &vec![40, 41], t1);
    save_rank(&mut pool, &vec![40, 41], t2);
    save_rank(&mut pool, &vec![41, 40], t3);
    save_rank(&mut pool, &vec![40, 41], t4);

    let got = ranks_of(&pool, 40);
    let want = vec![(1,), (2,), (1,)];
    assert_eq!(got, want)
}

#[test]
fn saves_top_stories() {
    let mut pool = setup();

    save_rank(&mut pool, &vec![40], Utc::now().timestamp());

    let got = list(&pool);
    let want = vec![(40, 0)];
    assert_eq!(got, want);

    save_rank(&mut pool, &vec![41], Utc::now().timestamp());

    let got = list(&pool);
    let want = vec![(41, 0)];
    assert_eq!(got, want);
}

#[test]
fn rank_history_of_one_item_over_four_cycles() {
    let mut pool = setup();

    let first = save_rank(&mut pool, &vec![40], 100);
    assert_eq!(first, vec![RankRecord { item_id: 40, value: 1, created_at: 100 }]);

    let second = save_rank(&mut pool, &vec![40], 120);
    assert_eq!(second, vec![]);

    let third = save_rank(&mut pool, &vec![41, 40], 140);
    assert_eq!(
        third,
        vec![
            RankRecord { item_id: 41, value: 1, created_at: 140 },
            RankRecord { item_id: 40, value: 2, created_at: 140 },
        ]
    );

    let fourth = save_rank(&mut pool, &vec![40, 41], 160);
    assert_eq!(
        fourth,
        vec![
            RankRecord { item_id: 40, value: 1, created_at: 160 },
            RankRecord { item_id: 41, value: 2, created_at: 160 },
        ]
    );

    assert_eq!(ranks_of(&pool, 40), vec![(1,), (2,), (1,)]);
    assert_eq!(
        pool.metrics.records()[0],
        RankRecord { item_id: 40, value: 1, created_at: 100 }
    );
    assert_eq!(pool.metrics.len(), 5);
}

#[test]
fn top_list_is_replaced_not_merged() {
    let mut pool = setup();

    save_rank(&mut pool, &vec![7, 8], 10);
    assert_eq!(
        pool.list.rows(),
        &vec![
            ListRow { item_id: 7, ordering: 0, created_at: 10 },
            ListRow { item_id: 8, ordering: 1, created_at: 10 },
        ]
    );

    save_rank(&mut pool, &vec![9], 20);
    assert_eq!(pool.list.rows(), &vec![ListRow { item_id: 9, ordering: 0, created_at: 20 }]);
}

#[test]
fn empty_list_clears_the_top_list_and_writes_no_rank() {
    let mut pool = setup();
    save_rank(&mut pool, &vec![7, 8], 10);

    let written = save_rank(&mut pool, &vec![], 20);

    assert_eq!(written, vec![]);
    assert_eq!(list(&pool), vec![]);
    assert_eq!(ranks(&pool), vec![(7, 1), (8, 2)]);
}

#[test]
fn cycle_records_the_first_thirty_entries_only() {
    let mut pool = setup();
    let ids: Vec<u32> = (1..=45).collect();

    let written = save_rank(&mut pool, &ids, 10);

    assert_eq!(TOP_STORIES_LIMIT, 30);
    assert_eq!(written.len(), 30);
    assert_eq!(pool.list.rows().len(), 30);
    assert_eq!(pool.list.rows()[29], ListRow { item_id: 30, ordering: 29, created_at: 10 });
    assert_eq!(written[29], RankRecord { item_id: 30, value: 30, created_at: 10 });
    assert_eq!(pool.metrics.latest(31), None);
    assert_eq!(cap_list(&ids), (1..=30).collect::<Vec<u32>>());
    assert_eq!(cap_list(&vec![5, 6]), vec![5, 6]);
}

#[test]
fn an_id_that_stands_twice_gets_both_ranks() {
    let mut pool = setup();

    let written = save_rank(&mut pool, &vec![40, 40], 10);

    assert_eq!(
        written,
        vec![
            RankRecord { item_id: 40, value: 1, created_at: 10 },
            RankRecord { item_id: 40, value: 2, created_at: 10 },
        ]
    );
    assert_eq!(pool.metrics.latest(40), Some(2));
}

#[test]
fn record_writes_on_change_only() {
    let mut history = RankHistory::new();
    assert_eq!(history.latest(5), None);

    assert!(history.record(5, 3, 100));
    assert!(!history.record(5, 3, 200));
    assert!(history.record(6, 3, 200));
    assert!(history.record(5, 4, 300));
    assert!(history.record(5, 3, 400));

    assert_eq!(history.latest(5), Some(3));
    assert_eq!(history.latest(6), Some(3));
    assert_eq!(history.len(), 4);
    assert_eq!(
        history.records(),
        &vec![
            RankRecord { item_id: 5, value: 3, created_at: 100 },
            RankRecord { item_id: 6, value: 3, created_at: 200 },
            RankRecord { item_id: 5, value: 4, created_at: 300 },
            RankRecord { item_id: 5, value: 3, created_at: 400 },
        ]
    );
}

#[test]
fn top_list_replace_numbers_rows_from_zero() {
    let mut list = TopList::new();
    assert_eq!(list.rows().len(), 0);

    list.replace(&vec![u32::MAX, 0], -5);

    assert_eq!(
        list.rows(),
        &vec![
            ListRow { item_id: 4_294_967_295, ordering: 0, created_at: -5 },
            ListRow { item_id: 0, ordering: 1, created_at: -5 },
        ]
    );
}

#[test]
fn the_most_recent_rank_goes_by_the_time_of_the_records() {
    let mut history = RankHistory::new();

    assert!(history.record(5, 3, 100));
    assert!(history.record(5, 4, 50));
    assert_eq!(history.latest(5), Some(3));
    assert!(!history.record(5, 3, 60));
    assert!(history.record(5, 4, 100));
    assert_eq!(history.latest(5), Some(4));

    assert_eq!(history.len(), 3);
}

#[test]
fn a_cycle_that_is_dated_before_the_history_compares_with_the_most_recent_rank() {
    let mut pool = setup();
    save_rank(&mut pool, &vec![40, 41], 100);

    let written = save_rank(&mut pool, &vec![41, 40], 50);
    assert_eq!(
        written,
        vec![
            RankRecord { item_id: 41, value: 1, created_at: 50 },
            RankRecord { item_id: 40, value: 2, created_at: 50 },
        ]
    );

    let again = save_rank(&mut pool, &vec![40, 41], 60);
    assert_eq!(again, vec![]);
}

#[test]
fn the_names_under_which_the_tables_are_kept() {
    assert_eq!(TOP_STORIES_KEY, "top_stories");
    assert_eq!(RANK_METRIC, "rank");
}
