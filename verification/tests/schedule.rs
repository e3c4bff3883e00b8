use item_store::cron::{backfill_window, start, Action, BackfillWindow, Event, Phase};
use item_store::cron::{cursor_from_text, cursor_to_text};
use item_store::cron::PAUSE_SECONDS;

#[test]
fn a_round_in_which_all_goes_well() {
    let (mut task, first) = start();
    assert_eq!(first, Action::FetchTopStories);
    assert_eq!(task.phase(), Phase::TopStories);

    assert_eq!(task.step(Event::Listed(vec![3, 1, 2])), Action::SaveRank(vec![3, 1, 2]));
    assert_eq!(task.phase(), Phase::SavingRank);
    assert_eq!(task.step(Event::Finished), Action::CacheItems(vec![3, 1, 2]));
    assert_eq!(task.phase(), Phase::WarmingCache);
    assert_eq!(task.step(Event::Finished), Action::Sleep(20));
    assert_eq!(task.phase(), Phase::PauseAfterRanks);
    assert_eq!(task.step(Event::Finished), Action::FetchUpdates);
    assert_eq!(task.phase(), Phase::Updates);
    assert_eq!(task.step(Event::Listed(vec![9])), Action::StoreItems(vec![9]));
    assert_eq!(task.phase(), Phase::StoringUpdates);
    assert_eq!(task.step(Event::Finished), Action::Sleep(20));
    assert_eq!(task.phase(), Phase::PauseAfterUpdates);
    assert_eq!(task.step(Event::Finished), Action::FetchTopStories);
    assert_eq!(task.phase(), Phase::TopStories);
    assert_eq!(PAUSE_SECONDS, 20);
}

#[test]
fn a_failed_fetch_skips_to_the_pause() {
    let (mut task, _) = start();

    assert_eq!(task.step(Event::Failed), Action::Sleep(20));
    assert_eq!(task.phase(), Phase::PauseAfterRanks);
    assert_eq!(task.step(Event::Finished), Action::FetchUpdates);
    assert_eq!(task.step(Event::Failed), Action::Sleep(20));
    assert_eq!(task.phase(), Phase::PauseAfterUpdates);
    assert_eq!(task.step(Event::Finished), Action::FetchTopStories);
}

#[test]
fn a_failed_snapshot_does_not_stop_the_round() {
    let (mut task, _) = start();
    task.step(Event::Listed(vec![5, 6]));

    assert_eq!(task.step(Event::Failed), Action::CacheItems(vec![5, 6]));
    assert_eq!(task.step(Event::Failed), Action::Sleep(20));
    assert_eq!(task.step(Event::Failed), Action::FetchUpdates);
    assert_eq!(task.step(Event::Listed(vec![])), Action::StoreItems(vec![]));
    assert_eq!(task.step(Event::Failed), Action::Sleep(20));
    assert_eq!(task.step(Event::Failed), Action::FetchTopStories);
    assert_eq!(task.step(Event::Listed(vec![1])), Action::SaveRank(vec![1]));
}

#[test]
fn a_list_that_comes_out_of_turn_counts_as_the_end_of_the_work() {
    let (mut task, _) = start();
    task.step(Event::Listed(vec![5, 6]));

    assert_eq!(task.step(Event::Listed(vec![7])), Action::CacheItems(vec![5, 6]));
    assert_eq!(task.step(Event::Listed(vec![7])), Action::Sleep(20));
    assert_eq!(task.step(Event::Listed(vec![7])), Action::FetchUpdates);
}

#[test]
fn the_task_comes_back_to_the_top_list_within_seven_steps() {
    let events = [
        || Event::Failed,
        || Event::Finished,
        || Event::Listed(vec![1, 2]),
    ];
    for make in events.iter() {
        let (mut task, _) = start();
        let mut steps = 0;
        loop {
            let action = task.step(make());
            steps += 1;
            if action == Action::FetchTopStories {
                break;
            }
            assert!(steps < 7);
        }
        assert_eq!(task.phase(), Phase::TopStories);
    }
}

#[test]
fn backfill_window_reaches_limit_ids_beyond_the_cursor() {
    let window = backfill_window(10, 5, 100);
    assert_eq!(window, BackfillWindow { ids: vec![10, 11, 12, 13, 14, 15], cursor: 15 });
}

#[test]
fn backfill_window_starts_at_zero() {
    let window = backfill_window(0, 3, 100);
    assert_eq!(window, BackfillWindow { ids: vec![0, 1, 2, 3], cursor: 3 });
}

#[test]
fn backfill_window_stops_at_the_newest_item() {
    let window = backfill_window(98, 5, 100);
    assert_eq!(window, BackfillWindow { ids: vec![98, 99, 100], cursor: 100 });

    let at_end = backfill_window(100, 5, 100);
    assert_eq!(at_end, BackfillWindow { ids: vec![100], cursor: 100 });
}

#[test]
fn backfill_cursor_never_moves_back() {
    let window = backfill_window(50, 5, 20);
    assert_eq!(window, BackfillWindow { ids: vec![], cursor: 50 });
}

#[test]
fn backfill_window_does_not_overflow() {
    let window = backfill_window(u32::MAX - 1, u32::MAX, u32::MAX);
    assert_eq!(window, BackfillWindow { ids: vec![u32::MAX - 1, u32::MAX], cursor: u32::MAX });

    let none = backfill_window(7, 0, 9);
    assert_eq!(none, BackfillWindow { ids: vec![7], cursor: 7 });
}

#[test]
fn cursor_text_is_the_decimal_numeral() {
    assert_eq!(cursor_to_text(0), "0");
    assert_eq!(cursor_to_text(7), "7");
    assert_eq!(cursor_to_text(10), "10");
    assert_eq!(cursor_to_text(30_114_514), "30114514");
    assert_eq!(cursor_to_text(u32::MAX), "4294967295");
}

#[test]
fn cursor_is_read_from_a_decimal_numeral() {
    assert_eq!(cursor_from_text("0"), Some(0));
    assert_eq!(cursor_from_text("7"), Some(7));
    assert_eq!(cursor_from_text("007"), Some(7));
    assert_eq!(cursor_from_text("30114514"), Some(30_114_514));
    assert_eq!(cursor_from_text("4294967295"), Some(u32::MAX));
}

#[test]
fn cursor_is_not_read_from_anything_else() {
    assert_eq!(cursor_from_text(""), None);
    assert_eq!(cursor_from_text("4294967296"), None);
    assert_eq!(cursor_from_text("99999999999999999999999999"), None);
    assert_eq!(cursor_from_text("12a"), None);
    assert_eq!(cursor_from_text("a12"), None);
    assert_eq!(cursor_from_text("-1"), None);
    assert_eq!(cursor_from_text("+1"), None);
    assert_eq!(cursor_from_text(" 1"), None);
    assert_eq!(cursor_from_text("1.5"), None);
    assert_eq!(cursor_from_text("\u{0663}"), None);
}

#[test]
fn a_stored_cursor_is_read_back() {
    for cursor in [0, 1, 9, 10, 99, 100, 12_345, 4_294_967_294, u32::MAX] {
        assert_eq!(cursor_from_text(&cursor_to_text(cursor)), Some(cursor));
    }
}
