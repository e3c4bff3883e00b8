use item_store::domain::job::Job;
use item_store::domain::Item;
use item_store::fetcher::{collect_items, FETCH_CEILING};
use item_store::result::Error;
use std::collections::HashMap;

fn job(id: u32, title: &str) -> Item {
    Item::Job(Job {
        id,
        score: 1,
        text: None,
        time: 1_600_000_000,
        title: title.to_string(),
        url: None,
    })
}

#[test]
fn an_empty_batch_finds_nothing() {
    assert_eq!(collect_items(vec![]), HashMap::new());
}

#[test]
fn batch_keeps_what_was_found() {
    let found = collect_items(vec![
        (3, Ok(Some(job(3, "c")))),
        (1, Ok(Some(job(1, "a")))),
        (2, Ok(None)),
    ]);

    let mut want = HashMap::new();
    want.insert(1, job(1, "a"));
    want.insert(3, job(3, "c"));
    assert_eq!(found, want);
}

#[test]
fn batch_with_repeated_ids_has_one_entry_per_id() {
    let found = collect_items(vec![
        (1, Ok(Some(job(1, "a")))),
        (2, Ok(Some(job(2, "b")))),
        (1, Ok(Some(job(1, "a")))),
        (4, Ok(None)),
        (2, Ok(Some(job(2, "b")))),
        (4, Ok(None)),
    ]);

    let mut want = HashMap::new();
    want.insert(1, job(1, "a"));
    want.insert(2, job(2, "b"));
    assert_eq!(found.len(), 2);
    assert_eq!(found, want);
}

#[test]
fn a_failed_lookup_is_left_out_and_the_rest_is_kept() {
    let found = collect_items(vec![
        (1, Ok(Some(job(1, "a")))),
        (2, Err(Error::ReqwestError("connection reset".to_string()))),
        (3, Err(Error::DatabaseError("locked".to_string()))),
        (4, Ok(Some(job(4, "d")))),
    ]);

    let mut want = HashMap::new();
    want.insert(1, job(1, "a"));
    want.insert(4, job(4, "d"));
    assert_eq!(found, want);
}

#[test]
fn the_last_lookup_that_found_an_item_wins() {
    let found = collect_items(vec![
        (1, Ok(Some(job(1, "old")))),
        (1, Ok(Some(job(1, "new")))),
        (1, Ok(None)),
        (1, Err(Error::ReqwestError("timed out".to_string()))),
    ]);

    let mut want = HashMap::new();
    want.insert(1, job(1, "new"));
    assert_eq!(found, want);
}

#[test]
fn the_ceiling_is_fifty() {
    assert_eq!(FETCH_CEILING, 50);
}
