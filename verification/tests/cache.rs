use item_store::cache::{Cache, DEFAULT_TTL};
use item_store::domain::comment::Comment;
use item_store::domain::story::Story;
use item_store::domain::Item;
use item_store::result::Error;

fn story(id: u32, kids: Vec<u32>) -> Item {
    Item::Story(Story {
        id,
        descendants: kids.len() as u32,
        by: "ann".to_string(),
        kids: Some(kids),
        score: 10,
        title: format!("story {}", id),
        url: Some("https://example.com/".to_string()),
        text: None,
        time: 1_600_000_000,
    })
}

fn comment(id: u32, parent: u32) -> Item {
    Item::Comment(Comment {
        id,
        by: "bob".to_string(),
        kids: None,
        parent,
        text: "hello".to_string(),
        time: 1_600_000_100,
    })
}

#[test]
fn a_new_cache_is_empty() {
    let mut cache = Cache::new(DEFAULT_TTL);
    assert_eq!(DEFAULT_TTL, 300);
    assert_eq!(cache.ttl(), 300);
    assert_eq!(cache.len(), 0);
    assert_eq!(cache.lookup(1, 0), None);
}

#[test]
fn second_get_within_ttl_is_served_from_the_cache() {
    let mut cache = Cache::new(300);
    let mut upstream_calls = 0;

    let first = match cache.lookup(8, 1000) {
        Some(item) => Ok(Some(item)),
        None => {
            upstream_calls += 1;
            cache.complete(8, Ok(Some(story(8, vec![9]))), 1000)
        }
    };
    let second = match cache.lookup(8, 1299) {
        Some(item) => Ok(Some(item)),
        None => {
            upstream_calls += 1;
            cache.complete(8, Ok(Some(story(8, vec![9, 10]))), 1299)
        }
    };

    assert_eq!(first, Ok(Some(story(8, vec![9]))));
    assert_eq!(second, first);
    assert_eq!(upstream_calls, 1);
    assert_eq!(cache.len(), 1);
}

#[test]
fn entry_is_stale_once_the_ttl_has_passed() {
    let mut cache = Cache::new(300);
    cache.complete(8, Ok(Some(story(8, vec![]))), 1000).unwrap();

    assert_eq!(cache.lookup(8, 1299), Some(story(8, vec![])));
    assert_eq!(cache.len(), 1);
    assert_eq!(cache.lookup(8, 1300), None);
    assert_eq!(cache.len(), 0);
    assert_eq!(cache.lookup(8, 1000), None);
}

#[test]
fn a_clock_that_goes_back_keeps_the_entry_fresh() {
    let mut cache = Cache::new(300);
    cache.complete(8, Ok(Some(story(8, vec![]))), 1000).unwrap();

    assert_eq!(cache.lookup(8, 10), Some(story(8, vec![])));
}

#[test]
fn a_ttl_of_zero_serves_nothing() {
    let mut cache = Cache::new(0);
    cache.complete(8, Ok(Some(story(8, vec![]))), 1000).unwrap();

    assert_eq!(cache.lookup(8, 1000), None);
    assert_eq!(cache.len(), 0);
}

#[test]
fn missing_id_is_absent_every_time() {
    let mut cache = Cache::new(300);

    for now in [10, 11, 12] {
        assert_eq!(cache.lookup(77, now), None);
        assert_eq!(cache.complete(77, Ok(None), now), Ok(None));
        assert_eq!(cache.len(), 0);
    }
}

#[test]
fn not_found_removes_what_was_cached() {
    let mut cache = Cache::new(300);
    cache.complete(8, Ok(Some(story(8, vec![]))), 1000).unwrap();
    cache.complete(9, Ok(Some(comment(9, 8))), 1000).unwrap();

    assert_eq!(cache.lookup(8, 1400), None);
    assert_eq!(cache.complete(8, Ok(None), 1400), Ok(None));
    assert_eq!(cache.complete(9, Ok(None), 1001), Ok(None));

    assert_eq!(cache.lookup(8, 1400), None);
    assert_eq!(cache.lookup(9, 1001), None);
    assert_eq!(cache.len(), 0);
}

#[test]
fn a_failed_fetch_is_handed_on_and_leaves_the_cache_alone() {
    let mut cache = Cache::new(300);
    cache.complete(9, Ok(Some(comment(9, 8))), 1000).unwrap();

    let failed = cache.complete(9, Err(Error::ReqwestError("timed out".to_string())), 1100);

    assert_eq!(failed, Err(Error::ReqwestError("timed out".to_string())));
    assert_eq!(cache.lookup(9, 1200), Some(comment(9, 8)));
}

#[test]
fn a_failed_fetch_does_not_bring_a_stale_entry_back() {
    let mut cache = Cache::new(300);
    cache.complete(9, Ok(Some(comment(9, 8))), 1000).unwrap();

    assert_eq!(cache.lookup(9, 2000), None);
    let failed = cache.complete(9, Err(Error::ReqwestError("timed out".to_string())), 2000);

    assert!(failed.is_err());
    assert_eq!(cache.lookup(9, 2000), None);
    assert_eq!(cache.len(), 0);
}

#[test]
fn a_refresh_replaces_the_entry_and_restarts_its_time() {
    let mut cache = Cache::new(300);
    cache.complete(8, Ok(Some(story(8, vec![9]))), 1000).unwrap();
    cache.complete(8, Ok(Some(story(8, vec![9, 10]))), 1200).unwrap();

    assert_eq!(cache.len(), 1);
    assert_eq!(cache.lookup(8, 1499), Some(story(8, vec![9, 10])));
    assert_eq!(cache.lookup(8, 1500), None);
}

#[test]
fn entries_of_other_ids_are_left_alone() {
    let mut cache = Cache::new(300);
    cache.complete(8, Ok(Some(story(8, vec![9]))), 1000).unwrap();
    cache.complete(9, Ok(Some(comment(9, 8))), 1200).unwrap();

    assert_eq!(cache.lookup(8, 1400), None);

    assert_eq!(cache.len(), 1);
    assert_eq!(cache.lookup(9, 1400), Some(comment(9, 8)));
}
