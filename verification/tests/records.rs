use item_store::db;
use item_store::domain::comment::Comment;
use item_store::domain::job::Job;
use item_store::domain::story::Story;
use item_store::domain::Item;

#[test]
fn record_of_a_story() {
    let story = Item::Story(Story {
        id: 1,
        descendants: 2,
        by: "dan".to_string(),
        kids: Some(vec![2, 3]),
        score: 3,
        title: "Title".to_string(),
        url: Some("https://dan.com".to_string()),
        text: Some("body".to_string()),
        time: 1_600_000_000,
    });

    let got = db::Item::from((story, "hey".to_string()));

    let want = db::Item {
        id: 1,
        original: "hey".into(),
        descendants: Some(2),
        username: Some("dan".into()),
        score: Some(3),
        title: Some("Title".into()),
        url: Some("https://dan.com".into()),
        body: Some("body".into()),
        time: Some(1_600_000_000),
    };
    assert_eq!(got, want);
}

#[test]
fn record_of_a_story_without_url_and_text() {
    let story = Item::Story(Story {
        id: u32::MAX,
        descendants: u32::MAX,
        by: String::new(),
        kids: None,
        score: u32::MAX,
        title: String::new(),
        url: None,
        text: None,
        time: -1,
    });

    let got = db::Item::from((story, "{}".to_string()));

    let want = db::Item {
        id: 4_294_967_295,
        original: "{}".into(),
        descendants: Some(4_294_967_295),
        username: Some(String::new()),
        score: Some(4_294_967_295),
        title: Some(String::new()),
        url: None,
        body: None,
        time: Some(-1),
    };
    assert_eq!(got, want);
}

#[test]
fn record_of_a_comment() {
    let comment = Item::Comment(Comment {
        id: 7,
        by: "eve".to_string(),
        kids: Some(vec![8]),
        parent: 1,
        text: "a reply".to_string(),
        time: 1_600_000_500,
    });

    let got = db::Item::from((comment, "{\"id\":7}".to_string()));

    let want = db::Item {
        id: 7,
        original: "{\"id\":7}".into(),
        descendants: None,
        username: Some("eve".into()),
        score: None,
        title: None,
        url: None,
        body: Some("a reply".into()),
        time: Some(1_600_000_500),
    };
    assert_eq!(got, want);
}

#[test]
fn record_of_a_job() {
    let job = Item::Job(Job {
        id: 9,
        score: 4,
        text: Some("we hire".to_string()),
        time: 1_600_000_900,
        title: "Hiring".to_string(),
        url: None,
    });

    let got: db::Item = (job, "job".to_string()).into();

    let want = db::Item {
        id: 9,
        original: "job".into(),
        descendants: None,
        username: None,
        score: Some(4),
        title: Some("Hiring".into()),
        url: None,
        body: Some("we hire".into()),
        time: Some(1_600_000_900),
    };
    assert_eq!(got, want);
}
