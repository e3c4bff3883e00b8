//! The record under which an item is kept in storage: the columns that
//! queries read, beside the document as the upstream sent it.

use crate::domain;
use vstd::prelude::*;
use vstd::std_specs::convert::FromSpecImpl;

verus! {

/// The stored record of an item. A column that the item's kind does not have
/// is `None`.
#[derive(Debug, PartialEq, Eq)]
pub struct Item {
    /// The item's unique id.
    pub id: i64,
    /// The item as the upstream sent it.
    pub original: String,
    /// The total comment count of a story.
    pub descendants: Option<i64>,
    /// The username of the author of a story or a comment.
    pub username: Option<String>,
    /// The score of a story or a job.
    pub score: Option<i64>,
    /// The title of a story or a job.
    pub title: Option<String>,
    /// The URL of a story or a job.
    pub url: Option<String>,
    /// The text of the item. HTML.
    pub body: Option<String>,
    /// Creation date of the item, in seconds since the Unix epoch.
    pub time: Option<i64>,
}

impl Item {
    /// The record of `input`, where `original` is the document that the
    /// upstream sent for it, column by column.
    pub open spec fn record_of(input: domain::Item, original: String) -> Item {
        Item {
            id: input@.id() as i64,
            original,
            descendants: match input {
                domain::Item::Story(story) => Some(story.descendants as i64),
                _ => None,
            },
            username: match input {
                domain::Item::Story(story) => Some(story.by),
                domain::Item::Comment(comment) => Some(comment.by),
                domain::Item::Job(_) => None,
            },
            score: match input {
                domain::Item::Story(story) => Some(story.score as i64),
                domain::Item::Comment(_) => None,
                domain::Item::Job(job) => Some(job.score as i64),
            },
            title: match input {
                domain::Item::Story(story) => Some(story.title),
                domain::Item::Comment(_) => None,
                domain::Item::Job(job) => Some(job.title),
            },
            url: match input {
                domain::Item::Story(story) => story.url,
                domain::Item::Comment(_) => None,
                domain::Item::Job(job) => job.url,
            },
            body: match input {
                domain::Item::Story(story) => story.text,
                domain::Item::Comment(comment) => Some(comment.text),
                domain::Item::Job(job) => job.text,
            },
            time: match input {
                domain::Item::Story(story) => Some(story.time),
                domain::Item::Comment(comment) => Some(comment.time),
                domain::Item::Job(job) => Some(job.time),
            },
        }
    }
}

impl From<(domain::Item, String)> for Item {
    /// The record of an item, from the item and the document that the
    /// upstream sent for it.
    fn from(input: (domain::Item, String)) -> (out: Item) {
        let (item, original) = input;
        match item {
            domain::Item::Story(inner) => Item {
                id: inner.id as i64,
                original,
                descendants: Some(inner.descendants as i64),
                username: Some(inner.by),
                score: Some(inner.score as i64),
                title: Some(inner.title),
                url: inner.url,
                body: inner.text,
                time: Some(inner.time),
            },
            domain::Item::Comment(inner) => Item {
                id: inner.id as i64,
                original,
                descendants: None,
                username: Some(inner.by),
                score: None,
                title: None,
                url: None,
                body: Some(inner.text),
                time: Some(inner.time),
            },
            domain::Item::Job(inner) => Item {
                id: inner.id as i64,
                original,
                descendants: None,
                username: None,
                score: Some(inner.score as i64),
                title: Some(inner.title),
                url: inner.url,
                body: inner.text,
                time: Some(inner.time),
            },
        }
    }
}

impl FromSpecImpl<(domain::Item, String)> for Item {
    open spec fn obeys_from_spec() -> bool {
        true
    }

    open spec fn from_spec(input: (domain::Item, String)) -> Item {
        Item::record_of(input.0, input.1)
    }
}

} // verus!
