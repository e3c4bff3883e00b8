use crate::text::{human_time, safe_text, sanitized, time_in_words};
use vstd::prelude::*;

verus! {

/// A story.
#[derive(Debug, PartialEq, Eq)]
pub struct Story {
    /// The item's unique id.
    pub id: u32,
    /// The total comment count.
    pub descendants: u32,
    /// The username of the item's author.
    pub by: String,
    /// The ids of the item's comments, in ranked display order.
    pub kids: Option<Vec<u32>>,
    /// The story's score.
    pub score: u32,
    /// The title of the story.
    pub title: String,
    /// The URL of the story.
    pub url: Option<String>,
    /// The story text. HTML.
    pub text: Option<String>,
    /// Creation date of the item, in seconds since the Unix epoch.
    pub time: i64,
}

/// What a [`Story`] holds, as mathematical values.
pub struct StoryView {
    pub id: u32,
    pub descendants: u32,
    pub by: Seq<char>,
    pub kids: Option<Seq<u32>>,
    pub score: u32,
    pub title: Seq<char>,
    pub url: Option<Seq<char>>,
    pub text: Option<Seq<char>>,
    pub time: i64,
}

impl View for Story {
    type V = StoryView;

    open spec fn view(&self) -> StoryView {
        StoryView {
            id: self.id,
            descendants: self.descendants,
            by: self.by@,
            kids: self.kids.deep_view(),
            score: self.score,
            title: self.title@,
            url: self.url.deep_view(),
            text: self.text.deep_view(),
            time: self.time,
        }
    }
}

impl Clone for Story {
    fn clone(&self) -> (out: Self)
        ensures
            out@ == self@,
    {
        Story {
            id: self.id,
            descendants: self.descendants,
            by: self.by.clone(),
            kids: self.kids.clone(),
            score: self.score,
            title: self.title.clone(),
            url: self.url.clone(),
            text: self.text.clone(),
            time: self.time,
        }
    }
}

impl Story {
    /// The story text, made safe to show; empty where the story has none.
    pub fn safe_text(&self) -> (out: String)
        ensures
            out@ == sanitized(
                match self@.text {
                    Some(text) => text,
                    None => Seq::empty(),
                },
            ),
    {
        match &self.text {
            Some(text) => safe_text(text.as_str()),
            None => {
                let nothing = String::new();
                safe_text(nothing.as_str())
            },
        }
    }

    /// The creation date in words, as seen at `now`, in seconds since the
    /// Unix epoch; `None` where the two lie too far apart for words.
    pub fn human_time(&self, now: i64) -> (out: Option<String>)
        ensures
            out.deep_view() == time_in_words(self.time, now),
    {
        human_time(self.time, now)
    }
}

} // verus!
