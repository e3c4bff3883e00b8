use crate::text::{human_time, safe_text, sanitized, time_in_words};
use vstd::prelude::*;

verus! {

/// A job posting.
#[derive(Debug, PartialEq, Eq)]
pub struct Job {
    /// The item's unique id.
    pub id: u32,
    /// The job's score.
    pub score: u32,
    /// The job text. HTML.
    pub text: Option<String>,
    /// Creation date of the item, in seconds since the Unix epoch.
    pub time: i64,
    /// The title of the job.
    pub title: String,
    /// The URL of the job.
    pub url: Option<String>,
}

/// What a [`Job`] holds, as mathematical values.
pub struct JobView {
    pub id: u32,
    pub score: u32,
    pub text: Option<Seq<char>>,
    pub time: i64,
    pub title: Seq<char>,
    pub url: Option<Seq<char>>,
}

impl View for Job {
    type V = JobView;

    open spec fn view(&self) -> JobView {
        JobView {
            id: self.id,
            score: self.score,
            text: self.text.deep_view(),
            time: self.time,
            title: self.title@,
            url: self.url.deep_view(),
        }
    }
}

impl Clone for Job {
    fn clone(&self) -> (out: Self)
        ensures
            out@ == self@,
    {
        Job {
            id: self.id,
            score: self.score,
            text: self.text.clone(),
            time: self.time,
            title: self.title.clone(),
            url: self.url.clone(),
        }
    }
}

impl Job {
    /// The job text; empty where the job has none.
    pub fn text(&self) -> (out: String)
        ensures
            out@ == match self@.text {
                Some(text) => text,
                None => Seq::empty(),
            },
    {
        match &self.text {
            Some(text) => text.clone(),
            None => String::new(),
        }
    }

    /// The job text, made safe to show; empty where the job has none.
    pub fn safe_text(&self) -> (out: String)
        ensures
            out@ == sanitized(
                match self@.text {
                    Some(text) => text,
                    None => Seq::empty(),
                },
            ),
    {
        let text = self.text();
        safe_text(text.as_str())
    }

    /// The creation date in words, as seen at `now`, in seconds since the
    /// Unix epoch; `None` where the two lie too far apart for words.
    pub fn human_time(&self, now: i64) -> (out: Option<String>)
        ensures
            out.deep_view() == time_in_words(self.time, now),
    {
        human_time(self.time, now)
    }
}

} // verus!
