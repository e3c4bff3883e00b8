use crate::text::{human_time, safe_text, sanitized, time_in_words};
use vstd::prelude::*;

verus! {

/// A comment.
#[derive(Debug, PartialEq, Eq)]
pub struct Comment {
    /// The item's unique id.
    pub id: u32,
    /// The username of the item's author.
    pub by: String,
    /// The ids of the item's comments, in ranked display order.
    pub kids: Option<Vec<u32>>,
    /// The comment's parent: either another comment or the relevant story.
    pub parent: u32,
    /// The comment text. HTML.
    pub text: String,
    /// Creation date of the item, in seconds since the Unix epoch.
    pub time: i64,
}

/// What a [`Comment`] holds, as mathematical values.
pub struct CommentView {
    pub id: u32,
    pub by: Seq<char>,
    pub kids: Option<Seq<u32>>,
    pub parent: u32,
    pub text: Seq<char>,
    pub time: i64,
}

impl View for Comment {
    type V = CommentView;

    open spec fn view(&self) -> CommentView {
        CommentView {
            id: self.id,
            by: self.by@,
            kids: self.kids.deep_view(),
            parent: self.parent,
            text: self.text@,
            time: self.time,
        }
    }
}

impl Clone for Comment {
    fn clone(&self) -> (out: Self)
        ensures
            out@ == self@,
    {
        Comment {
            id: self.id,
            by: self.by.clone(),
            kids: self.kids.clone(),
            parent: self.parent,
            text: self.text.clone(),
            time: self.time,
        }
    }
}

impl Comment {
    /// The comment text, made safe to show.
    pub fn safe_text(&self) -> (out: String)
        ensures
            out@ == sanitized(self@.text),
    {
        safe_text(self.text.as_str())
    }

    /// The creation date in words, as seen at `now`, in seconds since the
    /// Unix epoch; `None` where the two lie too far apart for words.
    pub fn human_time(&self, now: i64) -> (out: Option<String>)
        ensures
            out.deep_view() == time_in_words(self.time, now),
    {
        human_time(self.time, now)
    }
}

} // verus!
