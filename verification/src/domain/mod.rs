//! The items that the upstream serves: stories, comments and jobs.

use vstd::prelude::*;

pub mod comment;
pub mod job;
pub mod story;

use comment::{Comment, CommentView};
use job::{Job, JobView};
use story::{Story, StoryView};

verus! {

/// An item of the upstream, for example a story or a comment.
#[derive(Debug, PartialEq, Eq)]
pub enum Item {
    /// A story.
    Story(Story),
    /// A comment.
    Comment(Comment),
    /// A job.
    Job(Job),
}

/// What an [`Item`] holds, as mathematical values.
pub enum ItemView {
    Story(StoryView),
    Comment(CommentView),
    Job(JobView),
}

impl View for Item {
    type V = ItemView;

    open spec fn view(&self) -> ItemView {
        match self {
            Item::Story(story) => ItemView::Story(story@),
            Item::Comment(comment) => ItemView::Comment(comment@),
            Item::Job(job) => ItemView::Job(job@),
        }
    }
}

/// The view of an item that may be absent.
pub open spec fn maybe_view(item: Option<Item>) -> Option<ItemView> {
    match item {
        Some(item) => Some(item@),
        None => None,
    }
}

impl ItemView {
    /// The id under which the upstream serves the item.
    pub open spec fn id(self) -> u32 {
        match self {
            ItemView::Story(story) => story.id,
            ItemView::Comment(comment) => comment.id,
            ItemView::Job(job) => job.id,
        }
    }

    /// The ids of the item's children in display order; none where the item
    /// lists none or cannot have any.
    pub open spec fn kids(self) -> Seq<u32> {
        match self {
            ItemView::Story(story) => match story.kids {
                Some(kids) => kids,
                None => Seq::empty(),
            },
            ItemView::Comment(comment) => match comment.kids {
                Some(kids) => kids,
                None => Seq::empty(),
            },
            ItemView::Job(_) => Seq::empty(),
        }
    }

    /// The id of the item's parent; only a comment has one.
    pub open spec fn parent(self) -> Option<u32> {
        match self {
            ItemView::Comment(comment) => Some(comment.parent),
            _ => None,
        }
    }
}

impl Clone for Item {
    fn clone(&self) -> (out: Self)
        ensures
            out@ == self@,
    {
        match self {
            Item::Story(story) => Item::Story(story.clone()),
            Item::Comment(comment) => Item::Comment(comment.clone()),
            Item::Job(job) => Item::Job(job.clone()),
        }
    }
}

/// A copy of `ids`, or the empty list where there is none.
fn ids_or_empty(ids: &Option<Vec<u32>>) -> (out: Vec<u32>)
    ensures
        out@ == match ids.deep_view() {
            Some(kids) => kids,
            None => Seq::empty(),
        },
{
    match ids {
        Some(kids) => kids.clone(),
        None => Vec::new(),
    }
}

impl Item {
    /// The id under which the upstream serves the item.
    pub fn id(&self) -> (out: u32)
        ensures
            out == self@.id(),
    {
        match self {
            Item::Story(story) => story.id,
            Item::Comment(comment) => comment.id,
            Item::Job(job) => job.id,
        }
    }

    /// The ids of the item's children in display order. A story or comment
    /// without a list of children, and every job, has none.
    pub fn kids(&self) -> (out: Vec<u32>)
        ensures
            out@ == self@.kids(),
    {
        match self {
            Item::Story(story) => ids_or_empty(&story.kids),
            Item::Comment(comment) => ids_or_empty(&comment.kids),
            Item::Job(_) => Vec::new(),
        }
    }

    /// The id of the item's parent. Only a comment has one.
    pub fn parent(&self) -> (out: Option<u32>)
        ensures
            out == self@.parent(),
    {
        match self {
            Item::Comment(comment) => Some(comment.parent),
            _ => None,
        }
    }

    /// The story inside the item, if it is one.
    pub fn as_story(self) -> (out: Option<Story>)
        ensures
            out == match self {
                Item::Story(story) => Some(story),
                _ => None::<Story>,
            },
    {
        match self {
            Item::Story(story) => Some(story),
            _ => None,
        }
    }

    /// The comment inside the item, if it is one.
    pub fn as_comment(self) -> (out: Option<Comment>)
        ensures
            out == match self {
                Item::Comment(comment) => Some(comment),
                _ => None::<Comment>,
            },
    {
        match self {
            Item::Comment(comment) => Some(comment),
            _ => None,
        }
    }
}

/// A user profile.
#[derive(Debug, PartialEq, Eq)]
pub struct User {
    /// The user's unique username. Case-sensitive.
    pub id: String,
    /// Creation date of the user, in seconds since the Unix epoch.
    pub created: u64,
    /// The user's karma.
    pub karma: u32,
    /// Delay in minutes between a comment's creation and its visibility to
    /// other users.
    pub delay: Option<u32>,
    /// The user's optional self-description. HTML.
    pub about: Option<String>,
    /// List of the user's stories, polls and comments.
    pub submitted: Vec<u32>,
}

/// A list of recently updated items and users.
#[derive(Debug, PartialEq, Eq)]
pub struct Updates {
    /// A list of recently changed items.
    pub items: Vec<u32>,
    /// A list of recently changed usernames.
    pub profiles: Vec<String>,
}

} // verus!
