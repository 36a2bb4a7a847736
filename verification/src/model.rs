//! The content model: persisted records, their public view projections,
//! and the error taxonomy of the service.

use vstd::prelude::*;
use vstd::string::StringExecFns;
use crate::render::{html_of, render};

verus! {

/// A persisted thread record: a titled container for posts.
#[derive(Debug)]
pub struct Thread {
    pub id: u64,
    pub title: String,
    pub created_at: String,
}

/// A persisted post record: one authored, timestamped piece of markup
/// belonging to a thread.
#[derive(Debug)]
pub struct Post {
    pub id: u64,
    pub thread_id: u64,
    pub author: String,
    pub content: String,
    pub created_at: String,
}

/// The public projection of a thread. The stored record holds nothing
/// sensitive, so the view carries the same fields.
#[derive(Debug)]
pub struct ThreadView {
    pub id: u64,
    pub title: String,
    pub created_at: String,
}

/// The public projection of a post: the stored fields plus
/// `content_html`, the rendered form of `content`. The HTML is never
/// stored — it is recomputed at every read.
#[derive(Debug)]
pub struct PostView {
    pub id: u64,
    pub author: String,
    pub content: String,
    pub created_at: String,
    pub content_html: String,
}

/// A rendered feed: one thread together with its posts, newest first.
#[derive(Debug)]
pub struct FeedView {
    pub thread: ThreadView,
    pub posts: Vec<PostView>,
}

/// What it means for `v` to be the public view of the stored thread `t`.
pub open spec fn thread_view_of(t: Thread, v: ThreadView) -> bool {
    &&& v.id == t.id
    &&& v.title@ == t.title@
    &&& v.created_at@ == t.created_at@
}

/// What it means for `v` to be the public view of the stored post `p`:
/// the stored fields carried over unchanged, and `content_html` the
/// rendered form of the stored markup.
pub open spec fn post_view_of(p: Post, v: PostView) -> bool {
    &&& v.id == p.id
    &&& v.author@ == p.author@
    &&& v.content@ == p.content@
    &&& v.created_at@ == p.created_at@
    &&& v.content_html@ == html_of(p.content@)
}

impl Thread {
    /// A fresh copy of the record, field for field.
    pub fn duplicate(&self) -> (r: Thread)
        ensures
            r == *self,
    {
        Thread { id: self.id, title: self.title.clone(), created_at: self.created_at.clone() }
    }
}

impl Post {
    /// A fresh copy of the record, field for field.
    pub fn duplicate(&self) -> (r: Post)
        ensures
            r == *self,
    {
        Post {
            id: self.id,
            thread_id: self.thread_id,
            author: self.author.clone(),
            content: self.content.clone(),
            created_at: self.created_at.clone(),
        }
    }
}

impl ThreadView {
    /// Projects a stored thread to its public view.
    pub fn of(t: &Thread) -> (v: ThreadView)
        ensures
            thread_view_of(*t, v),
    {
        ThreadView { id: t.id, title: t.title.clone(), created_at: t.created_at.clone() }
    }
}

impl PostView {
    /// Projects a stored post to its public view, rendering the markup.
    pub fn of(p: &Post) -> (v: PostView)
        ensures
            post_view_of(*p, v),
    {
        PostView {
            id: p.id,
            author: p.author.clone(),
            content: p.content.clone(),
            created_at: p.created_at.clone(),
            content_html: render(p.content.as_str()),
        }
    }
}

/// The error taxonomy: everything a request can fail with. Each kind is
/// generated at the point of detection and passed through unmodified to
/// the transport, which maps it to a response status.
#[derive(Clone, Copy, Debug, PartialEq, Eq, Structural)]
pub enum ApiError {
    /// The request itself is malformed, e.g. a non-numeric thread id.
    Validation,
    /// The named record does not exist.
    NotFound,
    /// The supplied write secret does not match the configured one.
    Unauthorized,
    /// The persistence layer failed.
    Store,
}

/// The HTTP-style status that the transport maps each error kind to.
pub open spec fn status_of(e: ApiError) -> u16 {
    match e {
        ApiError::Validation => 400,
        ApiError::NotFound => 404,
        ApiError::Unauthorized => 401,
        ApiError::Store => 500,
    }
}

impl ApiError {
    /// The HTTP-style status code of this error kind.
    pub fn status_code(&self) -> (s: u16)
        ensures
            s == status_of(*self),
    {
        match self {
            ApiError::Validation => 400,
            ApiError::NotFound => 404,
            ApiError::Unauthorized => 401,
            ApiError::Store => 500,
        }
    }

    /// A short human-readable message for this error kind; no internal
    /// detail is exposed.
    pub fn message(&self) -> (m: String)
        ensures
            (*self == ApiError::Validation ==> m@ == "Bad ID"@),
            (*self == ApiError::NotFound ==> m@ == "Not found"@),
            (*self == ApiError::Unauthorized ==> m@ == "Unauthorized"@),
            (*self == ApiError::Store ==> m@ == "Store failure"@),
    {
        match self {
            ApiError::Validation => String::from_str("Bad ID"),
            ApiError::NotFound => String::from_str("Not found"),
            ApiError::Unauthorized => String::from_str("Unauthorized"),
            ApiError::Store => String::from_str("Store failure"),
        }
    }
}

} // verus!
