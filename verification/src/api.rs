//! The API surface: request-level validation, the feed aggregator, and
//! the service that composes the write gate with the content store.

use vstd::prelude::*;
use vstd::string::StrSliceExecFns;
use crate::clock::now_rfc3339;
use crate::gate::authorize;
use crate::model::{ApiError, FeedView, Post, PostView, Thread, ThreadView, post_view_of, thread_view_of};
use crate::store::{ContentStore, find_thread, insert_desc, posts_of};

verus! {

/// Whether `c` is a decimal digit.
pub open spec fn is_digit(c: char) -> bool {
    48 <= c as u32 <= 57
}

/// The number denoted by a string of decimal digits, most significant
/// first.
pub open spec fn digits_val(s: Seq<char>) -> int
    decreases s.len(),
{
    if s.len() == 0 {
        0
    } else {
        digits_val(s.drop_last()) * 10 + (s.last() as u32 - 48)
    }
}

/// Whether `s` denotes a `u64`: nonempty, all digits, and in range.
pub open spec fn valid_u64_text(s: Seq<char>) -> bool {
    &&& s.len() > 0
    &&& forall|j: int| 0 <= j < s.len() ==> is_digit(s[j])
    &&& digits_val(s) <= u64::MAX
}

/// A digit string denotes a nonnegative number.
pub proof fn lemma_digits_val_nonneg(s: Seq<char>)
    requires
        forall|j: int| 0 <= j < s.len() ==> is_digit(s[j]),
    ensures
        digits_val(s) >= 0,
    decreases s.len(),
{
    if s.len() > 0 {
        let pre = s.drop_last();
        assert(forall|j: int| 0 <= j < pre.len() ==> is_digit(pre[j]));
        lemma_digits_val_nonneg(pre);
    }
}

/// A prefix of a digit string denotes at most what the whole denotes.
pub proof fn lemma_digits_val_prefix_le(s: Seq<char>, k: int)
    requires
        0 <= k <= s.len(),
        forall|j: int| 0 <= j < s.len() ==> is_digit(s[j]),
    ensures
        digits_val(s.take(k)) <= digits_val(s),
    decreases s.len() - k,
{
    if k == s.len() {
        assert(s.take(k) =~= s);
    } else {
        assert(s.take(k + 1).drop_last() =~= s.take(k));
        assert(s.take(k + 1).last() == s[k]);
        assert(forall|j: int| 0 <= j < s.take(k).len() ==> is_digit(s.take(k)[j]));
        lemma_digits_val_nonneg(s.take(k));
        assert(digits_val(s.take(k + 1)) >= digits_val(s.take(k)));
        lemma_digits_val_prefix_le(s, k + 1);
    }
}

/// Parses a decimal `u64` from text: `Some` exactly when the text is
/// nonempty, all digits, and in range — the request-level notion of "a
/// valid integer id".
pub fn parse_u64(s: &str) -> (r: Option<u64>)
    ensures
        match r {
            Some(n) => valid_u64_text(s@) && n == digits_val(s@),
            None => !valid_u64_text(s@),
        },
{
    let n = s.unicode_len();
    if n == 0 {
        return None;
    }
    let mut acc: u64 = 0;
    let mut i: usize = 0;
    proof {
        assert(s@.take(0).len() == 0);
    }
    while i < n
        invariant
            n == s@.len(),
            0 < n,
            i <= n,
            forall|j: int| 0 <= j < i ==> is_digit(s@[j]),
            acc == digits_val(s@.take(i as int)),
        decreases n - i,
    {
        let c = s.get_char(i);
        let cv = c as u32;
        proof {
            assert(s@.take(i as int + 1).drop_last() =~= s@.take(i as int));
            assert(s@.take(i as int + 1).last() == s@[i as int]);
        }
        if cv < 48 || cv > 57 {
            return None;
        }
        let d = (cv - 48) as u64;
        let next = match acc.checked_mul(10) {
            Some(v) => v.checked_add(d),
            None => None,
        };
        match next {
            Some(v) => {
                acc = v;
            },
            None => {
                proof {
                    assert(digits_val(s@.take(i as int + 1)) > u64::MAX);
                    if forall|j: int| 0 <= j < s@.len() ==> is_digit(s@[j]) {
                        lemma_digits_val_prefix_le(s@, i as int + 1);
                    }
                }
                return None;
            },
        }
        i = i + 1;
    }
    proof {
        assert(s@.take(n as int) =~= s@);
    }
    Some(acc)
}

/// Composes a thread with its already-ordered posts, rendering each
/// post's markup into `content_html`. Nothing is cached: the HTML is a
/// pure function of the stored markup at every call.
pub fn assemble_feed(thread: &Thread, posts: &Vec<Post>) -> (f: FeedView)
    ensures
        thread_view_of(*thread, f.thread),
        f.posts@.len() == posts@.len(),
        forall|i: int| 0 <= i < posts@.len() ==> post_view_of(posts@[i], f.posts@[i]),
{
    let mut views: Vec<PostView> = Vec::new();
    let n = posts.len();
    let mut i: usize = 0;
    while i < n
        invariant
            n == posts@.len(),
            i <= n,
            views@.len() == i,
            forall|j: int| 0 <= j < i ==> post_view_of(posts@[j], views@[j]),
        decreases n - i,
    {
        views.push(PostView::of(&posts[i]));
        i = i + 1;
    }
    FeedView { thread: ThreadView::of(thread), posts: views }
}

/// Witnesses that exactly one post was added: at some position `k` the
/// new sequence carries a fresh record with the given fields, and with
/// that position taken out the old sequence remains.
pub open spec fn post_created(
    old_posts: Seq<Post>,
    new_posts: Seq<Post>,
    id: u64,
    thread_id: u64,
    author: Seq<char>,
    content: Seq<char>,
) -> bool {
    exists|k: int|
        #![auto]
        {
            &&& 0 <= k < new_posts.len()
            &&& new_posts[k].id == id
            &&& new_posts[k].thread_id == thread_id
            &&& new_posts[k].author@ == author
            &&& new_posts[k].content@ == content
            &&& new_posts[k].created_at@.len() > 0
            &&& new_posts.remove(k) == old_posts
        }
}

/// The service: the configured write secret together with the content
/// store. The secret is read-only configuration, injected at startup and
/// never mutated.
pub struct Service {
    pub secret: String,
    pub store: ContentStore,
}

impl Service {
    /// The service's invariant: its store is well formed.
    pub open spec fn wf(&self) -> bool {
        self.store.wf()
    }

    /// A fresh service around an empty store.
    pub fn new(secret: String) -> (s: Service)
        ensures
            s.wf(),
            s.secret == secret,
            s.store.threads@ =~= Seq::<Thread>::empty(),
            s.store.posts@ =~= Seq::<Post>::empty(),
            s.store.next_thread_id == 1,
            s.store.next_post_id == 1,
    {
        Service { secret, store: ContentStore::new() }
    }

    /// The write gate, bound to the configured secret.
    pub fn authorize(&self, supplied: &str) -> (r: bool)
        ensures
            r == (supplied@ == self.secret@),
    {
        authorize(self.secret.as_str(), supplied)
    }

    /// The write path for a thread, with the creation time supplied by
    /// the caller. The secret comparison comes before anything else: on
    /// a mismatch nothing is written. An empty title is a validation
    /// error; a store whose id space is exhausted fails as the
    /// persistence layer would.
    pub fn create_thread_at(&mut self, supplied: &str, title: String, created_at: String) -> (r:
        Result<(), ApiError>)
        requires
            old(self).wf(),
            created_at@.len() > 0,
        ensures
            final(self).wf(),
            final(self).secret == old(self).secret,
            supplied@ != old(self).secret@ ==> r == Err::<(), ApiError>(ApiError::Unauthorized)
                && *final(self) == *old(self),
            supplied@ == old(self).secret@ && title@.len() == 0 ==> r == Err::<(), ApiError>(
                ApiError::Validation,
            ) && *final(self) == *old(self),
            supplied@ == old(self).secret@ && title@.len() > 0 && old(self).store.next_thread_id
                == u64::MAX ==> r == Err::<(), ApiError>(ApiError::Store) && *final(self) == *old(
                self,
            ),
            supplied@ == old(self).secret@ && title@.len() > 0 && old(self).store.next_thread_id
                < u64::MAX ==> {
                &&& r == Ok::<(), ApiError>(())
                &&& final(self).store.threads@ =~= old(self).store.threads@.push(
                    (Thread {
                        id: old(self).store.next_thread_id,
                        title: title,
                        created_at: created_at,
                    }),
                )
                &&& final(self).store.posts@ == old(self).store.posts@
                &&& final(self).store.next_thread_id == old(self).store.next_thread_id + 1
                &&& final(self).store.next_post_id == old(self).store.next_post_id
            },
    {
        if !self.authorize(supplied) {
            return Err(ApiError::Unauthorized);
        }
        if title.as_str().is_empty() {
            return Err(ApiError::Validation);
        }
        if self.store.next_thread_id == u64::MAX {
            return Err(ApiError::Store);
        }
        let _t = self.store.create_thread(title, created_at);
        Ok(())
    }

    /// The live write path for a thread: stamps the record with the
    /// clock's current RFC 3339 time, then proceeds as
    /// [`Self::create_thread_at`].
    pub fn create_thread(&mut self, supplied: &str, title: String) -> (r: Result<(), ApiError>)
        requires
            old(self).wf(),
        ensures
            final(self).wf(),
            final(self).secret == old(self).secret,
            supplied@ != old(self).secret@ ==> r == Err::<(), ApiError>(ApiError::Unauthorized)
                && *final(self) == *old(self),
            supplied@ == old(self).secret@ && title@.len() == 0 ==> r == Err::<(), ApiError>(
                ApiError::Validation,
            ) && *final(self) == *old(self),
            supplied@ == old(self).secret@ && title@.len() > 0 && old(self).store.next_thread_id
                == u64::MAX ==> r == Err::<(), ApiError>(ApiError::Store) && *final(self) == *old(
                self,
            ),
            supplied@ == old(self).secret@ && title@.len() > 0 && old(self).store.next_thread_id
                < u64::MAX ==> {
                &&& r == Ok::<(), ApiError>(())
                &&& final(self).store.threads@.len() == old(self).store.threads@.len() + 1
                &&& final(self).store.threads@.drop_last() =~= old(self).store.threads@
                &&& final(self).store.threads@.last().id == old(self).store.next_thread_id
                &&& final(self).store.threads@.last().title == title
                &&& final(self).store.threads@.last().created_at@.len() > 0
                &&& final(self).store.posts@ == old(self).store.posts@
                &&& final(self).store.next_thread_id == old(self).store.next_thread_id + 1
                &&& final(self).store.next_post_id == old(self).store.next_post_id
            },
    {
        let now = now_rfc3339();
        let ghost t0 = self.store.threads@;
        let r = self.create_thread_at(supplied, title, now);
        proof {
            if r is Ok {
                assert(self.store.threads@.drop_last() =~= t0);
            }
        }
        r
    }

    /// The write path for a post, with the creation time supplied by the
    /// caller. Whether `thread_id` names an existing thread is not
    /// checked — the store accepts the record either way, exactly as the
    /// write path has always behaved.
    pub fn create_post_at(
        &mut self,
        supplied: &str,
        thread_id: u64,
        author: String,
        content: String,
        created_at: String,
    ) -> (r: Result<(), ApiError>)
        requires
            old(self).wf(),
            created_at@.len() > 0,
        ensures
            final(self).wf(),
            final(self).secret == old(self).secret,
            supplied@ != old(self).secret@ ==> r == Err::<(), ApiError>(ApiError::Unauthorized)
                && *final(self) == *old(self),
            supplied@ == old(self).secret@ && (author@.len() == 0 || content@.len() == 0) ==> r
                == Err::<(), ApiError>(ApiError::Validation) && *final(self) == *old(self),
            supplied@ == old(self).secret@ && author@.len() > 0 && content@.len() > 0 && old(
                self,
            ).store.next_post_id == u64::MAX ==> r == Err::<(), ApiError>(ApiError::Store)
                && *final(self) == *old(self),
            supplied@ == old(self).secret@ && author@.len() > 0 && content@.len() > 0 && old(
                self,
            ).store.next_post_id < u64::MAX ==> {
                &&& r == Ok::<(), ApiError>(())
                &&& final(self).store.posts@ =~= insert_desc(
                    old(self).store.posts@,
                    (Post {
                        id: old(self).store.next_post_id,
                        thread_id: thread_id,
                        author: author,
                        content: content,
                        created_at: created_at,
                    }),
                )
                &&& final(self).store.threads@ == old(self).store.threads@
                &&& final(self).store.next_post_id == old(self).store.next_post_id + 1
                &&& final(self).store.next_thread_id == old(self).store.next_thread_id
            },
    {
        if !self.authorize(supplied) {
            return Err(ApiError::Unauthorized);
        }
        if author.as_str().is_empty() || content.as_str().is_empty() {
            return Err(ApiError::Validation);
        }
        if self.store.next_post_id == u64::MAX {
            return Err(ApiError::Store);
        }
        let _p = self.store.create_post(thread_id, author, content, created_at);
        Ok(())
    }

    /// The live write path for a post: stamps the record with the
    /// clock's current RFC 3339 time, then proceeds as
    /// [`Self::create_post_at`].
    pub fn create_post(&mut self, supplied: &str, thread_id: u64, author: String, content: String)
        -> (r: Result<(), ApiError>)
        requires
            old(self).wf(),
        ensures
            final(self).wf(),
            final(self).secret == old(self).secret,
            supplied@ != old(self).secret@ ==> r == Err::<(), ApiError>(ApiError::Unauthorized)
                && *final(self) == *old(self),
            supplied@ == old(self).secret@ && (author@.len() == 0 || content@.len() == 0) ==> r
                == Err::<(), ApiError>(ApiError::Validation) && *final(self) == *old(self),
            supplied@ == old(self).secret@ && author@.len() > 0 && content@.len() > 0 && old(
                self,
            ).store.next_post_id == u64::MAX ==> r == Err::<(), ApiError>(ApiError::Store)
                && *final(self) == *old(self),
            supplied@ == old(self).secret@ && author@.len() > 0 && content@.len() > 0 && old(
                self,
            ).store.next_post_id < u64::MAX ==> {
                &&& r == Ok::<(), ApiError>(())
                &&& final(self).store.posts@.len() == old(self).store.posts@.len() + 1
                &&& post_created(
                    old(self).store.posts@,
                    final(self).store.posts@,
                    old(self).store.next_post_id,
                    thread_id,
                    author@,
                    content@,
                )
                &&& final(self).store.threads@ == old(self).store.threads@
                &&& final(self).store.next_post_id == old(self).store.next_post_id + 1
                &&& final(self).store.next_thread_id == old(self).store.next_thread_id
            },
    {
        let now = now_rfc3339();
        let ghost s0 = self.store.posts@;
        let ghost id0 = self.store.next_post_id;
        let ghost p = (Post {
            id: id0,
            thread_id: thread_id,
            author: author,
            content: content,
            created_at: now,
        });
        let r = self.create_post_at(supplied, thread_id, author, content, now);
        proof {
            if r is Ok {
                crate::store::lemma_insert_desc_witness(s0, p);
                let k = choose|k: int|
                    #![auto]
                    0 <= k < insert_desc(s0, p).len() && insert_desc(s0, p)[k] == p && insert_desc(
                        s0,
                        p,
                    ).remove(k) == s0;
                assert(self.store.posts@ == insert_desc(s0, p));
                assert(0 <= k < self.store.posts@.len() && self.store.posts@[k].id == id0
                    && self.store.posts@[k].thread_id == thread_id && self.store.posts@[k].author@
                    == author@ && self.store.posts@[k].content@ == content@
                    && self.store.posts@[k].created_at@.len() > 0 && self.store.posts@.remove(k)
                    == s0);
                assert(post_created(s0, self.store.posts@, id0, thread_id, author@, content@));
            }
        }
        r
    }

    /// All threads, projected to their public views, in store order.
    pub fn threads_json(&self) -> (r: Vec<ThreadView>)
        ensures
            r@.len() == self.store.threads@.len(),
            forall|i: int|
                0 <= i < r@.len() ==> thread_view_of(self.store.threads@[i], r@[i]),
    {
        let ts = self.store.list_threads();
        let mut r: Vec<ThreadView> = Vec::new();
        let n = ts.len();
        let mut i: usize = 0;
        while i < n
            invariant
                n == ts@.len(),
                ts@ == self.store.threads@,
                i <= n,
                r@.len() == i,
                forall|j: int| 0 <= j < i ==> thread_view_of(self.store.threads@[j], r@[j]),
            decreases n - i,
        {
            r.push(ThreadView::of(&ts[i]));
            i = i + 1;
        }
        r
    }

    /// All posts across all threads, projected to their rendered public
    /// views, in store order.
    pub fn posts_json(&self) -> (r: Vec<PostView>)
        ensures
            r@.len() == self.store.posts@.len(),
            forall|i: int| 0 <= i < r@.len() ==> post_view_of(self.store.posts@[i], r@[i]),
    {
        let ps = self.store.list_posts();
        let mut r: Vec<PostView> = Vec::new();
        let n = ps.len();
        let mut i: usize = 0;
        while i < n
            invariant
                n == ps@.len(),
                ps@ == self.store.posts@,
                i <= n,
                r@.len() == i,
                forall|j: int| 0 <= j < i ==> post_view_of(self.store.posts@[j], r@[j]),
            decreases n - i,
        {
            r.push(PostView::of(&ps[i]));
            i = i + 1;
        }
        r
    }

    /// The feed of one thread: the thread's view and its posts, newest
    /// first, each rendered. A missing thread is `NotFound` and nothing
    /// is written — the receiver is shared for the whole call.
    pub fn build_feed(&self, thread_id: u64) -> (r: Result<FeedView, ApiError>)
        requires
            self.wf(),
        ensures
            (r is Ok) == (find_thread(self.store.threads@, thread_id) is Some),
            r is Err ==> r == Err::<FeedView, ApiError>(ApiError::NotFound),
            r is Ok ==> {
                &&& thread_view_of(
                    find_thread(self.store.threads@, thread_id).unwrap(),
                    r->Ok_0.thread,
                )
                &&& r->Ok_0.posts@.len() == posts_of(self.store.posts@, thread_id).len()
                &&& forall|i: int|
                    0 <= i < r->Ok_0.posts@.len() ==> post_view_of(
                        posts_of(self.store.posts@, thread_id)[i],
                        r->Ok_0.posts@[i],
                    )
            },
    {
        let t = match self.store.get_thread(thread_id) {
            Some(t) => t,
            None => {
                return Err(ApiError::NotFound);
            },
        };
        let posts = self.store.list_posts_for_thread(thread_id);
        Ok(assemble_feed(t, &posts))
    }

    /// The feed endpoint as the transport sees it: the thread id arrives
    /// as text. Text that does not denote a `u64` is a validation error;
    /// otherwise the result is exactly that of [`Self::build_feed`].
    pub fn feed_json(&self, id_text: &str) -> (r: Result<FeedView, ApiError>)
        requires
            self.wf(),
        ensures
            !valid_u64_text(id_text@) ==> r == Err::<FeedView, ApiError>(ApiError::Validation),
            valid_u64_text(id_text@) ==> {
                let tid = digits_val(id_text@) as u64;
                &&& (r is Ok) == (find_thread(self.store.threads@, tid) is Some)
                &&& (r is Err && find_thread(self.store.threads@, tid) is None) ==> r == Err::<
                    FeedView,
                    ApiError,
                >(ApiError::NotFound)
                &&& r is Ok ==> {
                    &&& thread_view_of(
                        find_thread(self.store.threads@, tid).unwrap(),
                        r->Ok_0.thread,
                    )
                    &&& r->Ok_0.posts@.len() == posts_of(self.store.posts@, tid).len()
                    &&& forall|i: int|
                        0 <= i < r->Ok_0.posts@.len() ==> post_view_of(
                            posts_of(self.store.posts@, tid)[i],
                            r->Ok_0.posts@[i],
                        )
                }
            },
    {
        let id = match parse_u64(id_text) {
            Some(id) => id,
            None => {
                return Err(ApiError::Validation);
            },
        };
        proof {
            lemma_digits_val_nonneg(id_text@);
        }
        self.build_feed(id)
    }
}

} // verus!
