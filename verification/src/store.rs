//! The content store adapter: the sole owner of the persisted thread and
//! post records. Writes assign store-generated ids and keep the posts
//! newest first; reads hand out fresh copies, never long-lived references
//! into the store's own state.

use vstd::prelude::*;
use crate::model::{Post, Thread};
use crate::text::{lex_le, lemma_lex_le_refl, lemma_lex_le_total, lemma_lex_le_trans, str_le};

verus! {

/// All posts of `s` that belong to thread `tid`, in the order of `s`.
pub open spec fn posts_of(s: Seq<Post>, tid: u64) -> Seq<Post>
    decreases s.len(),
{
    if s.len() == 0 {
        Seq::empty()
    } else if s[0].thread_id == tid {
        seq![s[0]] + posts_of(s.drop_first(), tid)
    } else {
        posts_of(s.drop_first(), tid)
    }
}

/// The first thread of `s` that carries `id`, if any.
pub open spec fn find_thread(s: Seq<Thread>, id: u64) -> Option<Thread>
    decreases s.len(),
{
    if s.len() == 0 {
        None
    } else if s[0].id == id {
        Some(s[0])
    } else {
        find_thread(s.drop_first(), id)
    }
}

/// Newest first: at a later position the `created_at` text is
/// lexicographically at most the one at any earlier position.
pub open spec fn sorted_desc(s: Seq<Post>) -> bool {
    forall|i: int, j: int|
        0 <= i <= j < s.len() ==> lex_le(s[j].created_at@, s[i].created_at@)
}

/// Where a fresh post lands in a newest-first sequence: before the first
/// element whose timestamp it is at least as new as. A tie therefore puts
/// the fresh post first.
pub open spec fn insert_desc(s: Seq<Post>, p: Post) -> Seq<Post>
    decreases s.len(),
{
    if s.len() == 0 {
        seq![p]
    } else if lex_le(s[0].created_at@, p.created_at@) {
        seq![p] + s
    } else {
        seq![s[0]] + insert_desc(s.drop_first(), p)
    }
}

/// Every post id in `s` lies below the bound `b`.
pub open spec fn post_ids_below(s: Seq<Post>, b: u64) -> bool {
    forall|i: int| 0 <= i < s.len() ==> s[i].id < b
}

/// No post in `s` carries the id `x`.
pub open spec fn post_id_absent(s: Seq<Post>, x: u64) -> bool {
    forall|i: int| 0 <= i < s.len() ==> s[i].id != x
}

/// All post ids in `s` are pairwise distinct.
pub open spec fn distinct_post_ids(s: Seq<Post>) -> bool {
    forall|i: int, j: int| 0 <= i < j < s.len() ==> s[i].id != s[j].id
}

/// A timestamp bound survives filtering: if every post of `s` is at most
/// `b`, so is every post of `posts_of(s, tid)`.
pub proof fn lemma_posts_of_le_bound(s: Seq<Post>, tid: u64, b: Seq<char>)
    requires
        forall|i: int| 0 <= i < s.len() ==> lex_le(s[i].created_at@, b),
    ensures
        forall|k: int|
            0 <= k < posts_of(s, tid).len() ==> lex_le(posts_of(s, tid)[k].created_at@, b),
    decreases s.len(),
{
    if s.len() > 0 {
        let rest = s.drop_first();
        assert(forall|i: int| 0 <= i < rest.len() ==> lex_le(rest[i].created_at@, b));
        lemma_posts_of_le_bound(rest, tid, b);
        if s[0].thread_id == tid {
            assert forall|k: int|
                0 <= k < posts_of(s, tid).len() implies lex_le(
                posts_of(s, tid)[k].created_at@,
                b,
            ) by {
                if k > 0 {
                    assert(posts_of(s, tid)[k] == posts_of(rest, tid)[k - 1]);
                }
            }
        }
    }
}

/// Filtering keeps the newest-first order: the posts of one thread,
/// taken out of a sorted sequence in order, are themselves sorted.
pub proof fn lemma_posts_of_sorted(s: Seq<Post>, tid: u64)
    requires
        sorted_desc(s),
    ensures
        sorted_desc(posts_of(s, tid)),
    decreases s.len(),
{
    if s.len() > 0 {
        let rest = s.drop_first();
        assert(forall|i: int, j: int|
            0 <= i <= j < rest.len() ==> lex_le(rest[j].created_at@, rest[i].created_at@));
        lemma_posts_of_sorted(rest, tid);
        if s[0].thread_id == tid {
            assert(forall|i: int| 0 <= i < rest.len() ==> lex_le(rest[i].created_at@, s[0].created_at@));
            lemma_posts_of_le_bound(rest, tid, s[0].created_at@);
            lemma_lex_le_refl(s[0].created_at@);
            let f = posts_of(s, tid);
            let fr = posts_of(rest, tid);
            assert forall|i: int, j: int|
                0 <= i <= j < f.len() implies lex_le(f[j].created_at@, f[i].created_at@) by {
                if i > 0 {
                    assert(f[i] == fr[i - 1]);
                    assert(f[j] == fr[j - 1]);
                } else if j > 0 {
                    assert(f[j] == fr[j - 1]);
                }
            }
        }
    }
}

/// A timestamp bound survives insertion.
pub proof fn lemma_insert_desc_le_bound(s: Seq<Post>, p: Post, b: Seq<char>)
    requires
        forall|i: int| 0 <= i < s.len() ==> lex_le(s[i].created_at@, b),
        lex_le(p.created_at@, b),
    ensures
        forall|k: int|
            0 <= k < insert_desc(s, p).len() ==> lex_le(insert_desc(s, p)[k].created_at@, b),
    decreases s.len(),
{
    if s.len() > 0 && !lex_le(s[0].created_at@, p.created_at@) {
        let rest = s.drop_first();
        assert(forall|i: int| 0 <= i < rest.len() ==> lex_le(rest[i].created_at@, b));
        lemma_insert_desc_le_bound(rest, p, b);
        assert forall|k: int|
            0 <= k < insert_desc(s, p).len() implies lex_le(insert_desc(s, p)[k].created_at@, b) by {
            if k > 0 {
                assert(insert_desc(s, p)[k] == insert_desc(rest, p)[k - 1]);
            }
        }
    }
}

/// Inserting a post keeps the sequence newest first.
pub proof fn lemma_insert_desc_sorted(s: Seq<Post>, p: Post)
    requires
        sorted_desc(s),
    ensures
        sorted_desc(insert_desc(s, p)),
    decreases s.len(),
{
    lemma_lex_le_refl(p.created_at@);
    if s.len() == 0 {
    } else if lex_le(s[0].created_at@, p.created_at@) {
        assert forall|j: int| 0 <= j < s.len() implies lex_le(s[j].created_at@, p.created_at@) by {
            lemma_lex_le_trans(s[j].created_at@, s[0].created_at@, p.created_at@);
        }
        let r = insert_desc(s, p);
        assert forall|i: int, j: int|
            0 <= i <= j < r.len() implies lex_le(r[j].created_at@, r[i].created_at@) by {
            if i > 0 {
                assert(r[i] == s[i - 1]);
                assert(r[j] == s[j - 1]);
            } else if j > 0 {
                assert(r[j] == s[j - 1]);
            }
        }
    } else {
        lemma_lex_le_total(s[0].created_at@, p.created_at@);
        let rest = s.drop_first();
        assert(forall|i: int, j: int|
            0 <= i <= j < rest.len() ==> lex_le(rest[j].created_at@, rest[i].created_at@));
        lemma_insert_desc_sorted(rest, p);
        assert(forall|i: int| 0 <= i < rest.len() ==> lex_le(rest[i].created_at@, s[0].created_at@));
        lemma_insert_desc_le_bound(rest, p, s[0].created_at@);
        lemma_lex_le_refl(s[0].created_at@);
        let r = insert_desc(s, p);
        let ri = insert_desc(rest, p);
        assert forall|i: int, j: int|
            0 <= i <= j < r.len() implies lex_le(r[j].created_at@, r[i].created_at@) by {
            if i > 0 {
                assert(r[i] == ri[i - 1]);
                assert(r[j] == ri[j - 1]);
            } else if j > 0 {
                assert(r[j] == ri[j - 1]);
            }
        }
    }
}

/// An absent id stays absent under insertion of a post with another id.
pub proof fn lemma_insert_desc_id_absent(s: Seq<Post>, p: Post, x: u64)
    requires
        post_id_absent(s, x),
        p.id != x,
    ensures
        post_id_absent(insert_desc(s, p), x),
    decreases s.len(),
{
    if s.len() > 0 && !lex_le(s[0].created_at@, p.created_at@) {
        let rest = s.drop_first();
        assert(forall|i: int| 0 <= i < rest.len() ==> rest[i].id != x);
        lemma_insert_desc_id_absent(rest, p, x);
        assert forall|k: int| 0 <= k < insert_desc(s, p).len() implies insert_desc(s, p)[k].id != x by {
            if k > 0 {
                assert(insert_desc(s, p)[k] == insert_desc(rest, p)[k - 1]);
            }
        }
    }
}

/// An id bound survives insertion of a post whose id is below it.
pub proof fn lemma_insert_desc_ids_below(s: Seq<Post>, p: Post, b: u64)
    requires
        post_ids_below(s, b),
        p.id < b,
    ensures
        post_ids_below(insert_desc(s, p), b),
    decreases s.len(),
{
    if s.len() > 0 && !lex_le(s[0].created_at@, p.created_at@) {
        let rest = s.drop_first();
        assert(forall|i: int| 0 <= i < rest.len() ==> rest[i].id < b);
        lemma_insert_desc_ids_below(rest, p, b);
        assert forall|k: int| 0 <= k < insert_desc(s, p).len() implies insert_desc(s, p)[k].id < b by {
            if k > 0 {
                assert(insert_desc(s, p)[k] == insert_desc(rest, p)[k - 1]);
            }
        }
    }
}

/// Inserting a post whose id is fresh keeps all post ids distinct.
pub proof fn lemma_insert_desc_distinct(s: Seq<Post>, p: Post)
    requires
        distinct_post_ids(s),
        post_ids_below(s, p.id),
    ensures
        distinct_post_ids(insert_desc(s, p)),
    decreases s.len(),
{
    if s.len() == 0 {
    } else if lex_le(s[0].created_at@, p.created_at@) {
        let r = insert_desc(s, p);
        assert forall|i: int, j: int| 0 <= i < j < r.len() implies r[i].id != r[j].id by {
            if i > 0 {
                assert(r[i] == s[i - 1]);
                assert(r[j] == s[j - 1]);
            } else {
                assert(r[j] == s[j - 1]);
            }
        }
    } else {
        let rest = s.drop_first();
        assert(forall|i: int, j: int| 0 <= i < j < rest.len() ==> rest[i].id != rest[j].id);
        assert(forall|i: int| 0 <= i < rest.len() ==> rest[i].id < p.id);
        lemma_insert_desc_distinct(rest, p);
        assert(forall|i: int| 0 <= i < rest.len() ==> rest[i].id != s[0].id);
        assert(p.id != s[0].id);
        lemma_insert_desc_id_absent(rest, p, s[0].id);
        let r = insert_desc(s, p);
        let ri = insert_desc(rest, p);
        assert forall|i: int, j: int| 0 <= i < j < r.len() implies r[i].id != r[j].id by {
            if i > 0 {
                assert(r[i] == ri[i - 1]);
                assert(r[j] == ri[j - 1]);
            } else {
                assert(r[j] == ri[j - 1]);
            }
        }
    }
}

/// Splits an insertion at a prefix that the fresh post provably passes
/// over: the first `i` elements are all strictly newer than `p`.
pub proof fn lemma_insert_desc_split(s: Seq<Post>, p: Post, i: int)
    requires
        0 <= i <= s.len(),
        forall|j: int| 0 <= j < i ==> !lex_le(s[j].created_at@, p.created_at@),
    ensures
        insert_desc(s, p) =~= s.take(i) + insert_desc(s.skip(i), p),
    decreases i,
{
    if i == 0 {
        assert(s.skip(0) =~= s);
        assert(s.take(0) + insert_desc(s, p) =~= insert_desc(s, p));
    } else {
        let rest = s.drop_first();
        assert(!lex_le(s[0].created_at@, p.created_at@));
        assert(forall|j: int| 0 <= j < i - 1 ==> !lex_le(rest[j].created_at@, p.created_at@));
        lemma_insert_desc_split(rest, p, i - 1);
        assert(s.skip(i) =~= rest.skip(i - 1));
        assert(s.take(i) =~= seq![s[0]] + rest.take(i - 1));
        assert(insert_desc(s, p) =~= seq![s[0]] + (rest.take(i - 1) + insert_desc(rest.skip(i - 1), p)));
        assert(seq![s[0]] + (rest.take(i - 1) + insert_desc(rest.skip(i - 1), p)) =~= s.take(i)
            + insert_desc(s.skip(i), p));
    }
}

/// Insertion is one added element: at some position the result carries
/// exactly the fresh post, and with that position taken out the old
/// sequence remains.
pub proof fn lemma_insert_desc_witness(s: Seq<Post>, p: Post)
    ensures
        exists|k: int|
            #![auto]
            0 <= k < insert_desc(s, p).len() && insert_desc(s, p)[k] == p && insert_desc(
                s,
                p,
            ).remove(k) == s,
    decreases s.len(),
{
    if s.len() == 0 {
        assert(insert_desc(s, p) =~= seq![p]);
        assert(seq![p].remove(0) =~= s);
        assert(insert_desc(s, p)[0] == p && insert_desc(s, p).remove(0) == s);
    } else if lex_le(s[0].created_at@, p.created_at@) {
        assert((seq![p] + s).remove(0) =~= s);
        assert(insert_desc(s, p)[0] == p && insert_desc(s, p).remove(0) == s);
    } else {
        let rest = s.drop_first();
        lemma_insert_desc_witness(rest, p);
        let k = choose|k: int|
            #![auto]
            0 <= k < insert_desc(rest, p).len() && insert_desc(rest, p)[k] == p && insert_desc(
                rest,
                p,
            ).remove(k) == rest;
        assert(insert_desc(s, p)[k + 1] == insert_desc(rest, p)[k]);
        assert(insert_desc(s, p).remove(k + 1) =~= seq![s[0]] + insert_desc(rest, p).remove(k));
        assert(seq![s[0]] + rest =~= s);
        assert(0 <= k + 1 < insert_desc(s, p).len() && insert_desc(s, p)[k + 1] == p
            && insert_desc(s, p).remove(k + 1) == s);
    }
}

/// A thread pushed with an id that no stored thread carries is found
/// under that id afterwards: creation followed by retrieval works.
pub proof fn lemma_find_thread_push_fresh(s: Seq<Thread>, t: Thread)
    requires
        forall|i: int| 0 <= i < s.len() ==> s[i].id != t.id,
    ensures
        find_thread(s.push(t), t.id) == Some(t),
    decreases s.len(),
{
    if s.len() == 0 {
        assert(s.push(t) =~= seq![t]);
    } else {
        assert(s.push(t)[0] == s[0]);
        assert(s.push(t).drop_first() =~= s.drop_first().push(t));
        assert(forall|i: int| 0 <= i < s.drop_first().len() ==> s.drop_first()[i].id != t.id);
        lemma_find_thread_push_fresh(s.drop_first(), t);
    }
}

/// Creation followed by retrieval: a record created by a well-formed
/// store — it received the store's next id, and the stored sequence grew
/// by exactly that record — is afterwards found under its id, title,
/// timestamp and all.
pub proof fn lemma_create_then_get(pre: ContentStore, post: ContentStore, t: Thread)
    requires
        pre.wf(),
        t.id == pre.next_thread_id,
        post.threads@ == pre.threads@.push(t),
    ensures
        find_thread(post.threads@, t.id) == Some(t),
{
    assert(forall|i: int| 0 <= i < pre.threads@.len() ==> pre.threads@[i].id != t.id);
    lemma_find_thread_push_fresh(pre.threads@, t);
}

/// The content store. Its invariant `wf` is what every operation
/// preserves: ids are store-generated, unique and below the id counters,
/// and the posts sit in newest-first order.
pub struct ContentStore {
    pub threads: Vec<Thread>,
    pub posts: Vec<Post>,
    pub next_thread_id: u64,
    pub next_post_id: u64,
}

impl ContentStore {
    /// The store's invariant.
    pub open spec fn wf(&self) -> bool {
        &&& forall|i: int, j: int|
            0 <= i < j < self.threads@.len() ==> self.threads@[i].id < self.threads@[j].id
        &&& forall|i: int| 0 <= i < self.threads@.len() ==> self.threads@[i].id < self.next_thread_id
        &&& post_ids_below(self.posts@, self.next_post_id)
        &&& distinct_post_ids(self.posts@)
        &&& sorted_desc(self.posts@)
    }

    /// An empty store; id assignment starts at 1.
    pub fn new() -> (s: ContentStore)
        ensures
            s.wf(),
            s.threads@ =~= Seq::<Thread>::empty(),
            s.posts@ =~= Seq::<Post>::empty(),
            s.next_thread_id == 1,
            s.next_post_id == 1,
    {
        ContentStore { threads: Vec::new(), posts: Vec::new(), next_thread_id: 1, next_post_id: 1 }
    }

    /// Creates a thread: assigns the next id, stamps it with the given
    /// creation time, persists it and returns the full record.
    pub fn create_thread(&mut self, title: String, created_at: String) -> (t: Thread)
        requires
            old(self).wf(),
            old(self).next_thread_id < u64::MAX,
        ensures
            final(self).wf(),
            t.id == old(self).next_thread_id,
            t.title == title,
            t.created_at == created_at,
            final(self).threads@ =~= old(self).threads@.push(t),
            final(self).posts@ == old(self).posts@,
            final(self).next_thread_id == old(self).next_thread_id + 1,
            final(self).next_post_id == old(self).next_post_id,
    {
        let id = self.next_thread_id;
        let stored = Thread { id, title: title.clone(), created_at: created_at.clone() };
        self.threads.push(stored);
        self.next_thread_id = id + 1;
        Thread { id, title, created_at }
    }

    /// Creates a post under the given thread id: assigns the next id,
    /// persists it at its newest-first position and returns the full
    /// record. Whether the thread exists is not checked here: the design
    /// leaves referential integrity to the write path above the store.
    pub fn create_post(
        &mut self,
        thread_id: u64,
        author: String,
        content: String,
        created_at: String,
    ) -> (p: Post)
        requires
            old(self).wf(),
            old(self).next_post_id < u64::MAX,
        ensures
            final(self).wf(),
            p.id == old(self).next_post_id,
            p.thread_id == thread_id,
            p.author == author,
            p.content == content,
            p.created_at == created_at,
            final(self).posts@ =~= insert_desc(old(self).posts@, p),
            final(self).threads@ == old(self).threads@,
            final(self).next_post_id == old(self).next_post_id + 1,
            final(self).next_thread_id == old(self).next_thread_id,
    {
        let id = self.next_post_id;
        let idx = insertion_index(&self.posts, created_at.as_str());
        let stored = Post {
            id,
            thread_id,
            author: author.clone(),
            content: content.clone(),
            created_at: created_at.clone(),
        };
        let ghost s0 = self.posts@;
        self.posts.insert(idx, stored);
        self.next_post_id = id + 1;
        let p = Post { id, thread_id, author, content, created_at };
        proof {
            assert(stored == p);
            lemma_insert_desc_split(s0, p, idx as int);
            if idx < s0.len() {
                assert(s0.skip(idx as int)[0] == s0[idx as int]);
                assert(insert_desc(s0.skip(idx as int), p) =~= seq![p] + s0.skip(idx as int));
            } else {
                assert(s0.skip(idx as int).len() == 0);
            }
            assert(self.posts@ =~= insert_desc(s0, p));
            lemma_insert_desc_sorted(s0, p);
            lemma_insert_desc_ids_below(s0, p, (id + 1) as u64);
            lemma_insert_desc_distinct(s0, p);
        }
        p
    }

    /// Hands out all thread records. No ordering is promised at this
    /// layer: presentation imposes its own.
    pub fn list_threads(&self) -> (r: &Vec<Thread>)
        ensures
            r@ == self.threads@,
    {
        &self.threads
    }

    /// Hands out all post records across all threads.
    pub fn list_posts(&self) -> (r: &Vec<Post>)
        ensures
            r@ == self.posts@,
    {
        &self.posts
    }

    /// Looks a thread up by id: the record if it exists, `None` if not.
    /// Repeated calls read the same snapshot and change nothing.
    pub fn get_thread(&self, id: u64) -> (r: Option<&Thread>)
        ensures
            match r {
                Some(t) => find_thread(self.threads@, id) == Some(*t),
                None => find_thread(self.threads@, id) is None,
            },
    {
        let n = self.threads.len();
        let mut i: usize = 0;
        proof {
            assert(self.threads@.skip(0) =~= self.threads@);
        }
        while i < n
            invariant
                n == self.threads@.len(),
                i <= n,
                find_thread(self.threads@, id) == find_thread(self.threads@.skip(i as int), id),
            decreases n - i,
        {
            proof {
                assert(self.threads@.skip(i as int)[0] == self.threads@[i as int]);
                assert(self.threads@.skip(i as int).drop_first() =~= self.threads@.skip(
                    i as int + 1,
                ));
            }
            let t = &self.threads[i];
            if t.id == id {
                return Some(t);
            }
            i = i + 1;
        }
        proof {
            assert(self.threads@.skip(n as int).len() == 0);
        }
        None
    }

    /// All posts of one thread, newest first: the canonical order the
    /// feed consumes. The records are fresh copies.
    pub fn list_posts_for_thread(&self, id: u64) -> (r: Vec<Post>)
        requires
            self.wf(),
        ensures
            r@ =~= posts_of(self.posts@, id),
            sorted_desc(r@),
    {
        let mut r: Vec<Post> = Vec::new();
        let n = self.posts.len();
        let mut i: usize = 0;
        proof {
            assert(self.posts@.skip(0) =~= self.posts@);
        }
        while i < n
            invariant
                n == self.posts@.len(),
                i <= n,
                posts_of(self.posts@, id) =~= r@ + posts_of(self.posts@.skip(i as int), id),
            decreases n - i,
        {
            proof {
                assert(self.posts@.skip(i as int)[0] == self.posts@[i as int]);
                assert(self.posts@.skip(i as int).drop_first() =~= self.posts@.skip(i as int + 1));
            }
            let p = &self.posts[i];
            if p.thread_id == id {
                let ghost r0 = r@;
                r.push(p.duplicate());
                proof {
                    assert(r@ + posts_of(self.posts@.skip(i as int + 1), id) =~= r0 + (seq![
                        self.posts@[i as int],
                    ] + posts_of(self.posts@.skip(i as int + 1), id)));
                }
            }
            i = i + 1;
        }
        proof {
            assert(posts_of(self.posts@.skip(n as int), id) =~= Seq::<Post>::empty());
            assert(r@ + Seq::<Post>::empty() =~= r@);
            lemma_posts_of_sorted(self.posts@, id);
        }
        r
    }
}

/// The position in a newest-first sequence at which a record with the
/// given timestamp belongs: after every strictly newer entry.
fn insertion_index(posts: &Vec<Post>, created_at: &str) -> (i: usize)
    ensures
        i <= posts@.len(),
        forall|j: int| 0 <= j < i ==> !lex_le(posts@[j].created_at@, created_at@),
        i < posts@.len() ==> lex_le(posts@[i as int].created_at@, created_at@),
{
    let n = posts.len();
    let mut i: usize = 0;
    while i < n
        invariant
            n == posts@.len(),
            i <= n,
            forall|j: int| 0 <= j < i ==> !lex_le(posts@[j].created_at@, created_at@),
        decreases n - i,
    {
        if str_le(posts[i].created_at.as_str(), created_at) {
            return i;
        }
        i = i + 1;
    }
    i
}

} // verus!
