//! The executable store, proved against the model of each operation.
use vstd::prelude::*;

use crate::clock::{current_timestamp, ends_in_utc_offset};
use crate::model::{comments_on, feed_posts, followers_in, newest_first, posts_by, StoreView};
use crate::records::{Comment, Post, User};
use crate::text_order::{is_before, lemma_text_before_asymmetric, text_before};

verus! {

/// The in-memory store. Every entity and relation belongs to it alone;
/// entities refer to one another by identifier only.
pub struct Database {
    users: Vec<User>,
    posts: Vec<Post>,
    comments: Vec<Comment>,
    likes: Vec<(i32, i32)>,
    follows: Vec<(i32, i32)>,
}

impl View for Database {
    type V = StoreView;

    closed spec fn view(&self) -> StoreView {
        StoreView {
            users: self.users@,
            posts: self.posts@,
            comments: self.comments@,
            likes: Set::new(|k: (i32, i32)| self.likes@.contains(k)),
            follows: Set::new(|k: (i32, i32)| self.follows@.contains(k)),
        }
    }
}

/// Where `key` stands in `pairs`, if anywhere.
fn find_pair(pairs: &Vec<(i32, i32)>, key: (i32, i32)) -> (r: Option<usize>)
    ensures
        match r {
            Some(i) => i < pairs@.len() && pairs@[i as int] == key,
            None => !pairs@.contains(key),
        },
{
    let mut i: usize = 0;
    while i < pairs.len()
        invariant
            i <= pairs@.len(),
            forall|j: int| 0 <= j < i ==> pairs@[j] != key,
        decreases pairs@.len() - i,
    {
        if pairs[i].0 == key.0 && pairs[i].1 == key.1 {
            return Some(i);
        }
        i = i + 1;
    }
    None
}

/// The pairs of `pairs` whose second member is not `id`, in order.
fn without_pairs_into(pairs: &Vec<(i32, i32)>, id: i32) -> (r: Vec<(i32, i32)>)
    requires
        pairs@.no_duplicates(),
    ensures
        r@.no_duplicates(),
        forall|k: (i32, i32)| r@.contains(k) <==> (pairs@.contains(k) && k.1 != id),
{
    let mut kept: Vec<(i32, i32)> = Vec::new();
    let mut i: usize = 0;
    while i < pairs.len()
        invariant
            i <= pairs@.len(),
            pairs@.no_duplicates(),
            kept@.no_duplicates(),
            forall|k: (i32, i32)|
                kept@.contains(k) <==> (pairs@.take(i as int).contains(k) && k.1 != id),
        decreases pairs@.len() - i,
    {
        let x = pairs[i];
        let ghost before = kept@;
        proof {
            assert(pairs@.take(i + 1) =~= pairs@.take(i as int).push(x));
            lemma_push_contains(pairs@.take(i as int), x);
            if pairs@.take(i as int).contains(x) {
                let j = choose|j: int| 0 <= j < i && pairs@.take(i as int)[j] == x;
                assert(pairs@[j] == pairs@[i as int]);
            }
        }
        if x.1 != id {
            proof {
                lemma_push_new_pair(kept@, x);
            }
            kept.push(x);
        }
        assert forall|k: (i32, i32)|
            kept@.contains(k) <==> (pairs@.take(i + 1).contains(k) && k.1 != id) by {
            assert(pairs@.take(i + 1).contains(k) <==> (pairs@.take(i as int).contains(k) || k
                == x));
            assert(before.contains(k) <==> (pairs@.take(i as int).contains(k) && k.1 != id));
            if x.1 != id {
                assert(kept@ == before.push(x));
                assert(kept@.contains(k) <==> (before.contains(k) || k == x));
            } else {
                assert(kept@ == before);
            }
        }
        i = i + 1;
    }
    assert(pairs@.take(i as int) =~= pairs@);
    kept
}

/// Appending to a sequence adds exactly the appended element.
proof fn lemma_push_contains(s: Seq<(i32, i32)>, x: (i32, i32))
    ensures
        forall|k: (i32, i32)| s.push(x).contains(k) <==> (s.contains(k) || k == x),
{
    let t = s.push(x);
    assert forall|k: (i32, i32)| t.contains(k) <==> (s.contains(k) || k == x) by {
        if t.contains(k) {
            let j = choose|j: int| 0 <= j < t.len() && t[j] == k;
            if j < s.len() {
                assert(s[j] == k);
            }
        }
        if s.contains(k) {
            let j = choose|j: int| 0 <= j < s.len() && s[j] == k;
            assert(t[j] == k);
        }
        if k == x {
            assert(t[s.len() as int] == k);
        }
    }
}

/// The pairs that a sequence holds are finitely many.
proof fn lemma_pairs_finite(s: Seq<(i32, i32)>)
    ensures
        Set::new(|k: (i32, i32)| s.contains(k)).finite(),
{
    assert(Set::new(|k: (i32, i32)| s.contains(k)) == s.to_set());
    vstd::seq_lib::seq_to_set_is_finite(s);
}

/// Appending a pair not yet present keeps the pairs distinct and adds exactly it.
proof fn lemma_push_new_pair(s: Seq<(i32, i32)>, x: (i32, i32))
    requires
        s.no_duplicates(),
        !s.contains(x),
    ensures
        s.push(x).no_duplicates(),
        forall|k: (i32, i32)| s.push(x).contains(k) <==> (s.contains(k) || k == x),
{
    let t = s.push(x);
    assert forall|k: (i32, i32)| t.contains(k) <==> (s.contains(k) || k == x) by {
        if t.contains(k) {
            let j = choose|j: int| 0 <= j < t.len() && t[j] == k;
            if j < s.len() {
                assert(s[j] == k);
            }
        }
        if s.contains(k) {
            let j = choose|j: int| 0 <= j < s.len() && s[j] == k;
            assert(t[j] == k);
        }
        if k == x {
            assert(t[s.len() as int] == k);
        }
    }
}

/// Removing a position of distinct pairs keeps them distinct and drops exactly that pair.
proof fn lemma_remove_pair(s: Seq<(i32, i32)>, i: int)
    requires
        s.no_duplicates(),
        0 <= i < s.len(),
    ensures
        s.remove(i).no_duplicates(),
        forall|k: (i32, i32)| s.remove(i).contains(k) <==> (s.contains(k) && k != s[i]),
{
    let t = s.remove(i);
    assert forall|a: int, b: int| 0 <= a < t.len() && 0 <= b < t.len() && a != b implies t[a]
        != t[b] by {
        let a2 = if a < i { a } else { a + 1 };
        let b2 = if b < i { b } else { b + 1 };
        assert(t[a] == s[a2] && t[b] == s[b2]);
    }
    assert forall|k: (i32, i32)| t.contains(k) <==> (s.contains(k) && k != s[i]) by {
        if t.contains(k) {
            let j = choose|j: int| 0 <= j < t.len() && t[j] == k;
            let j2 = if j < i { j } else { j + 1 };
            assert(s[j2] == k);
        }
        if s.contains(k) && k != s[i] {
            let j = choose|j: int| 0 <= j < s.len() && s[j] == k;
            if j < i {
                assert(t[j] == k);
            } else {
                assert(t[j - 1] == k);
            }
        }
    }
}

impl Database {
    /// Identifiers are positions plus one, and no like or edge is recorded twice.
    pub closed spec fn wf(&self) -> bool {
        &&& self@.wf()
        &&& self.likes@.no_duplicates()
        &&& self.follows@.no_duplicates()
    }

    /// A well-formed store has a well-formed view: identifiers are positions
    /// plus one, counters are not negative.
    pub proof fn lemma_view_wf(&self)
        requires
            self.wf(),
        ensures
            self@.wf(),
    {
    }

    /// An empty store.
    pub fn new() -> (r: Database)
        ensures
            r.wf(),
            r@ == StoreView::empty(),
    {
        let r = Database {
            users: Vec::new(),
            posts: Vec::new(),
            comments: Vec::new(),
            likes: Vec::new(),
            follows: Vec::new(),
        };
        assert(r@ =~= StoreView::empty());
        r
    }

    /// Adds a user created at time `now`, with the next identifier.
    pub fn create_user_at(
        &mut self,
        username: String,
        email: String,
        display_name: String,
        now: String,
    ) -> (r: User)
        requires
            old(self).wf(),
            old(self)@.users.len() < i32::MAX,
        ensures
            final(self).wf(),
            old(self)@.fresh_user(r, username, email, display_name, now),
            final(self)@ == old(self)@.add_user(r),
    {
        let id: i32 = (self.users.len() + 1) as i32;
        let user = User {
            id,
            username,
            email,
            display_name,
            bio: String::new(),
            created_at: now.clone(),
            updated_at: now,
            post_count: 0,
            follower_count: 0,
            following_count: 0,
        };
        self.users.push(user.duplicate());
        let follows = without_pairs_into(&self.follows, id);
        self.follows = follows;
        proof {
            lemma_pairs_finite(self.likes@);
            lemma_pairs_finite(self.follows@);
        }
        assert(self@ =~= old(self)@.add_user(user));
        user
    }

    /// Adds a user created now, with the next identifier.
    pub fn create_user(&mut self, username: String, email: String, display_name: String) -> (r:
        User)
        requires
            old(self).wf(),
            old(self)@.users.len() < i32::MAX,
        ensures
            final(self).wf(),
            old(self)@.fresh_user(r, username, email, display_name, r.created_at),
            ends_in_utc_offset(r.created_at@),
            final(self)@ == old(self)@.add_user(r),
    {
        let now = current_timestamp();
        self.create_user_at(username, email, display_name, now)
    }

    /// The user of identifier `id`, if it was ever issued.
    pub fn get_user(&self, id: i32) -> (r: Option<User>)
        requires
            self.wf(),
        ensures
            r == self@.user(id),
    {
        if id >= 1 && (id as usize) <= self.users.len() {
            Some(self.users[(id - 1) as usize].duplicate())
        } else {
            None
        }
    }

    /// How many users were created.
    pub fn user_total(&self) -> (r: usize)
        ensures
            r == self@.users.len(),
    {
        self.users.len()
    }

    /// How many posts were created.
    pub fn post_total(&self) -> (r: usize)
        ensures
            r == self@.posts.len(),
    {
        self.posts.len()
    }

    /// How many comments were created.
    pub fn comment_total(&self) -> (r: usize)
        ensures
            r == self@.comments.len(),
    {
        self.comments.len()
    }

    /// The post of identifier `id`, if it was ever issued; unlike `get_post`
    /// this does not count a view.
    pub fn find_post(&self, id: i32) -> (r: Option<Post>)
        requires
            self.wf(),
        ensures
            r == self@.post(id),
    {
        if id >= 1 && (id as usize) <= self.posts.len() {
            Some(self.posts[(id - 1) as usize].duplicate())
        } else {
            None
        }
    }

    /// Whether `user_id` likes `post_id`.
    pub fn is_liked(&self, post_id: i32, user_id: i32) -> (r: bool)
        ensures
            r == self@.likes.contains((post_id, user_id)),
    {
        match find_pair(&self.likes, (post_id, user_id)) {
            Some(_) => true,
            None => false,
        }
    }

    /// Whether `follower_id` follows `following_id`.
    pub fn is_following(&self, follower_id: i32, following_id: i32) -> (r: bool)
        ensures
            r == self@.follows.contains((follower_id, following_id)),
    {
        match find_pair(&self.follows, (follower_id, following_id)) {
            Some(_) => true,
            None => false,
        }
    }

    /// Every user, in order of creation.
    pub fn get_all_users(&self) -> (r: Vec<User>)
        requires
            self.wf(),
        ensures
            r@ == self@.users,
    {
        let mut out: Vec<User> = Vec::new();
        let mut i: usize = 0;
        while i < self.users.len()
            invariant
                i <= self.users@.len(),
                out@ == self.users@.take(i as int),
            decreases self.users@.len() - i,
        {
            out.push(self.users[i].duplicate());
            i = i + 1;
            assert(out@ =~= self.users@.take(i as int));
        }
        assert(out@ =~= self.users@);
        out
    }

    /// Adds a post created at time `now`, with the next identifier. The owner
    /// need not exist; if it does, it counts one post more.
    pub fn create_post_at(&mut self, user_id: i32, content: String, now: String) -> (r: Post)
        requires
            old(self).wf(),
            old(self)@.posts.len() < i32::MAX,
            1 <= user_id <= old(self)@.users.len() ==> old(self)@.users[user_id - 1].post_count
                < i32::MAX,
        ensures
            final(self).wf(),
            old(self)@.fresh_post(r, user_id, content, now),
            final(self)@ == old(self)@.add_post(r),
    {
        let id: i32 = (self.posts.len() + 1) as i32;
        let post = Post {
            id,
            user_id,
            content,
            created_at: now.clone(),
            updated_at: now,
            like_count: 0,
            comment_count: 0,
            views: 0,
        };
        self.posts.push(post.duplicate());
        if user_id >= 1 && (user_id as usize) <= self.users.len() {
            let i = (user_id - 1) as usize;
            let n = self.users[i].post_count;
            self.users[i].post_count = n + 1;
        }
        assert(self@ =~= old(self)@.add_post(post));
        post
    }

    /// Adds a post created now, with the next identifier. The owner need not
    /// exist; if it does, it counts one post more.
    pub fn create_post(&mut self, user_id: i32, content: String) -> (r: Post)
        requires
            old(self).wf(),
            old(self)@.posts.len() < i32::MAX,
            1 <= user_id <= old(self)@.users.len() ==> old(self)@.users[user_id - 1].post_count
                < i32::MAX,
        ensures
            final(self).wf(),
            old(self)@.fresh_post(r, user_id, content, r.created_at),
            ends_in_utc_offset(r.created_at@),
            final(self)@ == old(self)@.add_post(r),
    {
        let now = current_timestamp();
        self.create_post_at(user_id, content, now)
    }

    /// Reads post `id`: if it exists its views count one more, and the post
    /// is returned as it stands after that.
    pub fn get_post(&mut self, id: i32) -> (r: Option<Post>)
        requires
            old(self).wf(),
            1 <= id <= old(self)@.posts.len() ==> old(self)@.posts[id - 1].views < i32::MAX,
        ensures
            final(self).wf(),
            final(self)@ == old(self)@.read_post(id),
            r == final(self)@.post(id),
    {
        if id >= 1 && (id as usize) <= self.posts.len() {
            let i = (id - 1) as usize;
            let n = self.posts[i].views;
            self.posts[i].views = n + 1;
            assert(self@ =~= old(self)@.read_post(id));
            Some(self.posts[i].duplicate())
        } else {
            assert(self@ =~= old(self)@.read_post(id));
            None
        }
    }

    /// Adds a comment created at time `now`, with the next identifier. The
    /// post need not exist; if it does, it counts one comment more.
    pub fn add_comment_at(&mut self, post_id: i32, user_id: i32, text: String, now: String) -> (r:
        Comment)
        requires
            old(self).wf(),
            old(self)@.comments.len() < i32::MAX,
            1 <= post_id <= old(self)@.posts.len() ==> old(self)@.posts[post_id
                - 1].comment_count < i32::MAX,
        ensures
            final(self).wf(),
            old(self)@.fresh_comment(r, post_id, user_id, text, now),
            final(self)@ == old(self)@.add_comment(r),
    {
        let id: i32 = (self.comments.len() + 1) as i32;
        let comment = Comment { id, post_id, user_id, text, created_at: now, like_count: 0 };
        self.comments.push(comment.duplicate());
        if post_id >= 1 && (post_id as usize) <= self.posts.len() {
            let i = (post_id - 1) as usize;
            let n = self.posts[i].comment_count;
            self.posts[i].comment_count = n + 1;
        }
        assert(self@ =~= old(self)@.add_comment(comment));
        comment
    }

    /// Adds a comment created now, with the next identifier. The post need
    /// not exist; if it does, it counts one comment more.
    pub fn add_comment(&mut self, post_id: i32, user_id: i32, text: String) -> (r: Comment)
        requires
            old(self).wf(),
            old(self)@.comments.len() < i32::MAX,
            1 <= post_id <= old(self)@.posts.len() ==> old(self)@.posts[post_id
                - 1].comment_count < i32::MAX,
        ensures
            final(self).wf(),
            old(self)@.fresh_comment(r, post_id, user_id, text, r.created_at),
            ends_in_utc_offset(r.created_at@),
            final(self)@ == old(self)@.add_comment(r),
    {
        let now = current_timestamp();
        self.add_comment_at(post_id, user_id, text, now)
    }

    /// Records that `user_id` likes `post_id`. Returns false, changing
    /// nothing, if that like is already recorded. A new like is recorded even
    /// when the post does not exist; the post's like count rises only when it does.
    pub fn like_post(&mut self, post_id: i32, user_id: i32) -> (r: bool)
        requires
            old(self).wf(),
            !old(self)@.likes.contains((post_id, user_id)) && 1 <= post_id <= old(self)@.posts.len()
                ==> old(self)@.posts[post_id - 1].like_count < i32::MAX,
        ensures
            final(self).wf(),
            (final(self)@, r) == old(self)@.like(post_id, user_id),
    {
        let key = (post_id, user_id);
        match find_pair(&self.likes, key) {
            Some(_) => {
                assert(self@.likes.contains(key));
                false
            },
            None => {
                proof {
                    lemma_push_new_pair(self.likes@, key);
                }
                self.likes.push(key);
                if post_id >= 1 && (post_id as usize) <= self.posts.len() {
                    let i = (post_id - 1) as usize;
                    let n = self.posts[i].like_count;
                    self.posts[i].like_count = n + 1;
                }
                assert(self@ =~= old(self)@.like(post_id, user_id).0);
                true
            },
        }
    }

    /// Withdraws the like of `post_id` by `user_id`. Returns false, changing
    /// nothing, if there is none. The post's like count, if the post exists,
    /// drops by one but never below zero.
    pub fn unlike_post(&mut self, post_id: i32, user_id: i32) -> (r: bool)
        requires
            old(self).wf(),
        ensures
            final(self).wf(),
            (final(self)@, r) == old(self)@.unlike(post_id, user_id),
    {
        let key = (post_id, user_id);
        match find_pair(&self.likes, key) {
            None => {
                assert(!self@.likes.contains(key));
                false
            },
            Some(i) => {
                proof {
                    lemma_remove_pair(self.likes@, i as int);
                }
                self.likes.remove(i);
                if post_id >= 1 && (post_id as usize) <= self.posts.len() {
                    let j = (post_id - 1) as usize;
                    let n = self.posts[j].like_count;
                    if n > 0 {
                        self.posts[j].like_count = n - 1;
                    }
                }
                assert(self@ =~= old(self)@.unlike(post_id, user_id).0);
                true
            },
        }
    }

    /// Makes `follower_id` follow `following_id`. Returns false, changing
    /// nothing, for a self-follow or an edge that already exists. Otherwise
    /// the followed user, if it exists, counts one follower more, and the
    /// follower, if it exists, follows one user more.
    pub fn follow(&mut self, follower_id: i32, following_id: i32) -> (r: bool)
        requires
            old(self).wf(),
            follower_id != following_id && !old(self)@.follows.contains((follower_id, following_id))
                && 1 <= following_id <= old(self)@.users.len() ==> old(self)@.users[following_id
                - 1].follower_count < i32::MAX,
            follower_id != following_id && !old(self)@.follows.contains((follower_id, following_id))
                && 1 <= follower_id <= old(self)@.users.len() ==> old(self)@.users[follower_id
                - 1].following_count < i32::MAX,
        ensures
            final(self).wf(),
            (final(self)@, r) == old(self)@.follow(follower_id, following_id),
    {
        if follower_id == following_id {
            return false;
        }
        let key = (follower_id, following_id);
        match find_pair(&self.follows, key) {
            Some(_) => {
                assert(self@.follows.contains(key));
                false
            },
            None => {
                proof {
                    lemma_push_new_pair(self.follows@, key);
                }
                self.follows.push(key);
                if following_id >= 1 && (following_id as usize) <= self.users.len() {
                    let i = (following_id - 1) as usize;
                    let n = self.users[i].follower_count;
                    self.users[i].follower_count = n + 1;
                }
                if follower_id >= 1 && (follower_id as usize) <= self.users.len() {
                    let i = (follower_id - 1) as usize;
                    let n = self.users[i].following_count;
                    self.users[i].following_count = n + 1;
                }
                assert(self@ =~= old(self)@.follow(follower_id, following_id).0);
                true
            },
        }
    }

    /// Makes `follower_id` stop following `following_id`. Returns false,
    /// changing nothing, if it did not follow. Otherwise both users' counters,
    /// where the users exist, drop by one but never below zero.
    pub fn unfollow(&mut self, follower_id: i32, following_id: i32) -> (r: bool)
        requires
            old(self).wf(),
        ensures
            final(self).wf(),
            (final(self)@, r) == old(self)@.unfollow(follower_id, following_id),
    {
        let key = (follower_id, following_id);
        match find_pair(&self.follows, key) {
            None => {
                assert(!self@.follows.contains(key));
                false
            },
            Some(i) => {
                proof {
                    lemma_remove_pair(self.follows@, i as int);
                }
                self.follows.remove(i);
                if following_id >= 1 && (following_id as usize) <= self.users.len() {
                    let j = (following_id - 1) as usize;
                    let n = self.users[j].follower_count;
                    if n > 0 {
                        self.users[j].follower_count = n - 1;
                    }
                }
                if follower_id >= 1 && (follower_id as usize) <= self.users.len() {
                    let j = (follower_id - 1) as usize;
                    let n = self.users[j].following_count;
                    if n > 0 {
                        self.users[j].following_count = n - 1;
                    }
                }
                assert(self@ =~= old(self)@.unfollow(follower_id, following_id).0);
                true
            },
        }
    }

    /// The posts owned by `user_id`, in order of creation. Views are not counted.
    pub fn get_posts_by_user(&self, user_id: i32) -> (r: Vec<Post>)
        requires
            self.wf(),
        ensures
            r@ == posts_by(self@.posts, user_id),
    {
        let mut out: Vec<Post> = Vec::new();
        let mut i: usize = 0;
        while i < self.posts.len()
            invariant
                i <= self.posts@.len(),
                out@ == posts_by(self.posts@.take(i as int), user_id),
            decreases self.posts@.len() - i,
        {
            assert(self.posts@.take(i + 1).drop_last() =~= self.posts@.take(i as int));
            if self.posts[i].user_id == user_id {
                out.push(self.posts[i].duplicate());
            }
            i = i + 1;
        }
        assert(self.posts@.take(i as int) =~= self.posts@);
        out
    }

    /// The comments on post `post_id`, in order of creation.
    pub fn get_comments(&self, post_id: i32) -> (r: Vec<Comment>)
        requires
            self.wf(),
        ensures
            r@ == comments_on(self@.comments, post_id),
    {
        let mut out: Vec<Comment> = Vec::new();
        let mut i: usize = 0;
        while i < self.comments.len()
            invariant
                i <= self.comments@.len(),
                out@ == comments_on(self.comments@.take(i as int), post_id),
            decreases self.comments@.len() - i,
        {
            assert(self.comments@.take(i + 1).drop_last() =~= self.comments@.take(i as int));
            if self.comments[i].post_id == post_id {
                out.push(self.comments[i].duplicate());
            }
            i = i + 1;
        }
        assert(self.comments@.take(i as int) =~= self.comments@);
        out
    }

    /// The existing users that follow `user_id`, in order of creation.
    pub fn get_followers(&self, user_id: i32) -> (r: Vec<User>)
        requires
            self.wf(),
        ensures
            r@ == followers_in(self@.users, self@.follows, user_id),
    {
        let mut out: Vec<User> = Vec::new();
        let mut i: usize = 0;
        while i < self.users.len()
            invariant
                i <= self.users@.len(),
                out@ == followers_in(self.users@.take(i as int), self@.follows, user_id),
            decreases self.users@.len() - i,
        {
            assert(self.users@.take(i + 1).drop_last() =~= self.users@.take(i as int));
            match find_pair(&self.follows, (self.users[i].id, user_id)) {
                Some(_) => {
                    out.push(self.users[i].duplicate());
                },
                None => {},
            }
            i = i + 1;
        }
        assert(self.users@.take(i as int) =~= self.users@);
        out
    }

    /// The posts of `user_id` and of the users it follows, newest first,
    /// cut to at most `limit`. Posts of equal time come in no fixed order.
    pub fn get_feed(&self, user_id: i32, limit: usize) -> (r: Vec<Post>)
        requires
            self.wf(),
        ensures
            exists|s: Seq<Post>|
                {
                    &&& s.to_multiset() == feed_posts(self@.posts, self@.follows, user_id).to_multiset()
                    &&& newest_first(s)
                    &&& r@ == s.take(if limit < s.len() { limit as int } else { s.len() as int })
                },
            r@.len() == if limit < feed_posts(self@.posts, self@.follows, user_id).len() {
                limit as int
            } else {
                feed_posts(self@.posts, self@.follows, user_id).len() as int
            },
            forall|i: int|
                0 <= i < r@.len() ==> feed_posts(self@.posts, self@.follows, user_id).contains(
                    #[trigger] r@[i],
                ),
    {
        let mut feed: Vec<Post> = Vec::new();
        let mut i: usize = 0;
        while i < self.posts.len()
            invariant
                i <= self.posts@.len(),
                feed@.to_multiset() == feed_posts(self.posts@.take(i as int), self@.follows, user_id).to_multiset(),
                newest_first(feed@),
            decreases self.posts@.len() - i,
        {
            assert(self.posts@.take(i + 1).drop_last() =~= self.posts@.take(i as int));
            let author = self.posts[i].user_id;
            let wanted = if author == user_id {
                true
            } else {
                match find_pair(&self.follows, (user_id, author)) {
                    Some(_) => true,
                    None => false,
                }
            };
            if wanted {
                let post = self.posts[i].duplicate();
                let ghost before = feed@;
                assert(post == self.posts@[i as int]);
                let k = newest_first_slot(&feed, &post);
                feed.insert(k, post);
                proof {
                    lemma_insert_multiset(before, k as int, post);
                    vstd::seq_lib::to_multiset_build(
                        feed_posts(self.posts@.take(i as int), self@.follows, user_id),
                        post,
                    );
                }
            }
            i = i + 1;
        }
        assert(self.posts@.take(i as int) =~= self.posts@);
        let ghost full = feed@;
        proof {
            broadcast use vstd::seq_lib::group_to_multiset_ensures;

            let f = feed_posts(self@.posts, self@.follows, user_id);
            assert(full.to_multiset().len() == f.to_multiset().len());
            assert forall|j: int| 0 <= j < full.len() implies f.contains(#[trigger] full[j]) by {
                assert(full.contains(full[j]));
                assert(full.to_multiset().count(full[j]) > 0);
            }
        }
        if limit < feed.len() {
            feed.truncate(limit);
        }
        assert(feed@ =~= full.take(if limit < full.len() { limit as int } else { full.len() as int }));
        feed
    }
}

/// Where `post` goes in the newest-first `feed`: after every post that is not
/// older, before the first that is.
fn newest_first_slot(feed: &Vec<Post>, post: &Post) -> (k: usize)
    requires
        newest_first(feed@),
    ensures
        k <= feed@.len(),
        newest_first(feed@.insert(k as int, *post)),
{
    let mut k: usize = 0;
    while k < feed.len()
        invariant
            k <= feed@.len(),
            newest_first(feed@),
            k > 0 ==> !text_before(feed@[k - 1].created_at@, post.created_at@),
        decreases feed@.len() - k,
    {
        if is_before(&feed[k].created_at, &post.created_at) {
            proof {
                lemma_text_before_asymmetric(feed@[k as int].created_at@, post.created_at@);
                lemma_insert_newest_first(feed@, k as int, *post);
            }
            return k;
        }
        k = k + 1;
    }
    proof {
        lemma_insert_newest_first(feed@, k as int, *post);
    }
    k
}

/// Inserting a post between a neighbour that is not older and one that is
/// not newer keeps a sequence newest first.
proof fn lemma_insert_newest_first(s: Seq<Post>, k: int, x: Post)
    requires
        newest_first(s),
        0 <= k <= s.len(),
        k > 0 ==> !text_before(s[k - 1].created_at@, x.created_at@),
        k < s.len() ==> !text_before(x.created_at@, s[k].created_at@),
    ensures
        newest_first(s.insert(k, x)),
{
    let t = s.insert(k, x);
    assert forall|i: int| 0 <= i < t.len() - 1 implies !text_before(
        #[trigger] t[i].created_at@,
        t[i + 1].created_at@,
    ) by {
        if i < k - 1 {
            assert(t[i] == s[i] && t[i + 1] == s[i + 1]);
        } else if i == k - 1 {
            assert(t[i] == s[i] && t[i + 1] == x);
        } else if i == k {
            assert(t[i] == x && t[i + 1] == s[i]);
        } else {
            assert(t[i] == s[i - 1] && t[i + 1] == s[i]);
        }
    }
}

/// Inserting anywhere adds the element once to the multiset of a sequence.
proof fn lemma_insert_multiset(s: Seq<Post>, k: int, x: Post)
    requires
        0 <= k <= s.len(),
    ensures
        s.insert(k, x).to_multiset() == s.to_multiset().insert(x),
{
    broadcast use vstd::seq_lib::group_to_multiset_ensures;
    assert(s =~= s.take(k) + s.skip(k));
    assert(s.insert(k, x) =~= s.take(k).push(x) + s.skip(k));
    vstd::seq_lib::lemma_multiset_commutative(s.take(k).push(x), s.skip(k));
    vstd::seq_lib::lemma_multiset_commutative(s.take(k), s.skip(k));
}

} // verus!
