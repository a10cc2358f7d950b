//! The abstract contents of a store, and what each operation does to them.
use vstd::prelude::*;

use crate::records::{Comment, Post, User};
use crate::text_order::text_before;

verus! {

/// The abstract contents of a store.
#[verifier::ext_equal]
pub struct StoreView {
    /// Users in order of creation; the user at index `i` has identifier `i + 1`.
    pub users: Seq<User>,
    /// Posts in order of creation; the post at index `i` has identifier `i + 1`.
    pub posts: Seq<Post>,
    /// Comments in order of creation; the comment at index `i` has identifier `i + 1`.
    pub comments: Seq<Comment>,
    /// Recorded likes, as `(post, user)` pairs.
    pub likes: Set<(i32, i32)>,
    /// Follow edges, as `(follower, followed)` pairs.
    pub follows: Set<(i32, i32)>,
}

/// A counter raised by one.
pub open spec fn bump(n: i32) -> i32 {
    (n + 1) as i32
}

/// A counter lowered by one, but never below zero.
pub open spec fn lower(n: i32) -> i32 {
    if n > 0 {
        (n - 1) as i32
    } else {
        n
    }
}

/// `users` with the user of identifier `id`, if there is one, replaced by `f` of it.
pub open spec fn change_user(users: Seq<User>, id: i32, f: spec_fn(User) -> User) -> Seq<User> {
    if 1 <= id <= users.len() {
        users.update(id - 1, f(users[id - 1]))
    } else {
        users
    }
}

/// `posts` with the post of identifier `id`, if there is one, replaced by `f` of it.
pub open spec fn change_post(posts: Seq<Post>, id: i32, f: spec_fn(Post) -> Post) -> Seq<Post> {
    if 1 <= id <= posts.len() {
        posts.update(id - 1, f(posts[id - 1]))
    } else {
        posts
    }
}

/// The posts of `posts` owned by `owner`, in order.
pub open spec fn posts_by(posts: Seq<Post>, owner: i32) -> Seq<Post>
    decreases posts.len(),
{
    if posts.len() == 0 {
        Seq::empty()
    } else {
        let rest = posts_by(posts.drop_last(), owner);
        if posts.last().user_id == owner {
            rest.push(posts.last())
        } else {
            rest
        }
    }
}

/// The comments of `comments` on post `post_id`, in order.
pub open spec fn comments_on(comments: Seq<Comment>, post_id: i32) -> Seq<Comment>
    decreases comments.len(),
{
    if comments.len() == 0 {
        Seq::empty()
    } else {
        let rest = comments_on(comments.drop_last(), post_id);
        if comments.last().post_id == post_id {
            rest.push(comments.last())
        } else {
            rest
        }
    }
}

/// The users of `users` that follow `target`, in order.
pub open spec fn followers_in(users: Seq<User>, follows: Set<(i32, i32)>, target: i32) -> Seq<User>
    decreases users.len(),
{
    if users.len() == 0 {
        Seq::empty()
    } else {
        let rest = followers_in(users.drop_last(), follows, target);
        if follows.contains((users.last().id, target)) {
            rest.push(users.last())
        } else {
            rest
        }
    }
}

/// Whether a post by `author` belongs in the feed of `reader`.
pub open spec fn in_feed(follows: Set<(i32, i32)>, reader: i32, author: i32) -> bool {
    author == reader || follows.contains((reader, author))
}

/// The posts of `posts` that belong in the feed of `reader`, in order.
pub open spec fn feed_posts(posts: Seq<Post>, follows: Set<(i32, i32)>, reader: i32) -> Seq<Post>
    decreases posts.len(),
{
    if posts.len() == 0 {
        Seq::empty()
    } else {
        let rest = feed_posts(posts.drop_last(), follows, reader);
        if in_feed(follows, reader, posts.last().user_id) {
            rest.push(posts.last())
        } else {
            rest
        }
    }
}

/// No post is followed by one created strictly later.
pub open spec fn newest_first(s: Seq<Post>) -> bool {
    forall|i: int|
        0 <= i < s.len() - 1 ==> !text_before(#[trigger] s[i].created_at@, s[i + 1].created_at@)
}

impl StoreView {
    /// The store with nothing in it.
    pub open spec fn empty() -> StoreView {
        StoreView {
            users: Seq::empty(),
            posts: Seq::empty(),
            comments: Seq::empty(),
            likes: Set::empty(),
            follows: Set::empty(),
        }
    }

    /// Identifiers are positions plus one and fit in `i32`; no counter is
    /// negative; finitely many likes and edges are recorded.
    pub open spec fn wf(self) -> bool {
        &&& self.likes.finite()
        &&& self.follows.finite()
        &&& self.users.len() <= i32::MAX
        &&& self.posts.len() <= i32::MAX
        &&& self.comments.len() <= i32::MAX
        &&& forall|i: int|
            #![trigger self.users[i]]
            0 <= i < self.users.len() ==> {
                &&& self.users[i].id == i + 1
                &&& self.users[i].post_count >= 0
                &&& self.users[i].follower_count >= 0
                &&& self.users[i].following_count >= 0
            }
        &&& forall|i: int|
            #![trigger self.posts[i]]
            0 <= i < self.posts.len() ==> {
                &&& self.posts[i].id == i + 1
                &&& self.posts[i].like_count >= 0
                &&& self.posts[i].comment_count >= 0
                &&& self.posts[i].views >= 0
            }
        &&& forall|i: int| 0 <= i < self.comments.len() ==> #[trigger] self.comments[i].id == i + 1
    }

    /// The user of identifier `id`, if it was ever issued.
    pub open spec fn user(self, id: i32) -> Option<User> {
        if 1 <= id <= self.users.len() {
            Some(self.users[id - 1])
        } else {
            None
        }
    }

    /// The post of identifier `id`, if it was ever issued.
    pub open spec fn post(self, id: i32) -> Option<Post> {
        if 1 <= id <= self.posts.len() {
            Some(self.posts[id - 1])
        } else {
            None
        }
    }

    /// Whether `u` is the user that the next creation makes from these inputs.
    pub open spec fn fresh_user(
        self,
        u: User,
        username: String,
        email: String,
        display_name: String,
        now: String,
    ) -> bool {
        &&& u.id == self.users.len() + 1
        &&& u.username == username
        &&& u.email == email
        &&& u.display_name == display_name
        &&& u.bio@ == Seq::<char>::empty()
        &&& u.created_at == now
        &&& u.updated_at == now
        &&& u.post_count == 0
        &&& u.follower_count == 0
        &&& u.following_count == 0
    }

    /// The store after user `u` is added: it starts with no followers, so
    /// any edge already recorded towards its identifier is dropped.
    pub open spec fn add_user(self, u: User) -> StoreView {
        StoreView {
            users: self.users.push(u),
            follows: self.follows.filter(|e: (i32, i32)| e.1 != u.id),
            ..self
        }
    }

    /// Whether `p` is the post that the next creation makes from these inputs.
    pub open spec fn fresh_post(self, p: Post, user_id: i32, content: String, now: String) -> bool {
        &&& p.id == self.posts.len() + 1
        &&& p.user_id == user_id
        &&& p.content == content
        &&& p.created_at == now
        &&& p.updated_at == now
        &&& p.like_count == 0
        &&& p.comment_count == 0
        &&& p.views == 0
    }

    /// The store after post `p` is added: its owner, if any, counts one post more.
    pub open spec fn add_post(self, p: Post) -> StoreView {
        StoreView {
            posts: self.posts.push(p),
            users: change_user(
                self.users,
                p.user_id,
                |u: User| User { post_count: bump(u.post_count), ..u },
            ),
            ..self
        }
    }

    /// Whether `c` is the comment that the next creation makes from these inputs.
    pub open spec fn fresh_comment(
        self,
        c: Comment,
        post_id: i32,
        user_id: i32,
        text: String,
        now: String,
    ) -> bool {
        &&& c.id == self.comments.len() + 1
        &&& c.post_id == post_id
        &&& c.user_id == user_id
        &&& c.text == text
        &&& c.created_at == now
        &&& c.like_count == 0
    }

    /// The store after comment `c` is added: its post, if any, counts one comment more.
    pub open spec fn add_comment(self, c: Comment) -> StoreView {
        StoreView {
            comments: self.comments.push(c),
            posts: change_post(
                self.posts,
                c.post_id,
                |p: Post| Post { comment_count: bump(p.comment_count), ..p },
            ),
            ..self
        }
    }

    /// The store after post `id` is read: its views, if it exists, count one more.
    pub open spec fn read_post(self, id: i32) -> StoreView {
        StoreView {
            posts: change_post(self.posts, id, |p: Post| Post { views: bump(p.views), ..p }),
            ..self
        }
    }

    /// The store after `user_id` likes `post_id`, and whether the like is new.
    pub open spec fn like(self, post_id: i32, user_id: i32) -> (StoreView, bool) {
        if self.likes.contains((post_id, user_id)) {
            (self, false)
        } else {
            (
                StoreView {
                    likes: self.likes.insert((post_id, user_id)),
                    posts: change_post(
                        self.posts,
                        post_id,
                        |p: Post| Post { like_count: bump(p.like_count), ..p },
                    ),
                    ..self
                },
                true,
            )
        }
    }

    /// The store after `user_id` withdraws a like of `post_id`, and whether there was one.
    pub open spec fn unlike(self, post_id: i32, user_id: i32) -> (StoreView, bool) {
        if !self.likes.contains((post_id, user_id)) {
            (self, false)
        } else {
            (
                StoreView {
                    likes: self.likes.remove((post_id, user_id)),
                    posts: change_post(
                        self.posts,
                        post_id,
                        |p: Post| Post { like_count: lower(p.like_count), ..p },
                    ),
                    ..self
                },
                true,
            )
        }
    }

    /// The store after `follower` follows `followed`, and whether the edge is new.
    pub open spec fn follow(self, follower: i32, followed: i32) -> (StoreView, bool) {
        if follower == followed || self.follows.contains((follower, followed)) {
            (self, false)
        } else {
            let users = change_user(
                self.users,
                followed,
                |u: User| User { follower_count: bump(u.follower_count), ..u },
            );
            (
                StoreView {
                    follows: self.follows.insert((follower, followed)),
                    users: change_user(
                        users,
                        follower,
                        |u: User| User { following_count: bump(u.following_count), ..u },
                    ),
                    ..self
                },
                true,
            )
        }
    }

    /// The store after `follower` stops following `followed`, and whether it did follow.
    pub open spec fn unfollow(self, follower: i32, followed: i32) -> (StoreView, bool) {
        if !self.follows.contains((follower, followed)) {
            (self, false)
        } else {
            let users = change_user(
                self.users,
                followed,
                |u: User| User { follower_count: lower(u.follower_count), ..u },
            );
            (
                StoreView {
                    follows: self.follows.remove((follower, followed)),
                    users: change_user(
                        users,
                        follower,
                        |u: User| User { following_count: lower(u.following_count), ..u },
                    ),
                    ..self
                },
                true,
            )
        }
    }
}

} // verus!
