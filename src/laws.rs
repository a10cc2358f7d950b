//! Properties of the store that span several operations, stated over the
//! abstract contents that each operation's contract speaks of.
use vstd::prelude::*;

use crate::records::{Post, User};
use crate::text_order::{lemma_text_not_before_transitive, text_before};
use crate::model::{bump, feed_posts, in_feed, newest_first, StoreView};

verus! {

/// User identifiers strictly increase in order of creation, so no two users
/// share one.
pub proof fn lemma_user_ids_increasing(v: StoreView)
    requires
        v.wf(),
    ensures
        forall|i: int, j: int| 0 <= i < j < v.users.len() ==> v.users[i].id < v.users[j].id,
{
    assert forall|i: int, j: int| 0 <= i < j < v.users.len() implies v.users[i].id
        < v.users[j].id by {
        assert(v.users[i].id == i + 1 && v.users[j].id == j + 1);
    }
}

/// A newly created user gets an identifier greater than every identifier
/// issued before, and the store stays well formed; a second creation right
/// after, from any inputs, gets a greater one still.
pub proof fn lemma_create_user_ids_increase(
    v: StoreView,
    u1: User,
    u2: User,
    username1: String,
    email1: String,
    display_name1: String,
    now1: String,
    username2: String,
    email2: String,
    display_name2: String,
    now2: String,
)
    requires
        v.wf(),
        v.users.len() + 1 < i32::MAX,
        v.fresh_user(u1, username1, email1, display_name1, now1),
        v.add_user(u1).fresh_user(u2, username2, email2, display_name2, now2),
    ensures
        forall|i: int| 0 <= i < v.users.len() ==> v.users[i].id < u1.id,
        u1.id < u2.id,
        v.add_user(u1).wf(),
        v.add_user(u1).add_user(u2).wf(),
{
    let w = v.add_user(u1);
    assert(w.users.last() == u1);
    assert forall|i: int| 0 <= i < v.users.len() implies v.users[i].id < u1.id by {
        assert(v.users[i].id == i + 1);
    }
    assert(w.add_user(u2).users.last() == u2);
}

/// Every identifier issued earlier in a store's life, as long as the user
/// it names is still stored, is smaller than the one a creation issues now.
pub proof fn lemma_fresh_id_exceeds_issued(
    v: StoreView,
    earlier_id: i32,
    u: User,
    username: String,
    email: String,
    display_name: String,
    now: String,
)
    requires
        v.wf(),
        v.user(earlier_id) is Some,
        v.fresh_user(u, username, email, display_name, now),
    ensures
        earlier_id < u.id,
{
}

/// Right after a creation, looking the new user up gives it back exactly,
/// and no follow edge points at it.
pub proof fn lemma_lookup_after_add_user(
    v: StoreView,
    u: User,
    username: String,
    email: String,
    display_name: String,
    now: String,
)
    requires
        v.wf(),
        v.fresh_user(u, username, email, display_name, now),
    ensures
        v.add_user(u).user(u.id) == Some(u),
        forall|a: i32| !v.add_user(u).follows.contains((a, u.id)),
{
    assert(v.add_user(u).users[v.users.len() as int] == u);
}

/// A lookup finds a user exactly when its identifier was issued, and then the
/// user with that identifier.
pub proof fn lemma_user_lookup(v: StoreView, id: i32)
    requires
        v.wf(),
    ensures
        v.user(id) is None <==> (forall|i: int| 0 <= i < v.users.len() ==> v.users[i].id != id),
        v.user(id) is Some ==> v.user(id).unwrap().id == id && v.users.contains(
            v.user(id).unwrap(),
        ),
{
    if 1 <= id <= v.users.len() {
        assert(v.users[id - 1].id == id);
    } else {
        assert forall|i: int| 0 <= i < v.users.len() implies v.users[i].id != id by {
            assert(v.users[i].id == i + 1);
        }
    }
}

/// Adding a post raises its owner's post count by one, if the owner exists,
/// and leaves every other user as it was.
pub proof fn lemma_add_post_counts(v: StoreView, p: Post)
    requires
        v.wf(),
        v.user(p.user_id) is Some ==> v.user(p.user_id).unwrap().post_count < i32::MAX,
    ensures
        v.add_post(p).users.len() == v.users.len(),
        forall|id: i32|
            #![trigger v.add_post(p).user(id)]
            v.user(id) is Some ==> v.add_post(p).user(id) is Some && v.add_post(p).user(
                id,
            ).unwrap().post_count == if id == p.user_id {
                v.user(id).unwrap().post_count + 1
            } else {
                v.user(id).unwrap().post_count as int
            },
        forall|id: i32| id != p.user_id ==> #[trigger] v.add_post(p).user(id) == v.user(id),
{
    let w = v.add_post(p);
    assert forall|id: i32| #![trigger w.user(id)] v.user(id) is Some implies w.user(id) is Some
        && w.user(id).unwrap().post_count == if id == p.user_id {
        v.user(id).unwrap().post_count + 1
    } else {
        v.user(id).unwrap().post_count as int
    } by {
        if id == p.user_id {
            assert(w.users[id - 1].post_count == bump(v.users[id - 1].post_count));
        } else {
            assert(w.users[id - 1] == v.users[id - 1]);
        }
    }
}

/// Post `id` after `n` reads.
pub open spec fn read_post_times(v: StoreView, id: i32, n: nat) -> StoreView
    decreases n,
{
    if n == 0 {
        v
    } else {
        read_post_times(v, id, (n - 1) as nat).read_post(id)
    }
}

/// `n` reads of an existing post raise its views by exactly `n`.
pub proof fn lemma_reads_count_views(v: StoreView, id: i32, n: nat)
    requires
        v.wf(),
        v.post(id) is Some,
        v.post(id).unwrap().views + n <= i32::MAX,
    ensures
        read_post_times(v, id, n).post(id) is Some,
        read_post_times(v, id, n).post(id).unwrap().views == v.post(id).unwrap().views + n,
        read_post_times(v, id, n).posts.len() == v.posts.len(),
    decreases n,
{
    if n > 0 {
        lemma_reads_count_views(v, id, (n - 1) as nat);
    }
}

/// A second like of the same post by the same user is refused and changes
/// nothing, so the post's like count rises at most once.
pub proof fn lemma_like_twice(v: StoreView, post_id: i32, user_id: i32)
    ensures
        v.like(post_id, user_id).0.like(post_id, user_id) == (v.like(post_id, user_id).0, false),
        v.like(post_id, user_id).0.likes.contains((post_id, user_id)),
        v.like(post_id, user_id).1 <==> !v.likes.contains((post_id, user_id)),
        v.post(post_id) is Some ==> v.like(post_id, user_id).0.post(post_id) is Some && v.like(
            post_id,
            user_id,
        ).0.post(post_id).unwrap().like_count == if v.likes.contains((post_id, user_id)) {
            v.post(post_id).unwrap().like_count
        } else {
            bump(v.post(post_id).unwrap().like_count)
        },
{
}

/// Withdrawing a like right after recording it restores the store, like
/// count included.
pub proof fn lemma_unlike_undoes_like(v: StoreView, post_id: i32, user_id: i32)
    requires
        v.wf(),
        !v.likes.contains((post_id, user_id)),
        v.post(post_id) is Some ==> v.post(post_id).unwrap().like_count < i32::MAX,
    ensures
        v.like(post_id, user_id).1,
        v.like(post_id, user_id).0.unlike(post_id, user_id) == (v, true),
{
    let w = v.like(post_id, user_id).0;
    let x = w.unlike(post_id, user_id).0;
    assert(x.likes =~= v.likes);
    if 1 <= post_id <= v.posts.len() {
        assert(v.posts[post_id - 1].like_count >= 0);
        assert(x.posts =~= v.posts);
    } else {
        assert(x.posts =~= v.posts);
    }
    assert(x =~= v);
}

/// Likes and withdrawals keep the store well formed, so no like count
/// ever drops below zero.
pub proof fn lemma_likes_keep_counts(v: StoreView, post_id: i32, user_id: i32)
    requires
        v.wf(),
        v.post(post_id) is Some ==> v.post(post_id).unwrap().like_count < i32::MAX,
    ensures
        v.like(post_id, user_id).0.wf(),
        v.unlike(post_id, user_id).0.wf(),
        forall|i: int|
            0 <= i < v.unlike(post_id, user_id).0.posts.len() ==> #[trigger] v.unlike(
                post_id,
                user_id,
            ).0.posts[i].like_count >= 0,
{
}

/// A repeated follow is refused and changes nothing.
pub proof fn lemma_follow_twice(v: StoreView, follower: i32, followed: i32)
    ensures
        v.follow(follower, followed).0.follow(follower, followed) == (
            v.follow(follower, followed).0,
            false,
        ),
{
}

/// Following oneself is refused and changes nothing.
pub proof fn lemma_no_self_follow(v: StoreView, x: i32)
    ensures
        v.follow(x, x) == (v, false),
{
}

/// A newest-first sequence is ordered between any two positions, not only
/// between neighbours.
pub proof fn lemma_newest_first_pairwise(s: Seq<Post>)
    requires
        newest_first(s),
    ensures
        forall|i: int, j: int|
            0 <= i < j < s.len() ==> !text_before(#[trigger] s[i].created_at@, #[trigger] s[j].created_at@),
{
    assert forall|i: int, j: int| 0 <= i < j < s.len() implies !text_before(
        #[trigger] s[i].created_at@,
        #[trigger] s[j].created_at@,
    ) by {
        lemma_newest_first_span(s, i, j);
    }
}

proof fn lemma_newest_first_span(s: Seq<Post>, i: int, j: int)
    requires
        newest_first(s),
        0 <= i < j < s.len(),
    ensures
        !text_before(s[i].created_at@, s[j].created_at@),
    decreases j - i,
{
    if j > i + 1 {
        lemma_newest_first_span(s, i, j - 1);
        assert(!text_before(s[j - 1].created_at@, s[j].created_at@));
        lemma_text_not_before_transitive(
            s[j].created_at@,
            s[j - 1].created_at@,
            s[i].created_at@,
        );
    }
}

/// Every post in a feed was stored, and is by the reader or by a user the
/// reader follows.
pub proof fn lemma_feed_posts_belong(posts: Seq<Post>, follows: Set<(i32, i32)>, reader: i32)
    ensures
        forall|p: Post|
            #[trigger] feed_posts(posts, follows, reader).contains(p) ==> posts.contains(p)
                && in_feed(follows, reader, p.user_id),
    decreases posts.len(),
{
    if posts.len() > 0 {
        lemma_feed_posts_belong(posts.drop_last(), follows, reader);
        assert forall|p: Post| #[trigger]
            feed_posts(posts, follows, reader).contains(p) implies posts.contains(p) && in_feed(
            follows,
            reader,
            p.user_id,
        ) by {
            let rest = feed_posts(posts.drop_last(), follows, reader);
            if rest.contains(p) {
                let j = choose|j: int| 0 <= j < posts.drop_last().len() && posts.drop_last()[j] == p;
                assert(posts[j] == p);
            } else {
                assert(posts[posts.len() - 1] == p);
            }
        }
    }
}

/// What a feed holds, for any result that the feed's contract allows: at
/// most `limit` posts, newest first, each stored and each by the reader or
/// by a user the reader follows.
pub proof fn lemma_feed_result(v: StoreView, reader: i32, limit: usize, r: Seq<Post>, s: Seq<Post>)
    requires
        v.wf(),
        s.to_multiset() == feed_posts(v.posts, v.follows, reader).to_multiset(),
        newest_first(s),
        r == s.take(if limit < s.len() { limit as int } else { s.len() as int }),
    ensures
        r.len() <= limit,
        newest_first(r),
        forall|i: int, j: int|
            0 <= i < j < r.len() ==> !text_before(#[trigger] r[i].created_at@, #[trigger] r[j].created_at@),
        forall|i: int|
            0 <= i < r.len() ==> v.posts.contains(#[trigger] r[i]) && in_feed(
                v.follows,
                reader,
                r[i].user_id,
            ),
        forall|i: int| 0 <= i < r.len() ==> v.post(#[trigger] r[i].id) == Some(r[i]),
{
    broadcast use vstd::seq_lib::group_to_multiset_ensures;

    lemma_feed_posts_belong(v.posts, v.follows, reader);
    let f = feed_posts(v.posts, v.follows, reader);
    assert forall|i: int| 0 <= i < r.len() implies v.posts.contains(#[trigger] r[i]) && in_feed(
        v.follows,
        reader,
        r[i].user_id,
    ) by {
        assert(s[i] == r[i]);
        assert(s.contains(r[i]));
        assert(s.to_multiset().count(r[i]) > 0);
        assert(f.contains(r[i]));
    }
    assert forall|i: int| 0 <= i < r.len() implies v.post(#[trigger] r[i].id) == Some(r[i]) by {
        assert(v.posts.contains(r[i]));
        let j = choose|j: int| 0 <= j < v.posts.len() && v.posts[j] == r[i];
        assert(v.posts[j].id == j + 1);
    }
    assert forall|i: int| 0 <= i < r.len() - 1 implies !text_before(
        #[trigger] r[i].created_at@,
        r[i + 1].created_at@,
    ) by {
        assert(r[i] == s[i] && r[i + 1] == s[i + 1]);
    }
    lemma_newest_first_pairwise(r);
}

} // verus!
