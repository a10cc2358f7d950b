use social_store::text_order::is_before;
use social_store::Database;

fn s(text: &str) -> String {
    text.to_string()
}

fn with_two_users() -> Database {
    let mut db = Database::new();
    db.create_user(s("alice"), s("alice@example.com"), s("Alice"));
    db.create_user(s("bob"), s("bob@example.com"), s("Bob"));
    db
}

#[test]
fn scenario_alice_follows_bob() {
    let mut db = Database::new();
    let alice = db.create_user(s("alice"), s("alice@example.com"), s("Alice"));
    assert_eq!(alice.id, 1);
    let bob = db.create_user(s("bob"), s("bob@example.com"), s("Bob"));
    assert_eq!(bob.id, 2);
    let post = db.create_post(2, s("hello"));
    assert_eq!(post.id, 1);
    assert_eq!(db.get_user(2).unwrap().post_count, 1);
    assert!(db.follow(1, 2));
    assert_eq!(db.get_user(2).unwrap().follower_count, 1);
    assert_eq!(db.get_user(1).unwrap().following_count, 1);
    let feed = db.get_feed(1, 10);
    assert_eq!(feed.len(), 1);
    assert_eq!(feed[0].id, 1);
    assert!(db.like_post(1, 1));
    assert_eq!(db.get_post(1).unwrap().like_count, 1);
    assert!(!db.like_post(1, 1));
    assert_eq!(db.get_post(1).unwrap().like_count, 1);
    assert!(db.unlike_post(1, 1));
    assert_eq!(db.get_post(1).unwrap().like_count, 0);
}

#[test]
fn new_user_fields() {
    let mut db = Database::new();
    let u = db.create_user(s("carol"), s("carol@example.com"), s("Carol C"));
    assert_eq!(u.id, 1);
    assert_eq!(u.username, "carol");
    assert_eq!(u.email, "carol@example.com");
    assert_eq!(u.display_name, "Carol C");
    assert_eq!(u.bio, "");
    assert_eq!(u.post_count, 0);
    assert_eq!(u.follower_count, 0);
    assert_eq!(u.following_count, 0);
    assert_eq!(u.created_at, u.updated_at);
}

#[test]
fn timestamps_are_rfc3339_utc() {
    let mut db = Database::new();
    let u = db.create_user(s("a"), s("a@x"), s("A"));
    assert!(u.created_at.len() >= 20);
    assert_eq!(&u.created_at[4..5], "-");
    assert_eq!(&u.created_at[10..11], "T");
    assert!(u.created_at.ends_with("+00:00"));
    let p = db.create_post(1, s("x"));
    assert!(p.created_at.ends_with("+00:00"));
}

#[test]
fn user_ids_strictly_increase() {
    let mut db = Database::new();
    let mut last = 0;
    for i in 0..20 {
        let u = db.create_user(format!("u{}", i), s("e"), s("d"));
        assert!(u.id > last);
        last = u.id;
    }
    assert_eq!(last, 20);
    assert_eq!(db.get_all_users().len(), 20);
}

#[test]
fn get_user_absent_and_present() {
    let db = with_two_users();
    assert!(db.get_user(0).is_none());
    assert!(db.get_user(3).is_none());
    assert!(db.get_user(-1).is_none());
    assert_eq!(db.get_user(2).unwrap().username, "bob");
}

#[test]
fn get_user_sees_last_write() {
    let mut db = with_two_users();
    db.create_post(1, s("one"));
    db.create_post(1, s("two"));
    db.follow(2, 1);
    let a = db.get_user(1).unwrap();
    assert_eq!(a.post_count, 2);
    assert_eq!(a.follower_count, 1);
}

#[test]
fn create_post_counts_only_owner() {
    let mut db = with_two_users();
    let p = db.create_post(1, s("hi"));
    assert_eq!(p.user_id, 1);
    assert_eq!(p.content, "hi");
    assert_eq!(p.like_count, 0);
    assert_eq!(p.comment_count, 0);
    assert_eq!(p.views, 0);
    assert_eq!(db.get_user(1).unwrap().post_count, 1);
    assert_eq!(db.get_user(2).unwrap().post_count, 0);
}

#[test]
fn create_post_with_missing_owner() {
    let mut db = with_two_users();
    let p = db.create_post(42, s("orphan"));
    assert_eq!(p.id, 1);
    assert_eq!(p.user_id, 42);
    assert_eq!(db.get_user(1).unwrap().post_count, 0);
    assert_eq!(db.get_user(2).unwrap().post_count, 0);
    assert_eq!(db.get_posts_by_user(42).len(), 1);
}

#[test]
fn get_post_counts_views() {
    let mut db = with_two_users();
    db.create_post(1, s("p"));
    for n in 1..=5 {
        assert_eq!(db.get_post(1).unwrap().views, n);
    }
    assert!(db.get_post(2).is_none());
    assert_eq!(db.get_posts_by_user(1)[0].views, 5);
}

#[test]
fn get_posts_by_user_filters() {
    let mut db = with_two_users();
    db.create_post(1, s("a1"));
    db.create_post(2, s("b1"));
    db.create_post(1, s("a2"));
    let mine = db.get_posts_by_user(1);
    assert_eq!(mine.len(), 2);
    assert_eq!(mine[0].content, "a1");
    assert_eq!(mine[1].content, "a2");
    assert_eq!(mine[0].views, 0);
    assert!(db.get_posts_by_user(3).is_empty());
}

#[test]
fn comments_count_on_post() {
    let mut db = with_two_users();
    db.create_post(1, s("p"));
    let c = db.add_comment(1, 2, s("nice"));
    assert_eq!(c.id, 1);
    assert_eq!(c.post_id, 1);
    assert_eq!(c.user_id, 2);
    assert_eq!(c.text, "nice");
    assert_eq!(c.like_count, 0);
    db.add_comment(1, 1, s("thanks"));
    assert_eq!(db.get_post(1).unwrap().comment_count, 2);
    let cs = db.get_comments(1);
    assert_eq!(cs.len(), 2);
    assert_eq!(cs[1].text, "thanks");
}

#[test]
fn comment_on_missing_post() {
    let mut db = with_two_users();
    let c = db.add_comment(9, 1, s("into the void"));
    assert_eq!(c.id, 1);
    assert_eq!(db.get_comments(9).len(), 1);
    assert!(db.get_comments(1).is_empty());
}

#[test]
fn like_twice_counts_once() {
    let mut db = with_two_users();
    db.create_post(1, s("p"));
    assert!(db.like_post(1, 2));
    assert!(!db.like_post(1, 2));
    assert!(db.like_post(1, 1));
    assert_eq!(db.get_post(1).unwrap().like_count, 2);
}

#[test]
fn unlike_restores_and_never_negative() {
    let mut db = with_two_users();
    db.create_post(1, s("p"));
    assert!(!db.unlike_post(1, 2));
    assert_eq!(db.get_post(1).unwrap().like_count, 0);
    assert!(db.like_post(1, 2));
    assert!(db.unlike_post(1, 2));
    assert!(!db.unlike_post(1, 2));
    assert_eq!(db.get_post(1).unwrap().like_count, 0);
}

#[test]
fn like_of_missing_post_is_recorded() {
    let mut db = with_two_users();
    assert!(db.like_post(5, 1));
    assert!(!db.like_post(5, 1));
    let p = db.create_post(1, s("fifth? no, first"));
    assert_eq!(p.id, 1);
    assert!(db.unlike_post(5, 1));
}

#[test]
fn like_before_post_exists_keeps_count_at_zero() {
    let mut db = with_two_users();
    assert!(db.like_post(1, 2));
    db.create_post(1, s("p"));
    assert_eq!(db.get_post(1).unwrap().like_count, 0);
    assert!(db.unlike_post(1, 2));
    assert_eq!(db.get_post(1).unwrap().like_count, 0);
}

#[test]
fn follow_twice_is_refused() {
    let mut db = with_two_users();
    assert!(db.follow(1, 2));
    assert!(!db.follow(1, 2));
    assert_eq!(db.get_user(2).unwrap().follower_count, 1);
    assert_eq!(db.get_user(1).unwrap().following_count, 1);
    assert_eq!(db.get_user(1).unwrap().follower_count, 0);
}

#[test]
fn self_follow_is_refused() {
    let mut db = with_two_users();
    assert!(!db.follow(1, 1));
    let a = db.get_user(1).unwrap();
    assert_eq!(a.follower_count, 0);
    assert_eq!(a.following_count, 0);
    assert!(db.get_followers(1).is_empty());
}

#[test]
fn unfollow_lowers_counts() {
    let mut db = with_two_users();
    assert!(!db.unfollow(1, 2));
    assert!(db.follow(1, 2));
    assert!(db.unfollow(1, 2));
    assert!(!db.unfollow(1, 2));
    assert_eq!(db.get_user(2).unwrap().follower_count, 0);
    assert_eq!(db.get_user(1).unwrap().following_count, 0);
}

#[test]
fn follow_missing_users() {
    let mut db = with_two_users();
    assert!(db.follow(7, 1));
    assert_eq!(db.get_user(1).unwrap().follower_count, 1);
    assert!(db.get_followers(1).is_empty());
    assert!(db.unfollow(7, 1));
    assert_eq!(db.get_user(1).unwrap().follower_count, 0);
}

#[test]
fn followers_resolve_to_users() {
    let mut db = with_two_users();
    db.create_user(s("carol"), s("c@x"), s("Carol"));
    db.follow(1, 2);
    db.follow(3, 2);
    db.follow(2, 1);
    let f = db.get_followers(2);
    assert_eq!(f.len(), 2);
    assert_eq!(f[0].username, "alice");
    assert_eq!(f[1].username, "carol");
}

#[test]
fn feed_is_newest_first_and_limited() {
    let mut db = with_two_users();
    db.create_user(s("carol"), s("c@x"), s("Carol"));
    db.create_post_at(2, s("bob old"), s("2024-01-01T00:00:00+00:00"));
    db.create_post_at(1, s("alice mid"), s("2024-01-02T00:00:00+00:00"));
    db.create_post_at(3, s("carol new"), s("2024-01-04T00:00:00+00:00"));
    db.create_post_at(2, s("bob new"), s("2024-01-03T00:00:00+00:00"));
    db.follow(1, 2);
    let feed = db.get_feed(1, 10);
    let contents: Vec<&str> = feed.iter().map(|p| p.content.as_str()).collect();
    assert_eq!(contents, vec!["bob new", "alice mid", "bob old"]);
    let short = db.get_feed(1, 2);
    assert_eq!(short.len(), 2);
    assert_eq!(short[0].content, "bob new");
    assert_eq!(short[1].content, "alice mid");
    assert!(db.get_feed(1, 0).is_empty());
}

#[test]
fn feed_follows_direction() {
    let mut db = with_two_users();
    db.create_post_at(1, s("alice"), s("2024-01-01T00:00:00+00:00"));
    db.follow(1, 2);
    // bob does not follow alice, so alice's post is not in bob's feed
    assert!(db.get_feed(2, 10).is_empty());
    assert_eq!(db.get_feed(1, 10).len(), 1);
}

#[test]
fn feed_has_no_view_side_effect() {
    let mut db = with_two_users();
    db.create_post(1, s("p"));
    db.get_feed(1, 10);
    db.get_posts_by_user(1);
    assert_eq!(db.get_post(1).unwrap().views, 1);
}

#[test]
fn explicit_timestamps_are_kept() {
    let mut db = Database::new();
    let u = db.create_user_at(s("d"), s("d@x"), s("D"), s("2024-05-05T10:00:00+00:00"));
    assert_eq!(u.created_at, "2024-05-05T10:00:00+00:00");
    assert_eq!(u.updated_at, "2024-05-05T10:00:00+00:00");
    let c = db.add_comment_at(1, 1, s("t"), s("2024-05-05T11:00:00+00:00"));
    assert_eq!(c.created_at, "2024-05-05T11:00:00+00:00");
}

#[test]
fn text_order_by_bytes() {
    assert!(is_before(&s("2024-01-01"), &s("2024-01-02")));
    assert!(!is_before(&s("2024-01-02"), &s("2024-01-01")));
    assert!(!is_before(&s("same"), &s("same")));
    assert!(is_before(&s("ab"), &s("abc")));
    assert!(!is_before(&s("abc"), &s("ab")));
    assert!(is_before(&s(""), &s("a")));
    assert!(is_before(&s("Z"), &s("a")));
    assert!(is_before(&s("z"), &s("é")));
}

#[test]
fn totals_and_lookup_without_views() {
    let mut db = with_two_users();
    assert_eq!(db.user_total(), 2);
    assert_eq!(db.post_total(), 0);
    assert_eq!(db.comment_total(), 0);
    db.create_post(1, s("p"));
    db.add_comment(1, 2, s("c"));
    assert_eq!(db.post_total(), 1);
    assert_eq!(db.comment_total(), 1);
    assert_eq!(db.find_post(1).unwrap().views, 0);
    assert_eq!(db.find_post(1).unwrap().comment_count, 1);
    assert!(db.find_post(2).is_none());
    assert_eq!(db.get_post(1).unwrap().views, 1);
}

#[test]
fn all_users_in_creation_order() {
    let db = with_two_users();
    let all = db.get_all_users();
    assert_eq!(all.len(), 2);
    assert_eq!(all[0].id, 1);
    assert_eq!(all[1].username, "bob");
    assert!(Database::new().get_all_users().is_empty());
}

#[test]
fn new_user_starts_without_followers() {
    let mut db = Database::new();
    db.create_user(s("alice"), s("a@x"), s("Alice"));
    assert!(db.follow(1, 2));
    assert!(db.is_following(1, 2));
    let bob = db.create_user(s("bob"), s("b@x"), s("Bob"));
    assert_eq!(bob.id, 2);
    assert_eq!(bob.follower_count, 0);
    assert!(!db.is_following(1, 2));
    assert!(db.get_followers(2).is_empty());
    db.create_post(2, s("bob's"));
    assert!(db.get_feed(1, 10).is_empty());
    assert!(db.follow(1, 2));
    assert_eq!(db.get_user(2).unwrap().follower_count, 1);
    assert_eq!(db.get_followers(2).len(), 1);
}

#[test]
fn new_user_keeps_edges_it_made() {
    let mut db = Database::new();
    db.create_user(s("alice"), s("a@x"), s("Alice"));
    assert!(db.follow(2, 1));
    db.create_user(s("bob"), s("b@x"), s("Bob"));
    assert!(db.is_following(2, 1));
    assert_eq!(db.get_followers(1).len(), 1);
}

#[test]
fn like_and_follow_queries() {
    let mut db = with_two_users();
    assert!(!db.is_liked(1, 2));
    db.like_post(1, 2);
    assert!(db.is_liked(1, 2));
    assert!(!db.is_liked(2, 1));
    db.unlike_post(1, 2);
    assert!(!db.is_liked(1, 2));
    assert!(!db.is_following(1, 2));
    db.follow(1, 2);
    assert!(db.is_following(1, 2));
    assert!(!db.is_following(2, 1));
}
