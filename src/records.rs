use vstd::prelude::*;

verus! {

/// A registered user with its denormalised counters.
#[derive(Clone, Debug)]
pub struct User {
    pub id: i32,
    pub username: String,
    pub email: String,
    pub display_name: String,
    pub bio: String,
    pub created_at: String,
    pub updated_at: String,
    pub post_count: i32,
    pub follower_count: i32,
    pub following_count: i32,
}

/// A post owned by a user (the owner need not exist).
#[derive(Clone, Debug)]
pub struct Post {
    pub id: i32,
    pub user_id: i32,
    pub content: String,
    pub created_at: String,
    pub updated_at: String,
    pub like_count: i32,
    pub comment_count: i32,
    pub views: i32,
}

/// A comment on a post. Its `like_count` is never changed by the store.
#[derive(Clone, Debug)]
pub struct Comment {
    pub id: i32,
    pub post_id: i32,
    pub user_id: i32,
    pub text: String,
    pub created_at: String,
    pub like_count: i32,
}

impl User {
    /// A field-by-field copy, equal to the original.
    pub fn duplicate(&self) -> (r: User)
        ensures
            r == *self,
    {
        User {
            id: self.id,
            username: self.username.clone(),
            email: self.email.clone(),
            display_name: self.display_name.clone(),
            bio: self.bio.clone(),
            created_at: self.created_at.clone(),
            updated_at: self.updated_at.clone(),
            post_count: self.post_count,
            follower_count: self.follower_count,
            following_count: self.following_count,
        }
    }
}

impl Post {
    /// A field-by-field copy, equal to the original.
    pub fn duplicate(&self) -> (r: Post)
        ensures
            r == *self,
    {
        Post {
            id: self.id,
            user_id: self.user_id,
            content: self.content.clone(),
            created_at: self.created_at.clone(),
            updated_at: self.updated_at.clone(),
            like_count: self.like_count,
            comment_count: self.comment_count,
            views: self.views,
        }
    }
}

impl Comment {
    /// A field-by-field copy, equal to the original.
    pub fn duplicate(&self) -> (r: Comment)
        ensures
            r == *self,
    {
        Comment {
            id: self.id,
            post_id: self.post_id,
            user_id: self.user_id,
            text: self.text.clone(),
            created_at: self.created_at.clone(),
            like_count: self.like_count,
        }
    }
}

} // verus!
