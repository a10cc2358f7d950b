//! An in-memory social-network store: users, posts, comments, likes and
//! follow edges, with denormalised counters kept in step by every operation.

pub mod clock;
pub mod laws;
pub mod model;
pub mod records;
pub mod store;
pub mod text_order;

pub use records::{Comment, Post, User};
pub use store::Database;
