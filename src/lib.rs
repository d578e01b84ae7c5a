//! Bookmarks that carry their tags as a comma-delimited list of tag
//! identifiers, with a verified codec for that list, an all-of tag filter
//! and a transactional cascade that strips a deleted tag from every bookmark.

pub mod error;
pub mod ident;
pub mod codec;
pub mod models;
pub mod filter;
pub mod cascade;
pub mod session;
pub mod paging;
