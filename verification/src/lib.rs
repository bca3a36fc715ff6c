//! Slugs and frontmatter for new posts.
//!
//! A title becomes a URL-safe slug, the slug is prefixed with the date of a
//! [`timestamp::Timestamp`], and the two name a file and fill the small
//! metadata block that opens it.

pub mod entry;
pub mod frontmatter;
pub mod slug;
pub mod text;
pub mod timestamp;
