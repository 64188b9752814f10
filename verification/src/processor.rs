//! The converters, one for each kind of source, and the Markdown that they write.

pub mod markdown;
pub mod schema;
pub mod simplenote;
pub mod title;
