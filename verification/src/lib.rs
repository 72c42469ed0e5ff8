//! Static-site content pipeline: markdown rendering, marker-tag metadata
//! extraction, template merging and canonical-URL computation for one
//! content unit (a `Post`).

pub mod markdown;
pub mod post;
pub mod query;
pub mod settings;
pub mod text;
