// A static blog generator's build core: Markdown posts with metadata
// comments become pages, and the posts, newest first, an RSS feed and a list
// page.
pub mod config;
pub mod date;
pub mod document;
pub mod feed;
pub mod markdown;
pub mod metadata;
pub mod pipeline;
pub mod site;
pub mod template;
pub mod text;
