//! A verified crawl engine for a documentation site.
//!
//! The engine fetches nothing itself: callers perform the HTTP requests and
//! hand each outcome to the orchestrator in [`crawler`], which claims URLs
//! through the deduplicating registry in [`registry`], extracts page records
//! with [`crawler::extract_page`], and schedules retries with the
//! time-budgeted policy in [`retry`]. Page text is normalized by [`text`],
//! and [`output`] renders a crawl's pages as plain text or Markdown.

pub mod crawler;
pub mod html;
pub mod output;
pub mod registry;
pub mod retry;
pub mod text;
pub mod urls;
