//! A Markdown content catalog: paths, links, front matter, pages and the
//! synchronisation rules that keep a page catalog consistent with a directory
//! of Markdown files.

pub mod batch;
pub mod cache;
pub mod config;
pub mod datetime;
pub mod domain;
pub mod identity;
pub mod io;
pub mod laws;
pub mod manifest;
pub mod markdown;
pub mod model;
pub mod names;
pub mod notifier;
pub mod paths;
pub mod sync;
pub mod text;
pub mod watcher;
