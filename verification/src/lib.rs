//! Verified core of a terminal PDF reader: page layout, job scheduling,
//! outline trees, configuration and the text formats exchanged with the
//! PDF command-line tools.

pub mod keyed;
pub mod text;
pub mod job_queue;
pub mod geometry;
pub mod layout;
pub mod config;
pub mod navigation;
pub mod bookmarks;
pub mod bookmark_tree;
pub mod toml_value;
pub mod sorting;
pub mod metadata;
pub mod editing;
pub mod dispatch;
pub mod pdf;
pub mod overlay;
pub mod cache;
pub mod session;
pub mod progress;
pub mod search;
pub mod tsv;
pub mod search_list;
pub mod viewer;
pub mod page_store;
pub mod raster_plan;
pub mod render_store;
pub mod render_cache;
pub mod render_key;
pub mod pdfinfo;
