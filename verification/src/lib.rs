//! Core of a document reader: format classification, text pagination for
//! reflowable books, a bounded page cache, the render worker's decisions and
//! the reading-progress store with its last-write-wins merge.
//!
//! Scales, zooms and pixel ratios are whole numbers of thousandths, and
//! lengths on a page whole numbers of thousandths of a pixel, so that every
//! decision of the library is exact.

pub mod bitmap;
pub mod book;
pub mod cache;
pub mod cache_laws;
pub mod constants;
pub mod epub;
pub mod error;
pub mod fb2;
pub mod format;
pub mod memo;
pub mod merge;
pub mod progress;
pub mod registry;
pub mod renderer;
pub mod scanner;
pub mod session;
pub mod storage;
pub mod text;
pub mod text_render;
pub mod timestamp;
pub mod watcher;
pub mod worker;
