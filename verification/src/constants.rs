//! The fixed numbers of the reader.
//!
//! Scales (zoom times the device's pixel ratio) are whole numbers of
//! thousandths: `SCALE_UNIT` is the natural size.

use vstd::prelude::*;

verus! {

/// The scale at which a page has its natural size.
pub const SCALE_UNIT: u32 = 1000;

/// The zoom of a book that has none of its own, in thousandths.
pub const ZOOM_DEFAULT: u32 = 1000;

/// The smallest zoom, in thousandths.
pub const ZOOM_MIN: u32 = 300;

/// The largest zoom, in thousandths.
pub const ZOOM_MAX: u32 = 3000;

/// One step of zooming in or out, in thousandths.
pub const ZOOM_STEP: u32 = 100;

/// Fixed-layout pages are rendered at three halves of the requested scale,
/// to make up for the coarse units in which their size is reported.
pub const PDF_SCALE_NUMERATOR: u32 = 3;

/// See `PDF_SCALE_NUMERATOR`.
pub const PDF_SCALE_DENOMINATOR: u32 = 2;

/// The width of a page of text at the natural size, in pixels.
pub const TEXT_PAGE_WIDTH: u32 = 800;

/// The height of a page of text at the natural size, in pixels.
pub const TEXT_PAGE_HEIGHT: u32 = 1100;

/// The margin on each side of a page of text at the natural size, in pixels.
pub const TEXT_PAGE_MARGIN: u32 = 40;

/// The font size at the natural size, in pixels.
pub const TEXT_FONT_SIZE: u32 = 20;

/// The distance between two lines at the natural size, in pixels.
pub const TEXT_LINE_HEIGHT: u32 = 28;

/// The space left after a paragraph at the natural size, in pixels.
pub const TEXT_PARAGRAPH_SPACING: u32 = 14;

/// How many rendered pages the page cache keeps.
pub const PAGE_CACHE_CAPACITY: usize = 20;

/// Two scales closer than this, in thousandths, share one pagination.
pub const SCALE_COMPARE_EPSILON: u32 = 10;

/// How many leading bytes of a document enter its fingerprint.
pub const HASH_BUFFER_SIZE: usize = 256;

/// How many leading bytes of a file enter its identity.
pub const IDENTITY_PREFIX_SIZE: usize = 65536;

/// The resolution of a page at zoom 1 on a plain display, in dots per inch.
pub const BASE_DPI: u32 = 96;

/// The least time between two saves of the reading progress, in seconds,
/// unless the settings say otherwise.
pub const AUTO_SAVE_INTERVAL_SECS_DEFAULT: u64 = 5;

/// How often the directory of the progress file is polled, in seconds.
pub const FILE_WATCHER_POLL_SECS: u64 = 2;

/// The least change of the device's pixel ratio that counts, in thousandths.
pub const HIDPI_CHANGE_THRESHOLD: u32 = 10;

} // verus!
