//! The decisions of a reading session: where a command leads, what is
//! asked of the render worker, and what becomes of its answers.

use crate::book::Book;
use crate::cache::{looked_up, touched, CacheKeyView, PageCache};
use crate::constants::{
    BASE_DPI, HIDPI_CHANGE_THRESHOLD, SCALE_UNIT, ZOOM_DEFAULT, ZOOM_MAX, ZOOM_MIN, ZOOM_STEP,
};
use crate::format::DocumentFormat;
use crate::progress::{
    clamp_page, clamped_page, counted, is_news, with_book, BookProgress, BookProgressView,
    ReadingProgress, ReadingProgressView,
};
use crate::timestamp::Timestamp;
use crate::worker::RenderRequest;
use std::sync::Arc;
use vstd::prelude::*;

verus! {

/// What the toolbar asks for.
#[derive(Debug, Clone, Copy, PartialEq, Eq, Structural)]
pub enum ToolbarAction {
    PrevPage,
    NextPage,
    GoToPage(u32),
    ZoomIn,
    ZoomOut,
    ZoomReset,
}

/// How a book is looked at when it is opened.
#[derive(Debug, Clone, Copy, PartialEq, Eq)]
pub struct OpeningView {
    /// The page to show, counted from one.
    pub current_page: u32,
    /// Where the page is scrolled to, in thousandths of a pixel.
    pub scroll_offset: (i32, i32),
    /// The zoom, in thousandths.
    pub zoom: u32,
    /// Whether the cached pages are of no use at this zoom.
    pub clear_cache: bool,
    /// Whether the book is new to the progress and is to be tracked.
    pub track: bool,
}

/// How a book is looked at when it is opened: a book that is tracked opens
/// where it was left, at its own zoom or the default one, and the zoom in
/// use stays when it differs by no more than a thousandth; a book that is
/// new opens at its first page at the default zoom.
pub open spec fn view_on_opening(saved: Option<BookProgressView>, zoom_in_use: u32) -> OpeningView {
    match saved {
        Some(b) => {
            let zoom = match b.zoom {
                Some(z) => z,
                None => ZOOM_DEFAULT,
            };
            let changed = differs_by_more(zoom, zoom_in_use, 1);
            OpeningView {
                current_page: b.current_page,
                scroll_offset: b.scroll_offset,
                zoom: if changed {
                    zoom
                } else {
                    zoom_in_use
                },
                clear_cache: changed,
                track: false,
            }
        },
        None => OpeningView {
            current_page: 1,
            scroll_offset: (0, 0),
            zoom: ZOOM_DEFAULT,
            clear_cache: true,
            track: true,
        },
    }
}

/// The page that is turned to when `page` is asked for, if it is another
/// page than the one shown.
pub open spec fn page_turned(page: u32, total_pages: u32, current_page: u32) -> Option<u32> {
    if clamped_page(page, total_pages) != current_page {
        Some(clamped_page(page, total_pages))
    } else {
        None
    }
}

/// The page that an action asks for, before it is held to the pages that
/// exist; `None` for an action that does not turn pages.
pub open spec fn page_asked(action: ToolbarAction, current_page: u32) -> Option<u32> {
    match action {
        ToolbarAction::PrevPage => Some(
            if current_page == 0 {
                0
            } else {
                (current_page - 1) as u32
            },
        ),
        ToolbarAction::NextPage => Some(
            if current_page == u32::MAX {
                u32::MAX
            } else {
                (current_page + 1) as u32
            },
        ),
        ToolbarAction::GoToPage(page) => Some(page),
        _ => None,
    }
}

/// The zoom that an action asks for, in thousandths, held between the
/// smallest and the largest zoom; `None` for an action that does not zoom.
pub open spec fn zoom_asked(action: ToolbarAction, zoom: u32) -> Option<u32> {
    match action {
        ToolbarAction::ZoomIn => Some(
            if zoom + ZOOM_STEP > ZOOM_MAX {
                ZOOM_MAX
            } else {
                (zoom + ZOOM_STEP) as u32
            },
        ),
        ToolbarAction::ZoomOut => Some(
            if zoom - ZOOM_STEP < ZOOM_MIN {
                ZOOM_MIN
            } else {
                (zoom - ZOOM_STEP) as u32
            },
        ),
        ToolbarAction::ZoomReset => Some(ZOOM_DEFAULT),
        _ => None,
    }
}

/// The scale at which a page is asked for: the zoom times the device's
/// pixel ratio, both in thousandths, as far as that is a 32-bit number.
pub open spec fn request_scale(zoom: u32, pixel_ratio: u32) -> u32 {
    let scale = zoom * pixel_ratio / (SCALE_UNIT as int);
    if scale > u32::MAX {
        u32::MAX
    } else {
        scale as u32
    }
}

/// The resolution that tells the renderings of a page apart: 96 dots per
/// inch times the zoom times the device's pixel ratio, as far as that is a
/// 32-bit number. A change of zoom or of pixel ratio changes it.
pub open spec fn resolution_tag(zoom: u32, pixel_ratio: u32) -> u32 {
    let dpi = BASE_DPI * zoom * pixel_ratio / (SCALE_UNIT * SCALE_UNIT);
    if dpi > u32::MAX {
        u32::MAX
    } else {
        dpi as u32
    }
}

/// Whether two values, in thousandths, differ by more than a threshold.
pub open spec fn differs_by_more(a: u32, b: u32, threshold: u32) -> bool {
    if a >= b {
        a - b > threshold
    } else {
        b - a > threshold
    }
}

/// The books with the number of pages of one of them replaced: the first
/// with the identity.
pub open spec fn with_total_pages(
    books: Seq<Book>,
    book_hash: Seq<char>,
    total_pages: u32,
    from: int,
) -> Seq<Book>
    decreases books.len() - from,
{
    if from < 0 || from >= books.len() {
        books
    } else if books[from].file_hash@ == book_hash {
        books.update(from, Book { total_pages, ..books[from] })
    } else {
        with_total_pages(books, book_hash, total_pages, from + 1)
    }
}

impl ToolbarAction {
    /// The page that the action asks for.
    pub fn target_page(&self, current_page: u32) -> (r: Option<u32>)
        ensures
            r == page_asked(*self, current_page),
    {
        match self {
            ToolbarAction::PrevPage => Some(
                if current_page == 0 {
                    0
                } else {
                    current_page - 1
                },
            ),
            ToolbarAction::NextPage => Some(
                if current_page == u32::MAX {
                    u32::MAX
                } else {
                    current_page + 1
                },
            ),
            ToolbarAction::GoToPage(page) => Some(*page),
            _ => None,
        }
    }

    /// The zoom that the action asks for.
    pub fn target_zoom(&self, zoom: u32) -> (r: Option<u32>)
        ensures
            r == zoom_asked(*self, zoom),
            ZOOM_MIN <= zoom <= ZOOM_MAX ==> (r matches Some(z) ==> ZOOM_MIN <= z <= ZOOM_MAX),
    {
        match self {
            ToolbarAction::ZoomIn => Some(
                if zoom > ZOOM_MAX - ZOOM_STEP {
                    ZOOM_MAX
                } else {
                    zoom + ZOOM_STEP
                },
            ),
            ToolbarAction::ZoomOut => Some(
                if zoom < ZOOM_MIN + ZOOM_STEP {
                    ZOOM_MIN
                } else {
                    zoom - ZOOM_STEP
                },
            ),
            ToolbarAction::ZoomReset => Some(ZOOM_DEFAULT),
            _ => None,
        }
    }
}

/// Decides how a book is looked at when it is opened.
pub fn opening_view(saved: Option<&BookProgress>, zoom_in_use: u32) -> (r: OpeningView)
    ensures
        r == view_on_opening(
            match saved {
                Some(b) => Some(b@),
                None => None,
            },
            zoom_in_use,
        ),
{
    match saved {
        Some(b) => {
            let zoom = match b.zoom {
                Some(z) => z,
                None => ZOOM_DEFAULT,
            };
            let changed = zoom_changed(zoom, zoom_in_use);
            OpeningView {
                current_page: b.current_page,
                scroll_offset: b.scroll_offset,
                zoom: if changed {
                    zoom
                } else {
                    zoom_in_use
                },
                clear_cache: changed,
                track: false,
            }
        },
        None => OpeningView {
            current_page: 1,
            scroll_offset: (0, 0),
            zoom: ZOOM_DEFAULT,
            clear_cache: true,
            track: true,
        },
    }
}

/// Decides which page is turned to when `page` is asked for in a book of
/// `total_pages` pages: the nearest page that exists, and none if that is
/// the page shown.
pub fn turn_page(page: u32, total_pages: u32, current_page: u32) -> (r: Option<u32>)
    ensures
        r == page_turned(page, total_pages, current_page),
        r matches Some(p) ==> p >= 1 && (total_pages > 0 ==> p <= total_pages),
{
    let target = clamp_page(page, total_pages);
    if target != current_page {
        Some(target)
    } else {
        None
    }
}

/// Computes the scale at which a page is asked for.
pub fn request_scale_of(zoom: u32, pixel_ratio: u32) -> (r: u32)
    ensures
        r == request_scale(zoom, pixel_ratio),
{
    assert(zoom * pixel_ratio <= 0xffff_ffff * 0xffff_ffff) by (nonlinear_arith)
        requires
            zoom <= 0xffff_ffff,
            pixel_ratio <= 0xffff_ffff,
    ;
    let scale: u64 = zoom as u64 * pixel_ratio as u64 / SCALE_UNIT as u64;
    if scale > u32::MAX as u64 {
        u32::MAX
    } else {
        scale as u32
    }
}

/// Computes the resolution that tells the renderings of a page apart.
pub fn resolution_tag_of(zoom: u32, pixel_ratio: u32) -> (r: u32)
    ensures
        r == resolution_tag(zoom, pixel_ratio),
{
    assert(0 <= zoom * pixel_ratio <= 0xffff_ffff * 0xffff_ffff) by (nonlinear_arith)
        requires
            0 <= zoom <= 0xffff_ffff,
            0 <= pixel_ratio <= 0xffff_ffff,
    ;
    let product: u128 = zoom as u128 * pixel_ratio as u128;
    assert(BASE_DPI * zoom * pixel_ratio == 96 * product) by (nonlinear_arith)
        requires
            BASE_DPI == 96,
            product == zoom * pixel_ratio,
    ;
    assert(SCALE_UNIT * SCALE_UNIT == 1_000_000) by (nonlinear_arith)
        requires
            SCALE_UNIT == 1000,
    ;
    let dpi: u128 = 96 * product / 1_000_000;
    if dpi > u32::MAX as u128 {
        u32::MAX
    } else {
        dpi as u32
    }
}

/// Decides whether the zoom of a book differs from the zoom in use by more
/// than a thousandth, so that the cache is of no use any more.
pub fn zoom_changed(zoom: u32, in_use: u32) -> (r: bool)
    ensures
        r == differs_by_more(zoom, in_use, 1),
{
    if zoom >= in_use {
        zoom - in_use > 1
    } else {
        in_use - zoom > 1
    }
}

/// Decides whether the device's pixel ratio has changed enough to render
/// anew.
pub fn pixel_ratio_changed(pixel_ratio: u32, in_use: u32) -> (r: bool)
    ensures
        r == differs_by_more(pixel_ratio, in_use, HIDPI_CHANGE_THRESHOLD),
{
    if pixel_ratio >= in_use {
        pixel_ratio - in_use > HIDPI_CHANGE_THRESHOLD
    } else {
        in_use - pixel_ratio > HIDPI_CHANGE_THRESHOLD
    }
}

/// The request for a page of a book: pages count from one, and the page
/// before the first is the first.
pub fn make_request(
    book_hash: &str,
    page: u32,
    zoom: u32,
    pixel_ratio: u32,
    bytes: Arc<Vec<u8>>,
    format: DocumentFormat,
) -> (r: RenderRequest)
    ensures
        r.book_hash@ == book_hash@,
        r.page == page,
        r.page_index == if page == 0 {
            0
        } else {
            (page - 1) as u32
        },
        r.zoom == request_scale(zoom, pixel_ratio),
        r.dpi == resolution_tag(zoom, pixel_ratio),
        r.bytes == bytes,
        r.format == format,
{
    RenderRequest {
        book_hash: book_hash.to_owned(),
        page,
        page_index: if page == 0 {
            0
        } else {
            page - 1
        },
        zoom: request_scale_of(zoom, pixel_ratio),
        dpi: resolution_tag_of(zoom, pixel_ratio),
        bytes,
        format,
    }
}

/// Looks the page to show up in the cache, at the resolution in use: a
/// page found there is not asked of the worker.
pub fn cached_page(cache: &mut PageCache, book_hash: &str, page: u32, zoom: u32, pixel_ratio: u32) -> (r:
    Option<u64>)
    requires
        old(cache).well_formed(),
    ensures
        final(cache).well_formed(),
        r == looked_up(
            old(cache).entries(),
            (book_hash@, page, resolution_tag(zoom, pixel_ratio)),
        ),
        final(cache).entries() == touched(
            old(cache).entries(),
            (book_hash@, page, resolution_tag(zoom, pixel_ratio)),
        ),
        final(cache).capacity() == old(cache).capacity(),
{
    let dpi = resolution_tag_of(zoom, pixel_ratio);
    cache.get(book_hash, page, dpi)
}

/// Decides whether an answer is still wanted: it is shown only when it is
/// the page of the book that is selected now.
pub fn is_wanted(selected: Option<&String>, current_page: u32, book_hash: &str, page: u32) -> (r:
    bool)
    ensures
        r == (selected matches Some(s) && s@ == book_hash@ && current_page == page),
{
    match selected {
        Some(s) => str::eq(s.as_str(), book_hash) && current_page == page,
        None => false,
    }
}

/// Records in the list of books the number of pages that a renderer has
/// counted: a count above zero replaces the one of the first book with the
/// identity.
pub fn record_book_pages(books: &mut Vec<Book>, book_hash: &str, total_pages: u32)
    ensures
        final(books)@ == if total_pages > 0 {
            with_total_pages(old(books)@, book_hash@, total_pages, 0)
        } else {
            old(books)@
        },
{
    if total_pages == 0 {
        return ;
    }
    let mut i: usize = 0;
    while i < books.len()
        invariant
            i <= books.len(),
            total_pages > 0,
            books@ == old(books)@,
            with_total_pages(books@, book_hash@, total_pages, i as int) == with_total_pages(
                old(books)@,
                book_hash@,
                total_pages,
                0,
            ),
        decreases books.len() - i,
    {
        if str::eq(books[i].file_hash.as_str(), book_hash) {
            let ghost before = books@;
            assert(with_total_pages(before, book_hash@, total_pages, i as int) == before.update(
                i as int,
                Book { total_pages, ..before[i as int] },
            ));
            books[i].total_pages = total_pages;
            assert(books@ =~= before.update(i as int, Book { total_pages, ..before[i as int] }));
            return ;
        }
        i += 1;
    }
}

/// Takes the number of pages that a renderer has counted over into the
/// list of books and into the progress, at `now`. A count above zero is
/// authoritative. Says whether the progress is to be saved.
pub fn accept_page_count(
    books: &mut Vec<Book>,
    progress: &mut ReadingProgress,
    book_hash: &str,
    total_pages: u32,
    now: Timestamp,
) -> (r: bool)
    requires
        old(progress).well_formed(),
    ensures
        final(progress).well_formed(),
        final(books)@ == if total_pages > 0 {
            with_total_pages(old(books)@, book_hash@, total_pages, 0)
        } else {
            old(books)@
        },
        r == is_news(old(progress)@, book_hash@, total_pages),
        final(progress)@ == if r {
            with_book(
                old(progress)@,
                book_hash@,
                |b: BookProgressView| counted(b, total_pages),
                now,
            )
        } else {
            old(progress)@
        },
{
    record_book_pages(books, book_hash, total_pages);
    progress.record_total_pages_at(book_hash, total_pages, now)
}

/// Takes the numbers of pages that the progress knows over into a list of
/// books that was just scanned: a count above zero replaces the one of the
/// scan.
pub fn restore_page_counts(books: &mut Vec<Book>, progress: &ReadingProgress)
    requires
        progress.well_formed(),
    ensures
        final(books)@.len() == old(books)@.len(),
        forall|i: int|
            0 <= i < old(books)@.len() ==> {
                let before = old(books)@[i];
                let known = progress@.books.dom().contains(before.file_hash@)
                    && progress@.books[before.file_hash@].total_pages > 0;
                #[trigger] final(books)@[i] == if known {
                    Book { total_pages: progress@.books[before.file_hash@].total_pages, ..before }
                } else {
                    before
                }
            },
{
    let mut i: usize = 0;
    while i < books.len()
        invariant
            i <= books.len(),
            progress.well_formed(),
            books@.len() == old(books)@.len(),
            forall|j: int| i <= j < books@.len() ==> books@[j] == old(books)@[j],
            forall|j: int|
                0 <= j < i ==> {
                    let before = old(books)@[j];
                    let known = progress@.books.dom().contains(before.file_hash@)
                        && progress@.books[before.file_hash@].total_pages > 0;
                    #[trigger] books@[j] == if known {
                        Book {
                            total_pages: progress@.books[before.file_hash@].total_pages,
                            ..before
                        }
                    } else {
                        before
                    }
                },
        decreases books.len() - i,
    {
        match progress.get(books[i].file_hash.as_str()) {
            Some(known) => {
                if known.total_pages > 0 {
                    books[i].total_pages = known.total_pages;
                }
            },
            None => {},
        }
        i += 1;
    }
}

} // verus!
