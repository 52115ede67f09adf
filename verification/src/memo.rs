//! The memory of paginations: the pages of a document at a scale, found
//! again by a cheap fingerprint of the document's bytes.
//!
//! The fingerprint covers the length and a bounded prefix of the bytes, not
//! the whole content: two documents of one length that start alike share
//! it, and one is then shown the pages of the other. That is accepted.

use crate::constants::{HASH_BUFFER_SIZE, SCALE_COMPARE_EPSILON};
use crate::bitmap::{bitmap_height, bitmap_pixels, bitmap_width, Bitmap};
use crate::constants::{TEXT_PAGE_HEIGHT, TEXT_PAGE_WIDTH};
use crate::error::{RenderError, RenderErrorView};
use crate::text::views;
use crate::text_render::{
    page_fits, page_pixels, page_views, paginated, scaled_px, TextPageRenderer,
};
use ab_glyph::FontVec;
use std::collections::hash_map::DefaultHasher;
use std::collections::HashMap;
use std::hash::Hasher;
use vstd::prelude::*;
use vstd::slice::slice_subrange;
use vstd::std_specs::hash::DefaultHasherAdditionalSpecFns;

verus! {

/// The eight bytes of a length, lowest first.
pub open spec fn length_bytes(n: nat, count: nat) -> Seq<u8>
    decreases count,
{
    if count == 0 {
        Seq::empty()
    } else {
        seq![(n % 256) as u8] + length_bytes(n / 256, (count - 1) as nat)
    }
}

/// The part of a document that enters its fingerprint.
pub open spec fn fingerprint_prefix(bytes: Seq<u8>) -> Seq<u8> {
    if bytes.len() >= HASH_BUFFER_SIZE {
        bytes.take(HASH_BUFFER_SIZE as int)
    } else {
        bytes
    }
}

/// The fingerprint of a document: the hash of its length and of its first
/// bytes.
pub open spec fn fingerprint(bytes: Seq<u8>) -> u64 {
    DefaultHasher::spec_finish(seq![length_bytes(bytes.len(), 8), fingerprint_prefix(bytes)])
}

/// Whether two scales, in thousandths, are close enough to share one
/// pagination.
pub open spec fn scales_near(a: u32, b: u32) -> bool {
    if a >= b {
        a - b < SCALE_COMPARE_EPSILON
    } else {
        b - a < SCALE_COMPARE_EPSILON
    }
}

/// Decides whether two scales are close enough to share one pagination.
pub fn scales_match(a: u32, b: u32) -> (r: bool)
    ensures
        r == scales_near(a, b),
{
    if a >= b {
        a - b < SCALE_COMPARE_EPSILON
    } else {
        b - a < SCALE_COMPARE_EPSILON
    }
}

/// Computes the fingerprint of a document.
pub fn bytes_hash(bytes: &[u8]) -> (r: u64)
    ensures
        r == fingerprint(bytes@),
{
    let mut length: Vec<u8> = Vec::new();
    let mut n: usize = bytes.len();
    let mut k: usize = 0;
    while k < 8
        invariant
            k <= 8,
            length@ + length_bytes(n as nat, (8 - k) as nat) == length_bytes(bytes@.len(), 8),
        decreases 8 - k,
    {
        let ghost before = length@;
        length.push((n % 256) as u8);
        proof {
            let rest = length_bytes((n / 256) as nat, (8 - k - 1) as nat);
            assert(before.push((n % 256) as u8) + rest =~= before + (seq![(n % 256) as u8]
                + rest));
        }
        n = n / 256;
        k += 1;
    }
    assert(length@ + Seq::<u8>::empty() =~= length@);
    let prefix = if bytes.len() >= HASH_BUFFER_SIZE {
        slice_subrange(bytes, 0, HASH_BUFFER_SIZE)
    } else {
        bytes
    };
    assert(prefix@ =~= fingerprint_prefix(bytes@));
    let mut hasher = DefaultHasher::new();
    hasher.write(length.as_slice());
    hasher.write(prefix);
    assert(hasher@ =~= seq![length_bytes(bytes@.len(), 8), fingerprint_prefix(bytes@)]);
    hasher.finish()
}

/// Copies a list of lines.
pub fn clone_lines(lines: &Vec<String>) -> (r: Vec<String>)
    ensures
        views(r@) == views(lines@),
{
    let mut out: Vec<String> = Vec::new();
    let mut i: usize = 0;
    while i < lines.len()
        invariant
            i <= lines.len(),
            views(out@) == views(lines@).take(i as int),
        decreases lines.len() - i,
    {
        let ghost before = out@;
        let line = lines[i].clone();
        out.push(line);
        assert(views(out@) =~= views(before).push(lines@[i as int]@));
        assert(views(lines@).take(i + 1) =~= views(lines@).take(i as int).push(
            lines@[i as int]@,
        ));
        i += 1;
    }
    assert(views(lines@).take(lines.len() as int) =~= views(lines@));
    out
}

/// Copies a list of pages.
pub fn clone_pages(pages: &Vec<Vec<String>>) -> (r: Vec<Vec<String>>)
    ensures
        page_views(r@) == page_views(pages@),
{
    let mut out: Vec<Vec<String>> = Vec::new();
    let mut i: usize = 0;
    while i < pages.len()
        invariant
            i <= pages.len(),
            page_views(out@) == page_views(pages@).take(i as int),
        decreases pages.len() - i,
    {
        let ghost before = out@;
        let page = clone_lines(&pages[i]);
        out.push(page);
        assert(page_views(out@) =~= page_views(before).push(views(pages@[i as int]@)));
        assert(page_views(pages@).take(i + 1) =~= page_views(pages@).take(i as int).push(
            views(pages@[i as int]@),
        ));
        i += 1;
    }
    assert(page_views(pages@).take(pages.len() as int) =~= page_views(pages@));
    out
}

/// The pages of one document at one scale.
pub struct CachedDocument {
    pub pages: Vec<Vec<String>>,
    pub scale: u32,
}

/// The mathematical view of a [`CachedDocument`].
pub struct CachedDocumentView {
    pub pages: Seq<Seq<Seq<char>>>,
    pub scale: u32,
}

impl View for CachedDocument {
    type V = CachedDocumentView;

    open spec fn view(&self) -> CachedDocumentView {
        CachedDocumentView { pages: page_views(self.pages@), scale: self.scale }
    }
}

/// The paginations remembered, one for each fingerprint.
pub struct PaginationMemo {
    entries: HashMap<u64, CachedDocument>,
}

impl View for PaginationMemo {
    type V = Map<u64, CachedDocumentView>;

    closed spec fn view(&self) -> Map<u64, CachedDocumentView> {
        self.entries@.map_values(|d: CachedDocument| d@)
    }
}

/// What a memory answers for a fingerprint and a scale: the pages it holds
/// for the fingerprint, when it holds them at a scale near enough.
pub open spec fn remembered(
    memo: Map<u64, CachedDocumentView>,
    key: u64,
    scale: u32,
) -> Option<Seq<Seq<Seq<char>>>> {
    if memo.dom().contains(key) && scales_near(memo[key].scale, scale) {
        Some(memo[key].pages)
    } else {
        None
    }
}

/// The pages of a document, given what reading its paragraphs gave.
pub open spec fn pages_of(
    font: FontVec,
    parsed: Result<Seq<Seq<char>>, RenderErrorView>,
    scale: u32,
) -> Result<Seq<Seq<Seq<char>>>, RenderErrorView> {
    match parsed {
        Ok(paragraphs) => Ok(paginated(font, paragraphs, scale as int)),
        Err(e) => Err(e),
    }
}

/// The pages answered for a document: those remembered for its fingerprint
/// at a scale near enough, else those of its paragraphs.
pub open spec fn pages_answer(
    memo: Map<u64, CachedDocumentView>,
    font: FontVec,
    key: u64,
    parsed: Result<Seq<Seq<char>>, RenderErrorView>,
    scale: u32,
) -> Result<Seq<Seq<Seq<char>>>, RenderErrorView> {
    match remembered(memo, key, scale) {
        Some(pages) => Ok(pages),
        None => pages_of(font, parsed, scale),
    }
}

/// The memory after a document was asked for: pages that were not
/// remembered and could be made are remembered from then on.
pub open spec fn memo_after(
    memo: Map<u64, CachedDocumentView>,
    font: FontVec,
    key: u64,
    parsed: Result<Seq<Seq<char>>, RenderErrorView>,
    scale: u32,
) -> Map<u64, CachedDocumentView> {
    if remembered(memo, key, scale) is Some {
        memo
    } else {
        match pages_of(font, parsed, scale) {
            Ok(pages) => memo.insert(key, CachedDocumentView { pages, scale }),
            Err(_) => memo,
        }
    }
}

/// The number of pages as reported: the count, as far as it is a 32-bit
/// number, and the largest such number beyond.
pub open spec fn reported_count(pages: nat) -> u32 {
    if pages > u32::MAX {
        u32::MAX
    } else {
        pages as u32
    }
}

/// What is answered when the pages of a document are counted.
pub open spec fn count_answer(pages: Result<Seq<Seq<Seq<char>>>, RenderErrorView>) -> Result<
    u32,
    RenderErrorView,
> {
    match pages {
        Ok(pages) => Ok(reported_count(pages.len())),
        Err(e) => Err(e),
    }
}

/// Whether a bitmap is the page of these lines at this scale.
pub open spec fn is_rendered_page(
    bitmap: Bitmap,
    font: FontVec,
    lines: Seq<Seq<char>>,
    scale: u32,
) -> bool {
    &&& bitmap_width(bitmap) == scaled_px(TEXT_PAGE_WIDTH as int, scale as int)
    &&& bitmap_height(bitmap) == scaled_px(TEXT_PAGE_HEIGHT as int, scale as int)
    &&& bitmap_pixels(bitmap) == page_pixels(font, lines, scale as int)
}

/// Whether a result is what rendering one page of these pages owes: the
/// page drawn, an index out of range, or a page too large for memory.
pub open spec fn is_render_answer(
    r: Result<Bitmap, RenderError>,
    font: FontVec,
    pages: Result<Seq<Seq<Seq<char>>>, RenderErrorView>,
    page_index: u32,
    scale: u32,
) -> bool {
    match pages {
        Err(e) => r matches Err(got) && got@ == e,
        Ok(pages) => {
            if page_index >= pages.len() {
                r matches Err(got) && got@ == (RenderErrorView::OutOfRange {
                    page_index,
                    page_count: pages.len() as usize,
                })
            } else if !page_fits(scale as int) {
                r matches Err(got) && got@ == (RenderErrorView::RasterTooLarge { scale })
            } else {
                r matches Ok(bitmap) && is_rendered_page(
                    bitmap,
                    font,
                    pages[page_index as int],
                    scale,
                )
            }
        },
    }
}

/// Answers the number of pages from the pages.
pub fn count_pages(pages: Result<Vec<Vec<String>>, RenderError>) -> (r: Result<u32, RenderError>)
    ensures
        match (r, pages) {
            (Ok(n), Ok(pages)) => n == reported_count(pages@.len()),
            (Err(e), Err(cause)) => e@ == cause@,
            _ => false,
        },
{
    match pages {
        Ok(pages) => Ok(
            if pages.len() > u32::MAX as usize {
                u32::MAX
            } else {
                pages.len() as u32
            },
        ),
        Err(e) => Err(e),
    }
}

/// Renders one page of the pages of a document.
pub fn render_one(
    text_renderer: &TextPageRenderer,
    pages: Result<Vec<Vec<String>>, RenderError>,
    page_index: u32,
    scale: u32,
) -> (r: Result<Bitmap, RenderError>)
    ensures
        is_render_answer(
            r,
            text_renderer.font(),
            match pages {
                Ok(pages) => Ok(page_views(pages@)),
                Err(e) => Err(e@),
            },
            page_index,
            scale,
        ),
{
    let pages = match pages {
        Ok(pages) => pages,
        Err(e) => {
            return Err(e);
        },
    };
    let index = page_index as usize;
    if index >= pages.len() {
        return Err(RenderError::OutOfRange { page_index, page_count: pages.len() });
    }
    if !TextPageRenderer::can_render(scale) {
        return Err(RenderError::RasterTooLarge { scale });
    }
    Ok(text_renderer.render_page(pages[index].as_slice(), scale))
}

impl PaginationMemo {
    /// An empty memory.
    pub fn new() -> (r: PaginationMemo)
        ensures
            r@ == Map::<u64, CachedDocumentView>::empty(),
    {
        let r = PaginationMemo { entries: HashMap::new() };
        assert(r@ =~= Map::empty());
        r
    }

    /// Looks the pages of a document up.
    pub fn lookup(&self, key: u64, scale: u32) -> (r: Option<Vec<Vec<String>>>)
        ensures
            match r {
                Some(pages) => remembered(self@, key, scale) == Some(page_views(pages@)),
                None => remembered(self@, key, scale) is None,
            },
    {
        match self.entries.get(&key) {
            Some(cached) => {
                if scales_match(cached.scale, scale) {
                    Some(clone_pages(&cached.pages))
                } else {
                    None
                }
            },
            None => None,
        }
    }

    /// Remembers the pages of a document at a scale, in place of what was
    /// remembered for its fingerprint.
    pub fn store(&mut self, key: u64, pages: Vec<Vec<String>>, scale: u32)
        ensures
            final(self)@ == old(self)@.insert(
                key,
                CachedDocumentView { pages: page_views(pages@), scale },
            ),
    {
        self.entries.insert(key, CachedDocument { pages, scale });
        assert(self@ =~= old(self)@.insert(
            key,
            CachedDocumentView { pages: page_views(pages@), scale },
        ));
    }
}

} // verus!
