//! What every format's renderer offers, and the format that has none yet.

use crate::bitmap::Bitmap;
use crate::error::{RenderError, RenderErrorView};
use crate::format::DocumentFormat;
use vstd::prelude::*;

verus! {

/// The capability of rendering one format: counting the pages of a
/// document and rendering one of them, given the document's bytes.
///
/// A renderer may remember what it has computed, so both take `&mut self`.
///
/// Each renderer says for itself what its answers are: `counted` and
/// `rendered` relate a renderer before a call, the renderer after it, what
/// was handed to the call and what came back. The renderers of this library
/// state them exactly. A renderer that states nothing promises nothing; of
/// a renderer that is not known, the relations still say that an answer is
/// the answer of that renderer to those bytes, that index and that scale.
pub trait DocumentRenderer: Sized {
    /// Whether `after` and `r` are what counting the pages of a document
    /// leaves of this renderer and answers.
    open spec fn counted(&self, after: Self, bytes: Seq<u8>, r: Result<u32, RenderError>) -> bool {
        true
    }

    /// Whether `after` and `r` are what rendering a page of a document
    /// leaves of this renderer and answers.
    open spec fn rendered(
        &self,
        after: Self,
        bytes: Seq<u8>,
        page_index: u32,
        scale: u32,
        r: Result<Bitmap, RenderError>,
    ) -> bool {
        true
    }

    /// The number of pages of a document.
    fn get_page_count(&mut self, bytes: &[u8]) -> (r: Result<u32, RenderError>)
        ensures
            old(self).counted(*final(self), bytes@, r),
    ;

    /// The page with the zero-based index `page_index`, at a scale in
    /// thousandths.
    fn render_page(&mut self, bytes: &[u8], page_index: u32, scale: u32) -> (r: Result<
        Bitmap,
        RenderError,
    >)
        ensures
            old(self).rendered(*final(self), bytes@, page_index, scale, r),
    ;
}

/// The views of the pages in a result.
pub open spec fn pages_result(r: Result<Vec<Vec<String>>, RenderError>) -> Result<
    Seq<Seq<Seq<char>>>,
    RenderErrorView,
> {
    match r {
        Ok(pages) => Ok(crate::text_render::page_views(pages@)),
        Err(e) => Err(e@),
    }
}

/// The view of a count in a result.
pub open spec fn count_result(r: Result<u32, RenderError>) -> Result<u32, RenderErrorView> {
    match r {
        Ok(n) => Ok(n),
        Err(e) => Err(e@),
    }
}

/// The renderer of DjVu documents. The format is not supported yet: no
/// renderer can be made, and one that existed would render nothing.
pub struct DjvuRenderer {}

impl DjvuRenderer {
    /// Fails: the format is not supported yet.
    pub fn new() -> (r: Result<DjvuRenderer, RenderError>)
        ensures
            r matches Err(e) && e@ == RenderErrorView::UnsupportedFormat(DocumentFormat::Djvu),
    {
        Err(RenderError::UnsupportedFormat(DocumentFormat::Djvu))
    }
}

impl DocumentRenderer for DjvuRenderer {
    /// Counting is answered with `UnsupportedFormat`.
    open spec fn counted(&self, after: DjvuRenderer, bytes: Seq<u8>, r: Result<u32, RenderError>) -> bool {
        r matches Err(e) && e@ == RenderErrorView::UnsupportedFormat(DocumentFormat::Djvu)
    }

    /// Rendering is answered with `UnsupportedFormat`.
    open spec fn rendered(
        &self,
        after: DjvuRenderer,
        bytes: Seq<u8>,
        page_index: u32,
        scale: u32,
        r: Result<Bitmap, RenderError>,
    ) -> bool {
        r matches Err(e) && e@ == RenderErrorView::UnsupportedFormat(DocumentFormat::Djvu)
    }

    fn get_page_count(&mut self, bytes: &[u8]) -> (r: Result<u32, RenderError>)
    {
        Err(RenderError::UnsupportedFormat(DocumentFormat::Djvu))
    }

    fn render_page(&mut self, bytes: &[u8], page_index: u32, scale: u32) -> (r: Result<
        Bitmap,
        RenderError,
    >)
    {
        Err(RenderError::UnsupportedFormat(DocumentFormat::Djvu))
    }
}

} // verus!
