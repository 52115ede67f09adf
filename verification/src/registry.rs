//! The registry of renderers: one for each format that has a working
//! backend. A backend that could not be made is simply absent, and asking
//! for its format is answered with an error, never with a crash.

use crate::bitmap::Bitmap;
use crate::epub::EpubRenderer;
use crate::error::{RenderError, RenderErrorView};
use crate::fb2::Fb2Renderer;
use crate::format::DocumentFormat;
use crate::renderer::DocumentRenderer;
use crate::text_render::{parsed_font, TextPageRenderer};
use vstd::prelude::*;

verus! {

/// The renderers at hand. `P` is the renderer of fixed-layout documents,
/// which decodes them by means that lie outside this library.
pub struct RendererRegistry<P> {
    pdf: Option<P>,
    epub: Option<EpubRenderer>,
    fb2: Option<Fb2Renderer>,
}

impl<P: DocumentRenderer> RendererRegistry<P> {
    /// Whether there is a renderer for a format.
    pub closed spec fn supported(&self, format: DocumentFormat) -> bool {
        match format {
            DocumentFormat::Pdf => self.pdf is Some,
            DocumentFormat::Epub => self.epub is Some,
            DocumentFormat::Fb2 => self.fb2 is Some,
            DocumentFormat::Djvu => false,
        }
    }

    /// The renderer of fixed-layout documents, if there is one.
    pub closed spec fn pdf_renderer(&self) -> Option<P> {
        self.pdf
    }

    /// The renderer of EPUB documents, if there is one.
    pub closed spec fn epub_renderer(&self) -> Option<EpubRenderer> {
        self.epub
    }

    /// The renderer of FictionBook documents, if there is one.
    pub closed spec fn fb2_renderer(&self) -> Option<Fb2Renderer> {
        self.fb2
    }

    /// Whether `after` is this registry but for what its renderers
    /// remember: it has renderers for the same formats.
    pub open spec fn same_formats(&self, after: RendererRegistry<P>) -> bool {
        &&& forall|f: DocumentFormat| after.supported(f) == self.supported(f)
        &&& after.pdf_renderer() is Some == self.pdf_renderer() is Some
        &&& after.epub_renderer() is Some == self.epub_renderer() is Some
        &&& after.fb2_renderer() is Some == self.fb2_renderer() is Some
    }

    /// Whether `after` and `r` are what counting the pages of a document
    /// leaves of this registry and answers. A format without a renderer is
    /// answered with `UnsupportedFormat`; every other format is answered
    /// by its renderer, which is handed the bytes, and the other renderers
    /// stay as they are.
    pub open spec fn counted(
        &self,
        after: RendererRegistry<P>,
        format: DocumentFormat,
        bytes: Seq<u8>,
        r: Result<u32, RenderError>,
    ) -> bool {
        &&& self.same_formats(after)
        &&& !self.supported(format) ==> (r matches Err(e) && e@
            == RenderErrorView::UnsupportedFormat(format))
        &&& format != DocumentFormat::Pdf ==> after.pdf_renderer() == self.pdf_renderer()
        &&& format != DocumentFormat::Epub ==> after.epub_renderer() == self.epub_renderer()
        &&& format != DocumentFormat::Fb2 ==> after.fb2_renderer() == self.fb2_renderer()
        &&& format == DocumentFormat::Pdf && self.pdf_renderer() is Some
            ==> self.pdf_renderer()->0.counted(after.pdf_renderer()->0, bytes, r)
        &&& format == DocumentFormat::Epub && self.epub_renderer() is Some
            ==> self.epub_renderer()->0.counted(after.epub_renderer()->0, bytes, r)
        &&& format == DocumentFormat::Fb2 && self.fb2_renderer() is Some
            ==> self.fb2_renderer()->0.counted(after.fb2_renderer()->0, bytes, r)
    }

    /// Whether `after` and `r` are what rendering a page of a document
    /// leaves of this registry and answers.
    pub open spec fn rendered(
        &self,
        after: RendererRegistry<P>,
        format: DocumentFormat,
        bytes: Seq<u8>,
        page_index: u32,
        scale: u32,
        r: Result<Bitmap, RenderError>,
    ) -> bool {
        &&& self.same_formats(after)
        &&& !self.supported(format) ==> (r matches Err(e) && e@
            == RenderErrorView::UnsupportedFormat(format))
        &&& format != DocumentFormat::Pdf ==> after.pdf_renderer() == self.pdf_renderer()
        &&& format != DocumentFormat::Epub ==> after.epub_renderer() == self.epub_renderer()
        &&& format != DocumentFormat::Fb2 ==> after.fb2_renderer() == self.fb2_renderer()
        &&& format == DocumentFormat::Pdf && self.pdf_renderer() is Some
            ==> self.pdf_renderer()->0.rendered(
            after.pdf_renderer()->0,
            bytes,
            page_index,
            scale,
            r,
        )
        &&& format == DocumentFormat::Epub && self.epub_renderer() is Some
            ==> self.epub_renderer()->0.rendered(
            after.epub_renderer()->0,
            bytes,
            page_index,
            scale,
            r,
        )
        &&& format == DocumentFormat::Fb2 && self.fb2_renderer() is Some
            ==> self.fb2_renderer()->0.rendered(
            after.fb2_renderer()->0,
            bytes,
            page_index,
            scale,
            r,
        )
    }

    /// Makes the registry from the renderer of fixed-layout documents, if
    /// there is one, and the bytes of the font for reflowable text. Bytes
    /// that hold a font give both reflowable formats a renderer in that
    /// font; bytes that hold none leave both without one. DjVu never has
    /// one.
    pub fn new(pdf: Option<P>, font_data: &Vec<u8>) -> (r: RendererRegistry<P>)
        ensures
            r.pdf_renderer() == pdf,
            r.supported(DocumentFormat::Pdf) == pdf is Some,
            r.supported(DocumentFormat::Epub) == r.supported(DocumentFormat::Fb2),
            r.supported(DocumentFormat::Epub) == r.epub_renderer() is Some,
            r.supported(DocumentFormat::Fb2) == r.fb2_renderer() is Some,
            !r.supported(DocumentFormat::Djvu),
            r.epub_renderer() matches Some(e) ==> e.memo() == Map::<
                u64,
                crate::memo::CachedDocumentView,
            >::empty(),
            r.fb2_renderer() matches Some(f) ==> f.memo() == Map::<
                u64,
                crate::memo::CachedDocumentView,
            >::empty(),
            r.supported(DocumentFormat::Epub) == parsed_font(font_data@) is Some,
            r.epub_renderer() matches Some(e) ==> parsed_font(font_data@) == Some(e.font()),
            r.fb2_renderer() matches Some(f) ==> parsed_font(font_data@) == Some(f.font()),
    {
        let first = font_data.clone();
        let second = font_data.clone();
        assert(first@ =~= font_data@);
        assert(second@ =~= font_data@);
        let epub = match TextPageRenderer::new(first) {
            Some(text_renderer) => Some(EpubRenderer::new(text_renderer)),
            None => None,
        };
        let fb2 = match (&epub, TextPageRenderer::new(second)) {
            (Some(_), Some(text_renderer)) => Some(Fb2Renderer::new(text_renderer)),
            _ => None,
        };
        let epub = match &fb2 {
            Some(_) => epub,
            None => None,
        };
        RendererRegistry { pdf, epub, fb2 }
    }

    /// Decides whether there is a renderer for a format.
    pub fn supports(&self, format: &DocumentFormat) -> (r: bool)
        ensures
            r == self.supported(*format),
    {
        match format {
            DocumentFormat::Pdf => self.pdf.is_some(),
            DocumentFormat::Epub => self.epub.is_some(),
            DocumentFormat::Fb2 => self.fb2.is_some(),
            DocumentFormat::Djvu => false,
        }
    }

    /// Decides whether there is a renderer for fixed-layout documents.
    pub fn has_pdf(&self) -> (r: bool)
        ensures
            r == self.supported(DocumentFormat::Pdf),
    {
        self.pdf.is_some()
    }

    /// Counts the pages of a document with the renderer of its format.
    pub fn get_page_count(&mut self, format: &DocumentFormat, bytes: &[u8]) -> (r: Result<
        u32,
        RenderError,
    >)
        ensures
            old(self).counted(*final(self), *format, bytes@, r),
    {
        match format {
            DocumentFormat::Pdf => match &mut self.pdf {
                Some(renderer) => renderer.get_page_count(bytes),
                None => Err(RenderError::UnsupportedFormat(*format)),
            },
            DocumentFormat::Epub => match &mut self.epub {
                Some(renderer) => renderer.get_page_count(bytes),
                None => Err(RenderError::UnsupportedFormat(*format)),
            },
            DocumentFormat::Fb2 => match &mut self.fb2 {
                Some(renderer) => renderer.get_page_count(bytes),
                None => Err(RenderError::UnsupportedFormat(*format)),
            },
            DocumentFormat::Djvu => Err(RenderError::UnsupportedFormat(*format)),
        }
    }

    /// Renders one page of a document with the renderer of its format.
    pub fn render_page(
        &mut self,
        format: &DocumentFormat,
        bytes: &[u8],
        page_index: u32,
        scale: u32,
    ) -> (r: Result<Bitmap, RenderError>)
        ensures
            old(self).rendered(*final(self), *format, bytes@, page_index, scale, r),
    {
        match format {
            DocumentFormat::Pdf => match &mut self.pdf {
                Some(renderer) => renderer.render_page(bytes, page_index, scale),
                None => Err(RenderError::UnsupportedFormat(*format)),
            },
            DocumentFormat::Epub => match &mut self.epub {
                Some(renderer) => renderer.render_page(bytes, page_index, scale),
                None => Err(RenderError::UnsupportedFormat(*format)),
            },
            DocumentFormat::Fb2 => match &mut self.fb2 {
                Some(renderer) => renderer.render_page(bytes, page_index, scale),
                None => Err(RenderError::UnsupportedFormat(*format)),
            },
            DocumentFormat::Djvu => Err(RenderError::UnsupportedFormat(*format)),
        }
    }
}

} // verus!
