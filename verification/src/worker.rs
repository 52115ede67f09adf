//! The decisions of the render worker.
//!
//! The worker takes requests off a queue and answers them one at a time.
//! Before it starts on one, it drains the queue and keeps only the latest
//! request: the others are superseded and get no answer at all. Whoever
//! reads the answers must therefore match them to what was asked by the
//! book and the page, never by their order.

use crate::bitmap::Bitmap;
use crate::constants::{PDF_SCALE_DENOMINATOR, PDF_SCALE_NUMERATOR};
use crate::error::{RenderError, RenderErrorView};
use crate::format::DocumentFormat;
use crate::registry::RendererRegistry;
use crate::renderer::DocumentRenderer;
use std::sync::Arc;
use vstd::prelude::*;

verus! {

/// A page to render. `page` counts from one and `page_index` from zero;
/// `zoom` is the zoom times the device's pixel ratio, in thousandths, and
/// `dpi` the resolution that tells renderings of one page apart.
pub struct RenderRequest {
    pub book_hash: String,
    pub page: u32,
    pub page_index: u32,
    pub zoom: u32,
    pub dpi: u32,
    pub bytes: Arc<Vec<u8>>,
    pub format: DocumentFormat,
}

/// A rendered page. `total_pages` is zero when the number of pages is not
/// known.
pub struct RenderResult {
    pub book_hash: String,
    pub page: u32,
    pub dpi: u32,
    pub total_pages: u32,
    pub image: Bitmap,
}

/// The answer to a request.
pub enum RenderResponse {
    Rendered(RenderResult),
    Failed(RenderError),
}

/// The scale at which a renderer is asked to draw: fixed-layout documents
/// are drawn at three halves of the zoom, as far as that is a 32-bit
/// number; the others at the zoom.
pub open spec fn effective_scale(format: DocumentFormat, zoom: u32) -> u32 {
    if format == DocumentFormat::Pdf {
        let scaled = PDF_SCALE_NUMERATOR * zoom / (PDF_SCALE_DENOMINATOR as int);
        if scaled > u32::MAX {
            u32::MAX
        } else {
            scaled as u32
        }
    } else {
        zoom
    }
}

/// The request that is served out of those that wait: the latest.
pub open spec fn latest_of(queued: Seq<RenderRequest>) -> Option<RenderRequest> {
    if queued.len() == 0 {
        None
    } else {
        Some(queued.last())
    }
}

/// Whether an answer belongs to a request: a page carries the book, the
/// page number and the resolution of the request, and a format without a
/// renderer is answered with `UnsupportedFormat`.
pub open spec fn answers(response: RenderResponse, request: RenderRequest, supported: bool) -> bool {
    match response {
        RenderResponse::Rendered(result) => {
            &&& supported
            &&& result.book_hash@ == request.book_hash@
            &&& result.page == request.page
            &&& result.dpi == request.dpi
        },
        RenderResponse::Failed(e) => !supported ==> e@ == RenderErrorView::UnsupportedFormat(
            request.format,
        ),
    }
}

/// The number of pages in an answer, given what counting gave: a count that
/// failed is a count of zero.
pub open spec fn total_of(count: Result<u32, RenderError>) -> u32 {
    match count {
        Ok(n) => n,
        Err(_) => 0,
    }
}

/// The answer to a request, given what counting the pages and rendering
/// the page gave: a page that was rendered is answered with that page, the
/// book, the page number and the resolution of the request and the number
/// of pages counted; a failure to render is answered with that failure.
pub open spec fn response_of(
    request: RenderRequest,
    count: Result<u32, RenderError>,
    rendered: Result<Bitmap, RenderError>,
) -> RenderResponse {
    match rendered {
        Ok(image) => RenderResponse::Rendered(
            RenderResult {
                book_hash: request.book_hash,
                page: request.page,
                dpi: request.dpi,
                total_pages: total_of(count),
                image,
            },
        ),
        Err(e) => RenderResponse::Failed(e),
    }
}

/// Whether an answer is what serving a request makes of a registry. A
/// format without a renderer is answered with `UnsupportedFormat` and
/// nothing is asked of any renderer. Else the renderer of the format is
/// asked for the number of pages of the bytes, then for the page with the
/// index of the request at the effective scale, and the answer is made of
/// what it gave.
pub open spec fn served<P: DocumentRenderer>(
    before: RendererRegistry<P>,
    after: RendererRegistry<P>,
    request: RenderRequest,
    response: RenderResponse,
) -> bool {
    if !before.supported(request.format) {
        response matches RenderResponse::Failed(e) && e@ == RenderErrorView::UnsupportedFormat(
            request.format,
        ) && after == before
    } else {
        exists|
            mid: RendererRegistry<P>,
            count: Result<u32, RenderError>,
            rendered: Result<Bitmap, RenderError>,
        |
            {
                &&& #[trigger] before.counted(mid, request.format, request.bytes@, count)
                &&& #[trigger] mid.rendered(
                    after,
                    request.format,
                    request.bytes@,
                    request.page_index,
                    effective_scale(request.format, request.zoom),
                    rendered,
                )
                &&& response == response_of(request, count, rendered)
            }
    }
}

/// What a failed request says to the reader: that the format has no
/// renderer, or that rendering failed and why.
pub open spec fn failure_text(e: RenderErrorView) -> Seq<char> {
    match e {
        RenderErrorView::UnsupportedFormat(_) => crate::error::message_text(e),
        _ => "Ошибка рендеринга: "@ + crate::error::message_text(e),
    }
}

/// Writes what a failed request says to the reader.
pub fn failure_message(e: &RenderError) -> (r: String)
    ensures
        r@ == failure_text(e@),
{
    match e {
        RenderError::UnsupportedFormat(_) => e.message(),
        _ => {
            let mut out = "Ошибка рендеринга: ".to_owned();
            out.append(e.message().as_str());
            out
        },
    }
}

/// Computes the scale at which a renderer is asked to draw.
pub fn effective_scale_of(format: DocumentFormat, zoom: u32) -> (r: u32)
    ensures
        r == effective_scale(format, zoom),
{
    if format == DocumentFormat::Pdf {
        assert(PDF_SCALE_NUMERATOR * zoom <= 3 * 0xffff_ffff) by (nonlinear_arith)
            requires
                PDF_SCALE_NUMERATOR == 3,
                zoom <= 0xffff_ffff,
        ;
        let scaled: u64 = PDF_SCALE_NUMERATOR as u64 * zoom as u64 / PDF_SCALE_DENOMINATOR as u64;
        if scaled > u32::MAX as u64 {
            u32::MAX
        } else {
            scaled as u32
        }
    } else {
        zoom
    }
}

/// Makes the answer to a request of what counting the pages and rendering
/// the page gave.
pub fn respond(
    request: RenderRequest,
    count: Result<u32, RenderError>,
    rendered: Result<Bitmap, RenderError>,
) -> (r: RenderResponse)
    ensures
        r == response_of(request, count, rendered),
{
    let total_pages = match count {
        Ok(n) => n,
        Err(_) => 0,
    };
    match rendered {
        Ok(image) => RenderResponse::Rendered(
            RenderResult {
                book_hash: request.book_hash,
                page: request.page,
                dpi: request.dpi,
                total_pages,
                image,
            },
        ),
        Err(e) => RenderResponse::Failed(e),
    }
}

/// Keeps the latest of the requests that wait and drops the others.
pub fn take_latest(queued: Vec<RenderRequest>) -> (r: Option<RenderRequest>)
    ensures
        r == latest_of(queued@),
{
    let mut queued = queued;
    queued.pop()
}

/// Answers one request: looks the renderer of the format up, counts the
/// pages as far as that works, and renders the page at the effective
/// scale. Every failure is an answer; none stops the worker.
pub fn process_request<P: DocumentRenderer>(
    registry: &mut RendererRegistry<P>,
    request: RenderRequest,
) -> (r: RenderResponse)
    ensures
        forall|f: DocumentFormat| final(registry).supported(f) == old(registry).supported(f),
        answers(r, request, old(registry).supported(request.format)),
        served(*old(registry), *final(registry), request, r),
{
    if !registry.supports(&request.format) {
        return RenderResponse::Failed(RenderError::UnsupportedFormat(request.format));
    }
    let count = registry.get_page_count(&request.format, request.bytes.as_slice());
    let ghost mid = *registry;
    let scale = effective_scale_of(request.format, request.zoom);
    let rendered = registry.render_page(
        &request.format,
        request.bytes.as_slice(),
        request.page_index,
        scale,
    );
    proof {
        assert(old(registry).counted(mid, request.format, request.bytes@, count));
        assert(mid.rendered(
            *registry,
            request.format,
            request.bytes@,
            request.page_index,
            effective_scale(request.format, request.zoom),
            rendered,
        ));
    }
    respond(request, count, rendered)
}

/// Serves the requests that wait: the latest is answered, the others are
/// dropped without an answer, and nothing waiting means no answer.
pub fn serve<P: DocumentRenderer>(
    registry: &mut RendererRegistry<P>,
    queued: Vec<RenderRequest>,
) -> (r: Option<RenderResponse>)
    ensures
        forall|f: DocumentFormat| final(registry).supported(f) == old(registry).supported(f),
        r is Some == (queued@.len() > 0),
        r is None ==> *final(registry) == *old(registry),
        r matches Some(response) ==> answers(
            response,
            queued@.last(),
            old(registry).supported(queued@.last().format),
        ) && served(*old(registry), *final(registry), queued@.last(), response),
{
    match take_latest(queued) {
        Some(request) => Some(process_request(registry, request)),
        None => None,
    }
}

} // verus!
