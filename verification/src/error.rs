//! The errors that rendering reports.

use crate::format::{format_name, DocumentFormat};
use crate::text::{decimal, decimal_of};
use vstd::prelude::*;

verus! {

/// Why a page could not be counted or rendered. None of these ends the
/// render loop: each becomes a message to the caller.
#[derive(Debug)]
pub enum RenderError {
    /// No backend is available for the format.
    UnsupportedFormat(DocumentFormat),
    /// The document's bytes cannot be decoded; carries what to tell the
    /// reader.
    Decode(String),
    /// The zero-based page index is not below the number of pages.
    OutOfRange { page_index: u32, page_count: usize },
    /// The markup of a FictionBook document is malformed; carries the
    /// parser's message.
    Parse(String),
    /// A page at this scale, in thousandths, is too large to be held in
    /// memory.
    RasterTooLarge { scale: u32 },
}

/// The mathematical view of a [`RenderError`].
pub enum RenderErrorView {
    UnsupportedFormat(DocumentFormat),
    Decode(Seq<char>),
    OutOfRange { page_index: u32, page_count: usize },
    Parse(Seq<char>),
    RasterTooLarge { scale: u32 },
}

impl View for RenderError {
    type V = RenderErrorView;

    open spec fn view(&self) -> RenderErrorView {
        match self {
            RenderError::UnsupportedFormat(f) => RenderErrorView::UnsupportedFormat(*f),
            RenderError::Decode(m) => RenderErrorView::Decode(m@),
            RenderError::OutOfRange { page_index, page_count } => RenderErrorView::OutOfRange {
                page_index: *page_index,
                page_count: *page_count,
            },
            RenderError::Parse(m) => RenderErrorView::Parse(m@),
            RenderError::RasterTooLarge { scale } => RenderErrorView::RasterTooLarge {
                scale: *scale,
            },
        }
    }
}

/// What an error says to the reader.
pub open spec fn message_text(e: RenderErrorView) -> Seq<char> {
    match e {
        RenderErrorView::UnsupportedFormat(format) => "Формат "@ + format_name(format)
            + " не поддерживается"@,
        RenderErrorView::Decode(description) => description,
        RenderErrorView::OutOfRange { page_index, page_count } => "Страница "@ + decimal(
            (page_index + 1) as nat,
        ) + " за пределами документа ("@ + decimal(page_count as nat) + " стр.)"@,
        RenderErrorView::Parse(message) => "Ошибка парсинга FB2: "@ + message,
        RenderErrorView::RasterTooLarge { scale } => "Страница слишком велика при масштабе "@
            + decimal(scale as nat) + "/1000"@,
    }
}

impl RenderError {
    /// What the error says to the reader. Pages are numbered from one.
    pub fn message(&self) -> (r: String)
        ensures
            r@ == message_text(self@),
    {
        match self {
            RenderError::UnsupportedFormat(format) => {
                let mut out = "Формат ".to_owned();
                out.append(format.display_name());
                out.append(" не поддерживается");
                out
            },
            RenderError::Decode(description) => description.clone(),
            RenderError::OutOfRange { page_index, page_count } => {
                let mut out = "Страница ".to_owned();
                out.append(decimal_of(*page_index as u64 + 1).as_str());
                out.append(" за пределами документа (");
                out.append(decimal_of(*page_count as u64).as_str());
                out.append(" стр.)");
                out
            },
            RenderError::Parse(message) => {
                let mut out = "Ошибка парсинга FB2: ".to_owned();
                out.append(message.as_str());
                out
            },
            RenderError::RasterTooLarge { scale } => {
                let mut out = "Страница слишком велика при масштабе ".to_owned();
                out.append(decimal_of(*scale as u64).as_str());
                out.append("/1000");
                out
            },
        }
    }
}

} // verus!
