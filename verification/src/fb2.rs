//! Reading the paragraphs of a FictionBook document.

use crate::bitmap::Bitmap;
use crate::constants::SCALE_UNIT;
use crate::error::{RenderError, RenderErrorView};
use crate::memo::{
    bytes_hash, clone_pages, count_answer, count_pages, fingerprint, is_render_answer,
    memo_after, pages_answer, render_one, CachedDocumentView, PaginationMemo,
};
use crate::renderer::{count_result, pages_result, DocumentRenderer};
use crate::text::{trim, trimmed, utf8_text, views};
use crate::text_render::TextPageRenderer;
use ab_glyph::FontVec;
use quick_xml::events::Event;
use quick_xml::Reader;
use vstd::prelude::*;
use vstd::utf8::{decode_utf8, valid_utf8};

verus! {

/// What the paragraph reader needs to know of one XML event.
pub enum XmlEvent {
    /// An opening tag, with its name.
    Start(String),
    /// A closing tag, with its name.
    End(String),
    /// Character data; `None` when its escapes cannot be resolved.
    Text(Option<String>),
    /// Anything else: empty-element tags, comments, declarations, CDATA.
    Other,
    /// The end of the input.
    Eof,
    /// The input is not well-formed XML; carries the parser's message.
    Malformed(String),
}

/// The mathematical view of an [`XmlEvent`].
pub enum XmlEventView {
    Start(Seq<char>),
    End(Seq<char>),
    Text(Option<Seq<char>>),
    Other,
    Eof,
    Malformed(Seq<char>),
}

impl View for XmlEvent {
    type V = XmlEventView;

    open spec fn view(&self) -> XmlEventView {
        match self {
            XmlEvent::Start(n) => XmlEventView::Start(n@),
            XmlEvent::End(n) => XmlEventView::End(n@),
            XmlEvent::Text(Some(t)) => XmlEventView::Text(Some(t@)),
            XmlEvent::Text(None) => XmlEventView::Text(None),
            XmlEvent::Other => XmlEventView::Other,
            XmlEvent::Eof => XmlEventView::Eof,
            XmlEvent::Malformed(m) => XmlEventView::Malformed(m@),
        }
    }
}

impl XmlEventView {
    /// Whether reading stops at this event.
    pub open spec fn is_terminal(self) -> bool {
        self is Eof || self is Malformed
    }
}

/// The state of the paragraph reader between two events.
pub struct Fb2State {
    pub paragraphs: Seq<Seq<char>>,
    pub current: Seq<char>,
    pub in_body: bool,
    pub in_text: bool,
}

/// The state before the first event.
pub open spec fn fb2_initial() -> Fb2State {
    Fb2State { paragraphs: Seq::empty(), current: Seq::empty(), in_body: false, in_text: false }
}

/// Whether a tag opens or closes a block of text: a paragraph or a title.
pub open spec fn is_text_block(name: Seq<char>) -> bool {
    name == "p"@ || name == "title"@
}

/// The state after one event.
///
/// Inside `body`, a `p` or a `title` collects the trimmed pieces of its
/// character data, joined by single spaces, and becomes a paragraph when it
/// closes unless it is empty; an opening `empty-line` tag becomes an empty
/// paragraph.
pub open spec fn fb2_step(s: Fb2State, e: XmlEventView) -> Fb2State {
    match e {
        XmlEventView::Start(name) => {
            if name == "body"@ {
                Fb2State { in_body: true, ..s }
            } else if is_text_block(name) && s.in_body {
                Fb2State { in_text: true, current: Seq::empty(), ..s }
            } else if name == "empty-line"@ && s.in_body {
                Fb2State { paragraphs: s.paragraphs.push(Seq::empty()), ..s }
            } else {
                s
            }
        },
        XmlEventView::End(name) => {
            if name == "body"@ {
                Fb2State { in_body: false, ..s }
            } else if is_text_block(name) && s.in_text {
                let text = trimmed(s.current);
                Fb2State {
                    in_text: false,
                    current: Seq::empty(),
                    paragraphs: if text.len() > 0 {
                        s.paragraphs.push(text)
                    } else {
                        s.paragraphs
                    },
                    ..s
                }
            } else {
                s
            }
        },
        XmlEventView::Text(Some(t)) => {
            if s.in_text {
                let joined = if s.current.len() > 0 {
                    s.current.push(' ')
                } else {
                    s.current
                };
                Fb2State { current: joined + trimmed(t), ..s }
            } else {
                s
            }
        },
        _ => s,
    }
}

/// What reading a run of events gives: the paragraphs found up to the end of
/// the input, or the message of the first malformed piece.
pub open spec fn fb2_read(s: Fb2State, events: Seq<XmlEventView>) -> Result<
    Seq<Seq<char>>,
    Seq<char>,
>
    decreases events.len(),
{
    if events.len() == 0 {
        Ok(s.paragraphs)
    } else {
        match events[0] {
            XmlEventView::Eof => Ok(s.paragraphs),
            XmlEventView::Malformed(m) => Err(m),
            e => fb2_read(fb2_step(s, e), events.skip(1)),
        }
    }
}

#[verifier::external_type_specification]
#[verifier::external_body]
#[verifier::reject_recursive_types(R)]
pub struct ExReader<R>(Reader<R>);

/// The events that `quick_xml` reads from a text with its default
/// configuration, through the first end of input or error.
pub uninterp spec fn xml_events(text: Seq<char>) -> Seq<XmlEventView>;

/// The events that a reader has yet to give, through the first end of input
/// or error.
pub uninterp spec fn pending_events(reader: Reader<&[u8]>) -> Seq<XmlEventView>;

/// Calls `quick_xml::Reader::from_str`. Trusted: the new reader has all the
/// events of the text before it.
#[verifier::external_body]
fn open_reader<'a>(text: &'a str) -> (r: Reader<&'a [u8]>)
    ensures
        pending_events(r) == xml_events(text@),
{
    Reader::from_str(text)
}

/// Calls `quick_xml::Reader::read_event` and keeps of the event what the
/// paragraph reader looks at: a tag's name, read as UTF-8 with replacement
/// characters, and character data with its escapes resolved
/// (`BytesText::unescape`). Trusted: the reader gives its pending events in
/// order, there is always one to give, and each one given but the last
/// leaves the rest pending.
#[verifier::external_body]
fn next_event(reader: &mut Reader<&[u8]>) -> (r: XmlEvent)
    ensures
        pending_events(*old(reader)).len() > 0,
        r@ == pending_events(*old(reader))[0],
        !r@.is_terminal() ==> pending_events(*final(reader)) == pending_events(
            *old(reader),
        ).skip(1),
{
    match reader.read_event() {
        Ok(Event::Start(e)) => XmlEvent::Start(String::from_utf8_lossy(e.name().as_ref()).into_owned()),
        Ok(Event::End(e)) => XmlEvent::End(String::from_utf8_lossy(e.name().as_ref()).into_owned()),
        Ok(Event::Text(e)) => XmlEvent::Text(e.unescape().ok().map(|t| t.into_owned())),
        Ok(Event::Eof) => XmlEvent::Eof,
        Ok(_) => XmlEvent::Other,
        Err(e) => XmlEvent::Malformed(e.to_string()),
    }
}

/// The description carried by the error for bytes that are not UTF-8.
pub open spec fn invalid_utf8_message() -> Seq<char> {
    "FB2 файл не является валидным UTF-8"@
}

/// What reading a FictionBook document gives: its paragraphs, a decode
/// error when the bytes are not UTF-8, or a parse error with the message of
/// the first malformed piece of markup.
pub open spec fn fb2_outcome(bytes: Seq<u8>) -> Result<Seq<Seq<char>>, RenderErrorView> {
    if !valid_utf8(bytes) {
        Err(RenderErrorView::Decode(invalid_utf8_message()))
    } else {
        match fb2_read(fb2_initial(), xml_events(decode_utf8(bytes))) {
            Ok(paragraphs) => Ok(paragraphs),
            Err(message) => Err(RenderErrorView::Parse(message)),
        }
    }
}

/// The views of a list of events.
pub open spec fn event_views(events: Seq<XmlEvent>) -> Seq<XmlEventView> {
    events.map_values(|e: XmlEvent| e@)
}

/// The paragraph reader: the paragraphs found so far and the text block
/// being collected.
pub struct Fb2Parser {
    paragraphs: Vec<String>,
    current: String,
    in_body: bool,
    in_text: bool,
}

impl View for Fb2Parser {
    type V = Fb2State;

    closed spec fn view(&self) -> Fb2State {
        Fb2State {
            paragraphs: views(self.paragraphs@),
            current: self.current@,
            in_body: self.in_body,
            in_text: self.in_text,
        }
    }
}

impl Fb2Parser {
    pub fn new() -> (r: Fb2Parser)
        ensures
            r@ == fb2_initial(),
    {
        let r = Fb2Parser {
            paragraphs: Vec::new(),
            current: String::new(),
            in_body: false,
            in_text: false,
        };
        assert(views(r.paragraphs@) =~= Seq::empty());
        r
    }

    /// Takes one event in.
    pub fn feed(&mut self, event: &XmlEvent)
        ensures
            final(self)@ == fb2_step(old(self)@, event@),
    {
        let ghost before = self.paragraphs@;
        match event {
            XmlEvent::Start(name) => {
                let name = name.as_str();
                if str::eq(name, "body") {
                    self.in_body = true;
                } else if (str::eq(name, "p") || str::eq(name, "title")) && self.in_body {
                    self.in_text = true;
                    self.current = String::new();
                } else if str::eq(name, "empty-line") && self.in_body {
                    self.paragraphs.push(String::new());
                    assert(views(self.paragraphs@) =~= views(before).push(Seq::empty()));
                }
            },
            XmlEvent::End(name) => {
                let name = name.as_str();
                if str::eq(name, "body") {
                    self.in_body = false;
                } else if (str::eq(name, "p") || str::eq(name, "title")) && self.in_text {
                    self.in_text = false;
                    let text = trim(self.current.as_str());
                    if !text.as_str().is_empty() {
                        self.paragraphs.push(text);
                        assert(views(self.paragraphs@) =~= views(before).push(text@));
                    }
                    self.current = String::new();
                }
            },
            XmlEvent::Text(Some(t)) => {
                if self.in_text {
                    if !self.current.as_str().is_empty() {
                        proof {
                            reveal_strlit(" ");
                        }
                        self.current.append(" ");
                        assert(self.current@ =~= old(self).current@.push(' '));
                    }
                    let piece = trim(t.as_str());
                    self.current.append(piece.as_str());
                }
            },
            _ => {},
        }
    }

    /// Takes one event of a run in: an event that ends the run is answered
    /// with how it ends, `None` for the end of the input and the message
    /// for a malformed piece, and leaves the reader as it is; any other
    /// event is fed to the reader.
    pub fn take(&mut self, event: &XmlEvent) -> (r: Option<Option<String>>)
        ensures
            match event@ {
                XmlEventView::Eof => r == Some(None::<String>) && final(self)@ == old(self)@,
                XmlEventView::Malformed(message) => r matches Some(Some(m)) && m@ == message
                    && final(self)@ == old(self)@,
                _ => r is None && final(self)@ == fb2_step(old(self)@, event@),
            },
    {
        match event {
            XmlEvent::Eof => Some(None),
            XmlEvent::Malformed(message) => Some(Some(message.clone())),
            event => {
                self.feed(event);
                None
            },
        }
    }

    /// Gives up the paragraphs read.
    pub fn finish(self) -> (r: Vec<String>)
        ensures
            views(r@) == self@.paragraphs,
    {
        self.paragraphs
    }
}

/// Reads the paragraphs out of a list of events, stopping at the first end
/// of input or malformed piece.
pub fn paragraphs_from_events(events: &Vec<XmlEvent>) -> (r: Result<Vec<String>, String>)
    ensures
        match r {
            Ok(paragraphs) => fb2_read(fb2_initial(), event_views(events@)) == Ok::<
                Seq<Seq<char>>,
                Seq<char>,
            >(views(paragraphs@)),
            Err(message) => fb2_read(fb2_initial(), event_views(events@)) == Err::<
                Seq<Seq<char>>,
                Seq<char>,
            >(message@),
        },
{
    let mut parser = Fb2Parser::new();
    let ghost all = event_views(events@);
    let mut i: usize = 0;
    assert(all.skip(0) =~= all);
    while i < events.len()
        invariant
            i <= events.len(),
            all == event_views(events@),
            fb2_read(parser@, all.skip(i as int)) == fb2_read(fb2_initial(), all),
        decreases events.len() - i,
    {
        let ghost rest = all.skip(i as int);
        assert(rest[0] == events@[i as int]@);
        assert(rest.skip(1) =~= all.skip(i as int + 1));
        match parser.take(&events[i]) {
            Some(None) => {
                return Ok(parser.finish());
            },
            Some(Some(message)) => {
                return Err(message);
            },
            None => {},
        }
        i += 1;
    }
    assert(all.skip(i as int).len() == 0);
    Ok(parser.finish())
}

/// Reads the paragraphs of a FictionBook document.
pub fn parse_paragraphs(bytes: &[u8]) -> (r: Result<Vec<String>, RenderError>)
    ensures
        match r {
            Ok(paragraphs) => fb2_outcome(bytes@) == Ok::<Seq<Seq<char>>, RenderErrorView>(
                views(paragraphs@),
            ),
            Err(e) => fb2_outcome(bytes@) == Err::<Seq<Seq<char>>, RenderErrorView>(e@),
        },
{
    let text = match utf8_text(bytes) {
        Some(text) => text,
        None => {
            return Err(RenderError::Decode("FB2 файл не является валидным UTF-8".to_owned()));
        },
    };
    let mut reader = open_reader(text);
    let mut parser = Fb2Parser::new();
    loop
        invariant
            valid_utf8(bytes@),
            text@ == decode_utf8(bytes@),
            fb2_read(parser@, pending_events(reader)) == fb2_read(
                fb2_initial(),
                xml_events(text@),
            ),
        decreases pending_events(reader).len(),
    {
        let event = next_event(&mut reader);
        match parser.take(&event) {
            Some(None) => {
                return Ok(parser.finish());
            },
            Some(Some(message)) => {
                return Err(RenderError::Parse(message));
            },
            None => {},
        }
    }
}

/// The renderer of FictionBook documents: it paginates the paragraphs of a
/// document and remembers the pages.
pub struct Fb2Renderer {
    text_renderer: TextPageRenderer,
    memo: PaginationMemo,
}

impl Fb2Renderer {
    /// The font in which the renderer lays text out.
    pub closed spec fn font(&self) -> FontVec {
        self.text_renderer.font()
    }

    /// The paginations that the renderer remembers.
    pub closed spec fn memo(&self) -> Map<u64, CachedDocumentView> {
        self.memo@
    }

    /// A renderer that remembers nothing yet.
    pub fn new(text_renderer: TextPageRenderer) -> (r: Fb2Renderer)
        ensures
            r.font() == text_renderer.font(),
            r.memo() == Map::<u64, CachedDocumentView>::empty(),
    {
        Fb2Renderer { text_renderer, memo: PaginationMemo::new() }
    }

    /// The pages of a document at a scale, in thousandths: those remembered
    /// for a document with the same fingerprint at a scale near enough,
    /// else those of the document's paragraphs, which are then remembered.
    pub fn get_pages(&mut self, bytes: &[u8], scale: u32) -> (r: Result<
        Vec<Vec<String>>,
        RenderError,
    >)
        ensures
            final(self).font() == old(self).font(),
            final(self).memo() == memo_after(
                old(self).memo(),
                old(self).font(),
                fingerprint(bytes@),
                fb2_outcome(bytes@),
                scale,
            ),
            pages_result(r) == pages_answer(
                old(self).memo(),
                old(self).font(),
                fingerprint(bytes@),
                fb2_outcome(bytes@),
                scale,
            ),
    {
        let key = bytes_hash(bytes);
        match self.memo.lookup(key, scale) {
            Some(pages) => {
                return Ok(pages);
            },
            None => {},
        }
        let paragraphs = match parse_paragraphs(bytes) {
            Ok(paragraphs) => paragraphs,
            Err(e) => {
                return Err(e);
            },
        };
        let pages = self.text_renderer.paginate(paragraphs.as_slice(), scale);
        self.memo.store(key, clone_pages(&pages), scale);
        Ok(pages)
    }
}

impl DocumentRenderer for Fb2Renderer {
    /// Whether `after` and `r` are what counting the pages of a document
    /// leaves of this renderer and answers: the pages are those at the
    /// natural size.
    open spec fn counted(&self, after: Fb2Renderer, bytes: Seq<u8>, r: Result<u32, RenderError>) -> bool {
        &&& after.font() == self.font()
        &&& after.memo() == memo_after(
            self.memo(),
            self.font(),
            fingerprint(bytes),
            fb2_outcome(bytes),
            SCALE_UNIT,
        )
        &&& count_result(r) == count_answer(
            pages_answer(
                self.memo(),
                self.font(),
                fingerprint(bytes),
                fb2_outcome(bytes),
                SCALE_UNIT,
            ),
        )
    }

    /// Whether `after` and `r` are what rendering a page of a document
    /// leaves of this renderer and answers.
    open spec fn rendered(
        &self,
        after: Fb2Renderer,
        bytes: Seq<u8>,
        page_index: u32,
        scale: u32,
        r: Result<Bitmap, RenderError>,
    ) -> bool {
        &&& after.font() == self.font()
        &&& after.memo() == memo_after(
            self.memo(),
            self.font(),
            fingerprint(bytes),
            fb2_outcome(bytes),
            scale,
        )
        &&& is_render_answer(
            r,
            self.font(),
            pages_answer(
                self.memo(),
                self.font(),
                fingerprint(bytes),
                fb2_outcome(bytes),
                scale,
            ),
            page_index,
            scale,
        )
    }

    /// The number of pages of a document at the natural size.
    fn get_page_count(&mut self, bytes: &[u8]) -> (r: Result<u32, RenderError>) {
        let pages = self.get_pages(bytes, SCALE_UNIT);
        count_pages(pages)
    }

    /// One page of a document, drawn at a scale in thousandths; an index
    /// that is not below the number of pages gives `OutOfRange`.
    fn render_page(&mut self, bytes: &[u8], page_index: u32, scale: u32) -> (r: Result<
        Bitmap,
        RenderError,
    >) {
        let pages = self.get_pages(bytes, scale);
        render_one(&self.text_renderer, pages, page_index, scale)
    }
}

} // verus!
