//! Reading the paragraphs of an EPUB document.

use crate::bitmap::Bitmap;
use crate::constants::SCALE_UNIT;
use crate::error::{RenderError, RenderErrorView};
use crate::memo::{
    bytes_hash, clone_pages, count_answer, count_pages, fingerprint, is_render_answer,
    memo_after, pages_answer, render_one, CachedDocumentView, PaginationMemo,
};
use crate::renderer::{count_result, pages_result, DocumentRenderer};
use crate::text::{
    first_word, from_chars, lemma_without_leading, lowercase, replace_all, replaced,
    skip_whitespace, skip_word, to_chars, to_lowercase, trim, trimmed, views, without_leading,
};
use crate::text_render::TextPageRenderer;
use ab_glyph::FontVec;
use rbook::{Ebook, Epub};
use std::io::Cursor;
use vstd::prelude::*;

verus! {

/// The state of the tag stripper between two characters.
pub struct HtmlState {
    pub paragraphs: Seq<Seq<char>>,
    pub current: Seq<char>,
    pub in_tag: bool,
    pub tag_name: Seq<char>,
}

/// The state before the first character.
pub open spec fn html_initial() -> HtmlState {
    HtmlState {
        paragraphs: Seq::empty(),
        current: Seq::empty(),
        in_tag: false,
        tag_name: Seq::empty(),
    }
}

/// The name of a tag, given what stands between `<` and `>`: lowercase,
/// without the slashes of a closing tag, up to the first whitespace.
pub open spec fn tag_base(tag: Seq<char>) -> Seq<char> {
    first_word(without_leading(lowercase(tag), '/'))
}

/// Whether a tag name ends a paragraph.
pub open spec fn is_block_tag(name: Seq<char>) -> bool {
    name == "p"@ || name == "div"@ || name == "h1"@ || name == "h2"@ || name == "h3"@ || name
        == "h4"@ || name == "h5"@ || name == "h6"@ || name == "br"@ || name == "li"@ || name
        == "tr"@ || name == "blockquote"@
}

/// The paragraphs with the collected text added, trimmed, unless nothing
/// but whitespace was collected.
pub open spec fn flushed(paragraphs: Seq<Seq<char>>, current: Seq<char>) -> Seq<Seq<char>> {
    let text = trimmed(current);
    if text.len() > 0 {
        paragraphs.push(text)
    } else {
        paragraphs
    }
}

/// The state after one character. `<` opens a tag wherever it stands; `>`
/// closes an open one, and ends the paragraph when the tag is a block tag;
/// any other character belongs to the tag when one is open, to the text
/// otherwise.
pub open spec fn html_step(s: HtmlState, ch: char) -> HtmlState {
    if ch == '<' {
        HtmlState { in_tag: true, tag_name: Seq::empty(), ..s }
    } else if ch == '>' && s.in_tag {
        if is_block_tag(tag_base(s.tag_name)) {
            HtmlState {
                in_tag: false,
                paragraphs: flushed(s.paragraphs, s.current),
                current: Seq::empty(),
                ..s
            }
        } else {
            HtmlState { in_tag: false, ..s }
        }
    } else if s.in_tag {
        HtmlState { tag_name: s.tag_name.push(ch), ..s }
    } else {
        HtmlState { current: s.current.push(ch), ..s }
    }
}

/// The state after a run of characters.
pub open spec fn html_run(s: HtmlState, chars: Seq<char>) -> HtmlState
    decreases chars.len(),
{
    if chars.len() == 0 {
        s
    } else {
        html_step(html_run(s, chars.drop_last()), chars.last())
    }
}

/// A paragraph with the basic entities resolved, one kind after the other:
/// `&amp;`, `&lt;`, `&gt;`, `&quot;`, `&apos;`, `&nbsp;`.
pub open spec fn decode_entities(s: Seq<char>) -> Seq<char> {
    let s = replaced(s, "&amp;"@, "&"@);
    let s = replaced(s, "&lt;"@, "<"@);
    let s = replaced(s, "&gt;"@, ">"@);
    let s = replaced(s, "&quot;"@, "\""@);
    let s = replaced(s, "&apos;"@, "'"@);
    replaced(s, "&nbsp;"@, " "@)
}

/// The paragraphs with their entities resolved, without those that are
/// empty afterwards.
pub open spec fn decoded_paragraphs(paragraphs: Seq<Seq<char>>) -> Seq<Seq<char>>
    decreases paragraphs.len(),
{
    if paragraphs.len() == 0 {
        Seq::empty()
    } else {
        let head = decoded_paragraphs(paragraphs.drop_last());
        let last = decode_entities(paragraphs.last());
        if last.len() > 0 {
            head.push(last)
        } else {
            head
        }
    }
}

/// The paragraphs of a piece of HTML: the text between block tags, trimmed,
/// with the basic entities resolved.
pub open spec fn html_paragraphs(html: Seq<char>) -> Seq<Seq<char>> {
    let end = html_run(html_initial(), html);
    decoded_paragraphs(flushed(end.paragraphs, end.current))
}

/// Computes the name of a tag from what stands between `<` and `>`.
pub fn tag_base_of(tag: &str) -> (r: String)
    ensures
        r@ == tag_base(tag@),
{
    let lower = to_lowercase(tag);
    let chars = to_chars(lower.as_str());
    let mut from: usize = 0;
    while from < chars.len() && chars[from] == '/'
        invariant
            from <= chars.len(),
            forall|j: int| 0 <= j < from ==> #[trigger] chars@[j] == '/',
        decreases chars.len() - from,
    {
        from += 1;
    }
    proof {
        lemma_without_leading(chars@, '/', from as int);
    }
    let start = skip_whitespace(&chars, from);
    let end = skip_word(&chars, start);
    proof {
        let rest = chars@.skip(from as int);
        assert(rest.skip(start - from) =~= chars@.skip(start as int));
        assert(rest.skip(start - from).take(end - start) =~= chars@.subrange(
            start as int,
            end as int,
        ));
    }
    from_chars(&chars, start, end)
}

/// Decides whether a tag name ends a paragraph.
pub fn is_block_tag_name(name: &str) -> (r: bool)
    ensures
        r == is_block_tag(name@),
{
    str::eq(name, "p") || str::eq(name, "div") || str::eq(name, "h1") || str::eq(name, "h2")
        || str::eq(name, "h3") || str::eq(name, "h4") || str::eq(name, "h5") || str::eq(
        name,
        "h6",
    ) || str::eq(name, "br") || str::eq(name, "li") || str::eq(name, "tr") || str::eq(
        name,
        "blockquote",
    )
}

/// Replaces one entity by the text it stands for.
fn replace_entity(chars: Vec<char>, entity: &str, text: &str) -> (r: Vec<char>)
    requires
        entity@.len() > 0,
    ensures
        r@ == replaced(chars@, entity@, text@),
{
    let pattern = to_chars(entity);
    let with = to_chars(text);
    replace_all(&chars, &pattern, &with)
}

/// Resolves the basic entities of a paragraph.
pub fn decode_entities_of(s: &str) -> (r: String)
    ensures
        r@ == decode_entities(s@),
{
    proof {
        reveal_strlit("&amp;");
        reveal_strlit("&lt;");
        reveal_strlit("&gt;");
        reveal_strlit("&quot;");
        reveal_strlit("&apos;");
        reveal_strlit("&nbsp;");
    }
    let chars = to_chars(s);
    let chars = replace_entity(chars, "&amp;", "&");
    let chars = replace_entity(chars, "&lt;", "<");
    let chars = replace_entity(chars, "&gt;", ">");
    let chars = replace_entity(chars, "&quot;", "\"");
    let chars = replace_entity(chars, "&apos;", "'");
    let chars = replace_entity(chars, "&nbsp;", " ");
    let n = chars.len();
    assert(chars@.subrange(0, n as int) =~= chars@);
    from_chars(&chars, 0, n)
}

/// The tag stripper: the paragraphs found so far, the text being collected
/// and the tag being read.
struct HtmlStripper {
    paragraphs: Vec<String>,
    current: String,
    in_tag: bool,
    tag_name: String,
}

impl View for HtmlStripper {
    type V = HtmlState;

    closed spec fn view(&self) -> HtmlState {
        HtmlState {
            paragraphs: views(self.paragraphs@),
            current: self.current@,
            in_tag: self.in_tag,
            tag_name: self.tag_name@,
        }
    }
}

impl HtmlStripper {
    fn new() -> (r: HtmlStripper)
        ensures
            r@ == html_initial(),
    {
        let r = HtmlStripper {
            paragraphs: Vec::new(),
            current: String::new(),
            in_tag: false,
            tag_name: String::new(),
        };
        assert(views(r.paragraphs@) =~= Seq::empty());
        r
    }

    /// Ends the paragraph being collected.
    fn flush(&mut self)
        ensures
            final(self)@ == (HtmlState {
                paragraphs: flushed(old(self)@.paragraphs, old(self)@.current),
                current: Seq::empty(),
                ..old(self)@
            }),
    {
        let ghost before = self.paragraphs@;
        let text = trim(self.current.as_str());
        if !text.as_str().is_empty() {
            self.paragraphs.push(text);
            assert(views(self.paragraphs@) =~= views(before).push(text@));
        }
        self.current = String::new();
    }

    /// Takes one character in.
    fn feed(&mut self, ch: char)
        ensures
            final(self)@ == html_step(old(self)@, ch),
    {
        if ch == '<' {
            self.in_tag = true;
            self.tag_name = String::new();
        } else if ch == '>' && self.in_tag {
            self.in_tag = false;
            let base = tag_base_of(self.tag_name.as_str());
            if is_block_tag_name(base.as_str()) {
                self.flush();
            }
        } else if self.in_tag {
            self.tag_name.push(ch);
        } else {
            self.current.push(ch);
        }
    }
}

/// Strips the tags of a piece of HTML and splits its text into paragraphs
/// at the block tags.
pub fn strip_html_to_paragraphs(html: &str) -> (r: Vec<String>)
    ensures
        views(r@) == html_paragraphs(html@),
{
    let mut stripper = HtmlStripper::new();
    let chars = to_chars(html);
    let mut k: usize = 0;
    while k < chars.len()
        invariant
            k <= chars.len(),
            stripper@ == html_run(html_initial(), chars@.take(k as int)),
        decreases chars.len() - k,
    {
        proof {
            let next = chars@.take(k + 1);
            assert(next.drop_last() =~= chars@.take(k as int));
        }
        stripper.feed(chars[k]);
        k += 1;
    }
    assert(chars@.take(chars.len() as int) =~= chars@);
    stripper.flush();
    let paragraphs = stripper.paragraphs;
    let mut out: Vec<String> = Vec::new();
    let mut i: usize = 0;
    assert(views(out@) =~= Seq::empty());
    while i < paragraphs.len()
        invariant
            i <= paragraphs.len(),
            views(out@) == decoded_paragraphs(views(paragraphs@).take(i as int)),
        decreases paragraphs.len() - i,
    {
        let ghost before = out@;
        let decoded = decode_entities_of(paragraphs[i].as_str());
        proof {
            let next = views(paragraphs@).take(i + 1);
            assert(next.drop_last() =~= views(paragraphs@).take(i as int));
            assert(next.last() == paragraphs@[i as int]@);
        }
        if !decoded.as_str().is_empty() {
            out.push(decoded);
            assert(views(out@) =~= views(before).push(decoded@));
        }
        i += 1;
    }
    assert(views(paragraphs@).take(paragraphs.len() as int) =~= views(paragraphs@));
    out
}

#[verifier::external_type_specification]
#[verifier::external_body]
pub struct ExEpub(Epub);

/// The sections of an open EPUB in reading order: the text of each, read
/// as UTF-8 with replacement characters, or `None` where it cannot be read.
pub uninterp spec fn epub_sections(epub: Epub) -> Seq<Option<Seq<char>>>;

/// What `rbook` makes of the bytes of an EPUB: its sections, or `None` for
/// bytes that it refuses.
pub uninterp spec fn epub_opened(bytes: Seq<u8>) -> Option<Seq<Option<Seq<char>>>>;

/// Calls `Epub::read_from` on a copy of the bytes. Trusted: what comes
/// back is what `epub_opened` names.
#[verifier::external_body]
fn open_epub(bytes: &[u8]) -> (r: Option<Epub>)
    ensures
        match r {
            Some(epub) => epub_opened(bytes@) == Some(epub_sections(epub)),
            None => epub_opened(bytes@) is None,
        },
{
    Epub::read_from(Cursor::new(bytes.to_vec())).ok()
}

/// Calls `Reader::page_count`. Trusted: it is the number of sections.
#[verifier::external_body]
fn section_count(epub: &Epub) -> (r: usize)
    ensures
        r == epub_sections(*epub).len(),
{
    epub.reader().page_count()
}

/// Calls `Reader::fetch_page` and `Content::as_lossy_str`. Trusted: it
/// gives the section's text, or `None` where the section cannot be read.
#[verifier::external_body]
fn section_text(epub: &Epub, index: usize) -> (r: Option<String>)
    requires
        index < epub_sections(*epub).len(),
    ensures
        match r {
            Some(text) => epub_sections(*epub)[index as int] == Some(text@),
            None => epub_sections(*epub)[index as int] is None,
        },
{
    match epub.reader().fetch_page(index) {
        Some(Ok(content)) => Some(content.as_lossy_str().into_owned()),
        _ => None,
    }
}

/// The paragraphs of a run of sections; a section that cannot be read has
/// none.
pub open spec fn section_paragraphs(sections: Seq<Option<Seq<char>>>) -> Seq<Seq<char>>
    decreases sections.len(),
{
    if sections.len() == 0 {
        Seq::empty()
    } else {
        section_paragraphs(sections.drop_last()) + match sections.last() {
            Some(text) => html_paragraphs(text),
            None => Seq::empty(),
        }
    }
}

/// What the error for bytes that are no EPUB tells the reader.
pub open spec fn unopened_message() -> Seq<char> {
    "Не удалось открыть EPUB"@
}

/// What reading an EPUB gives: the paragraphs of its sections, or a decode
/// error for bytes that are no EPUB.
pub open spec fn epub_outcome(bytes: Seq<u8>) -> Result<Seq<Seq<char>>, RenderErrorView> {
    match epub_opened(bytes) {
        Some(sections) => Ok(section_paragraphs(sections)),
        None => Err(RenderErrorView::Decode(unopened_message())),
    }
}

/// Reads the paragraphs of an EPUB.
pub fn extract_paragraphs(bytes: &[u8]) -> (r: Result<Vec<String>, RenderError>)
    ensures
        match r {
            Ok(paragraphs) => epub_outcome(bytes@) == Ok::<Seq<Seq<char>>, RenderErrorView>(
                views(paragraphs@),
            ),
            Err(e) => epub_outcome(bytes@) == Err::<Seq<Seq<char>>, RenderErrorView>(e@),
        },
{
    let epub = match open_epub(bytes) {
        Some(epub) => epub,
        None => {
            return Err(RenderError::Decode("Не удалось открыть EPUB".to_owned()));
        },
    };
    let count = section_count(&epub);
    let mut paragraphs: Vec<String> = Vec::new();
    let mut i: usize = 0;
    assert(views(paragraphs@) =~= Seq::empty());
    while i < count
        invariant
            i <= count,
            count == epub_sections(epub).len(),
            views(paragraphs@) == section_paragraphs(epub_sections(epub).take(i as int)),
        decreases count - i,
    {
        let ghost before = paragraphs@;
        proof {
            let next = epub_sections(epub).take(i + 1);
            assert(next.drop_last() =~= epub_sections(epub).take(i as int));
        }
        match section_text(&epub, i) {
            Some(text) => {
                let mut more = strip_html_to_paragraphs(text.as_str());
                let ghost added = more@;
                paragraphs.append(&mut more);
                assert(views(paragraphs@) =~= views(before) + views(added));
            },
            None => {
                assert(views(before) + Seq::<Seq<char>>::empty() =~= views(before));
            },
        }
        i += 1;
    }
    assert(epub_sections(epub).take(count as int) =~= epub_sections(epub));
    Ok(paragraphs)
}

/// The renderer of EPUB documents: it paginates the paragraphs of a
/// document and remembers the pages.
pub struct EpubRenderer {
    text_renderer: TextPageRenderer,
    memo: PaginationMemo,
}

impl EpubRenderer {
    /// The font in which the renderer lays text out.
    pub closed spec fn font(&self) -> FontVec {
        self.text_renderer.font()
    }

    /// The paginations that the renderer remembers.
    pub closed spec fn memo(&self) -> Map<u64, CachedDocumentView> {
        self.memo@
    }

    /// A renderer that remembers nothing yet.
    pub fn new(text_renderer: TextPageRenderer) -> (r: EpubRenderer)
        ensures
            r.font() == text_renderer.font(),
            r.memo() == Map::<u64, CachedDocumentView>::empty(),
    {
        EpubRenderer { text_renderer, memo: PaginationMemo::new() }
    }

    /// The pages of a document at a scale, in thousandths: those remembered
    /// for a document with the same fingerprint at a scale near enough,
    /// else those of the document's paragraphs, which are then remembered.
    pub fn get_pages(&mut self, bytes: &[u8], scale: u32) -> (r: Result<
        Vec<Vec<String>>,
        RenderError,
    >)
        ensures
            final(self).font() == old(self).font(),
            final(self).memo() == memo_after(
                old(self).memo(),
                old(self).font(),
                fingerprint(bytes@),
                epub_outcome(bytes@),
                scale,
            ),
            pages_result(r) == pages_answer(
                old(self).memo(),
                old(self).font(),
                fingerprint(bytes@),
                epub_outcome(bytes@),
                scale,
            ),
    {
        let key = bytes_hash(bytes);
        match self.memo.lookup(key, scale) {
            Some(pages) => {
                return Ok(pages);
            },
            None => {},
        }
        let paragraphs = match extract_paragraphs(bytes) {
            Ok(paragraphs) => paragraphs,
            Err(e) => {
                return Err(e);
            },
        };
        let pages = self.text_renderer.paginate(paragraphs.as_slice(), scale);
        self.memo.store(key, clone_pages(&pages), scale);
        Ok(pages)
    }
}

impl DocumentRenderer for EpubRenderer {
    /// Whether `after` and `r` are what counting the pages of a document
    /// leaves of this renderer and answers: the pages are those at the
    /// natural size.
    open spec fn counted(&self, after: EpubRenderer, bytes: Seq<u8>, r: Result<u32, RenderError>) -> bool {
        &&& after.font() == self.font()
        &&& after.memo() == memo_after(
            self.memo(),
            self.font(),
            fingerprint(bytes),
            epub_outcome(bytes),
            SCALE_UNIT,
        )
        &&& count_result(r) == count_answer(
            pages_answer(
                self.memo(),
                self.font(),
                fingerprint(bytes),
                epub_outcome(bytes),
                SCALE_UNIT,
            ),
        )
    }

    /// Whether `after` and `r` are what rendering a page of a document
    /// leaves of this renderer and answers.
    open spec fn rendered(
        &self,
        after: EpubRenderer,
        bytes: Seq<u8>,
        page_index: u32,
        scale: u32,
        r: Result<Bitmap, RenderError>,
    ) -> bool {
        &&& after.font() == self.font()
        &&& after.memo() == memo_after(
            self.memo(),
            self.font(),
            fingerprint(bytes),
            epub_outcome(bytes),
            scale,
        )
        &&& is_render_answer(
            r,
            self.font(),
            pages_answer(
                self.memo(),
                self.font(),
                fingerprint(bytes),
                epub_outcome(bytes),
                scale,
            ),
            page_index,
            scale,
        )
    }

    /// The number of pages of a document at the natural size.
    fn get_page_count(&mut self, bytes: &[u8]) -> (r: Result<u32, RenderError>) {
        let pages = self.get_pages(bytes, SCALE_UNIT);
        count_pages(pages)
    }

    /// One page of a document, drawn at a scale in thousandths; an index
    /// that is not below the number of pages gives `OutOfRange`.
    fn render_page(&mut self, bytes: &[u8], page_index: u32, scale: u32) -> (r: Result<
        Bitmap,
        RenderError,
    >) {
        let pages = self.get_pages(bytes, scale);
        render_one(&self.text_renderer, pages, page_index, scale)
    }
}

} // verus!
