//! The layout engine for reflowable text: greedy word wrap, page breaks and
//! the drawing of a page.
//!
//! Lengths on a page are whole numbers of thousandths of a pixel, so that a
//! length at the natural size times a scale is exact. Widths of text are
//! measured in the font's own design units and compared across: text of `u`
//! units, set in a font of height `h` units at a size of `f` thousandths of a
//! pixel, is `u * f / h` thousandths of a pixel wide.

use crate::constants::{
    TEXT_FONT_SIZE, TEXT_LINE_HEIGHT, TEXT_PAGE_HEIGHT, TEXT_PAGE_MARGIN, TEXT_PAGE_WIDTH,
    TEXT_PARAGRAPH_SPACING,
};
use crate::bitmap::{
    bitmap_height, bitmap_pixels, bitmap_width, draw_text, drawable, plain_pixels, raster_fits,
    text_drawn, Bitmap, FontSize, MAX_DRAWN_CHARS, MAX_DRAWN_OFFSET,
};
use crate::text::{
    from_chars, lemma_words_step, skip_whitespace, skip_word, to_chars, views, words,
};
use ab_glyph::{Font, FontVec};
use vstd::prelude::*;

verus! {

#[verifier::external_type_specification]
#[verifier::external_body]
pub struct ExFontVec(FontVec);

/// The horizontal advance of the glyph that a font has for a character, in
/// the font's design units.
pub uninterp spec fn advance_units(font: FontVec, c: char) -> u16;

/// The height of a font, ascent less descent, in its design units.
pub uninterp spec fn height_units(font: FontVec) -> u32;

/// The font that `ab_glyph` reads out of the bytes of a font file; `None`
/// for bytes that are no font.
pub uninterp spec fn parsed_font(data: Seq<u8>) -> Option<FontVec>;

/// Calls `FontVec::try_from_vec`. Trusted: the result is what `parsed_font`
/// names.
#[verifier::external_body]
fn load_font(data: Vec<u8>) -> (r: Option<FontVec>)
    ensures
        r == parsed_font(data@),
{
    FontVec::try_from_vec(data).ok()
}

/// Calls `Font::glyph_id` and `Font::h_advance_unscaled`. Trusted: the
/// advance is a whole number below 65536 that depends on the font and the
/// character alone.
#[verifier::external_body]
fn advance_of(font: &FontVec, c: char) -> (r: u16)
    ensures
        r == advance_units(*font, c),
{
    font.h_advance_unscaled(font.glyph_id(c)) as u16
}

/// Calls `Font::height_unscaled`. Trusted: the height depends on the font
/// alone; one below zero is taken as zero.
#[verifier::external_body]
fn height_of(font: &FontVec) -> (r: u32)
    ensures
        r == height_units(*font),
{
    font.height_unscaled() as u32
}

/// The width of a text in design units: the sum of its glyphs' advances.
pub open spec fn text_units(font: FontVec, s: Seq<char>) -> int
    decreases s.len(),
{
    if s.len() == 0 {
        0
    } else {
        text_units(font, s.drop_last()) + advance_units(font, s.last())
    }
}

/// Whether text of `units` design units, set at `font_size`, is no wider
/// than `max_width`; both lengths in thousandths of a pixel.
pub open spec fn line_fits(units: int, font_size: int, max_width: int, height: int) -> bool {
    units * font_size <= max_width * height
}

/// The state of the word wrap between two words: the finished lines, the
/// line being filled and its width in design units.
pub struct WrapState {
    pub lines: Seq<Seq<char>>,
    pub line: Seq<char>,
    pub width: int,
}

/// The state before the first word.
pub open spec fn wrap_initial() -> WrapState {
    WrapState { lines: Seq::empty(), line: Seq::empty(), width: 0 }
}

/// The state after one more word: it joins the line, after a space, when the
/// line stays within the width, and starts a new line otherwise. A word is
/// never split, and the first word of a line is never refused.
pub open spec fn wrap_step(
    font: FontVec,
    font_size: int,
    max_width: int,
    s: WrapState,
    word: Seq<char>,
) -> WrapState {
    let w = text_units(font, word);
    if s.line.len() == 0 {
        WrapState { line: word, width: w, ..s }
    } else {
        let wide = s.width + advance_units(font, ' ') + w;
        if line_fits(wide, font_size, max_width, height_units(font) as int) {
            WrapState { line: s.line.push(' ') + word, width: wide, ..s }
        } else {
            WrapState { lines: s.lines.push(s.line), line: word, width: w }
        }
    }
}

/// The state after a run of words.
pub open spec fn wrap_run(
    font: FontVec,
    font_size: int,
    max_width: int,
    s: WrapState,
    words: Seq<Seq<char>>,
) -> WrapState
    decreases words.len(),
{
    if words.len() == 0 {
        s
    } else {
        wrap_run(
            font,
            font_size,
            max_width,
            wrap_step(font, font_size, max_width, s, words[0]),
            words.skip(1),
        )
    }
}

/// The lines that the wrap ends with: the finished ones and the one being
/// filled, or one empty line when there is no word at all.
pub open spec fn wrap_finish(s: WrapState) -> Seq<Seq<char>> {
    let lines = if s.line.len() > 0 {
        s.lines.push(s.line)
    } else {
        s.lines
    };
    if lines.len() == 0 {
        seq![Seq::empty()]
    } else {
        lines
    }
}

/// The lines of a paragraph wrapped to a width.
pub open spec fn wrapped_lines(font: FontVec, text: Seq<char>, max_width: int, font_size: int) -> Seq<
    Seq<char>,
> {
    wrap_finish(wrap_run(font, font_size, max_width, wrap_initial(), words(text)))
}

/// The state of the page breaker between two lines: the finished pages, the
/// page being filled and how far down it is filled, in thousandths of a
/// pixel.
pub struct PageState {
    pub pages: Seq<Seq<Seq<char>>>,
    pub page: Seq<Seq<char>>,
    pub y: int,
}

/// The state before the first line.
pub open spec fn page_initial() -> PageState {
    PageState { pages: Seq::empty(), page: Seq::empty(), y: 0 }
}

/// The height of a page less its margins, at the natural size, in pixels.
pub open spec fn usable_height() -> int {
    TEXT_PAGE_HEIGHT - 2 * TEXT_PAGE_MARGIN
}

/// The width of a page less its margins, at the natural size, in pixels.
pub open spec fn usable_width() -> int {
    TEXT_PAGE_WIDTH - 2 * TEXT_PAGE_MARGIN
}

/// The state after one more line. The page is broken before the line when
/// the line would end below the usable height, unless the page is still
/// empty. The last line of a paragraph is followed by the paragraph spacing,
/// which by itself never breaks the page.
pub open spec fn place_line(s: PageState, line: Seq<char>, last: bool, scale: int) -> PageState {
    let line_height = TEXT_LINE_HEIGHT * scale;
    let s = if s.y + line_height > usable_height() * scale && s.page.len() > 0 {
        PageState { pages: s.pages.push(s.page), page: Seq::empty(), y: 0 }
    } else {
        s
    };
    let extra = if last {
        TEXT_PARAGRAPH_SPACING * scale
    } else {
        0
    };
    PageState { page: s.page.push(line), y: s.y + line_height + extra, ..s }
}

/// The state after the lines of one paragraph.
pub open spec fn place_lines(s: PageState, lines: Seq<Seq<char>>, scale: int) -> PageState
    decreases lines.len(),
{
    if lines.len() == 0 {
        s
    } else {
        place_lines(place_line(s, lines[0], lines.len() == 1, scale), lines.skip(1), scale)
    }
}

/// The lines of a paragraph on a page at a scale.
pub open spec fn paragraph_lines(font: FontVec, text: Seq<char>, scale: int) -> Seq<Seq<char>> {
    wrapped_lines(font, text, usable_width() * scale, TEXT_FONT_SIZE * scale)
}

/// The state after a run of paragraphs.
pub open spec fn place_paragraphs(
    font: FontVec,
    s: PageState,
    paragraphs: Seq<Seq<char>>,
    scale: int,
) -> PageState
    decreases paragraphs.len(),
{
    if paragraphs.len() == 0 {
        s
    } else {
        place_paragraphs(
            font,
            place_lines(s, paragraph_lines(font, paragraphs[0], scale), scale),
            paragraphs.skip(1),
            scale,
        )
    }
}

/// The line of the one page that stands for a document without text.
pub open spec fn empty_document_line() -> Seq<char> {
    "(empty document)"@
}

/// The pages that the page breaker ends with: the finished ones and the one
/// being filled, or one page with the placeholder line when there is none.
pub open spec fn pages_finish(s: PageState) -> Seq<Seq<Seq<char>>> {
    let pages = if s.page.len() > 0 {
        s.pages.push(s.page)
    } else {
        s.pages
    };
    if pages.len() == 0 {
        seq![seq![empty_document_line()]]
    } else {
        pages
    }
}

/// The pages of a document: each a list of lines. `scale` is in
/// thousandths.
pub open spec fn paginated(font: FontVec, paragraphs: Seq<Seq<char>>, scale: int) -> Seq<
    Seq<Seq<char>>,
> {
    pages_finish(place_paragraphs(font, page_initial(), paragraphs, scale))
}

/// The views of a list of pages.
pub open spec fn page_views(pages: Seq<Vec<String>>) -> Seq<Seq<Seq<char>>> {
    pages.map_values(|p: Vec<String>| views(p@))
}

/// A length of the natural size at a scale, in whole pixels.
pub open spec fn scaled_px(base: int, scale: int) -> int {
    base * scale / 1000
}

/// The colour of the text: opaque black.
pub open spec fn ink() -> Seq<u8> {
    seq![0u8, 0u8, 0u8, 255u8]
}

/// The colour of the page: opaque white.
pub open spec fn paper() -> Seq<u8> {
    seq![255u8, 255u8, 255u8, 255u8]
}

/// Where the top of line `j` of a page is, in pixels from the top.
pub open spec fn line_top(j: int, scale: int) -> int {
    scaled_px(TEXT_PAGE_MARGIN as int, scale) + scaled_px(j * TEXT_LINE_HEIGHT, scale)
}

/// Whether a page at this scale can be held in memory.
pub open spec fn page_fits(scale: int) -> bool {
    raster_fits(
        scaled_px(TEXT_PAGE_WIDTH as int, scale),
        scaled_px(TEXT_PAGE_HEIGHT as int, scale),
    )
}

/// Whether line `j` of a page is drawn at a scale: whether it is
/// `drawable` where it stands, left-aligned at the margin.
pub open spec fn is_drawn(font: FontVec, line: Seq<char>, j: int, scale: int) -> bool {
    drawable(
        height_units(font) as int,
        TEXT_FONT_SIZE * scale,
        scaled_px(TEXT_PAGE_MARGIN as int, scale),
        line_top(j, scale),
        line,
    )
}

/// The bytes of a page after line `j` is drawn on it, left-aligned at the
/// margin. A line that cannot be drawn is left out; `will_draw` tells
/// beforehand.
pub open spec fn line_drawn(
    font: FontVec,
    width: u32,
    height: u32,
    pixels: Seq<u8>,
    line: Seq<char>,
    j: int,
    scale: int,
) -> Seq<u8> {
    let x = scaled_px(TEXT_PAGE_MARGIN as int, scale);
    let y = line_top(j, scale);
    if is_drawn(font, line, j, scale) {
        text_drawn(width, height, pixels, ink(), x, y, TEXT_FONT_SIZE * scale, font, line)
    } else {
        pixels
    }
}

/// The bytes of a page after the first `n` of its lines are drawn on it.
pub open spec fn lines_drawn(
    font: FontVec,
    width: u32,
    height: u32,
    pixels: Seq<u8>,
    lines: Seq<Seq<char>>,
    n: int,
    scale: int,
) -> Seq<u8>
    decreases n,
{
    if n <= 0 {
        pixels
    } else {
        line_drawn(
            font,
            width,
            height,
            lines_drawn(font, width, height, pixels, lines, n - 1, scale),
            lines[n - 1],
            n - 1,
            scale,
        )
    }
}

/// The bytes of a rendered page: its lines drawn in order on white.
pub open spec fn page_pixels(font: FontVec, lines: Seq<Seq<char>>, scale: int) -> Seq<u8> {
    let width = scaled_px(TEXT_PAGE_WIDTH as int, scale);
    let height = scaled_px(TEXT_PAGE_HEIGHT as int, scale);
    lines_drawn(
        font,
        width as u32,
        height as u32,
        plain_pixels(width, height, paper()),
        lines,
        lines.len() as int,
        scale,
    )
}

/// Computes a length of the natural size at a scale, in whole pixels.
fn scale_px(base: u128, scale: u32) -> (r: u128)
    requires
        base <= 0xffff_ffff_ffff_ffff_ffff,
    ensures
        r == scaled_px(base as int, scale as int),
        r <= 0xffff_ffff_ffff_ffff_ffff * 0xffff_ffff,
{
    assert(0 <= base * scale <= 0xffff_ffff_ffff_ffff_ffff * 0xffff_ffff) by (nonlinear_arith)
        requires
            0 <= base <= 0xffff_ffff_ffff_ffff_ffff,
            0 <= scale <= 0xffff_ffff,
    ;
    (base * scale as u128) / 1000
}

/// Decides whether text of `units` design units fits a width.
fn fits(units: u128, font_size: u64, max_width: u64, height: u32) -> (r: bool)
    ensures
        r == line_fits(units as int, font_size as int, max_width as int, height as int),
{
    assert(max_width * height <= 0xffff_ffff_ffff_ffff * 0xffff_ffff) by (nonlinear_arith)
        requires
            0 <= max_width <= 0xffff_ffff_ffff_ffff,
            0 <= height <= 0xffff_ffff,
    ;
    let bound: u128 = (max_width as u128) * (height as u128);
    match units.checked_mul(font_size as u128) {
        Some(product) => product <= bound,
        None => false,
    }
}

/// Whether a line fits does not depend on the scale, as long as there is
/// one: the font and the page grow together.
pub proof fn lemma_line_fits_any_scale(units: int, height: int, scale: int)
    requires
        scale > 0,
    ensures
        line_fits(units, TEXT_FONT_SIZE * scale, usable_width() * scale, height) == line_fits(
            units,
            TEXT_FONT_SIZE as int,
            usable_width(),
            height,
        ),
{
    let a = units * TEXT_FONT_SIZE;
    let b = usable_width() * height;
    assert(units * (TEXT_FONT_SIZE * scale) == a * scale) by (nonlinear_arith)
        requires
            a == units * TEXT_FONT_SIZE,
    ;
    assert((usable_width() * scale) * height == b * scale) by (nonlinear_arith)
        requires
            b == usable_width() * height,
    ;
    assert((a * scale <= b * scale) == (a <= b)) by (nonlinear_arith)
        requires
            scale > 0,
    ;
}

/// The word wrap of a page does not depend on the scale, as long as there
/// is one.
pub proof fn lemma_wrap_run_any_scale(
    font: FontVec,
    s: WrapState,
    words: Seq<Seq<char>>,
    scale: int,
)
    requires
        scale > 0,
    ensures
        wrap_run(font, TEXT_FONT_SIZE * scale, usable_width() * scale, s, words) == wrap_run(
            font,
            TEXT_FONT_SIZE as int,
            usable_width(),
            s,
            words,
        ),
    decreases words.len(),
{
    if words.len() > 0 {
        let wide = s.width + advance_units(font, ' ') + text_units(font, words[0]);
        lemma_line_fits_any_scale(wide, height_units(font) as int, scale);
        lemma_wrap_run_any_scale(
            font,
            wrap_step(font, TEXT_FONT_SIZE as int, usable_width(), s, words[0]),
            words.skip(1),
            scale,
        );
    }
}

/// Two states of the page breaker that differ only in being at two scales.
pub open spec fn same_at_scale(scaled: PageState, natural: PageState, scale: int) -> bool {
    scaled.pages == natural.pages && scaled.page == natural.page && scaled.y == natural.y * scale
}

/// Placing a line keeps two states the same at their scales.
pub proof fn lemma_place_line_any_scale(
    scaled: PageState,
    natural: PageState,
    line: Seq<char>,
    last: bool,
    scale: int,
)
    requires
        scale > 0,
        same_at_scale(scaled, natural, scale),
    ensures
        same_at_scale(
            place_line(scaled, line, last, scale),
            place_line(natural, line, last, 1),
            scale,
        ),
{
    let a = natural.y + TEXT_LINE_HEIGHT;
    let b = usable_height();
    assert(natural.y * scale + TEXT_LINE_HEIGHT * scale == a * scale) by (nonlinear_arith)
        requires
            a == natural.y + TEXT_LINE_HEIGHT,
    ;
    assert((a * scale > b * scale) == (a > b)) by (nonlinear_arith)
        requires
            scale > 0,
    ;
    assert((a + TEXT_PARAGRAPH_SPACING) * scale == a * scale + TEXT_PARAGRAPH_SPACING * scale)
        by (nonlinear_arith);
    assert((0 + TEXT_LINE_HEIGHT) * scale == TEXT_LINE_HEIGHT * scale) by (nonlinear_arith);
    assert((0 + TEXT_LINE_HEIGHT + TEXT_PARAGRAPH_SPACING) * scale == TEXT_LINE_HEIGHT * scale
        + TEXT_PARAGRAPH_SPACING * scale) by (nonlinear_arith);
}

/// Placing the lines of a paragraph keeps two states the same at their
/// scales.
pub proof fn lemma_place_lines_any_scale(
    scaled: PageState,
    natural: PageState,
    lines: Seq<Seq<char>>,
    scale: int,
)
    requires
        scale > 0,
        same_at_scale(scaled, natural, scale),
    ensures
        same_at_scale(place_lines(scaled, lines, scale), place_lines(natural, lines, 1), scale),
    decreases lines.len(),
{
    if lines.len() > 0 {
        let last = lines.len() == 1;
        lemma_place_line_any_scale(scaled, natural, lines[0], last, scale);
        lemma_place_lines_any_scale(
            place_line(scaled, lines[0], last, scale),
            place_line(natural, lines[0], last, 1),
            lines.skip(1),
            scale,
        );
    }
}

/// Placing paragraphs keeps two states the same at their scales.
pub proof fn lemma_place_paragraphs_any_scale(
    font: FontVec,
    scaled: PageState,
    natural: PageState,
    paragraphs: Seq<Seq<char>>,
    scale: int,
)
    requires
        scale > 0,
        same_at_scale(scaled, natural, scale),
    ensures
        same_at_scale(
            place_paragraphs(font, scaled, paragraphs, scale),
            place_paragraphs(font, natural, paragraphs, 1),
            scale,
        ),
    decreases paragraphs.len(),
{
    if paragraphs.len() > 0 {
        lemma_wrap_run_any_scale(font, wrap_initial(), words(paragraphs[0]), scale);
        assert(TEXT_FONT_SIZE * 1 == TEXT_FONT_SIZE as int);
        assert(usable_width() * 1 == usable_width());
        let lines = paragraph_lines(font, paragraphs[0], 1);
        assert(paragraph_lines(font, paragraphs[0], scale) == lines);
        lemma_place_lines_any_scale(scaled, natural, lines, scale);
        lemma_place_paragraphs_any_scale(
            font,
            place_lines(scaled, lines, scale),
            place_lines(natural, lines, 1),
            paragraphs.skip(1),
            scale,
        );
    }
}

/// The pages of a document are the same at every scale above zero.
pub proof fn lemma_paginated_any_scale(font: FontVec, paragraphs: Seq<Seq<char>>, scale: int)
    requires
        scale > 0,
    ensures
        paginated(font, paragraphs, scale) == paginated(font, paragraphs, 1),
{
    lemma_place_paragraphs_any_scale(font, page_initial(), page_initial(), paragraphs, scale);
}

/// At scale zero no line ever breaks a page.
pub proof fn lemma_place_lines_at_zero(s: PageState, lines: Seq<Seq<char>>)
    requires
        s.pages.len() == 0,
        s.y == 0,
    ensures
        place_lines(s, lines, 0).pages.len() == 0,
        place_lines(s, lines, 0).y == 0,
    decreases lines.len(),
{
    if lines.len() > 0 {
        lemma_place_lines_at_zero(place_line(s, lines[0], lines.len() == 1, 0), lines.skip(1));
    }
}

/// At scale zero no paragraph ever breaks a page.
pub proof fn lemma_place_paragraphs_at_zero(
    font: FontVec,
    s: PageState,
    paragraphs: Seq<Seq<char>>,
)
    requires
        s.pages.len() == 0,
        s.y == 0,
    ensures
        place_paragraphs(font, s, paragraphs, 0).pages.len() == 0,
    decreases paragraphs.len(),
{
    if paragraphs.len() > 0 {
        let lines = paragraph_lines(font, paragraphs[0], 0);
        lemma_place_lines_at_zero(s, lines);
        lemma_place_paragraphs_at_zero(font, place_lines(s, lines, 0), paragraphs.skip(1));
    }
}

/// Growing the scale never takes a page away: a document has one page at
/// scale zero, and the same pages at every scale above.
pub proof fn lemma_page_count_monotonic(
    font: FontVec,
    paragraphs: Seq<Seq<char>>,
    smaller: int,
    larger: int,
)
    requires
        0 <= smaller <= larger,
    ensures
        paginated(font, paragraphs, smaller).len() <= paginated(font, paragraphs, larger).len(),
{
    if smaller == 0 {
        lemma_place_paragraphs_at_zero(font, page_initial(), paragraphs);
    } else {
        lemma_paginated_any_scale(font, paragraphs, smaller);
        lemma_paginated_any_scale(font, paragraphs, larger);
    }
}

/// Lays text out in pages and draws them, in one font.
pub struct TextPageRenderer {
    font: FontVec,
}

impl TextPageRenderer {
    /// The font of the renderer.
    pub closed spec fn font(&self) -> FontVec {
        self.font
    }

    /// Makes a renderer from the bytes of a font file: one in the font that
    /// the bytes hold, and none when they hold no font.
    pub fn new(font_data: Vec<u8>) -> (r: Option<TextPageRenderer>)
        ensures
            match r {
                Some(renderer) => parsed_font(font_data@) == Some(renderer.font()),
                None => parsed_font(font_data@) is None,
            },
    {
        match load_font(font_data) {
            Some(font) => Some(TextPageRenderer::with_font(font)),
            None => None,
        }
    }

    /// Makes a renderer in a font.
    pub fn with_font(font: FontVec) -> (r: TextPageRenderer)
        ensures
            r.font() == font,
    {
        TextPageRenderer { font }
    }

    /// The width of `chars[from..to]` in design units.
    fn measure_chars(&self, chars: &Vec<char>, from: usize, to: usize) -> (r: u128)
        requires
            from <= to <= chars.len(),
        ensures
            r == text_units(self.font(), chars@.subrange(from as int, to as int)),
            r <= 65535 * (to - from),
    {
        let mut total: u128 = 0;
        let mut i: usize = from;
        assert(chars@.subrange(from as int, from as int) =~= Seq::empty());
        while i < to
            invariant
                from <= i <= to <= chars.len(),
                total == text_units(self.font(), chars@.subrange(from as int, i as int)),
                total <= 65535 * (i - from),
            decreases to - i,
        {
            let advance = advance_of(&self.font, chars[i]);
            proof {
                let next = chars@.subrange(from as int, i + 1);
                assert(next.drop_last() =~= chars@.subrange(from as int, i as int));
            }
            total = total + advance as u128;
            i += 1;
        }
        total
    }

    /// Wraps a paragraph to `max_width`, in a font of size `font_size`, both
    /// in thousandths of a pixel: words are packed greedily, a word is never
    /// split, and a paragraph without words is one empty line.
    pub fn wrap_text(&self, text: &str, max_width: u64, font_size: u64) -> (r: Vec<String>)
        ensures
            views(r@) == wrapped_lines(self.font(), text@, max_width as int, font_size as int),
    {
        let chars = to_chars(text);
        let space = advance_of(&self.font, ' ');
        let height = height_of(&self.font);
        let mut lines: Vec<String> = Vec::new();
        let mut line = String::new();
        let mut width: u128 = 0;
        let mut i: usize = 0;
        assert(chars@.skip(0) =~= chars@);
        assert(views(lines@) =~= Seq::empty());
        loop
            invariant_except_break
                i <= chars.len(),
                width <= 131070 * i,
                wrap_run(
                    self.font(),
                    font_size as int,
                    max_width as int,
                    WrapState { lines: views(lines@), line: line@, width: width as int },
                    words(chars@.skip(i as int)),
                ) == wrap_run(
                    self.font(),
                    font_size as int,
                    max_width as int,
                    wrap_initial(),
                    words(text@),
                ),
            invariant
                chars@ == text@,
                space == advance_units(self.font(), ' '),
                height == height_units(self.font()),
            ensures
                (WrapState { lines: views(lines@), line: line@, width: width as int }) == wrap_run(
                    self.font(),
                    font_size as int,
                    max_width as int,
                    wrap_initial(),
                    words(text@),
                ),
            decreases chars.len() - i,
        {
            let ghost tail = chars@.skip(i as int);
            let ghost before = lines@;
            let ghost state = WrapState {
                lines: views(lines@),
                line: line@,
                width: width as int,
            };
            let start = skip_whitespace(&chars, i);
            assert(tail.skip(start - i) =~= chars@.skip(start as int));
            let end = skip_word(&chars, start);
            if end == start {
                assert(words(tail) =~= Seq::empty());
                break ;
            }
            let w = self.measure_chars(&chars, start, end);
            let word = from_chars(&chars, start, end);
            proof {
                lemma_words_step(tail, start - i, end - i);
                assert(tail.subrange(start - i, end - i) =~= word@);
                assert(tail.skip(end - i) =~= chars@.skip(end as int));
                assert(words(tail)[0] == word@);
                assert(words(tail).skip(1) =~= words(chars@.skip(end as int)));
            }
            if line.as_str().is_empty() {
                line = word;
                width = w;
            } else {
                let wide: u128 = width + space as u128 + w;
                if fits(wide, font_size, max_width, height) {
                    proof {
                        reveal_strlit(" ");
                    }
                    line.append(" ");
                    line.append(word.as_str());
                    assert(line@ =~= state.line.push(' ') + word@);
                    width = wide;
                } else {
                    lines.push(line);
                    assert(views(lines@) =~= views(before).push(state.line));
                    line = word;
                    width = w;
                }
            }
            i = end;
        }
        let ghost done = WrapState { lines: views(lines@), line: line@, width: width as int };
        let ghost before = lines@;
        if !line.as_str().is_empty() {
            lines.push(line);
            assert(views(lines@) =~= views(before).push(done.line));
        }
        if lines.len() == 0 {
            lines.push(String::new());
            assert(views(lines@) =~= seq![Seq::<char>::empty()]);
        }
        lines
    }

    /// Lays paragraphs out in pages of wrapped lines at a scale, in
    /// thousandths. The same paragraphs at the same scale always give the
    /// same pages; a document without a line gives one page with a
    /// placeholder line.
    pub fn paginate(&self, paragraphs: &[String], scale: u32) -> (r: Vec<Vec<String>>)
        ensures
            page_views(r@) == paginated(self.font(), views(paragraphs@), scale as int),
            r.len() >= 1,
    {
        assert(TEXT_FONT_SIZE * scale <= 20 * 0xffff_ffff) by (nonlinear_arith)
            requires
                TEXT_FONT_SIZE == 20,
                scale <= 0xffff_ffff,
        ;
        let font_size: u64 = TEXT_FONT_SIZE as u64 * scale as u64;
        let line_height: u64 = TEXT_LINE_HEIGHT as u64 * scale as u64;
        let spacing: u64 = TEXT_PARAGRAPH_SPACING as u64 * scale as u64;
        let inner_width: u64 = (TEXT_PAGE_WIDTH - 2 * TEXT_PAGE_MARGIN) as u64;
        let inner_height: u64 = (TEXT_PAGE_HEIGHT - 2 * TEXT_PAGE_MARGIN) as u64;
        let max_width: u64 = inner_width * scale as u64;
        let max_height: u64 = inner_height * scale as u64;
        let mut pages: Vec<Vec<String>> = Vec::new();
        let mut page: Vec<String> = Vec::new();
        let mut y: u64 = 0;
        let mut p: usize = 0;
        assert(views(paragraphs@).skip(0) =~= views(paragraphs@));
        assert(page_views(pages@) =~= Seq::empty());
        assert(views(page@) =~= Seq::empty());
        while p < paragraphs.len()
            invariant
                p <= paragraphs.len(),
                font_size == 20 * scale,
                line_height == 28 * scale,
                spacing == 14 * scale,
                max_width == 720 * scale,
                max_height == 1020 * scale,
                y <= max_height + spacing,
                page.len() == 0 ==> y == 0,
                place_paragraphs(
                    self.font(),
                    PageState { pages: page_views(pages@), page: views(page@), y: y as int },
                    views(paragraphs@).skip(p as int),
                    scale as int,
                ) == place_paragraphs(
                    self.font(),
                    page_initial(),
                    views(paragraphs@),
                    scale as int,
                ),
            decreases paragraphs.len() - p,
        {
            let ghost rest = views(paragraphs@).skip(p as int);
            let ghost at_start = PageState {
                pages: page_views(pages@),
                page: views(page@),
                y: y as int,
            };
            let lines = self.wrap_text(paragraphs[p].as_str(), max_width, font_size);
            proof {
                assert(rest[0] == paragraphs@[p as int]@);
                assert(rest.skip(1) =~= views(paragraphs@).skip(p + 1));
                assert(views(lines@) == paragraph_lines(self.font(), rest[0], scale as int));
                assert(views(lines@).skip(0) =~= views(lines@));
            }
            let mut j: usize = 0;
            while j < lines.len()
                invariant
                    j <= lines.len(),
                    line_height == 28 * scale,
                    spacing == 14 * scale,
                    max_height == 1020 * scale,
                    y <= max_height + spacing,
                    page.len() == 0 ==> y == 0,
                    place_lines(
                        PageState { pages: page_views(pages@), page: views(page@), y: y as int },
                        views(lines@).skip(j as int),
                        scale as int,
                    ) == place_lines(at_start, views(lines@), scale as int),
                decreases lines.len() - j,
            {
                let ghost left = views(lines@).skip(j as int);
                let ghost pages_before = pages@;
                let ghost page_before = page@;
                proof {
                    assert(left[0] == lines@[j as int]@);
                    assert(left.skip(1) =~= views(lines@).skip(j + 1));
                    assert(left.len() == lines.len() - j);
                }
                let extra: u64 = if j == lines.len() - 1 {
                    spacing
                } else {
                    0
                };
                if y + line_height > max_height && page.len() > 0 {
                    pages.push(page);
                    assert(page_views(pages@) =~= page_views(pages_before).push(
                        views(page_before),
                    ));
                    page = Vec::new();
                    assert(views(page@) =~= Seq::empty());
                    y = 0;
                }
                let ghost page_mid = page@;
                let line = lines[j].clone();
                page.push(line);
                assert(views(page@) =~= views(page_mid).push(lines@[j as int]@));
                y = y + line_height + extra;
                j += 1;
            }
            p += 1;
        }
        let ghost done = PageState { pages: page_views(pages@), page: views(page@), y: y as int };
        let ghost pages_before = pages@;
        if page.len() > 0 {
            pages.push(page);
            assert(page_views(pages@) =~= page_views(pages_before).push(done.page));
        }
        if pages.len() == 0 {
            let mut only: Vec<String> = Vec::new();
            only.push("(empty document)".to_owned());
            assert(views(only@) =~= seq![empty_document_line()]);
            pages.push(only);
            assert(page_views(pages@) =~= seq![seq![empty_document_line()]]);
        }
        pages
    }

    /// Decides whether a page at a scale, in thousandths, can be held in
    /// memory.
    pub fn can_render(scale: u32) -> (r: bool)
        ensures
            r == page_fits(scale as int),
    {
        let width = scale_px(TEXT_PAGE_WIDTH as u128, scale);
        let height = scale_px(TEXT_PAGE_HEIGHT as u128, scale);
        assert(width == (800 * scale) / 1000);
        assert(height == (1100 * scale) / 1000);
        assert(0 <= width * height <= 0x3_ffff_ffff * 0x4_ffff_ffff) by (nonlinear_arith)
            requires
                0 <= width <= 0x3_ffff_ffff,
                0 <= height <= 0x4_ffff_ffff,
        ;
        assert(4 * width * height == 4 * (width * height)) by (nonlinear_arith);
        4 * (width * height) <= isize::MAX as u128
    }

    /// Says whether `render_page` draws a line that stands at the place
    /// `index` of a page, counted from zero, at a scale in thousandths. A
    /// line is left out when it is longer than 4095 characters, when it
    /// stands more than 16777216 pixels from the corner of the page, or
    /// when the font is to be drawn larger in pixels than it is high in its
    /// own units. The font is drawn at its exact size, fractions of a pixel
    /// included.
    pub fn will_draw(&self, line: &str, index: usize, scale: u32) -> (r: bool)
        ensures
            r == is_drawn(self.font(), line@, index as int, scale as int),
    {
        let margin = scale_px(TEXT_PAGE_MARGIN as u128, scale);
        assert(TEXT_FONT_SIZE * scale <= 20 * 0xffff_ffff) by (nonlinear_arith)
            requires
                TEXT_FONT_SIZE == 20,
                scale <= 0xffff_ffff,
        ;
        let font_size: u64 = TEXT_FONT_SIZE as u64 * scale as u64;
        let font_height = height_of(&self.font);
        let rows: u128 = index as u128 * TEXT_LINE_HEIGHT as u128;
        let down = scale_px(rows, scale);
        assert(margin == (40 * scale) / 1000);
        assert(font_size == 20 * scale);
        let top: u128 = margin + down;
        font_height >= 1 && font_size <= 1000 * font_height as u64 && margin
            <= MAX_DRAWN_OFFSET as u128 && top <= MAX_DRAWN_OFFSET as u128 && line.unicode_len()
            <= MAX_DRAWN_CHARS
    }

    /// Draws a page, given its lines, at a scale in thousandths: black text
    /// on white, each line left-aligned at the margin, one line height
    /// below the one before. A line of which `will_draw` says no is left
    /// out.
    pub fn render_page(&self, lines: &[String], scale: u32) -> (r: Bitmap)
        requires
            page_fits(scale as int),
        ensures
            bitmap_width(r) == scaled_px(TEXT_PAGE_WIDTH as int, scale as int),
            bitmap_height(r) == scaled_px(TEXT_PAGE_HEIGHT as int, scale as int),
            bitmap_pixels(r) == page_pixels(self.font(), views(lines@), scale as int),
    {
        let width = scale_px(TEXT_PAGE_WIDTH as u128, scale);
        let height = scale_px(TEXT_PAGE_HEIGHT as u128, scale);
        let margin = scale_px(TEXT_PAGE_MARGIN as u128, scale);
        assert(TEXT_FONT_SIZE * scale <= 20 * 0xffff_ffff) by (nonlinear_arith)
            requires
                TEXT_FONT_SIZE == 20,
                scale <= 0xffff_ffff,
        ;
        let font_size: u64 = TEXT_FONT_SIZE as u64 * scale as u64;
        let size = FontSize::new(font_size);
        let white: [u8; 4] = [255, 255, 255, 255];
        let black: [u8; 4] = [0, 0, 0, 255];
        assert(white@ =~= paper());
        assert(black@ =~= ink());
        assert(width == (800 * scale) / 1000);
        assert(height == (1100 * scale) / 1000);
        assert(margin == (40 * scale) / 1000);
        assert(font_size == 20 * scale);
        assert(width <= 0xffff_ffff);
        assert(height <= 0xffff_ffff) by {
            if height > 0xffff_ffff {
                assert(scale >= 3904515723);
                assert(width >= 3123612578);
                assert(4 * width * height > 0x7fff_ffff_ffff_ffff) by (nonlinear_arith)
                    requires
                        width >= 3123612578,
                        height > 0xffff_ffff,
                ;
            }
        }
        let mut page = Bitmap::filled(width as u32, height as u32, white);
        let mut j: usize = 0;
        while j < lines.len()
            invariant
                j <= lines.len(),
                width == scaled_px(TEXT_PAGE_WIDTH as int, scale as int),
                height == scaled_px(TEXT_PAGE_HEIGHT as int, scale as int),
                margin == scaled_px(TEXT_PAGE_MARGIN as int, scale as int),
                size.well_formed(),
                size.thousandths() == TEXT_FONT_SIZE * scale,
                width <= u32::MAX,
                height <= u32::MAX,
                black@ == ink(),
                bitmap_width(page) == width,
                bitmap_height(page) == height,
                bitmap_pixels(page) == lines_drawn(
                    self.font(),
                    width as u32,
                    height as u32,
                    plain_pixels(width as int, height as int, paper()),
                    views(lines@),
                    j as int,
                    scale as int,
                ),
            decreases lines.len() - j,
        {
            let line = lines[j].as_str();
            let rows: u128 = j as u128 * TEXT_LINE_HEIGHT as u128;
            let down = scale_px(rows, scale);
            assert(margin == (40 * scale) / 1000);
            let top: u128 = margin + down;
            assert(views(lines@)[j as int] == line@);
            if self.will_draw(line, j, scale) {
                draw_text(
                    &mut page,
                    black,
                    margin as i32,
                    top as i32,
                    &size,
                    &self.font,
                    line,
                );
            }
            j += 1;
        }
        page
    }

    /// The width of a text in the font's design units.
    pub fn measure_text(&self, text: &str) -> (r: u128)
        ensures
            r == text_units(self.font(), text@),
    {
        let chars = to_chars(text);
        let n = chars.len();
        assert(chars@.subrange(0, n as int) =~= chars@);
        self.measure_chars(&chars, 0, n)
    }
}

} // verus!
