use docreader::constants::{TEXT_PAGE_HEIGHT, TEXT_PAGE_WIDTH};
use docreader::text_render::TextPageRenderer;

fn font_data() -> Vec<u8> {
    let fonts = egui::FontDefinitions::default();
    fonts.font_data.get("Ubuntu-Light").unwrap().font.to_vec()
}

fn renderer() -> TextPageRenderer {
    TextPageRenderer::new(font_data()).unwrap()
}

// Scales are in thousandths; widths of text are in the font's design units;
// the width to wrap to and the font size are in thousandths of a pixel.

#[test]
fn test_paginate_empty() {
    let r = renderer();
    let pages = r.paginate(&vec![], 1000);
    assert_eq!(pages.len(), 1);
    assert_eq!(pages[0][0], "(empty document)");
}

#[test]
fn test_paginate_single_paragraph() {
    let r = renderer();
    let pages = r.paginate(&vec!["Hello world".to_string()], 1000);
    assert!(!pages.is_empty());
    assert!(pages[0].iter().any(|l| l.contains("Hello")));
}

#[test]
fn test_paginate_creates_multiple_pages() {
    let r = renderer();
    // Create enough text to overflow one page
    let long_paragraphs: Vec<String> = (0..200)
        .map(|i| {
            format!(
                "Paragraph number {} with some extra text to fill the page.",
                i
            )
        })
        .collect();
    let pages = r.paginate(&long_paragraphs, 1000);
    assert!(
        pages.len() > 1,
        "Expected multiple pages, got {}",
        pages.len()
    );
}

#[test]
fn test_paginate_scale_affects_pages() {
    let r = renderer();
    let paragraphs: Vec<String> = (0..100)
        .map(|i| format!("Line {} with content.", i))
        .collect();
    let pages_small = r.paginate(&paragraphs, 500);
    let pages_large = r.paginate(&paragraphs, 2000);
    // Larger scale = larger text = more pages
    assert!(
        pages_large.len() >= pages_small.len(),
        "Large scale {} should produce >= pages than small scale {}",
        pages_large.len(),
        pages_small.len()
    );
}

#[test]
fn test_render_page_dimensions() {
    let r = renderer();
    let lines = vec!["Test line".to_string()];
    let image = r.render_page(&lines, 1000);
    assert_eq!(image.width(), TEXT_PAGE_WIDTH);
    assert_eq!(image.height(), TEXT_PAGE_HEIGHT);
}

#[test]
fn test_render_page_scaled_dimensions() {
    let r = renderer();
    let lines = vec!["Test".to_string()];
    let image = r.render_page(&lines, 2000);
    assert_eq!(image.width(), TEXT_PAGE_WIDTH * 2);
    assert_eq!(image.height(), TEXT_PAGE_HEIGHT * 2);
}

#[test]
fn test_render_page_white_background() {
    let r = renderer();
    let lines = vec![];
    let image = r.render_page(&lines, 1000);
    // Corner pixel should be white
    let pixels = image.into_raw();
    assert_eq!(&pixels[0..4], &[255, 255, 255, 255]);
}

#[test]
fn test_wrap_text_short() {
    let r = renderer();
    let lines = r.wrap_text("Hello", 1_000_000, 20_000);
    assert_eq!(lines.len(), 1);
    assert_eq!(lines[0], "Hello");
}

#[test]
fn test_wrap_text_empty() {
    let r = renderer();
    let lines = r.wrap_text("", 1_000_000, 20_000);
    assert_eq!(lines.len(), 1);
    assert_eq!(lines[0], "");
}

#[test]
fn test_wrap_text_wraps_long_line() {
    let r = renderer();
    let long_text = "word ".repeat(100);
    let lines = r.wrap_text(&long_text.trim(), 200_000, 20_000);
    assert!(
        lines.len() > 1,
        "Expected wrapping, got {} lines",
        lines.len()
    );
}

#[test]
fn test_measure_text_positive() {
    let r = renderer();
    let width = r.measure_text("Hello");
    assert!(width > 0);
}

#[test]
fn test_measure_text_empty() {
    let r = renderer();
    let width = r.measure_text("");
    assert_eq!(width, 0);
}

#[test]
fn test_measure_text_longer_is_wider() {
    let r = renderer();
    let w1 = r.measure_text("Hi");
    let w2 = r.measure_text("Hello World");
    assert!(w2 > w1);
}

#[test]
fn a_renderer_in_a_font_is_the_renderer_of_its_bytes() {
    let font = ab_glyph::FontVec::try_from_vec(font_data()).unwrap();
    let given = TextPageRenderer::with_font(font);
    let made = renderer();
    for text in ["", "a", "Hello World", "il", "MW"] {
        assert_eq!(given.measure_text(text), made.measure_text(text));
    }
    assert_ne!(made.measure_text("i"), made.measure_text("W"));
    let paragraphs = vec!["one two three".to_string()];
    assert_eq!(given.paginate(&paragraphs, 1000), made.paginate(&paragraphs, 1000));
}

#[test]
fn the_same_bytes_give_a_renderer_every_time() {
    for _ in 0..3 {
        assert!(TextPageRenderer::new(font_data()).is_some());
        assert!(TextPageRenderer::new(b"OTTO".to_vec()).is_none());
    }
}

#[test]
fn no_font_no_renderer() {
    assert!(TextPageRenderer::new(vec![1, 2, 3]).is_none());
    assert!(TextPageRenderer::new(Vec::new()).is_none());
}

#[test]
fn measure_is_the_sum_of_the_advances() {
    let r = renderer();
    let a = r.measure_text("a");
    let b = r.measure_text("b");
    let space = r.measure_text(" ");
    assert!(a > 0 && b > 0 && space > 0);
    assert_eq!(r.measure_text("ab"), a + b);
    assert_eq!(r.measure_text("a b"), a + space + b);
    assert_eq!(r.measure_text("aaa"), 3 * a);
}

#[test]
fn wrap_packs_words_greedily_and_never_splits_one() {
    let r = renderer();
    let text = "word ".repeat(100);
    let lines = r.wrap_text(&text, 200_000, 20_000);
    let total: usize = lines.iter().map(|l| l.split(' ').count()).sum();
    assert_eq!(total, 100);
    for line in &lines {
        assert!(line.split(' ').all(|w| w == "word"));
    }
    let per_line = lines[0].split(' ').count();
    assert!(per_line >= 2);
    for line in &lines[..lines.len() - 1] {
        assert_eq!(line.split(' ').count(), per_line);
    }
    assert!(lines[lines.len() - 1].split(' ').count() <= per_line);
}

#[test]
fn wrap_never_refuses_the_first_word_of_a_line() {
    let r = renderer();
    let lines = r.wrap_text("unbreakable and more", 1, 20_000);
    assert_eq!(lines, vec!["unbreakable", "and", "more"]);
    let lines = r.wrap_text("unbreakable", 0, 20_000);
    assert_eq!(lines, vec!["unbreakable"]);
}

#[test]
fn wrap_joins_words_by_single_spaces() {
    let r = renderer();
    let lines = r.wrap_text("  a \t b\n\nc  ", 1_000_000, 20_000);
    assert_eq!(lines, vec!["a b c"]);
    let lines = r.wrap_text(" \t\n ", 1_000_000, 20_000);
    assert_eq!(lines, vec![""]);
}

#[test]
fn wrap_depends_on_the_ratio_of_width_and_font_size_alone() {
    let r = renderer();
    let text = "The quick brown fox jumps over the lazy dog again and again and again";
    let at_one = r.wrap_text(text, 200_000, 20_000);
    let at_two = r.wrap_text(text, 400_000, 40_000);
    let at_half = r.wrap_text(text, 100_000, 10_000);
    assert!(at_one.len() > 1);
    assert_eq!(at_one, at_two);
    assert_eq!(at_one, at_half);
}

#[test]
fn a_page_takes_twenty_four_paragraphs_of_one_line() {
    let r = renderer();
    let paragraphs: Vec<String> = (0..200).map(|i| format!("Paragraph {}", i)).collect();
    let pages = r.paginate(&paragraphs, 1000);
    // A line is 28 high and a paragraph ends with 14 more; a line goes on
    // the page while it ends within 1020.
    assert_eq!(pages.len(), 9);
    for page in &pages[..8] {
        assert_eq!(page.len(), 24);
    }
    assert_eq!(pages[8].len(), 8);
    assert_eq!(pages[0][0], "Paragraph 0");
    assert_eq!(pages[1][0], "Paragraph 24");
    assert_eq!(pages[8][7], "Paragraph 199");
}

#[test]
fn lines_of_one_paragraph_stand_closer_than_paragraphs() {
    let r = renderer();
    // One paragraph of many short lines: 36 lines of 28 end within 1020,
    // the paragraph spacing after the last never breaks a page.
    let text = "unbreakable ".repeat(40);
    let lines = r.wrap_text(&text, 1, 20_000);
    assert_eq!(lines.len(), 40);
    let paragraphs = vec![text.clone()];
    let narrow = TextPageRenderer::new(font_data()).unwrap();
    let pages = narrow.paginate(&paragraphs, 1000);
    let all: usize = pages.iter().map(|p| p.len()).sum();
    let wrapped = narrow.wrap_text(&text, 720_000, 20_000);
    assert_eq!(all, wrapped.len());
}

#[test]
fn an_empty_paragraph_is_one_empty_line() {
    let r = renderer();
    let pages = r.paginate(&vec!["".to_string(), "x".to_string(), "   ".to_string()], 1000);
    assert_eq!(pages, vec![vec!["".to_string(), "x".to_string(), "".to_string()]]);
}

#[test]
fn pagination_is_the_same_whenever_it_is_asked_for() {
    let r = renderer();
    let other = renderer();
    let paragraphs: Vec<String> = (0..60)
        .map(|i| format!("Paragraph {} with words enough to be wrapped once or twice when the page is narrow, which it is not.", i))
        .collect();
    let first = r.paginate(&paragraphs, 1250);
    assert_eq!(r.paginate(&paragraphs, 1250), first);
    assert_eq!(other.paginate(&paragraphs, 1250), first);
}

#[test]
fn pages_do_not_depend_on_the_scale_above_zero() {
    let r = renderer();
    let paragraphs: Vec<String> = (0..80)
        .map(|i| format!("Paragraph {} with words enough to be wrapped once or twice, or even three times, when the line is as narrow as this page makes it.", i))
        .collect();
    let natural = r.paginate(&paragraphs, 1000);
    assert!(natural.len() > 1);
    for scale in [1, 300, 500, 999, 1001, 2000, 3000, u32::MAX] {
        assert_eq!(r.paginate(&paragraphs, scale), natural);
    }
}

#[test]
fn at_scale_zero_everything_is_one_page() {
    let r = renderer();
    let paragraphs: Vec<String> = (0..100)
        .map(|i| format!("Paragraph {} with words enough to be wrapped at any scale that is not nothing at all, were it not for this one.", i))
        .collect();
    let pages = r.paginate(&paragraphs, 0);
    assert_eq!(pages.len(), 1);
    assert_eq!(pages[0].len(), 100);
    assert!(r.paginate(&paragraphs, 1).len() >= pages.len());
    assert_eq!(r.paginate(&Vec::new(), 0), vec![vec!["(empty document)".to_string()]]);
}

#[test]
fn page_sizes_scale_and_round_down() {
    let r = renderer();
    let image = r.render_page(&Vec::new(), 1500);
    assert_eq!((image.width(), image.height()), (1200, 1650));
    let image = r.render_page(&Vec::new(), 1001);
    assert_eq!((image.width(), image.height()), (800, 1101));
    let image = r.render_page(&Vec::new(), 1);
    assert_eq!((image.width(), image.height()), (0, 1));
    let image = r.render_page(&vec!["x".to_string()], 0);
    assert_eq!((image.width(), image.height()), (0, 0));
    assert_eq!(image.into_raw().len(), 0);
}

#[test]
fn a_page_without_lines_is_all_white() {
    let r = renderer();
    let pixels = r.render_page(&Vec::new(), 100).into_raw();
    assert_eq!(pixels.len(), 4 * 80 * 110);
    assert!(pixels.iter().all(|b| *b == 255));
}

#[test]
fn text_is_drawn_in_black_inside_the_margins() {
    let r = renderer();
    let image = r.render_page(&vec!["HHHH".to_string(), "".to_string(), "IIII".to_string()], 1000);
    let width = image.width() as usize;
    let pixels = image.into_raw();
    let dark = |x: usize, y: usize| pixels[4 * (y * width + x)] < 128;
    let mut first = false;
    let mut second = false;
    let mut third = false;
    let mut outside = false;
    for y in 0..1100 {
        for x in 0..800 {
            if dark(x, y) {
                if x < 40 || y < 40 {
                    outside = true;
                }
                if y >= 40 && y < 68 {
                    first = true;
                } else if y >= 68 && y < 96 {
                    second = true;
                } else if y >= 96 && y < 124 {
                    third = true;
                } else {
                    outside = true;
                }
            }
        }
    }
    assert!(first);
    assert!(!second);
    assert!(third);
    assert!(!outside);
    assert!(pixels.chunks(4).all(|p| p[3] >= 254));
}

fn ink_box(pixels: &[u8], width: usize) -> (usize, usize) {
    let mut left = usize::MAX;
    let mut right = 0;
    for (i, p) in pixels.chunks(4).enumerate() {
        if p[0] < 128 {
            left = left.min(i % width);
            right = right.max(i % width);
        }
    }
    (left, right)
}

#[test]
fn the_font_grows_with_every_thousandth_of_scale() {
    let r = renderer();
    let line = vec!["HHHHHHHHHHHHHHHHHHHHHHHHHHHHHHHHHHHHHHHH".to_string()];
    // At scales 1.000 and 1.049 the margin is 40 pixels and a font cut to
    // whole pixels would be 20 pixels: the line is wider only because the
    // font is drawn at 20.98.
    let natural = r.render_page(&line, 1000);
    let grown = r.render_page(&line, 1049);
    let (w0, w1) = (natural.width() as usize, grown.width() as usize);
    let (left0, right0) = ink_box(&natural.into_raw(), w0);
    let (left1, right1) = ink_box(&grown.into_raw(), w1);
    assert!(left0 >= 40 && left1 >= 40);
    assert!(right1 - left1 > right0 - left0 + 10);
    // Twice the scale is twice the width, to the pixel or two.
    let doubled = r.render_page(&line, 2000);
    let w2 = doubled.width() as usize;
    let (left2, right2) = ink_box(&doubled.into_raw(), w2);
    let (single, double) = (right0 - left0, right2 - left2);
    assert!(double + 4 >= 2 * single && double <= 2 * single + 4);
}

#[test]
fn will_draw_tells_which_lines_are_drawn() {
    let r = renderer();
    assert!(r.will_draw("Hello", 0, 1000));
    assert!(r.will_draw("", 35, 3000));
    assert!(r.will_draw(&"H".repeat(4095), 0, 1000));
    assert!(!r.will_draw(&"H".repeat(4096), 0, 1000));
    // Characters count, not bytes.
    assert!(r.will_draw(&"é".repeat(4095), 0, 1000));
    // Line 599186 stands 16777208 pixels below the margin of 40, line
    // 599185 stands 16777180 below.
    assert!(r.will_draw("x", 599_184, 1000));
    assert!(!r.will_draw("x", 599_185, 1000));
    assert!(!r.will_draw("x", usize::MAX, 1000));
    assert!(r.will_draw("x", usize::MAX, 0));
    // A font of twenty thousand pixels is larger than any font is high.
    assert!(!r.will_draw("x", 0, 4_000_000_000));
    // What is said is what is done.
    for (line, scale) in [("H".repeat(4095), 100), ("H".repeat(4096), 100)] {
        let drawn = r.render_page(&vec![line.clone()], scale).into_raw().iter().any(|b| *b != 255);
        assert_eq!(drawn, r.will_draw(&line, 0, scale));
    }
}

#[test]
fn a_line_too_long_to_draw_is_left_out() {
    let r = renderer();
    let long = "H".repeat(4096);
    let pixels = r.render_page(&vec![long], 100).into_raw();
    assert!(pixels.iter().all(|b| *b == 255));
    let short = "H".repeat(4095);
    let pixels = r.render_page(&vec![short], 1000).into_raw();
    assert!(pixels.iter().any(|b| *b != 255));
}

#[test]
fn pages_that_do_not_fit_in_memory_are_known_beforehand() {
    assert!(TextPageRenderer::can_render(0));
    assert!(TextPageRenderer::can_render(1000));
    assert!(TextPageRenderer::can_render(3000));
    assert!(!TextPageRenderer::can_render(u32::MAX));
    if usize::BITS == 64 {
        // 4 * (800 s / 1000) * (1100 s / 1000) is within isize::MAX up to here.
        assert!(TextPageRenderer::can_render(1_618_000_000));
        assert!(!TextPageRenderer::can_render(1_619_000_000));
    }
}
