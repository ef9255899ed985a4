use inlyne::element::{Element, Image, Positioned, Row, Section, Spacer, Table};
use inlyne::geometry::{point, Point, Rect, Size};
use inlyne::mesh::Shape;
use inlyne::renderer::{Renderer, Theme};
use inlyne::text::{Color, CursorIcon, Glyph, Layout, Selection, Text, TextBox};

fn theme() -> Theme {
    Theme {
        background_color: Color::new(0, 0, 0, 255),
        text_color: Color::new(200, 200, 200, 255),
        select_color: Color::new(50, 50, 150, 255),
        code_block_color: Color::new(30, 30, 30, 255),
        quote_block_color: Color::new(40, 40, 40, 255),
        checkbox_color: Color::new(0, 150, 0, 255),
    }
}

fn renderer() -> Renderer {
    Renderer::new(Size::new(800, 600), 100, theme())
}

fn rect(x: i64, y: i64, w: i64, h: i64) -> Rect {
    Rect::new(Point::new(x, y), Size::new(w, h))
}

/// A box of one run whose glyphs are 8 pixels wide and 16 high, on one line.
fn word_box(words: &[&str]) -> TextBox {
    let mut glyphs = Vec::new();
    let mut texts = Vec::new();
    let mut x = 0;
    for (i, w) in words.iter().enumerate() {
        for ch in w.chars() {
            glyphs.push(Glyph { rect: rect(x, 0, 8, 16), section_index: i, ch });
            x += 8;
        }
        texts.push(Text::new(w.to_string()));
    }
    let lines = vec![(Point::new(0, 16), Point::new(x, 16))];
    TextBox::new(texts, Layout::new(Size::new(x, 16), glyphs, lines))
}

fn placed(inner: Element, x: i64, y: i64, w: i64, h: i64) -> Positioned<Element> {
    Positioned { inner, bounds: Some(rect(x, y, w, h)) }
}

fn selected_string(r: &Renderer) -> String {
    r.frame.selection_text.iter().collect()
}

#[test]
fn transform_maps_screen_corners() {
    let s = Size::new(800, 600);
    let a = point(0, 0, s);
    assert_eq!((a.x, a.y, a.w, a.h), (-800, 600, 800, 600));
    let b = point(800, 600, s);
    assert_eq!((b.x, b.y), (800, -600));
    let c = point(400, 300, s);
    assert_eq!((c.x, c.y), (0, 0));
}

#[test]
fn transform_outside_screen_leaves_unit_square() {
    let s = Size::new(800, 600);
    let p = point(801, -1, s);
    assert!(p.x > p.w);
    assert!(p.y > p.h);
    let q = point(-1, 601, s);
    assert!(q.x < -q.w);
    assert!(q.y < -q.h);
}

#[test]
fn rect_min_max_and_contains() {
    let r = Rect::from_min_max(Point::new(10, 20), Point::new(30, 60));
    assert_eq!(r.size, Size::new(20, 40));
    assert_eq!(r.max(), Point::new(30, 60));
    assert!(r.contains(Point::new(10, 20)));
    assert!(r.contains(Point::new(30, 60)));
    assert!(!r.contains(Point::new(31, 60)));
}

#[test]
fn text_builders_and_font_ids() {
    let t = Text::new("a".to_string());
    assert_eq!(t.size, 16);
    assert_eq!(t.font_id(), 0);
    let t = t.with_size(24).with_font(3).make_bold(true).with_link("https://x".to_string());
    assert_eq!(t.size, 24);
    assert_eq!(t.font_id(), 7);
    assert_eq!(t.link.as_deref(), Some("https://x"));
    let t = t.make_bold(false);
    assert_eq!(t.font_id(), 6);
    let c = Color::new(1, 2, 3, 4);
    assert_eq!(t.with_color(c).color, c);
}

#[test]
fn empty_box_measures_zero() {
    let tb = TextBox::new(Vec::new(), Layout::new(Size::new(5, 5), Vec::new(), Vec::new()));
    assert_eq!(tb.size(), Size::new(0, 0));
    let wb = word_box(&["ab"]);
    assert_eq!(wb.size(), Size::new(16, 16));
    assert_eq!(wb.with_indent(7).indent, 7);
}

#[test]
fn hovering_gives_hand_over_links() {
    let mut tb = word_box(&["ab", "cd"]);
    tb.texts[1] = Text::new("cd".to_string()).with_link("https://example.org".to_string());
    let origin = Point::new(100, 100);
    assert_eq!(tb.hovering_over(Point::new(104, 108), origin), CursorIcon::Text);
    assert_eq!(tb.hovering_over(Point::new(120, 108), origin), CursorIcon::Hand);
    assert_eq!(tb.hovering_over(Point::new(150, 108), origin), CursorIcon::Default);
    assert_eq!(tb.click(Point::new(120, 108), origin), vec!["https://example.org".to_string()]);
    assert!(tb.click(Point::new(104, 108), origin).is_empty());
}

#[test]
fn selection_picks_touched_glyphs() {
    let tb = word_box(&["hello"]);
    let sel = Selection { start: Point::new(12, 5), end: Point::new(20, 6) };
    let (rects, chars) = tb.render_selection(Point::new(0, 0), sel);
    assert_eq!(chars, vec!['e', 'l']);
    assert_eq!(rects, vec![rect(8, 0, 8, 16), rect(16, 0, 8, 16)]);
    let far = Selection { start: Point::new(0, 500), end: Point::new(10, 600) };
    let (rects, chars) = tb.render_selection(Point::new(0, 0), far);
    assert!(rects.is_empty() && chars.is_empty());
}

#[test]
fn table_measures_columns_and_rows() {
    let t = Table {
        headers: vec![word_box(&["ab"]), word_box(&["c"])],
        rows: vec![vec![word_box(&["abcd"])], vec![word_box(&["x"]), word_box(&["yyy"])]],
    };
    assert_eq!(t.column_widths(), vec![32, 24]);
    assert_eq!(t.row_heights(), vec![16, 16, 16]);
}

#[test]
fn scroll_is_clamped() {
    let mut r = renderer();
    r.settings.reserved_height = 1000;
    r.set_scroll_y(-50);
    assert_eq!(r.settings.scroll_y, 0);
    r.set_scroll_y(250);
    assert_eq!(r.settings.scroll_y, 250);
    r.set_scroll_y(5000);
    assert_eq!(r.settings.scroll_y, 400);
    r.settings.reserved_height = 100;
    r.set_scroll_y(30);
    assert_eq!(r.settings.scroll_y, 0);
    assert_eq!(r.screen_height(), 600);
    assert_eq!(r.screen_size(), Size::new(800, 600));
}

#[test]
fn element_above_screen_is_culled() {
    let mut r = renderer();
    r.settings.reserved_height = 2000;
    r.set_scroll_y(200);
    r.settings.selection = Some(Selection { start: Point::new(0, 0), end: Point::new(800, 2000) });
    let elements = vec![
        placed(Element::TextBox(word_box(&["gone"])), 10, 100, 32, 100),
        placed(Element::Image(Image { id: 3 }), 10, 150, 50, 50),
    ];
    r.render_frame(&elements);
    assert!(r.frame.queued.is_empty());
    assert!(r.frame.selection_text.is_empty());
    // only the scrollbar
    assert_eq!(r.frame.shapes.len(), 1);
    assert!(r.image_placements(&elements).is_empty());
}

#[test]
fn walk_stops_below_screen() {
    let mut r = renderer();
    let elements = vec![
        placed(Element::TextBox(word_box(&["a"])), 10, 10, 8, 16),
        placed(Element::TextBox(word_box(&["b"])), 10, 600, 8, 16),
        placed(Element::TextBox(word_box(&["c"])), 10, 20, 8, 16),
    ];
    r.render_frame(&elements);
    assert_eq!(r.frame.queued.len(), 1);
    assert_eq!(r.frame.queued[0].texts[0].text, "a");
}

#[test]
fn full_selection_reads_back_runs() {
    let mut r = renderer();
    r.settings.selection = Some(Selection { start: Point::new(0, 0), end: Point::new(800, 600) });
    let elements = vec![placed(Element::TextBox(word_box(&["Hello, ", "world"])), 10, 10, 96, 16)];
    r.render_frame(&elements);
    assert_eq!(selected_string(&r), "Hello, world");
    // one underline and one highlight per glyph
    assert_eq!(r.frame.shapes.len(), 1 + 12);
}

#[test]
fn hidden_section_skips_body_only() {
    let make = |hidden: bool| {
        let summary = placed(Element::TextBox(word_box(&["title"])), 20, 10, 40, 16);
        let body = vec![placed(Element::TextBox(word_box(&["body"])), 20, 40, 32, 16)];
        vec![placed(
            Element::Section(Section { summary: Some(Box::new(summary)), elements: body, hidden }),
            20,
            10,
            40,
            50,
        )]
    };
    let mut shown = renderer();
    shown.render_frame(&make(false));
    let mut folded = renderer();
    folded.render_frame(&make(true));
    assert_eq!(shown.frame.queued.len(), 2);
    assert_eq!(folded.frame.queued.len(), 1);
    assert_eq!(shown.frame.queued[0].texts[0].text, "title");
    assert_eq!(folded.frame.queued[0].texts[0].text, "title");
    // the marker differs, the summary's underline does not
    assert!(matches!(shown.frame.shapes[0], Shape::FillTriangle { .. }));
    assert!(matches!(folded.frame.shapes[0], Shape::FillTriangle { .. }));
    assert_ne!(shown.frame.shapes[0], folded.frame.shapes[0]);
    assert_eq!(shown.frame.shapes[1], folded.frame.shapes[1]);
    assert_eq!(folded.frame.shapes.len(), 2);
    assert_eq!(shown.frame.shapes.len(), 3);
}

#[test]
fn checkbox_shapes_in_order() {
    let mut checked = word_box(&["done"]);
    checked.is_checkbox = Some(true);
    let mut r = renderer();
    r.render_frame(&vec![placed(Element::TextBox(checked), 50, 10, 32, 16)]);
    let kinds: Vec<u8> = r
        .frame
        .shapes
        .iter()
        .map(|s| match s {
            Shape::FillRect { .. } => 0,
            Shape::StrokePolyline { .. } => 1,
            Shape::StrokeRect { .. } => 2,
            Shape::FillTriangle { .. } => 3,
        })
        .collect();
    // fill, tick, border, then the underline
    assert_eq!(kinds, vec![0, 1, 2, 0]);
    // side = 16 * 0.75 = 12, right of the box 10 pixels left of the text
    assert_eq!(r.frame.shapes[0], Shape::FillRect { rect: rect(28, 12, 12, 12), color: theme().checkbox_color });

    let mut open = word_box(&["todo"]);
    open.is_checkbox = Some(false);
    let mut r = renderer();
    r.render_frame(&vec![placed(Element::TextBox(open), 50, 10, 32, 16)]);
    assert_eq!(r.frame.shapes.len(), 2);
    assert!(matches!(r.frame.shapes[0], Shape::StrokeRect { width: 2, .. }));
}

#[test]
fn table_grid_counts() {
    let t = Table {
        headers: vec![word_box(&["a"]), word_box(&["b"]), word_box(&["c"])],
        rows: vec![
            vec![word_box(&["1"]), word_box(&["2"]), word_box(&["3"])],
            vec![word_box(&["4"])],
        ],
    };
    let mut r = renderer();
    r.render_frame(&vec![placed(Element::Table(t), 10, 10, 200, 100)]);
    assert_eq!(r.frame.shapes.len(), 3);
    assert_eq!(r.frame.queued.len(), 3 + 3 + 1);
    // header divider: 16 high header, half a row gap below it, 3 pixels thick
    assert_eq!(r.frame.shapes[0], Shape::FillRect { rect: rect(10, 36, 84, 3), color: theme().text_color });
    assert_eq!(r.frame.queued[1].screen_position, Point::new(38, 10));
    assert_eq!(r.frame.queued[3].screen_position, Point::new(10, 46));
}

#[test]
fn quote_block_background_and_bars() {
    let mut tb = word_box(&["q"]);
    tb.is_quote_block = Some(2);
    let mut r = renderer();
    r.render_frame(&vec![placed(Element::TextBox(tb), 200, 10, 8, 16)]);
    // background, two bars, underline
    assert_eq!(r.frame.shapes.len(), 4);
    assert_eq!(r.frame.shapes[0], Shape::FillRect { rect: rect(140, 10, 560, 21), color: theme().quote_block_color });
    assert_eq!(r.frame.shapes[1], Shape::FillRect { rect: rect(185, 10, 5, 21), color: theme().select_color });
    assert_eq!(r.frame.shapes[2], Shape::FillRect { rect: rect(135, 10, 5, 21), color: theme().select_color });
}

#[test]
fn spacer_and_scrollbar() {
    let mut r = renderer();
    r.settings.reserved_height = 1200;
    r.set_scroll_y(300);
    let elements = vec![
        placed(Element::Spacer(Spacer { visible: true }), 0, 400, 800, 20),
        placed(Element::Spacer(Spacer { visible: false }), 0, 420, 800, 20),
    ];
    r.render_frame(&elements);
    assert_eq!(r.frame.shapes.len(), 2);
    assert_eq!(r.frame.shapes[0], Shape::FillRect { rect: rect(100, 108, 600, 2), color: theme().text_color });
    assert_eq!(
        r.frame.shapes[1],
        Shape::FillRect { rect: rect(775, 150, 25, 300), color: Color::new(77, 77, 77, 255) }
    );
}

#[test]
fn images_are_placed_with_scroll() {
    let mut r = renderer();
    r.settings.reserved_height = 2000;
    r.set_scroll_y(100);
    let row = Row { elements: vec![placed(Element::Image(Image { id: 2 }), 300, 150, 10, 10)] };
    let hidden = Section {
        summary: None,
        elements: vec![placed(Element::Image(Image { id: 9 }), 0, 200, 10, 10)],
        hidden: true,
    };
    let elements = vec![
        placed(Element::Image(Image { id: 1 }), 10, 120, 40, 40),
        placed(Element::Row(row), 0, 150, 800, 10),
        placed(Element::Section(hidden), 0, 200, 800, 10),
    ];
    let p = r.image_placements(&elements);
    assert_eq!(p.len(), 2);
    assert_eq!((p[0].id, p[0].pos, p[0].size), (1, Point::new(10, 20), Size::new(40, 40)));
    assert_eq!((p[1].id, p[1].pos), (2, Point::new(300, 50)));
}

#[test]
fn hello_scenario() {
    let glyphs: Vec<Glyph> = "Hello"
        .chars()
        .enumerate()
        .map(|(i, ch)| Glyph { rect: rect(i as i64 * 9, 0, 9, 16), section_index: 0, ch })
        .collect();
    let measured_width = 45;
    let lines = vec![(Point::new(0, 16), Point::new(measured_width, 16))];
    let tb = TextBox::new(
        vec![Text::new("Hello".to_string()).with_size(16)],
        Layout::new(Size::new(measured_width, 16), glyphs, lines),
    );
    let mut r = renderer();
    r.render_frame(&vec![placed(Element::TextBox(tb), 10, 10, measured_width, 16)]);
    assert_eq!(r.frame.queued.len(), 1);
    assert_eq!(r.frame.queued[0].screen_position, Point::new(10, 10));
    assert_eq!(r.frame.queued[0].wrap_width, 690);
    assert_eq!(r.frame.shapes.len(), 1);
    match r.frame.shapes[0] {
        Shape::FillRect { rect, .. } => {
            assert!(rect.pos.x >= 10 && rect.max().x <= 10 + measured_width);
            assert_eq!(rect, Rect::from_min_max(Point::new(10, 26), Point::new(55, 28)));
        }
        _ => panic!("expected an underline"),
    }
}

#[test]
fn validity_checks() {
    let good = vec![placed(Element::TextBox(word_box(&["ok"])), 10, 10, 16, 16)];
    assert!(inlyne::renderer::elements_ok(&good));
    let unplaced = vec![Positioned { inner: Element::Spacer(Spacer { visible: true }), bounds: None }];
    assert!(!inlyne::renderer::elements_ok(&unplaced));
    let nested = vec![placed(Element::Row(Row { elements: unplaced }), 0, 0, 10, 10)];
    assert!(!inlyne::renderer::elements_ok(&nested));
    let mut bad_glyph = word_box(&["x"]);
    bad_glyph.layout.glyphs[0].section_index = 4;
    assert!(!bad_glyph.is_ok());
    let mut r = renderer();
    assert!(r.settings_ok());
    r.settings.zoom = -1;
    assert!(!r.settings_ok());
}

#[test]
fn code_block_uses_override_color() {
    let mut tb = word_box(&["let x = 1;"]);
    tb.is_code_block = true;
    let custom = Color::new(9, 8, 7, 255);
    tb.background_color = Some(custom);
    let mut r = renderer();
    r.settings.hidpi_scale = 200;
    r.render_frame(&vec![placed(Element::TextBox(tb), 100, 50, 80, 16)]);
    // right edge 700 caps the background; 5 pixels of padding scaled by 2
    assert_eq!(r.frame.shapes[0], Shape::FillRect { rect: rect(90, 50, 610, 26), color: custom });
    // underline is 2 pixels scaled by 2
    assert_eq!(r.frame.shapes[1], Shape::FillRect { rect: rect(100, 66, 80, 4), color: theme().text_color });
}

#[test]
fn thumb_never_vanishes() {
    let mut r = renderer();
    r.settings.reserved_height = 400000;
    r.set_scroll_y(399400);
    r.render_frame(&Vec::new());
    assert_eq!(r.frame.shapes.len(), 1);
    match r.frame.shapes[0] {
        Shape::FillRect { rect, .. } => {
            assert_eq!(rect.size.h, 1);
            assert_eq!(rect.pos.y, 599);
            assert!(rect.max().y <= 600);
        }
        _ => panic!("expected the thumb"),
    }
}

#[test]
fn negative_size_bounds_are_painted() {
    let elements = vec![placed(Element::Spacer(Spacer { visible: true }), 0, 100, -50, -20)];
    assert!(inlyne::renderer::elements_ok(&elements));
    let mut r = renderer();
    r.render_frame(&elements);
    // half of -20 rounds towards zero
    assert_eq!(r.frame.shapes[0], Shape::FillRect { rect: rect(100, 88, 600, 2), color: theme().text_color });
}

#[test]
fn nested_images_follow_the_walk() {
    let mut r = renderer();
    let inner_row = Row { elements: vec![placed(Element::Image(Image { id: 5 }), 10, 40, 10, 10)] };
    let summary = placed(Element::Image(Image { id: 4 }), 10, 20, 10, 10);
    let section = Section {
        summary: Some(Box::new(summary)),
        elements: vec![placed(Element::Row(inner_row), 0, 40, 800, 10)],
        hidden: false,
    };
    let off_screen_row = Row {
        elements: vec![
            placed(Element::Image(Image { id: 6 }), 10, 100, 10, 10),
            placed(Element::Image(Image { id: 7 }), 10, 700, 10, 10),
        ],
    };
    let elements = vec![
        placed(Element::Section(section), 0, 20, 800, 30),
        placed(Element::Row(off_screen_row), 0, 100, 800, 620),
    ];
    let ids: Vec<usize> = r.image_placements(&elements).iter().map(|p| p.id).collect();
    assert_eq!(ids, vec![4, 5, 6]);
}

#[test]
fn underline_out_of_measured_width_is_invalid() {
    let mut tb = word_box(&["ab"]);
    tb.layout.lines[0].1.x = 100;
    assert!(!tb.is_ok());
}

#[test]
fn table_queue_count_with_selection() {
    let t = Table {
        headers: vec![word_box(&["a"]), word_box(&["b"])],
        rows: vec![vec![word_box(&["1"]), word_box(&["2"])], vec![word_box(&["3"])]],
    };
    let mut r = renderer();
    r.settings.selection = Some(Selection { start: Point::new(0, 0), end: Point::new(800, 600) });
    r.render_frame(&vec![placed(Element::Table(t), 10, 10, 200, 100)]);
    assert_eq!(r.frame.queued.len(), 2 + 2 + 1);
    assert_eq!(selected_string(&r), "ab123");
    // three dividers and one highlight per selected glyph
    assert_eq!(r.frame.shapes.len(), 3 + 5);
}
