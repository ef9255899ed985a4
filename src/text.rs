use crate::geometry::{coord_placed, Point, Rect, Size};
use vstd::prelude::*;

verus! {

/// An RGBA color with eight bits per channel.
#[derive(Clone, Copy, Debug, PartialEq, Eq, Structural)]
pub struct Color {
    pub r: u8,
    pub g: u8,
    pub b: u8,
    pub a: u8,
}

impl Color {
    pub open spec fn default_text_spec() -> Color {
        Color { r: 149, g: 163, b: 177, a: 255 }
    }

    /// The color of a run that does not set its own.
    pub fn default_text() -> (r: Color)
        ensures
            r == Color::default_text_spec(),
    {
        Color { r: 149, g: 163, b: 177, a: 255 }
    }

    pub fn new(r: u8, g: u8, b: u8, a: u8) -> (c: Color)
        ensures
            c == (Color { r, g, b, a }),
    {
        Color { r, g, b, a }
    }
}

/// Point size given to a run that does not set its own.
pub const DEFAULT_TEXT_SIZE: i64 = 16;

/// Deepest nesting of a quote block.
pub const QUOTE_NEST_LIMIT: usize = 1024;

/// Largest point size of a run.
pub const TEXT_SIZE_LIMIT: i64 = 65536;

/// One styled run of text.
#[derive(Debug)]
pub struct Text {
    pub text: String,
    pub size: i64,
    pub color: Color,
    pub link: Option<String>,
    pub is_bold: bool,
    pub font: usize,
}

/// A shaped glyph: its box relative to the text box origin, the run it came
/// from and the character it draws.
#[derive(Clone, Copy, Debug, PartialEq, Eq, Structural)]
pub struct Glyph {
    pub rect: Rect,
    pub section_index: usize,
    pub ch: char,
}

/// What the shaping service measured for a text box laid out at its place:
/// the extent of the text, its glyphs and the underline bar of each visual
/// line, all relative to the box origin.
#[derive(Debug)]
pub struct Layout {
    pub size: Size,
    pub glyphs: Vec<Glyph>,
    pub lines: Vec<(Point, Point)>,
}

/// Runs that share a layout position, with the decorations drawn around them.
#[derive(Debug)]
pub struct TextBox {
    pub indent: i64,
    pub texts: Vec<Text>,
    pub is_code_block: bool,
    pub is_quote_block: Option<usize>,
    pub is_checkbox: Option<bool>,
    pub background_color: Option<Color>,
    pub layout: Layout,
}

/// Pointer shape to show over a text box.
#[derive(Clone, Copy, Debug, PartialEq, Eq, Structural)]
pub enum CursorIcon {
    Default,
    Text,
    Hand,
}

/// An active text selection between two points in document coordinates.
#[derive(Clone, Copy, Debug, PartialEq, Eq, Structural)]
pub struct Selection {
    pub start: Point,
    pub end: Point,
}

pub open spec fn min_int(a: int, b: int) -> int {
    if a <= b { a } else { b }
}

pub open spec fn max_int(a: int, b: int) -> int {
    if a >= b { a } else { b }
}

impl Selection {
    pub open spec fn ok(self) -> bool {
        self.start.ok() && self.end.ok()
    }

    /// Whether the rectangle `r` touches the box spanned by the selection.
    pub open spec fn touches(self, r: Rect) -> bool {
        &&& r.pos.x <= max_int(self.start.x as int, self.end.x as int)
        &&& min_int(self.start.x as int, self.end.x as int) <= r.max_x()
        &&& r.pos.y <= max_int(self.start.y as int, self.end.y as int)
        &&& min_int(self.start.y as int, self.end.y as int) <= r.max_y()
    }

    /// Whether the rectangle `r` lies inside the box spanned by the selection.
    pub open spec fn covers(self, r: Rect) -> bool {
        &&& min_int(self.start.x as int, self.end.x as int) <= r.pos.x
        &&& r.max_x() <= max_int(self.start.x as int, self.end.x as int)
        &&& min_int(self.start.y as int, self.end.y as int) <= r.pos.y
        &&& r.max_y() <= max_int(self.start.y as int, self.end.y as int)
    }

    fn touches_exec(&self, r: &Rect) -> (b: bool)
        requires
            self.ok(),
            r.fits(),
        ensures
            b == self.touches(*r),
    {
        let (lx, hx) = if self.start.x <= self.end.x {
            (self.start.x, self.end.x)
        } else {
            (self.end.x, self.start.x)
        };
        let (ly, hy) = if self.start.y <= self.end.y {
            (self.start.y, self.end.y)
        } else {
            (self.end.y, self.start.y)
        };
        let max = r.max();
        r.pos.x <= hx && lx <= max.x && r.pos.y <= hy && ly <= max.y
    }
}

/// The characters of the runs, one after another in run order.
pub open spec fn runs_text(texts: Seq<Text>) -> Seq<char>
    decreases texts.len(),
{
    if texts.len() == 0 {
        Seq::empty()
    } else {
        runs_text(texts.drop_last()) + texts.last().text@
    }
}

/// The characters of the glyphs, in order.
pub open spec fn glyph_chars(glyphs: Seq<Glyph>) -> Seq<char> {
    glyphs.map_values(|g: Glyph| g.ch)
}

/// The glyph boxes, moved to `origin`, that the selection touches, in order.
pub open spec fn selected_rects(glyphs: Seq<Glyph>, origin: Point, sel: Selection) -> Seq<Rect>
    decreases glyphs.len(),
{
    if glyphs.len() == 0 {
        Seq::empty()
    } else {
        let r = glyphs.last().rect.shifted(origin.x as int, origin.y as int);
        selected_rects(glyphs.drop_last(), origin, sel) + if sel.touches(r) {
            seq![r]
        } else {
            Seq::empty()
        }
    }
}

/// The characters of the glyphs, moved to `origin`, that the selection touches, in order.
pub open spec fn selected_chars(glyphs: Seq<Glyph>, origin: Point, sel: Selection) -> Seq<char>
    decreases glyphs.len(),
{
    if glyphs.len() == 0 {
        Seq::empty()
    } else {
        let g = glyphs.last();
        selected_chars(glyphs.drop_last(), origin, sel) + if sel.touches(
            g.rect.shifted(origin.x as int, origin.y as int),
        ) {
            seq![g.ch]
        } else {
            Seq::empty()
        }
    }
}

/// Links of the runs whose glyphs, moved to `origin`, contain `loc`, one per glyph, in order.
pub open spec fn clicked_links(glyphs: Seq<Glyph>, texts: Seq<Text>, origin: Point, loc: Point) -> Seq<String>
    decreases glyphs.len(),
{
    if glyphs.len() == 0 {
        Seq::empty()
    } else {
        let g = glyphs.last();
        let link = texts[g.section_index as int].link;
        clicked_links(glyphs.drop_last(), texts, origin, loc) + if g.rect.shifted(
            origin.x as int,
            origin.y as int,
        ).contains_spec(loc) && link is Some {
            seq![link->0]
        } else {
            Seq::empty()
        }
    }
}

impl Glyph {
    pub open spec fn ok(self) -> bool {
        self.rect.ok() && self.rect.size.w >= 0 && self.rect.size.h >= 0
    }
}

impl Layout {
    /// Coordinates are in range, glyph boxes are not inverted, each glyph
    /// names one of the `n_runs` runs and each underline bar lies across the
    /// measured width.
    pub open spec fn ok(self, n_runs: nat) -> bool {
        &&& self.size.ok()
        &&& self.size.w >= 0
        &&& self.size.h >= 0
        &&& forall|i: int| 0 <= i < self.glyphs@.len() ==> #[trigger] self.glyphs@[i].ok()
        &&& forall|i: int| 0 <= i < self.glyphs@.len() ==> #[trigger] self.glyphs@[i].section_index < n_runs
        &&& forall|i: int| 0 <= i < self.lines@.len() ==> (#[trigger] self.lines@[i]).0.ok() && self.lines@[i].1.ok()
        &&& forall|i: int|
            0 <= i < self.lines@.len() ==> 0 <= (#[trigger] self.lines@[i]).0.x <= self.size.w && 0
                <= self.lines@[i].1.x <= self.size.w
    }

    pub fn new(size: Size, glyphs: Vec<Glyph>, lines: Vec<(Point, Point)>) -> (r: Layout)
        ensures
            r.size == size,
            r.glyphs@ == glyphs@,
            r.lines@ == lines@,
    {
        Layout { size, glyphs, lines }
    }

    /// The layout of a box with nothing in it.
    pub fn empty() -> (r: Layout)
        ensures
            r.size == (Size { w: 0, h: 0 }),
            r.glyphs@.len() == 0,
            r.lines@.len() == 0,
    {
        Layout { size: Size { w: 0, h: 0 }, glyphs: Vec::new(), lines: Vec::new() }
    }
}

impl Text {
    pub open spec fn ok(self) -> bool {
        0 <= self.size <= TEXT_SIZE_LIMIT
    }

    pub fn new(text: String) -> (r: Text)
        ensures
            r.text == text,
            r.size == DEFAULT_TEXT_SIZE,
            r.color == Color::default_text_spec(),
            r.link is None,
            !r.is_bold,
            r.font == 0,
    {
        Text { text, size: DEFAULT_TEXT_SIZE, color: Color::default_text(), link: None, is_bold: false, font: 0 }
    }

    pub fn with_size(self, size: i64) -> (r: Text)
        ensures
            r == (Text { size, ..self }),
    {
        Text { size, ..self }
    }

    pub fn with_color(self, color: Color) -> (r: Text)
        ensures
            r == (Text { color, ..self }),
    {
        Text { color, ..self }
    }

    pub fn with_link(self, link: String) -> (r: Text)
        ensures
            r == (Text { link: Some(link), ..self }),
    {
        Text { link: Some(link), ..self }
    }

    pub fn make_bold(self, bold: bool) -> (r: Text)
        ensures
            r == (Text { is_bold: bold, ..self }),
    {
        Text { is_bold: bold, ..self }
    }

    pub fn with_font(self, font_index: usize) -> (r: Text)
        ensures
            r == (Text { font: font_index, ..self }),
    {
        Text { font: font_index, ..self }
    }

    /// Identifier of the shaping service's font for this run: two per family,
    /// the regular face first and the bold one second.
    pub fn font_id(&self) -> (r: usize)
        requires
            self.font * 2 + 1 <= usize::MAX,
        ensures
            r == self.font * 2 + if self.is_bold { 1int } else { 0int },
    {
        if self.is_bold {
            self.font * 2 + 1
        } else {
            self.font * 2
        }
    }

    /// A copy of the run.
    pub fn duplicate(&self) -> (r: Text)
        ensures
            r == *self,
    {
        let link = match &self.link {
            Some(l) => Some(l.clone()),
            None => None,
        };
        Text {
            text: self.text.clone(),
            size: self.size,
            color: self.color,
            link,
            is_bold: self.is_bold,
            font: self.font,
        }
    }
}

impl TextBox {
    pub open spec fn ok(self) -> bool {
        &&& self.layout.ok(self.texts@.len())
        &&& forall|i: int| 0 <= i < self.texts@.len() ==> #[trigger] self.texts@[i].ok()
        &&& self.is_quote_block matches Some(n) ==> n <= QUOTE_NEST_LIMIT
    }

    /// Every character of the runs has its glyph, in run order.
    pub open spec fn fully_shaped(self) -> bool {
        glyph_chars(self.layout.glyphs@) == runs_text(self.texts@)
    }

    /// The glyph at `i`, moved to `origin`, contains `loc`.
    pub open spec fn hit(self, i: int, origin: Point, loc: Point) -> bool {
        self.layout.glyphs@[i].rect.shifted(origin.x as int, origin.y as int).contains_spec(loc)
    }

    pub open spec fn cursor_of(self, i: int) -> CursorIcon {
        if self.texts@[self.layout.glyphs@[i].section_index as int].link is Some {
            CursorIcon::Hand
        } else {
            CursorIcon::Text
        }
    }

    pub fn new(texts: Vec<Text>, layout: Layout) -> (r: TextBox)
        ensures
            r.indent == 0,
            r.texts@ == texts@,
            !r.is_code_block,
            r.is_quote_block is None,
            r.is_checkbox is None,
            r.background_color is None,
            r.layout == layout,
    {
        TextBox {
            indent: 0,
            texts,
            is_code_block: false,
            is_quote_block: None,
            is_checkbox: None,
            background_color: None,
            layout,
        }
    }

    pub fn with_indent(self, indent: i64) -> (r: TextBox)
        ensures
            r == (TextBox { indent, ..self }),
    {
        TextBox { indent, ..self }
    }

    /// Pointer shape over `loc` when the box is laid out at `screen_position`:
    /// that of the first glyph containing `loc` (a hand over a link, a caret
    /// over other text), or the default one over no glyph.
    pub fn hovering_over(&self, loc: Point, screen_position: Point) -> (r: CursorIcon)
        requires
            self.ok(),
            coord_placed(screen_position.x as int),
            coord_placed(screen_position.y as int),
        ensures
            r == CursorIcon::Default <==> forall|i: int|
                0 <= i < self.layout.glyphs@.len() ==> !self.hit(i, screen_position, loc),
            r != CursorIcon::Default ==> exists|i: int|
                0 <= i < self.layout.glyphs@.len() && self.hit(i, screen_position, loc) && (forall|j: int|
                    0 <= j < i ==> !self.hit(j, screen_position, loc)) && r == self.cursor_of(i),
    {
        let glyphs = &self.layout.glyphs;
        let mut i: usize = 0;
        while i < glyphs.len()
            invariant
                self.ok(),
                coord_placed(screen_position.x as int),
                coord_placed(screen_position.y as int),
                i <= glyphs@.len(),
                glyphs == &self.layout.glyphs,
                forall|j: int| 0 <= j < i ==> !self.hit(j, screen_position, loc),
            decreases glyphs.len() - i,
        {
            let g = &glyphs[i];
            assert(g.ok());
            let rect = g.rect.shift(screen_position.x, screen_position.y);
            if rect.contains(loc) {
                let r = if self.texts[g.section_index].link.is_some() {
                    CursorIcon::Hand
                } else {
                    CursorIcon::Text
                };
                assert(self.hit(i as int, screen_position, loc));
                assert(r == self.cursor_of(i as int));
                return r;
            }
            i += 1;
        }
        CursorIcon::Default
    }

    /// Links to open for a click at `loc` when the box is laid out at
    /// `screen_position`: the link of the run of each glyph containing `loc`,
    /// in glyph order.
    pub fn click(&self, loc: Point, screen_position: Point) -> (r: Vec<String>)
        requires
            self.ok(),
            coord_placed(screen_position.x as int),
            coord_placed(screen_position.y as int),
        ensures
            r@ == clicked_links(self.layout.glyphs@, self.texts@, screen_position, loc),
    {
        let glyphs = &self.layout.glyphs;
        let mut out: Vec<String> = Vec::new();
        let mut i: usize = 0;
        while i < glyphs.len()
            invariant
                self.ok(),
                coord_placed(screen_position.x as int),
                coord_placed(screen_position.y as int),
                i <= glyphs@.len(),
                glyphs == &self.layout.glyphs,
                out@ == clicked_links(glyphs@.take(i as int), self.texts@, screen_position, loc),
            decreases glyphs.len() - i,
        {
            let g = &glyphs[i];
            assert(g.ok());
            assert(glyphs@.take(i + 1).drop_last() =~= glyphs@.take(i as int));
            let rect = g.rect.shift(screen_position.x, screen_position.y);
            if rect.contains(loc) {
                match &self.texts[g.section_index].link {
                    Some(link) => {
                        out.push(link.clone());
                    },
                    None => {},
                }
            }
            i += 1;
            assert(out@ =~= clicked_links(glyphs@.take(i as int), self.texts@, screen_position, loc));
        }
        assert(glyphs@.take(i as int) =~= glyphs@);
        out
    }

    /// Measured extent of the text: zero for a box without runs, else what the
    /// shaping service measured.
    pub fn size(&self) -> (r: Size)
        ensures
            self.texts@.len() == 0 ==> r == (Size { w: 0, h: 0 }),
            self.texts@.len() != 0 ==> r == self.layout.size,
    {
        if self.texts.len() == 0 {
            Size { w: 0, h: 0 }
        } else {
            self.layout.size
        }
    }

    /// Highlight boxes and text of a selection over the box laid out at
    /// `screen_position`: each glyph that the selection touches gives its box
    /// and its character, in glyph order.
    pub fn render_selection(&self, screen_position: Point, selection: Selection) -> (r: (Vec<Rect>, Vec<char>))
        requires
            self.ok(),
            coord_placed(screen_position.x as int),
            coord_placed(screen_position.y as int),
            selection.ok(),
        ensures
            r.0@ == selected_rects(self.layout.glyphs@, screen_position, selection),
            r.1@ == selected_chars(self.layout.glyphs@, screen_position, selection),
            forall|i: int| 0 <= i < r.0@.len() ==> (#[trigger] r.0@[i]).size.ok() && coord_placed(
                r.0@[i].pos.x - screen_position.x,
            ) && coord_placed(r.0@[i].pos.y - screen_position.y),
    {
        let glyphs = &self.layout.glyphs;
        let mut rects: Vec<Rect> = Vec::new();
        let mut chars: Vec<char> = Vec::new();
        let mut i: usize = 0;
        while i < glyphs.len()
            invariant
                self.ok(),
                coord_placed(screen_position.x as int),
                coord_placed(screen_position.y as int),
                selection.ok(),
                i <= glyphs@.len(),
                glyphs == &self.layout.glyphs,
                rects@ == selected_rects(glyphs@.take(i as int), screen_position, selection),
                chars@ == selected_chars(glyphs@.take(i as int), screen_position, selection),
                forall|k: int| 0 <= k < rects@.len() ==> (#[trigger] rects@[k]).size.ok() && coord_placed(
                    rects@[k].pos.x - screen_position.x,
                ) && coord_placed(rects@[k].pos.y - screen_position.y),
            decreases glyphs.len() - i,
        {
            let g = &glyphs[i];
            assert(g.ok());
            assert(glyphs@.take(i + 1).drop_last() =~= glyphs@.take(i as int));
            let rect = g.rect.shift(screen_position.x, screen_position.y);
            if selection.touches_exec(&rect) {
                rects.push(rect);
                chars.push(g.ch);
            }
            i += 1;
            assert(rects@ =~= selected_rects(glyphs@.take(i as int), screen_position, selection));
            assert(chars@ =~= selected_chars(glyphs@.take(i as int), screen_position, selection));
        }
        assert(glyphs@.take(i as int) =~= glyphs@);
        (rects, chars)
    }
}


impl Selection {
    pub fn is_ok(&self) -> (r: bool)
        ensures
            r == self.ok(),
    {
        self.start.is_ok() && self.end.is_ok()
    }
}

impl Layout {
    pub fn is_ok(&self, n_runs: usize) -> (r: bool)
        ensures
            r == self.ok(n_runs as nat),
    {
        if !(crate::geometry::coord_in_range(self.size.w) && crate::geometry::coord_in_range(self.size.h)
            && self.size.w >= 0 && self.size.h >= 0) {
            return false;
        }
        let mut i: usize = 0;
        while i < self.glyphs.len()
            invariant
                i <= self.glyphs@.len(),
                forall|k: int| 0 <= k < i ==> #[trigger] self.glyphs@[k].ok(),
                forall|k: int| 0 <= k < i ==> #[trigger] self.glyphs@[k].section_index < n_runs,
            decreases self.glyphs.len() - i,
        {
            let g = &self.glyphs[i];
            if !(g.rect.is_ok() && g.rect.size.w >= 0 && g.rect.size.h >= 0 && g.section_index < n_runs) {
                assert(!(self.glyphs@[i as int].ok() && self.glyphs@[i as int].section_index < n_runs));
                return false;
            }
            i += 1;
        }
        let mut j: usize = 0;
        while j < self.lines.len()
            invariant
                j <= self.lines@.len(),
                forall|k: int| 0 <= k < j ==> (#[trigger] self.lines@[k]).0.ok() && self.lines@[k].1.ok(),
                forall|k: int|
                    0 <= k < j ==> 0 <= (#[trigger] self.lines@[k]).0.x <= self.size.w && 0 <= self.lines@[k].1.x
                        <= self.size.w,
            decreases self.lines.len() - j,
        {
            let (a, b) = self.lines[j];
            if !(a.is_ok() && b.is_ok() && 0 <= a.x && a.x <= self.size.w && 0 <= b.x && b.x <= self.size.w) {
                assert(!(self.lines@[j as int].0.ok() && self.lines@[j as int].1.ok() && 0 <= self.lines@[j as int].0.x
                    <= self.size.w && 0 <= self.lines@[j as int].1.x <= self.size.w));
                return false;
            }
            j += 1;
        }
        true
    }
}

impl TextBox {
    /// Whether the box and its layout are in range and consistent.
    pub fn is_ok(&self) -> (r: bool)
        ensures
            r == self.ok(),
    {
        if !self.layout.is_ok(self.texts.len()) {
            return false;
        }
        match self.is_quote_block {
            Some(n) => if n > QUOTE_NEST_LIMIT {
                return false;
            },
            None => {},
        }
        let mut i: usize = 0;
        while i < self.texts.len()
            invariant
                i <= self.texts@.len(),
                forall|k: int| 0 <= k < i ==> #[trigger] self.texts@[k].ok(),
            decreases self.texts.len() - i,
        {
            if !(0 <= self.texts[i].size && self.texts[i].size <= TEXT_SIZE_LIMIT) {
                assert(!self.texts@[i as int].ok());
                return false;
            }
            i += 1;
        }
        true
    }
}

} // verus!
