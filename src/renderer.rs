use crate::element::{col_width, header_height, row_height, Element, Positioned, Section, Table};
use crate::geometry::{
    coord_ok, coord_placed, Point, Rect, Size, COORD_LIMIT, PLACE_LIMIT, SCREEN_LIMIT,
};
use crate::mesh::{lemma_cat_assoc, lemma_cat_empty, Frame, FrameView, QueuedText, QueuedView, Shape};
use crate::text::{
    max_int, min_int, selected_chars, selected_rects, Color, Selection, TextBox, DEFAULT_TEXT_SIZE,
};
use vstd::prelude::*;

verus! {

/// Space kept free at the right edge of the page, in pixels.
pub const DEFAULT_MARGIN: i64 = 100;

/// Horizontal gap between table columns, in pixels.
pub const TABLE_COL_GAP: i64 = 20;

/// Vertical gap between table rows, in pixels.
pub const TABLE_ROW_GAP: i64 = 20;

/// A scale factor of one, in hundredths.
pub const SCALE_ONE: i64 = 100;

/// Largest scale factor, in hundredths.
pub const SCALE_LIMIT: i64 = 10000;

/// The colors a frame is painted with.
#[derive(Clone, Copy, Debug, PartialEq, Eq, Structural)]
pub struct Theme {
    pub background_color: Color,
    pub text_color: Color,
    pub select_color: Color,
    pub code_block_color: Color,
    pub quote_block_color: Color,
    pub checkbox_color: Color,
}

/// What a frame is painted from besides the elements: the screen, the scroll
/// offset, the scale factors (in hundredths), the theme and the selection.
#[derive(Clone, Copy, Debug, PartialEq, Eq, Structural)]
pub struct Settings {
    pub screen_size: Size,
    pub reserved_height: i64,
    pub scroll_y: i64,
    pub hidpi_scale: i64,
    pub zoom: i64,
    pub theme: Theme,
    pub selection: Option<Selection>,
}

/// Places an image at its place on the screen.
#[derive(Clone, Copy, Debug, PartialEq, Eq, Structural)]
pub struct ImagePlacement {
    pub id: usize,
    pub pos: Point,
    pub size: Size,
}

/// Paints frames: holds the settings and what the current frame has accumulated.
#[derive(Debug)]
pub struct Renderer {
    pub settings: Settings,
    pub frame: Frame,
}

/// The rectangle from `(x0, y0)` to `(x1, y1)`.
pub open spec fn min_max(x0: int, y0: int, x1: int, y1: int) -> Rect {
    Rect {
        pos: Point { x: x0 as i64, y: y0 as i64 },
        size: Size { w: (x1 - x0) as i64, h: (y1 - y0) as i64 },
    }
}

pub open spec fn fill(r: Rect, color: Color) -> FrameView {
    FrameView::shape(Shape::FillRect { rect: r, color })
}

/// Half of `v`, rounded towards zero.
pub open spec fn half(v: int) -> int {
    if v >= 0 { v / 2 } else { -((-v) / 2) }
}

fn half_i64(v: i64) -> (r: i64)
    requires
        coord_ok(v as int),
    ensures
        r == half(v as int),
{
    if v >= 0 {
        v / 2
    } else {
        -((-v) / 2)
    }
}

fn min_i64(a: i64, b: i64) -> (r: i64)
    ensures
        r == min_int(a as int, b as int),
{
    if a <= b {
        a
    } else {
        b
    }
}

fn max_i64(a: i64, b: i64) -> (r: i64)
    ensures
        r == max_int(a as int, b as int),
{
    if a >= b {
        a
    } else {
        b
    }
}

/// Every element has its bounds, in range and not inverted, and what it holds is valid.
pub open spec fn elem_ok(p: Positioned<Element>) -> bool
    decreases p,
{
    &&& p.bounds is Some
    &&& p.bounds->0.ok()
    &&& match p.inner {
        Element::TextBox(tb) => tb.ok(),
        Element::Table(t) => t.ok(),
        Element::Image(_) => true,
        Element::Spacer(_) => true,
        Element::Row(r) => list_ok(r.elements@),
        Element::Section(s) => {
            &&& match s.summary {
                Some(b) => elem_ok(*b),
                None => true,
            }
            &&& list_ok(s.elements@)
        },
    }
}

pub open spec fn list_ok(es: Seq<Positioned<Element>>) -> bool
    decreases es,
{
    forall|i: int| 0 <= i < es.len() ==> elem_ok(#[trigger] es[i])
}

/// Left edge of column `c` relative to the table.
pub open spec fn col_x(t: Table, c: int) -> int
    decreases c,
{
    if c <= 0 {
        0
    } else {
        col_x(t, c - 1) + col_width(t, c - 1) + TABLE_COL_GAP
    }
}

/// Top of body row `r` relative to the table.
pub open spec fn row_y(t: Table, r: int) -> int
    decreases r,
{
    if r <= 0 {
        header_height(t) + TABLE_ROW_GAP
    } else {
        row_y(t, r - 1) + row_height(t, r - 1) + TABLE_COL_GAP / 2 + TABLE_ROW_GAP / 2
    }
}

proof fn lemma_col_x_bounds(t: Table, c: int)
    requires
        0 <= c <= t.headers@.len(),
        forall|k: int| 0 <= k < t.headers@.len() ==> 0 <= #[trigger] col_width(t, k) <= COORD_LIMIT,
    ensures
        0 <= col_x(t, c) <= c * (COORD_LIMIT + TABLE_COL_GAP),
    decreases c,
{
    if c > 0 {
        lemma_col_x_bounds(t, c - 1);
        assert(0 <= col_width(t, c - 1) <= COORD_LIMIT);
    }
}

proof fn lemma_mul_table(n: int)
    requires
        0 <= n <= 16385,
    ensures
        n * (COORD_LIMIT + TABLE_COL_GAP) <= 16385 * (COORD_LIMIT + TABLE_COL_GAP),
{
    assert(n * (COORD_LIMIT + TABLE_COL_GAP) <= 16385 * (COORD_LIMIT + TABLE_COL_GAP)) by (nonlinear_arith)
        requires
            0 <= n <= 16385,
    ;
}

proof fn lemma_row_y_bounds(t: Table, r: int)
    requires
        0 <= r <= t.rows@.len(),
        0 <= header_height(t) <= COORD_LIMIT,
        forall|k: int| 0 <= k < t.rows@.len() ==> 0 <= #[trigger] row_height(t, k) <= COORD_LIMIT,
    ensures
        0 <= row_y(t, r) <= (r + 1) * (COORD_LIMIT + TABLE_ROW_GAP),
    decreases r,
{
    if r > 0 {
        lemma_row_y_bounds(t, r - 1);
        assert(0 <= row_height(t, r - 1) <= COORD_LIMIT);
    }
}

impl Settings {
    pub open spec fn ok(self) -> bool {
        &&& self.screen_size.screen_ok()
        &&& coord_ok(self.reserved_height as int)
        &&& 0 <= self.scroll_y <= COORD_LIMIT
        &&& 0 <= self.hidpi_scale <= SCALE_LIMIT
        &&& 0 <= self.zoom <= SCALE_LIMIT
        &&& self.selection matches Some(s) ==> s.ok()
    }

    /// `k` pixels of ink, scaled by the device and zoom factors.
    pub open spec fn ink(self, k: int) -> int {
        k * self.hidpi_scale * self.zoom / (SCALE_ONE * SCALE_ONE)
    }

    /// Right edge of the drawable page.
    pub open spec fn right_edge(self) -> int {
        self.screen_size.w - DEFAULT_MARGIN
    }

    /// Width text starting at `x` may wrap in.
    pub open spec fn wrap_width(self, x: int) -> int {
        max_int(self.screen_size.w - x - DEFAULT_MARGIN, 0)
    }

    /// Side of the checkbox of a text box.
    pub open spec fn box_size(self, tb: TextBox) -> int {
        let font_size = if tb.texts@.len() > 0 { tb.texts@[0].size as int } else { DEFAULT_TEXT_SIZE as int };
        font_size * self.hidpi_scale * self.zoom * 75 / (SCALE_ONE * SCALE_ONE * 100)
    }

    /// Background behind a code or quote block.
    pub open spec fn background_delta(self, tb: TextBox, sx: int, sy: int, h: int, bw: int) -> FrameView {
        if tb.is_code_block || tb.is_quote_block is Some {
            let color = match tb.background_color {
                Some(c) => c,
                None => if tb.is_code_block { self.theme.code_block_color } else { self.theme.quote_block_color },
            };
            let x0 = sx - 10;
            let x1 = min_int(x0 + bw + 10, self.right_edge());
            let min_x = match tb.is_quote_block {
                Some(n) => x0 - (n - 1) * (DEFAULT_MARGIN / 2),
                None => x0,
            };
            if min_x < self.right_edge() {
                fill(min_max(min_x, sy, x1, sy + h + self.ink(5)), color)
            } else {
                FrameView::empty()
            }
        } else {
            FrameView::empty()
        }
    }

    /// Indent bar of quote nesting level `n`.
    pub open spec fn bar(self, n: int, sx: int, sy: int, h: int) -> FrameView {
        let indent = n * (DEFAULT_MARGIN / 2);
        fill(
            min_max(
                min_int(sx - 10 - self.ink(5) - indent, self.right_edge()),
                sy,
                min_int(sx - 10 - indent, self.right_edge()),
                sy + h + self.ink(5),
            ),
            self.theme.select_color,
        )
    }

    /// Indent bars of the first `k` nesting levels.
    pub open spec fn bars(self, k: int, sx: int, sy: int, h: int) -> FrameView
        decreases k,
    {
        if k <= 0 {
            FrameView::empty()
        } else {
            self.bars(k - 1, sx, sy, h).cat(self.bar(k - 1, sx, sy, h))
        }
    }

    pub open spec fn bars_delta(self, tb: TextBox, sx: int, sy: int, h: int) -> FrameView {
        match tb.is_quote_block {
            Some(n) => self.bars(n as int, sx, sy, h),
            None => FrameView::empty(),
        }
    }

    /// The checkmark inside a box whose top-left corner is `min`.
    pub open spec fn tick(self, min: Point, b: int) -> Shape {
        Shape::StrokePolyline {
            a: Point { x: (min.x + b * 2 / 10) as i64, y: (min.y + b * 5 / 10) as i64 },
            b: Point { x: (min.x + b * 4 / 10) as i64, y: (min.y + b * 7 / 10) as i64 },
            c: Point { x: (min.x + b * 8 / 10) as i64, y: (min.y + b * 2 / 10) as i64 },
            color: self.theme.text_color,
            width: 4,
        }
    }

    /// Checkbox left of a text box: fill and tick when checked, then the border;
    /// nothing when it would reach past the right edge.
    pub open spec fn checkbox_delta(self, tb: TextBox, sx: int, sy: int, h: int) -> FrameView {
        match tb.is_checkbox {
            Some(checked) => {
                let b = self.box_size(tb);
                let r = min_max(sx - b - 10, sy + half(h) - b / 2, sx - 10, sy + half(h) + b / 2);
                if sx - 10 < self.right_edge() {
                    let border = FrameView::shape(
                        Shape::StrokeRect { rect: r, color: self.theme.text_color, width: 2 },
                    );
                    if checked {
                        fill(r, self.theme.checkbox_color).cat(FrameView::shape(self.tick(r.pos, b))).cat(
                            border,
                        )
                    } else {
                        border
                    }
                } else {
                    FrameView::empty()
                }
            },
            None => FrameView::empty(),
        }
    }

    /// A horizontal coordinate kept between the left of the text and the right edge.
    pub open spec fn clamp_x(self, v: int, left: int) -> int {
        max_int(min_int(v, self.right_edge()), left)
    }

    /// Underline bars of the first `k` visual lines.
    pub open spec fn lines_delta(self, lines: Seq<(Point, Point)>, k: int, left: int, sx: int, sy: int) -> FrameView
        decreases k,
    {
        if k <= 0 {
            FrameView::empty()
        } else {
            let (a, b) = lines[k - 1];
            self.lines_delta(lines, k - 1, left, sx, sy).cat(
                fill(
                    min_max(
                        self.clamp_x(a.x + sx, left),
                        a.y + sy,
                        self.clamp_x(b.x + sx, left),
                        b.y + sy + self.ink(2),
                    ),
                    self.theme.text_color,
                ),
            )
        }
    }

    /// Highlight over the selected glyph box `r`, given in document coordinates.
    pub open spec fn highlight(self, r: Rect) -> Shape {
        Shape::FillRect { rect: r.shifted(0, -self.scroll_y), color: self.theme.select_color }
    }

    /// Highlight shapes and characters of the selection over a text box laid out at `pos`.
    pub open spec fn selection_delta(self, tb: TextBox, pos: Point) -> FrameView {
        match self.selection {
            Some(sel) => FrameView {
                shapes: selected_rects(tb.layout.glyphs@, pos, sel).map_values(|r: Rect| self.highlight(r)),
                queued: Seq::empty(),
                selected: selected_chars(tb.layout.glyphs@, pos, sel),
            },
            None => FrameView::empty(),
        }
    }

    /// A table cell at document position `at`: its text is queued, then its selection drawn.
    pub open spec fn cell_delta(self, tb: TextBox, at: Point, wrap: int) -> FrameView {
        FrameView::text(QueuedView { texts: tb.texts@, screen_position: at, wrap_width: wrap as i64 }).cat(
            self.selection_delta(tb, at),
        )
    }

    /// The header cells of the first `k` columns.
    pub open spec fn header_cells(self, t: Table, pos: Point, k: int) -> FrameView
        decreases k,
    {
        if k <= 0 {
            FrameView::empty()
        } else {
            let x = col_x(t, k - 1);
            self.header_cells(t, pos, k - 1).cat(
                self.cell_delta(
                    t.headers@[k - 1],
                    Point { x: (pos.x + x) as i64, y: pos.y },
                    min_int(self.screen_size.w - pos.x - x - DEFAULT_MARGIN, self.right_edge()),
                ),
            )
        }
    }

    /// The cells of body row `r` among the first `k` columns; a missing cell gives nothing.
    pub open spec fn row_cells(self, t: Table, r: int, pos: Point, y: int, k: int) -> FrameView
        decreases k,
    {
        if k <= 0 {
            FrameView::empty()
        } else {
            let x = col_x(t, k - 1);
            let row = t.rows@[r]@;
            self.row_cells(t, r, pos, y, k - 1).cat(
                if k - 1 < row.len() {
                    self.cell_delta(
                        row[k - 1],
                        Point { x: (pos.x + x) as i64, y: (pos.y + y) as i64 },
                        self.screen_size.w - pos.x - x - DEFAULT_MARGIN,
                    )
                } else {
                    FrameView::empty()
                },
            )
        }
    }

    /// A rule across a table, `xend` wide, at screen height `y`.
    pub open spec fn divider(self, sx: int, y: int, xend: int, color: Color) -> FrameView {
        fill(
            min_max(
                min_int(sx, self.right_edge()),
                y,
                min_int(max_int(sx + xend, sx), self.right_edge()),
                y + self.ink(3),
            ),
            color,
        )
    }

    /// The first `n` body rows, each followed by its divider.
    pub open spec fn rows_delta(self, t: Table, pos: Point, n: int) -> FrameView
        decreases n,
    {
        if n <= 0 {
            FrameView::empty()
        } else {
            let y = row_y(t, n - 1);
            self.rows_delta(t, pos, n - 1).cat(
                self.row_cells(t, n - 1, pos, y, t.headers@.len() as int),
            ).cat(
                self.divider(
                    pos.x as int,
                    pos.y - self.scroll_y + y + row_height(t, n - 1) + TABLE_COL_GAP / 2,
                    col_x(t, t.headers@.len() as int),
                    self.theme.code_block_color,
                ),
            )
        }
    }

    /// A table at document position `pos`: the header cells, a divider in the
    /// text color, then the body rows.
    pub open spec fn table_delta(self, t: Table, pos: Point) -> FrameView {
        self.header_cells(t, pos, t.headers@.len() as int).cat(
            self.divider(
                pos.x as int,
                pos.y - self.scroll_y + header_height(t) + TABLE_ROW_GAP / 2,
                col_x(t, t.headers@.len() as int),
                self.theme.text_color,
            ),
        ).cat(self.rows_delta(t, pos, t.rows@.len() as int))
    }

    /// The element lies wholly above the screen.
    pub open spec fn above(self, p: Positioned<Element>) -> bool {
        p.bounds->0.pos.y - self.scroll_y + p.bounds->0.size.h <= 0
    }

    /// The element starts at or below the bottom of the screen.
    pub open spec fn below(self, p: Positioned<Element>) -> bool {
        p.bounds->0.pos.y - self.scroll_y >= self.screen_size.h
    }

    /// The rule of a visible spacer with bounds `b`.
    pub open spec fn spacer_delta(self, b: Rect) -> FrameView {
        fill(
            Rect {
                pos: Point {
                    x: DEFAULT_MARGIN as i64,
                    y: (b.pos.y - self.scroll_y + half(b.size.h as int) - self.ink(2)) as i64,
                },
                size: Size { w: (self.screen_size.w - 2 * DEFAULT_MARGIN) as i64, h: self.ink(2) as i64 },
            },
            self.theme.text_color,
        )
    }

    /// The disclosure marker left of a summary with bounds `b`: pointing
    /// right when the section is hidden, down when it is shown.
    pub open spec fn marker_delta(self, b: Rect, hidden: bool) -> FrameView {
        let x = b.pos.x - self.ink(5);
        let y = b.pos.y + half(b.size.h as int) - self.scroll_y;
        let color = self.theme.text_color;
        if hidden {
            FrameView::shape(
                Shape::FillTriangle {
                    a: Point { x: x as i64, y: y as i64 },
                    b: Point { x: (x - 10) as i64, y: (y + 10) as i64 },
                    c: Point { x: (x - 10) as i64, y: (y - 10) as i64 },
                    color,
                },
            )
        } else {
            FrameView::shape(
                Shape::FillTriangle {
                    a: Point { x: x as i64, y: (y - 5) as i64 },
                    b: Point { x: (x - 20) as i64, y: (y - 5) as i64 },
                    c: Point { x: (x - 10) as i64, y: (y + 5) as i64 },
                    color,
                },
            )
        }
    }

    /// The marker and summary of a section.
    pub open spec fn section_head(self, s: Section) -> FrameView
        decreases s,
    {
        match s.summary {
            Some(sm) => self.marker_delta(sm.bounds->0, s.hidden).cat(self.paint(*sm)),
            None => FrameView::empty(),
        }
    }

    /// What a list of elements paints, in order, stopping at the first element
    /// that starts below the screen.
    pub open spec fn walk(self, es: Seq<Positioned<Element>>) -> FrameView
        decreases es,
    {
        if es.len() == 0 {
            FrameView::empty()
        } else if self.below(es[0]) {
            FrameView::empty()
        } else {
            self.paint(es[0]).cat(self.walk(es.subrange(1, es.len() as int)))
        }
    }

    /// What one element paints: nothing when it lies off the screen, else what its kind draws.
    pub open spec fn paint(self, p: Positioned<Element>) -> FrameView
        decreases p,
    {
        if self.above(p) || self.below(p) {
            FrameView::empty()
        } else {
            let b = p.bounds->0;
            match p.inner {
                Element::TextBox(tb) => self.text_box_delta(tb, b.pos, b.size),
                Element::Table(t) => self.table_delta(t, b.pos),
                Element::Image(_) => FrameView::empty(),
                Element::Spacer(sp) => if sp.visible {
                    self.spacer_delta(b)
                } else {
                    FrameView::empty()
                },
                Element::Row(r) => self.walk(r.elements@),
                Element::Section(s) => self.section_head(s).cat(
                    if s.hidden { FrameView::empty() } else { self.walk(s.elements@) },
                ),
            }
        }
    }

    /// The scrollbar thumb at the right edge: as tall as the visible share of
    /// the content and as far down as the scrolled share; nothing while there
    /// is no content.
    /// Top of the scrollbar thumb: the scrolled share of the screen height,
    /// rounded down.
    pub open spec fn thumb_top(self) -> int {
        self.scroll_y * self.screen_size.h / self.reserved_height as int
    }

    /// Height of the scrollbar thumb: the visible share of the screen height,
    /// rounded up so that the thumb never vanishes.
    pub open spec fn thumb_height(self) -> int {
        let sh = self.screen_size.h as int;
        (sh * sh + self.reserved_height - 1) / self.reserved_height as int
    }

    pub open spec fn scrollbar_delta(self) -> FrameView {
        if self.reserved_height > 0 {
            let sh = self.screen_size.h as int;
            fill(
                Rect {
                    pos: Point {
                        x: (self.screen_size.w - DEFAULT_MARGIN / 4) as i64,
                        y: self.thumb_top() as i64,
                    },
                    size: Size { w: (DEFAULT_MARGIN / 4) as i64, h: self.thumb_height() as i64 },
                },
                Color { r: 77, g: 77, b: 77, a: 255 },
            )
        } else {
            FrameView::empty()
        }
    }

    /// Where an image element, placed directly, goes on the screen.
    pub open spec fn image_of(self, p: Positioned<Element>) -> Seq<ImagePlacement> {
        match p.inner {
            Element::Image(im) => seq![
                ImagePlacement {
                    id: im.id,
                    pos: Point { x: p.bounds->0.pos.x, y: (p.bounds->0.pos.y - self.scroll_y) as i64 },
                    size: p.bounds->0.size,
                },
            ],
            _ => Seq::empty(),
        }
    }

    /// Images of one element, nested ones included, with the same culling
    /// and the same hidden bodies as the walk.
    pub open spec fn element_images(self, p: Positioned<Element>) -> Seq<ImagePlacement>
        decreases p,
    {
        if self.above(p) || self.below(p) {
            Seq::empty()
        } else {
            match p.inner {
                Element::Image(_) => self.image_of(p),
                Element::Row(r) => self.images(r.elements@),
                Element::Section(s) => (match s.summary {
                    Some(sm) => self.element_images(*sm),
                    None => Seq::empty(),
                }) + if s.hidden {
                    Seq::empty()
                } else {
                    self.images(s.elements@)
                },
                _ => Seq::empty(),
            }
        }
    }

    /// Images to draw this frame, in walk order, stopping where the walk stops.
    pub open spec fn images(self, es: Seq<Positioned<Element>>) -> Seq<ImagePlacement>
        decreases es,
    {
        if es.len() == 0 {
            Seq::empty()
        } else if self.below(es[0]) {
            Seq::empty()
        } else {
            self.element_images(es[0]) + self.images(es.subrange(1, es.len() as int))
        }
    }

    /// A text box at document position `pos` with the given size: its text is
    /// queued, then come the background, the quote bars, the checkbox, the
    /// underline bars and the selection.
    pub open spec fn text_box_delta(self, tb: TextBox, pos: Point, size: Size) -> FrameView {
        let sx = pos.x as int;
        let sy = pos.y - self.scroll_y;
        let bw = self.wrap_width(pos.x as int);
        FrameView::text(QueuedView { texts: tb.texts@, screen_position: pos, wrap_width: bw as i64 }).cat(
            self.background_delta(tb, sx, sy, size.h as int, bw),
        ).cat(self.bars_delta(tb, sx, sy, size.h as int)).cat(
            self.checkbox_delta(tb, sx, sy, size.h as int),
        ).cat(self.lines_delta(tb.layout.lines@, tb.layout.lines@.len() as int, pos.x as int, sx, sy)).cat(
            self.selection_delta(tb, pos),
        )
    }
}

impl Renderer {
    pub open spec fn ok(&self) -> bool {
        self.settings.ok()
    }

    /// `k` pixels of ink, scaled.
    fn ink(&self, k: i64) -> (r: i64)
        requires
            self.ok(),
            0 <= k <= 5,
        ensures
            r == self.settings.ink(k as int),
            0 <= r <= 50000,
    {
        let h = self.settings.hidpi_scale;
        let z = self.settings.zoom;
        assert(0 <= k * h <= 50000) by (nonlinear_arith)
            requires
                0 <= k <= 5,
                0 <= h <= 10000,
        ;
        assert(0 <= k * h * z <= 500000000) by (nonlinear_arith)
            requires
                0 <= k * h <= 50000,
                0 <= z <= 10000,
        ;
        k * h * z / (SCALE_ONE * SCALE_ONE)
    }

    fn fill_rectangle(&mut self, rect: Rect, color: Color)
        ensures
            final(self).settings == old(self).settings,
            final(self).frame.view() == old(self).frame.view().cat(fill(rect, color)),
    {
        self.frame.push_shape(Shape::FillRect { rect, color });
    }

    fn paint_background(&mut self, tb: &TextBox, sx: i64, sy: i64, h: i64, bw: i64)
        requires
            old(self).ok(),
            tb.ok(),
            coord_ok(sx as int),
            -2 * COORD_LIMIT <= sy <= COORD_LIMIT,
            -COORD_LIMIT <= h <= COORD_LIMIT,
            0 <= bw <= 2 * COORD_LIMIT,
        ensures
            final(self).settings == old(self).settings,
            final(self).frame.view() == old(self).frame.view().cat(
                old(self).settings.background_delta(*tb, sx as int, sy as int, h as int, bw as int),
            ),
    {
        let st = self.settings;
        if tb.is_code_block || tb.is_quote_block.is_some() {
            let color = match tb.background_color {
                Some(c) => c,
                None => if tb.is_code_block {
                    st.theme.code_block_color
                } else {
                    st.theme.quote_block_color
                },
            };
            let right = st.screen_size.w - DEFAULT_MARGIN;
            let x0 = sx - 10;
            let x1 = min_i64(x0 + bw + 10, right);
            let min_x = match tb.is_quote_block {
                Some(n) => x0 - (n as i64 - 1) * (DEFAULT_MARGIN / 2),
                None => x0,
            };
            if min_x < right {
                let ink = self.ink(5);
                let r = Rect::from_min_max(Point { x: min_x, y: sy }, Point { x: x1, y: sy + h + ink });
                assert(r == min_max(min_x as int, sy as int, x1 as int, sy + h + ink));
                self.fill_rectangle(r, color);
            } else {
                proof { lemma_cat_empty(self.frame.view()); }
            }
        } else {
            proof { lemma_cat_empty(self.frame.view()); }
        }
    }

    fn paint_bars(&mut self, tb: &TextBox, sx: i64, sy: i64, h: i64)
        requires
            old(self).ok(),
            tb.ok(),
            coord_ok(sx as int),
            -2 * COORD_LIMIT <= sy <= COORD_LIMIT,
            -COORD_LIMIT <= h <= COORD_LIMIT,
        ensures
            final(self).settings == old(self).settings,
            final(self).frame.view() == old(self).frame.view().cat(
                old(self).settings.bars_delta(*tb, sx as int, sy as int, h as int),
            ),
    {
        let ghost f0 = self.frame.view();
        let st = self.settings;
        match tb.is_quote_block {
            Some(nest) => {
                let right = st.screen_size.w - DEFAULT_MARGIN;
                let ink = self.ink(5);
                let mut n: usize = 0;
                proof { lemma_cat_empty(f0); }
                while n < nest
                    invariant
                        self.ok(),
                        self.settings == st,
                        tb.is_quote_block == Some(nest),
                        nest <= crate::text::QUOTE_NEST_LIMIT,
                        n <= nest,
                        right == st.right_edge(),
                        ink == st.ink(5),
                        0 <= ink <= 50000,
                        coord_ok(sx as int),
                        -2 * COORD_LIMIT <= sy <= COORD_LIMIT,
                        -COORD_LIMIT <= h <= COORD_LIMIT,
                        self.frame.view() == f0.cat(st.bars(n as int, sx as int, sy as int, h as int)),
                    decreases nest - n,
                {
                    assert(n <= 1024);
                    let indent = n as i64 * 50;
                    let min = Point { x: min_i64(sx - 10 - ink - indent, right), y: sy };
                    let max = Point { x: min_i64(sx - 10 - indent, right), y: sy + h + ink };
                    let r = Rect::from_min_max(min, max);
                    self.fill_rectangle(r, st.theme.select_color);
                    proof {
                        lemma_cat_assoc(
                            f0,
                            st.bars(n as int, sx as int, sy as int, h as int),
                            st.bar(n as int, sx as int, sy as int, h as int),
                        );
                    }
                    n += 1;
                }
            },
            None => {
                proof { lemma_cat_empty(f0); }
            },
        }
    }

    fn paint_checkbox(&mut self, tb: &TextBox, sx: i64, sy: i64, h: i64)
        requires
            old(self).ok(),
            tb.ok(),
            coord_ok(sx as int),
            -2 * COORD_LIMIT <= sy <= COORD_LIMIT,
            -COORD_LIMIT <= h <= COORD_LIMIT,
        ensures
            final(self).settings == old(self).settings,
            final(self).frame.view() == old(self).frame.view().cat(
                old(self).settings.checkbox_delta(*tb, sx as int, sy as int, h as int),
            ),
    {
        let ghost f0 = self.frame.view();
        let st = self.settings;
        match tb.is_checkbox {
            Some(checked) => {
                let font_size = if tb.texts.len() > 0 {
                    assert(tb.texts@[0].ok());
                    tb.texts[0].size
                } else {
                    DEFAULT_TEXT_SIZE
                };
                let hs = st.hidpi_scale;
                let z = st.zoom;
                assert(0 <= font_size * hs <= 655360000) by (nonlinear_arith)
                    requires
                        0 <= font_size <= 65536,
                        0 <= hs <= 10000,
                ;
                assert(0 <= font_size * hs * z <= 6553600000000) by (nonlinear_arith)
                    requires
                        0 <= font_size * hs <= 655360000,
                        0 <= z <= 10000,
                ;
                let p = font_size * hs * z;
                let b = p * 75 / (SCALE_ONE * SCALE_ONE * 100);
                assert(b == st.box_size(*tb));
                assert(0 <= b <= 491520000) by (nonlinear_arith)
                    requires
                        0 <= p <= 6553600000000,
                        b == p * 75 / 1000000,
                ;
                let right = st.screen_size.w - DEFAULT_MARGIN;
                let r = Rect::from_min_max(
                    Point { x: sx - b - 10, y: sy + half_i64(h) - b / 2 },
                    Point { x: sx - 10, y: sy + half_i64(h) + b / 2 },
                );
                if sx - 10 < right {
                    if checked {
                        self.fill_rectangle(r, st.theme.checkbox_color);
                        let tick = Shape::StrokePolyline {
                            a: Point { x: r.pos.x + b * 2 / 10, y: r.pos.y + b * 5 / 10 },
                            b: Point { x: r.pos.x + b * 4 / 10, y: r.pos.y + b * 7 / 10 },
                            c: Point { x: r.pos.x + b * 8 / 10, y: r.pos.y + b * 2 / 10 },
                            color: st.theme.text_color,
                            width: 4,
                        };
                        assert(tick == st.tick(r.pos, b as int));
                        self.frame.push_shape(tick);
                        proof { lemma_cat_assoc(f0, fill(r, st.theme.checkbox_color), FrameView::shape(tick)); }
                    } else {
                        proof { lemma_cat_empty(f0); }
                    }
                    let border = Shape::StrokeRect { rect: r, color: st.theme.text_color, width: 2 };
                    self.frame.push_shape(border);
                    proof {
                        if checked {
                            lemma_cat_assoc(
                                f0,
                                fill(r, st.theme.checkbox_color).cat(FrameView::shape(tick_of(st, r, b))),
                                FrameView::shape(border),
                            );
                        } else {
                            lemma_cat_empty(FrameView::shape(border));
                        }
                    }
                } else {
                    proof { lemma_cat_empty(f0); }
                }
            },
            None => {
                proof { lemma_cat_empty(f0); }
            },
        }
    }

    fn paint_lines(&mut self, tb: &TextBox, left: i64, sx: i64, sy: i64)
        requires
            old(self).ok(),
            tb.ok(),
            coord_ok(left as int),
            coord_ok(sx as int),
            -2 * COORD_LIMIT <= sy <= COORD_LIMIT,
        ensures
            final(self).settings == old(self).settings,
            final(self).frame.view() == old(self).frame.view().cat(
                old(self).settings.lines_delta(
                    tb.layout.lines@,
                    tb.layout.lines@.len() as int,
                    left as int,
                    sx as int,
                    sy as int,
                ),
            ),
    {
        let ghost f0 = self.frame.view();
        let st = self.settings;
        let right = st.screen_size.w - DEFAULT_MARGIN;
        let ink = self.ink(2);
        let lines = &tb.layout.lines;
        let mut i: usize = 0;
        proof { lemma_cat_empty(f0); }
        while i < lines.len()
            invariant
                self.ok(),
                self.settings == st,
                tb.ok(),
                lines == &tb.layout.lines,
                i <= lines@.len(),
                right == st.right_edge(),
                ink == st.ink(2),
                0 <= ink <= 50000,
                coord_ok(left as int),
                coord_ok(sx as int),
                -2 * COORD_LIMIT <= sy <= COORD_LIMIT,
                self.frame.view() == f0.cat(st.lines_delta(lines@, i as int, left as int, sx as int, sy as int)),
            decreases lines.len() - i,
        {
            let (a, b) = lines[i];
            assert(lines@[i as int].0.ok() && lines@[i as int].1.ok());
            let min = Point { x: max_i64(min_i64(a.x + sx, right), left), y: a.y + sy };
            let max = Point { x: max_i64(min_i64(b.x + sx, right), left), y: b.y + sy + ink };
            let r = Rect::from_min_max(min, max);
            self.fill_rectangle(r, st.theme.text_color);
            proof {
                lemma_cat_assoc(
                    f0,
                    st.lines_delta(lines@, i as int, left as int, sx as int, sy as int),
                    fill(r, st.theme.text_color),
                );
            }
            i += 1;
        }
    }

    /// Draws the selection over a text box laid out at document position `pos`
    /// and records its characters.
    fn paint_selection(&mut self, tb: &TextBox, pos: Point)
        requires
            old(self).ok(),
            tb.ok(),
            coord_placed(pos.x as int),
            coord_placed(pos.y as int),
        ensures
            final(self).settings == old(self).settings,
            final(self).frame.view() == old(self).frame.view().cat(old(self).settings.selection_delta(*tb, pos)),
    {
        let ghost f0 = self.frame.view();
        let st = self.settings;
        match st.selection {
            Some(sel) => {
                let (rects, chars) = tb.render_selection(pos, sel);
                self.frame.push_selected(&chars);
                let ghost f1 = self.frame.view();
                let mut i: usize = 0;
                while i < rects.len()
                    invariant
                        self.ok(),
                        self.settings == st,
                        st.selection == Some(sel),
                        i <= rects@.len(),
                        rects@ == selected_rects(tb.layout.glyphs@, pos, sel),
                        coord_placed(pos.x as int),
                        coord_placed(pos.y as int),
                        forall|k: int| 0 <= k < rects@.len() ==> (#[trigger] rects@[k]).size.ok() && coord_placed(
                            rects@[k].pos.x - pos.x,
                        ) && coord_placed(rects@[k].pos.y - pos.y),
                        self.frame.view() == f1.cat(FrameView {
                            shapes: rects@.take(i as int).map_values(|r: Rect| st.highlight(r)),
                            queued: Seq::empty(),
                            selected: Seq::empty(),
                        }),
                    decreases rects.len() - i,
                {
                    let rect = rects[i];
                    assert(rects@[i as int].size.ok());
                    let max = rect.max();
                    let r = Rect::from_min_max(
                        Point { x: rect.pos.x, y: rect.pos.y - st.scroll_y },
                        Point { x: max.x, y: max.y - st.scroll_y },
                    );
                    assert(r == rect.shifted(0, -st.scroll_y));
                    let ghost before = self.frame.view();
                    self.fill_rectangle(r, st.theme.select_color);
                    proof {
                        let d = FrameView {
                            shapes: rects@.take(i + 1).map_values(|r: Rect| st.highlight(r)),
                            queued: Seq::empty(),
                            selected: Seq::empty(),
                        };
                        assert(rect == rects@[i as int]);
                        assert(st.highlight(rect) == Shape::FillRect { rect: r, color: st.theme.select_color });
                        assert(rects@.take(i + 1).map_values(|r: Rect| st.highlight(r)) =~= rects@.take(i as int).map_values(|r: Rect| st.highlight(r)).push(st.highlight(rect)));
                        assert(self.frame.view().shapes =~= f1.cat(d).shapes);
                        assert(self.frame.view().queued =~= f1.cat(d).queued);
                        assert(self.frame.view().selected =~= f1.cat(d).selected);
                    }
                    i += 1;
                }
                proof {
                    assert(rects@.take(i as int) =~= rects@);
                    let d = st.selection_delta(*tb, pos);
                    let d2 = FrameView {
                        shapes: rects@.map_values(|r: Rect| st.highlight(r)),
                        queued: Seq::empty(),
                        selected: Seq::empty(),
                    };
                    assert(d.shapes =~= d2.shapes);
                    assert(self.frame.view().shapes =~= f0.cat(d).shapes);
                    assert(self.frame.view().queued =~= f0.cat(d).queued);
                    assert(self.frame.view().selected =~= f0.cat(d).selected);
                }
            },
            None => {
                proof { lemma_cat_empty(f0); }
            },
        }
    }

    /// Queues the runs of a text box at document position `pos`.
    fn queue_text(&mut self, tb: &TextBox, pos: Point, wrap_width: i64)
        ensures
            final(self).settings == old(self).settings,
            final(self).frame.view() == old(self).frame.view().cat(
                FrameView::text(QueuedView { texts: tb.texts@, screen_position: pos, wrap_width }),
            ),
    {
        let texts = crate::element::duplicate_runs(&tb.texts);
        self.frame.push_text(QueuedText { texts, screen_position: pos, wrap_width });
    }

    /// Paints a text box at document position `pos` with the given size.
    fn paint_text_box(&mut self, tb: &TextBox, pos: Point, size: Size)
        requires
            old(self).ok(),
            tb.ok(),
            pos.ok(),
            size.ok(),
        ensures
            final(self).settings == old(self).settings,
            final(self).frame.view() == old(self).frame.view().cat(old(self).settings.text_box_delta(*tb, pos, size)),
    {
        let ghost f0 = self.frame.view();
        let st = self.settings;
        let sx = pos.x;
        let sy = pos.y - st.scroll_y;
        let bw = max_i64(st.screen_size.w - pos.x - DEFAULT_MARGIN, 0);
        self.queue_text(tb, pos, bw);
        self.paint_background(tb, sx, sy, size.h, bw);
        self.paint_bars(tb, sx, sy, size.h);
        self.paint_checkbox(tb, sx, sy, size.h);
        self.paint_lines(tb, pos.x, sx, sy);
        self.paint_selection(tb, pos);
        proof {
            let q = FrameView::text(QueuedView { texts: tb.texts@, screen_position: pos, wrap_width: bw });
            let a = st.background_delta(*tb, sx as int, sy as int, size.h as int, bw as int);
            let b = st.bars_delta(*tb, sx as int, sy as int, size.h as int);
            let c = st.checkbox_delta(*tb, sx as int, sy as int, size.h as int);
            let d = st.lines_delta(tb.layout.lines@, tb.layout.lines@.len() as int, pos.x as int, sx as int, sy as int);
            let e = st.selection_delta(*tb, pos);
            lemma_cat_assoc(f0, q, a);
            lemma_cat_assoc(f0, q.cat(a), b);
            lemma_cat_assoc(f0, q.cat(a).cat(b), c);
            lemma_cat_assoc(f0, q.cat(a).cat(b).cat(c), d);
            lemma_cat_assoc(f0, q.cat(a).cat(b).cat(c).cat(d), e);
        }
    }

    fn paint_cell(&mut self, tb: &TextBox, at: Point, wrap: i64)
        requires
            old(self).ok(),
            tb.ok(),
            coord_placed(at.x as int),
            coord_placed(at.y as int),
        ensures
            final(self).settings == old(self).settings,
            final(self).frame.view() == old(self).frame.view().cat(
                old(self).settings.cell_delta(*tb, at, wrap as int),
            ),
    {
        let ghost f0 = self.frame.view();
        self.queue_text(tb, at, wrap);
        self.paint_selection(tb, at);
        proof {
            lemma_cat_assoc(
                f0,
                FrameView::text(QueuedView { texts: tb.texts@, screen_position: at, wrap_width: wrap }),
                self.settings.selection_delta(*tb, at),
            );
        }
    }

    fn paint_divider(&mut self, sx: i64, y: i64, xend: i64, color: Color)
        requires
            old(self).ok(),
            coord_ok(sx as int),
            coord_placed(y as int),
            0 <= xend <= PLACE_LIMIT,
        ensures
            final(self).settings == old(self).settings,
            final(self).frame.view() == old(self).frame.view().cat(
                old(self).settings.divider(sx as int, y as int, xend as int, color),
            ),
    {
        let right = self.settings.screen_size.w - DEFAULT_MARGIN;
        let ink = self.ink(3);
        let r = Rect::from_min_max(
            Point { x: min_i64(sx, right), y },
            Point { x: min_i64(max_i64(sx + xend, sx), right), y: y + ink },
        );
        self.fill_rectangle(r, color);
    }

    /// Paints a table at document position `pos`.
    fn paint_table(&mut self, t: &Table, pos: Point)
        requires
            old(self).ok(),
            t.ok(),
            pos.ok(),
        ensures
            final(self).settings == old(self).settings,
            final(self).frame.view() == old(self).frame.view().cat(old(self).settings.table_delta(*t, pos)),
    {
        let ghost f0 = self.frame.view();
        let st = self.settings;
        let widths = t.column_widths();
        let heights = t.row_heights();
        let ncols = widths.len();
        let sy = pos.y - st.scroll_y;
        let mut x: i64 = 0;
        let mut c: usize = 0;
        proof {
            lemma_cat_empty(f0);
            assert forall|k: int| 0 <= k < ncols implies 0 <= #[trigger] col_width(*t, k) <= COORD_LIMIT by {
                assert(widths@[k] == col_width(*t, k));
            }
        }
        while c < ncols
            invariant
                self.ok(),
                self.settings == st,
                t.ok(),
                pos.ok(),
                ncols == t.headers@.len(),
                widths@.len() == ncols,
                forall|k: int| 0 <= k < ncols ==> #[trigger] widths@[k] == col_width(*t, k),
                forall|k: int| 0 <= k < ncols ==> 0 <= #[trigger] col_width(*t, k) <= COORD_LIMIT,
                c <= ncols,
                x == col_x(*t, c as int),
                self.frame.view() == f0.cat(st.header_cells(*t, pos, c as int)),
            decreases ncols - c,
        {
            proof {
                lemma_col_x_bounds(*t, c as int);
                lemma_mul_table(c as int);
            }
            assert(t.headers@[c as int].ok());
            let at = Point { x: pos.x + x, y: pos.y };
            let wrap = min_i64(st.screen_size.w - pos.x - x - DEFAULT_MARGIN, st.screen_size.w - DEFAULT_MARGIN);
            self.paint_cell(&t.headers[c], at, wrap);
            proof {
                lemma_cat_assoc(
                    f0,
                    st.header_cells(*t, pos, c as int),
                    st.cell_delta(t.headers@[c as int], at, wrap as int),
                );
            }
            x = x + widths[c] + TABLE_COL_GAP;
            c += 1;
        }
        proof {
            lemma_col_x_bounds(*t, ncols as int);
            lemma_mul_table(ncols as int);
        }
        let xend = x;
        self.paint_divider(pos.x, sy + heights[0] + TABLE_ROW_GAP / 2, xend, st.theme.text_color);
        let ghost f2 = self.frame.view();
        let mut y: i64 = heights[0] + TABLE_ROW_GAP;
        let mut r: usize = 0;
        let nrows = t.rows.len();
        proof { lemma_cat_empty(f2); }
        while r < nrows
            invariant
                self.ok(),
                self.settings == st,
                t.ok(),
                pos.ok(),
                sy == pos.y - st.scroll_y,
                ncols == t.headers@.len(),
                nrows == t.rows@.len(),
                widths@.len() == ncols,
                forall|k: int| 0 <= k < ncols ==> #[trigger] widths@[k] == col_width(*t, k),
                forall|k: int| 0 <= k < ncols ==> 0 <= #[trigger] col_width(*t, k) <= COORD_LIMIT,
                heights@.len() == nrows + 1,
                heights@[0] == header_height(*t),
                forall|k: int| 0 <= k < nrows ==> #[trigger] heights@[k + 1] == row_height(*t, k),
                forall|k: int| 0 <= k < heights@.len() ==> 0 <= #[trigger] heights@[k] <= COORD_LIMIT,
                xend == col_x(*t, ncols as int),
                0 <= xend <= 16384 * (COORD_LIMIT + TABLE_COL_GAP),
                r <= nrows,
                y == row_y(*t, r as int),
                self.frame.view() == f2.cat(st.rows_delta(*t, pos, r as int)),
            decreases nrows - r,
        {
            proof {
                assert forall|k: int| 0 <= k < t.rows@.len() implies 0 <= #[trigger] row_height(*t, k) <= COORD_LIMIT by {
                    assert(heights@[k + 1] == row_height(*t, k));
                }
                lemma_row_y_bounds(*t, r as int);
                lemma_mul_table(r + 1);
            }
            let row = &t.rows[r];
            let ghost g0 = self.frame.view();
            let mut x: i64 = 0;
            let mut c: usize = 0;
            proof { lemma_cat_empty(g0); }
            while c < ncols
                invariant
                    self.ok(),
                    self.settings == st,
                    t.ok(),
                    pos.ok(),
                    r < nrows,
                    nrows == t.rows@.len(),
                    row == &t.rows@[r as int],
                    ncols == t.headers@.len(),
                    widths@.len() == ncols,
                    forall|k: int| 0 <= k < ncols ==> #[trigger] widths@[k] == col_width(*t, k),
                    forall|k: int| 0 <= k < ncols ==> 0 <= #[trigger] col_width(*t, k) <= COORD_LIMIT,
                    0 <= y <= 16385 * (COORD_LIMIT + TABLE_ROW_GAP),
                    c <= ncols,
                    x == col_x(*t, c as int),
                    self.frame.view() == g0.cat(st.row_cells(*t, r as int, pos, y as int, c as int)),
                decreases ncols - c,
            {
                proof {
                    lemma_col_x_bounds(*t, c as int);
                    lemma_mul_table(c as int);
                }
                let ghost before = self.frame.view();
                let at = Point { x: pos.x + x, y: pos.y + y };
                let wrap = st.screen_size.w - pos.x - x - DEFAULT_MARGIN;
                if c < row.len() {
                    assert(t.rows@[r as int]@[c as int].ok());
                    self.paint_cell(&row[c], at, wrap);
                } else {
                    proof { lemma_cat_empty(before); }
                }
                proof {
                    let d = if (c as int) < row@.len() {
                        st.cell_delta(row@[c as int], at, wrap as int)
                    } else {
                        FrameView::empty()
                    };
                    lemma_cat_assoc(g0, st.row_cells(*t, r as int, pos, y as int, c as int), d);
                }
                x = x + widths[c] + TABLE_COL_GAP;
                c += 1;
            }
            let h = heights[r + 1];
            self.paint_divider(pos.x, sy + y + h + TABLE_COL_GAP / 2, xend, st.theme.code_block_color);
            proof {
                let cells = st.row_cells(*t, r as int, pos, y as int, ncols as int);
                let div = st.divider(pos.x as int, sy + y + h + TABLE_COL_GAP / 2, xend as int, st.theme.code_block_color);
                lemma_cat_assoc(f2, st.rows_delta(*t, pos, r as int), cells);
                lemma_cat_assoc(f2, st.rows_delta(*t, pos, r as int).cat(cells), div);
            }
            y = y + h + TABLE_COL_GAP / 2 + TABLE_ROW_GAP / 2;
            r += 1;
        }
        proof {
            let a = st.header_cells(*t, pos, ncols as int);
            let b = st.divider(pos.x as int, sy + header_height(*t) + TABLE_ROW_GAP / 2, xend as int, st.theme.text_color);
            lemma_cat_assoc(f0, a, b);
            lemma_cat_assoc(f0, a.cat(b), st.rows_delta(*t, pos, nrows as int));
        }
    }

    fn paint_spacer(&mut self, b: Rect)
        requires
            old(self).ok(),
            b.ok(),
        ensures
            final(self).settings == old(self).settings,
            final(self).frame.view() == old(self).frame.view().cat(old(self).settings.spacer_delta(b)),
    {
        let st = self.settings;
        let ink = self.ink(2);
        let r = Rect::new(
            Point { x: DEFAULT_MARGIN, y: b.pos.y - st.scroll_y + half_i64(b.size.h) - ink },
            Size { w: st.screen_size.w - 2 * DEFAULT_MARGIN, h: ink },
        );
        self.fill_rectangle(r, st.theme.text_color);
    }

    fn paint_marker(&mut self, b: Rect, hidden: bool)
        requires
            old(self).ok(),
            b.ok(),
        ensures
            final(self).settings == old(self).settings,
            final(self).frame.view() == old(self).frame.view().cat(old(self).settings.marker_delta(b, hidden)),
    {
        let st = self.settings;
        let x = b.pos.x - self.ink(5);
        let y = b.pos.y + half_i64(b.size.h) - st.scroll_y;
        let color = st.theme.text_color;
        let shape = if hidden {
            Shape::FillTriangle {
                a: Point { x, y },
                b: Point { x: x - 10, y: y + 10 },
                c: Point { x: x - 10, y: y - 10 },
                color,
            }
        } else {
            Shape::FillTriangle {
                a: Point { x, y: y - 5 },
                b: Point { x: x - 20, y: y - 5 },
                c: Point { x: x - 10, y: y + 5 },
                color,
            }
        };
        self.frame.push_shape(shape);
    }

    /// Paints a list of elements sorted from top to bottom, skipping those
    /// above the screen and stopping at the first one below it.
    pub fn render_elements(&mut self, elements: &Vec<Positioned<Element>>)
        requires
            old(self).ok(),
            list_ok(elements@),
        ensures
            final(self).settings == old(self).settings,
            final(self).frame.view() == old(self).frame.view().cat(old(self).settings.walk(elements@)),
        decreases elements@,
    {
        let ghost f0 = self.frame.view();
        let st = self.settings;
        let mut i: usize = 0;
        proof {
            lemma_cat_empty(f0);
            assert(elements@.subrange(0, elements@.len() as int) =~= elements@);
        }
        while i < elements.len()
            invariant
                self.ok(),
                self.settings == st,
                st == old(self).settings,
                f0 == old(self).frame.view(),
                list_ok(elements@),
                i <= elements@.len(),
                f0.cat(st.walk(elements@)) == self.frame.view().cat(
                    st.walk(elements@.subrange(i as int, elements@.len() as int)),
                ),
            decreases elements@.len() - i,
        {
            let p = &elements[i];
            assert(elem_ok(elements@[i as int]));
            let ghost rest = elements@.subrange(i as int, elements@.len() as int);
            assert(rest[0] == elements@[i as int]);
            assert(rest.subrange(1, rest.len() as int) =~= elements@.subrange(i + 1, elements@.len() as int));
            let b = p.bounds.unwrap();
            if b.pos.y - st.scroll_y >= st.screen_size.h {
                proof { lemma_cat_empty(self.frame.view()); }
                return;
            }
            let ghost before = self.frame.view();
            assert(decreases_to!(elements@ => elements@[i as int]));
            self.render_element(p);
            proof {
                lemma_cat_assoc(
                    before,
                    st.paint(elements@[i as int]),
                    st.walk(elements@.subrange(i + 1, elements@.len() as int)),
                );
            }
            i += 1;
        }
        proof {
            lemma_cat_empty(self.frame.view());
        }
    }

    /// Paints one element, unless it lies off the screen.
    fn render_element(&mut self, p: &Positioned<Element>)
        requires
            old(self).ok(),
            elem_ok(*p),
        ensures
            final(self).settings == old(self).settings,
            final(self).frame.view() == old(self).frame.view().cat(old(self).settings.paint(*p)),
        decreases *p,
    {
        let ghost f0 = self.frame.view();
        let st = self.settings;
        let b = p.bounds.unwrap();
        let sy = b.pos.y - st.scroll_y;
        if sy + b.size.h <= 0 || sy >= st.screen_size.h {
            proof { lemma_cat_empty(f0); }
            return;
        }
        match &p.inner {
            Element::TextBox(tb) => self.paint_text_box(tb, b.pos, b.size),
            Element::Table(t) => self.paint_table(t, b.pos),
            Element::Image(_) => {
                proof { lemma_cat_empty(f0); }
            },
            Element::Spacer(sp) => {
                if sp.visible {
                    self.paint_spacer(b);
                } else {
                    proof { lemma_cat_empty(f0); }
                }
            },
            Element::Row(r) => {
                self.render_elements(&r.elements);
            },
            Element::Section(s) => {
                match &s.summary {
                    Some(sm) => {
                        assert(elem_ok(**sm));
                        assert(sm.bounds is Some);
                        let sb = sm.bounds.unwrap();
                        self.paint_marker(sb, s.hidden);
                        self.render_element(sm);
                        proof { lemma_cat_assoc(f0, st.marker_delta(sb, s.hidden), st.paint(**sm)); }
                    },
                    None => {
                        proof { lemma_cat_empty(f0); }
                    },
                }
                let ghost head = st.section_head(*s);
                let ghost f2 = self.frame.view();
                if !s.hidden {
                    self.render_elements(&s.elements);
                    proof { lemma_cat_assoc(f0, head, st.walk(s.elements@)); }
                } else {
                    proof {
                        lemma_cat_empty(f2);
                        lemma_cat_empty(head);
                    }
                }
            },
        }
    }

    /// A renderer for a screen of the given size, at the top of an empty
    /// document, with no zoom and no selection.
    pub fn new(screen_size: Size, hidpi_scale: i64, theme: Theme) -> (r: Renderer)
        requires
            screen_size.screen_ok(),
            0 <= hidpi_scale <= SCALE_LIMIT,
        ensures
            r.ok(),
            r.settings == (Settings {
                screen_size,
                reserved_height: 0,
                scroll_y: 0,
                hidpi_scale,
                zoom: SCALE_ONE,
                theme,
                selection: None,
            }),
            r.frame.view() == FrameView::empty(),
    {
        Renderer {
            settings: Settings {
                screen_size,
                reserved_height: 0,
                scroll_y: 0,
                hidpi_scale,
                zoom: SCALE_ONE,
                theme,
                selection: None,
            },
            frame: Frame::new(),
        }
    }

    pub fn screen_size(&self) -> (r: Size)
        ensures
            r == self.settings.screen_size,
    {
        self.settings.screen_size
    }

    pub fn screen_height(&self) -> (r: i64)
        ensures
            r == self.settings.screen_size.h,
    {
        self.settings.screen_size.h
    }

    /// Scrolls to `scroll_y`, kept between the top and the last screenful of
    /// the content.
    pub fn set_scroll_y(&mut self, scroll_y: i64)
        requires
            old(self).ok(),
        ensures
            final(self).ok(),
            final(self).frame == old(self).frame,
            final(self).settings == (Settings {
                scroll_y: max_int(
                    min_int(scroll_y as int, old(self).settings.reserved_height - old(self).settings.screen_size.h),
                    0,
                ) as i64,
                ..old(self).settings
            }),
            0 <= final(self).settings.scroll_y <= max_int(
                0,
                old(self).settings.reserved_height - old(self).settings.screen_size.h,
            ),
    {
        let limit = self.settings.reserved_height - self.settings.screen_size.h;
        self.settings.scroll_y = max_i64(min_i64(scroll_y, limit), 0);
    }

    fn draw_scrollbar(&mut self)
        requires
            old(self).ok(),
        ensures
            final(self).settings == old(self).settings,
            final(self).frame.view() == old(self).frame.view().cat(old(self).settings.scrollbar_delta()),
    {
        let st = self.settings;
        if st.reserved_height > 0 {
            let sh = st.screen_size.h;
            assert(0 <= st.scroll_y * sh <= COORD_LIMIT * SCREEN_LIMIT) by (nonlinear_arith)
                requires
                    0 <= st.scroll_y <= COORD_LIMIT,
                    0 < sh <= SCREEN_LIMIT,
            ;
            assert(0 <= sh * sh <= SCREEN_LIMIT * SCREEN_LIMIT) by (nonlinear_arith)
                requires
                    0 < sh <= SCREEN_LIMIT,
            ;
            assert(0 <= (sh * sh + st.reserved_height - 1) / (st.reserved_height as int) <= SCREEN_LIMIT * SCREEN_LIMIT
                + COORD_LIMIT) by (nonlinear_arith)
                requires
                    0 <= sh * sh <= SCREEN_LIMIT * SCREEN_LIMIT,
                    0 < st.reserved_height <= COORD_LIMIT,
            ;
            assert(0 <= st.scroll_y * sh / (st.reserved_height as int) <= COORD_LIMIT * SCREEN_LIMIT) by (nonlinear_arith)
                requires
                    0 <= st.scroll_y * sh <= COORD_LIMIT * SCREEN_LIMIT,
                    0 < st.reserved_height,
            ;
            let r = Rect::new(
                Point { x: st.screen_size.w - DEFAULT_MARGIN / 4, y: st.scroll_y * sh / st.reserved_height },
                Size { w: DEFAULT_MARGIN / 4, h: (sh * sh + st.reserved_height - 1) / st.reserved_height },
            );
            self.fill_rectangle(r, Color { r: 77, g: 77, b: 77, a: 255 });
        } else {
            proof { lemma_cat_empty(self.frame.view()); }
        }
    }

    /// Builds the vector shapes, queued text and selected text of one frame:
    /// the accumulators start empty, the elements are walked, and the
    /// scrollbar comes last.
    pub fn render_frame(&mut self, elements: &Vec<Positioned<Element>>)
        requires
            old(self).ok(),
            list_ok(elements@),
        ensures
            final(self).settings == old(self).settings,
            final(self).frame.view() == old(self).settings.walk(elements@).cat(
                old(self).settings.scrollbar_delta(),
            ),
    {
        self.frame.clear();
        self.render_elements(elements);
        proof { lemma_cat_empty(self.settings.walk(elements@)); }
        self.draw_scrollbar();
    }

    /// Appends the images of a list of elements.
    fn place_elements(&self, es: &Vec<Positioned<Element>>, out: &mut Vec<ImagePlacement>)
        requires
            self.ok(),
            list_ok(es@),
        ensures
            final(out)@ == old(out)@ + self.settings.images(es@),
        decreases es@,
    {
        let st = self.settings;
        let mut i: usize = 0;
        assert(es@.subrange(0, es@.len() as int) =~= es@);
        while i < es.len()
            invariant
                self.ok(),
                self.settings == st,
                list_ok(es@),
                i <= es@.len(),
                old(out)@ + st.images(es@) == out@ + st.images(es@.subrange(i as int, es@.len() as int)),
            decreases es@.len() - i,
        {
            let p = &es[i];
            assert(elem_ok(es@[i as int]));
            let ghost rest = es@.subrange(i as int, es@.len() as int);
            assert(rest[0] == es@[i as int]);
            assert(rest.subrange(1, rest.len() as int) =~= es@.subrange(i + 1, es@.len() as int));
            let b = p.bounds.unwrap();
            if b.pos.y - st.scroll_y >= st.screen_size.h {
                assert(out@ + Seq::<ImagePlacement>::empty() =~= out@);
                return;
            }
            let ghost before = out@;
            assert(decreases_to!(es@ => es@[i as int]));
            self.place_element(p, out);
            assert(before + st.images(rest) =~= out@ + st.images(es@.subrange(i + 1, es@.len() as int)));
            i += 1;
        }
        assert(out@ + Seq::<ImagePlacement>::empty() =~= out@);
    }

    /// Appends the images of one element.
    fn place_element(&self, p: &Positioned<Element>, out: &mut Vec<ImagePlacement>)
        requires
            self.ok(),
            elem_ok(*p),
        ensures
            final(out)@ == old(out)@ + self.settings.element_images(*p),
        decreases *p,
    {
        let st = self.settings;
        let b = p.bounds.unwrap();
        let sy = b.pos.y - st.scroll_y;
        if sy + b.size.h <= 0 || sy >= st.screen_size.h {
            assert(out@ + Seq::<ImagePlacement>::empty() =~= out@);
            return;
        }
        match &p.inner {
            Element::Image(im) => {
                out.push(ImagePlacement { id: im.id, pos: Point { x: b.pos.x, y: sy }, size: b.size });
                assert(out@ =~= old(out)@ + st.element_images(*p));
            },
            Element::Row(r) => self.place_elements(&r.elements, out),
            Element::Section(s) => {
                match &s.summary {
                    Some(sm) => {
                        assert(elem_ok(**sm));
                        self.place_element(sm, out);
                    },
                    None => {},
                }
                let ghost mid = out@;
                if !s.hidden {
                    self.place_elements(&s.elements, out);
                }
                assert(out@ =~= old(out)@ + st.element_images(*p));
            },
            _ => {
                assert(out@ =~= old(out)@ + st.element_images(*p));
            },
        }
    }

    /// Where each image to draw this frame goes on the screen, nested images
    /// included, with the same culling and hidden bodies as `render_elements`.
    pub fn image_placements(&self, elements: &Vec<Positioned<Element>>) -> (r: Vec<ImagePlacement>)
        requires
            self.ok(),
            list_ok(elements@),
        ensures
            r@ == self.settings.images(elements@),
    {
        let mut out: Vec<ImagePlacement> = Vec::new();
        self.place_elements(elements, &mut out);
        assert(out@ =~= self.settings.images(elements@));
        out
    }
}

/// The checkmark of a box `r` of side `b`.
spec fn tick_of(st: Settings, r: Rect, b: i64) -> Shape {
    st.tick(r.pos, b as int)
}


impl Settings {
    pub fn is_ok(&self) -> (r: bool)
        ensures
            r == self.ok(),
    {
        let sel_ok = match &self.selection {
            Some(s) => s.is_ok(),
            None => true,
        };
        0 < self.screen_size.w && self.screen_size.w <= SCREEN_LIMIT && 0 < self.screen_size.h
            && self.screen_size.h <= SCREEN_LIMIT && crate::geometry::coord_in_range(self.reserved_height)
            && 0 <= self.scroll_y && self.scroll_y <= COORD_LIMIT && 0 <= self.hidpi_scale
            && self.hidpi_scale <= SCALE_LIMIT && 0 <= self.zoom && self.zoom <= SCALE_LIMIT && sel_ok
    }
}

impl Renderer {
    /// Whether the settings are in the ranges that painting needs.
    pub fn settings_ok(&self) -> (r: bool)
        ensures
            r == self.ok(),
    {
        self.settings.is_ok()
    }
}

/// Whether every element has its bounds, in range and not inverted, and holds
/// valid content, nested elements included.
pub fn elements_ok(es: &Vec<Positioned<Element>>) -> (r: bool)
    ensures
        r == list_ok(es@),
    decreases es@,
{
    let mut i: usize = 0;
    while i < es.len()
        invariant
            i <= es@.len(),
            forall|k: int| 0 <= k < i ==> elem_ok(#[trigger] es@[k]),
        decreases es.len() - i,
    {
        assert(decreases_to!(es@ => es@[i as int]));
        if !element_ok(&es[i]) {
            return false;
        }
        i += 1;
    }
    true
}

/// Whether an element has its bounds, in range and not inverted, and holds
/// valid content, nested elements included.
pub fn element_ok(p: &Positioned<Element>) -> (r: bool)
    ensures
        r == elem_ok(*p),
    decreases *p,
{
    let b = match &p.bounds {
        Some(b) => b,
        None => return false,
    };
    if !b.is_ok() {
        return false;
    }
    match &p.inner {
        Element::TextBox(tb) => tb.is_ok(),
        Element::Table(t) => t.is_ok(),
        Element::Image(_) => true,
        Element::Spacer(_) => true,
        Element::Row(r) => elements_ok(&r.elements),
        Element::Section(s) => {
            let head = match &s.summary {
                Some(sm) => element_ok(sm),
                None => true,
            };
            head && elements_ok(&s.elements)
        },
    }
}

} // verus!
