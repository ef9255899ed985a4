use crate::element::{Element, Positioned, Section, Table};
use crate::geometry::Point;
use crate::mesh::{lemma_cat_empty, FrameView, Shape};
use crate::renderer::{elem_ok, half, min_max, row_y, Settings};
use crate::text::{glyph_chars, min_int, runs_text, selected_chars, Selection, TextBox};
use vstd::prelude::*;

verus! {

/// An element wholly above the screen adds nothing to a frame: it paints
/// nothing and places no image, so a walk over a list that starts with it
/// paints what the rest paints, unless the walk stops at it.
pub proof fn lemma_culled_element_adds_nothing(st: Settings, es: Seq<Positioned<Element>>)
    requires
        es.len() > 0,
        elem_ok(es[0]),
        st.ok(),
        es[0].bounds->0.pos.y - st.scroll_y + es[0].bounds->0.size.h <= 0,
    ensures
        st.paint(es[0]) == FrameView::empty(),
        st.element_images(es[0]) == Seq::<crate::renderer::ImagePlacement>::empty(),
        st.walk(es) == if st.below(es[0]) {
            FrameView::empty()
        } else {
            st.walk(es.subrange(1, es.len() as int))
        },
        st.images(es) == if st.below(es[0]) {
            Seq::empty()
        } else {
            st.images(es.subrange(1, es.len() as int))
        },
{
    lemma_cat_empty(st.walk(es.subrange(1, es.len() as int)));
    assert(Seq::<crate::renderer::ImagePlacement>::empty() + st.images(es.subrange(1, es.len() as int))
        =~= st.images(es.subrange(1, es.len() as int)));
}

proof fn lemma_all_selected(gs: Seq<crate::text::Glyph>, origin: Point, sel: Selection)
    requires
        forall|i: int| 0 <= i < gs.len() ==> (#[trigger] gs[i]).ok(),
        forall|i: int| 0 <= i < gs.len() ==> sel.covers(#[trigger] gs[i].rect.shifted(origin.x as int, origin.y as int)),
    ensures
        selected_chars(gs, origin, sel) == glyph_chars(gs),
    decreases gs.len(),
{
    if gs.len() > 0 {
        let init = gs.drop_last();
        assert forall|i: int| 0 <= i < init.len() implies (#[trigger] init[i]).ok() by {
            assert(init[i] == gs[i]);
        }
        assert forall|i: int| 0 <= i < init.len() implies sel.covers(
            #[trigger] init[i].rect.shifted(origin.x as int, origin.y as int),
        ) by {
            assert(init[i] == gs[i]);
        }
        lemma_all_selected(init, origin, sel);
        let g = gs[gs.len() - 1];
        assert(g.ok());
        assert(sel.covers(g.rect.shifted(origin.x as int, origin.y as int)));
        assert(glyph_chars(gs) =~= glyph_chars(init).push(g.ch));
    }
}

proof fn lemma_bars_select_nothing(st: Settings, k: int, sx: int, sy: int, h: int)
    ensures
        st.bars(k, sx, sy, h).selected == Seq::<char>::empty(),
    decreases k,
{
    if k > 0 {
        lemma_bars_select_nothing(st, k - 1, sx, sy, h);
        assert(st.bars(k, sx, sy, h).selected =~= Seq::<char>::empty());
    }
}

proof fn lemma_lines_select_nothing(st: Settings, lines: Seq<(Point, Point)>, k: int, left: int, sx: int, sy: int)
    ensures
        st.lines_delta(lines, k, left, sx, sy).selected == Seq::<char>::empty(),
    decreases k,
{
    if k > 0 {
        lemma_lines_select_nothing(st, lines, k - 1, left, sx, sy);
        assert(st.lines_delta(lines, k, left, sx, sy).selected =~= Seq::<char>::empty());
    }
}

/// A selection that covers every glyph of a fully shaped text box makes the
/// frame record the text of its runs, one after another in run order.
pub proof fn lemma_full_selection_gives_runs_text(st: Settings, p: Positioned<Element>, sel: Selection)
    requires
        st.ok(),
        elem_ok(p),
        p.inner is TextBox,
        p.inner->TextBox_0.fully_shaped(),
        !st.above(p),
        !st.below(p),
        st.selection == Some(sel),
        forall|i: int| 0 <= i < p.inner->TextBox_0.layout.glyphs@.len() ==> sel.covers(
            #[trigger] p.inner->TextBox_0.layout.glyphs@[i].rect.shifted(
                p.bounds->0.pos.x as int,
                p.bounds->0.pos.y as int,
            ),
        ),
    ensures
        st.paint(p).selected == runs_text(p.inner->TextBox_0.texts@),
{
    let tb = p.inner->TextBox_0;
    let b = p.bounds->0;
    let sx = b.pos.x as int;
    let sy = b.pos.y - st.scroll_y;
    let h = b.size.h as int;
    lemma_all_selected(tb.layout.glyphs@, b.pos, sel);
    match tb.is_quote_block {
        Some(n) => lemma_bars_select_nothing(st, n as int, sx, sy, h),
        None => {},
    }
    lemma_lines_select_nothing(st, tb.layout.lines@, tb.layout.lines@.len() as int, sx, sx, sy);
    let d = st.text_box_delta(tb, b.pos, b.size);
    assert(d.selected =~= selected_chars(tb.layout.glyphs@, b.pos, sel));
}

/// Hiding or showing a section changes only its marker and whether its body
/// is painted: the summary paints the same either way.
pub proof fn lemma_section_toggle(st: Settings, p: Positioned<Element>, hidden: bool)
    requires
        p.inner is Section,
        !st.above(p),
        !st.below(p),
    ensures
        ({
            let s = p.inner->Section_0;
            let shown = Positioned { inner: Element::Section(Section { hidden: false, ..s }), bounds: p.bounds };
            let folded = Positioned { inner: Element::Section(Section { hidden: true, ..s }), bounds: p.bounds };
            match s.summary {
                Some(sm) => {
                    &&& st.paint(shown) == st.marker_delta(sm.bounds->0, false).cat(st.paint(*sm)).cat(
                        st.walk(s.elements@),
                    )
                    &&& st.paint(folded) == st.marker_delta(sm.bounds->0, true).cat(st.paint(*sm)).cat(
                        FrameView::empty(),
                    )
                },
                None => {
                    &&& st.paint(shown) == FrameView::empty().cat(st.walk(s.elements@))
                    &&& st.paint(folded) == FrameView::empty().cat(FrameView::empty())
                },
            }
        }),
{
    let s = p.inner->Section_0;
    let shown = Positioned { inner: Element::Section(Section { hidden: false, ..s }), bounds: p.bounds };
    let folded = Positioned { inner: Element::Section(Section { hidden: true, ..s }), bounds: p.bounds };
    assert(!st.above(shown) && !st.below(shown));
    assert(!st.above(folded) && !st.below(folded));
}

/// A checkbox that fits left of the right edge paints, when checked, its fill,
/// its checkmark and its border, in that order; when unchecked, its border alone.
pub proof fn lemma_checkbox_shapes(st: Settings, tb: TextBox, sx: int, sy: int, h: int)
    requires
        tb.is_checkbox is Some,
        sx - 10 < st.right_edge(),
    ensures
        ({
            let b = st.box_size(tb);
            let r = min_max(sx - b - 10, sy + half(h) - b / 2, sx - 10, sy + half(h) + b / 2);
            let border = Shape::StrokeRect { rect: r, color: st.theme.text_color, width: 2 };
            let d = st.checkbox_delta(tb, sx, sy, h);
            &&& d.queued.len() == 0
            &&& d.selected.len() == 0
            &&& tb.is_checkbox == Some(true) ==> d.shapes == seq![
                Shape::FillRect { rect: r, color: st.theme.checkbox_color },
                st.tick(r.pos, b),
                border,
            ]
            &&& tb.is_checkbox == Some(false) ==> d.shapes == seq![border]
        }),
{
    let b = st.box_size(tb);
    let r = min_max(sx - b - 10, sy + half(h) - b / 2, sx - 10, sy + half(h) + b / 2);
    let border = Shape::StrokeRect { rect: r, color: st.theme.text_color, width: 2 };
    let d = st.checkbox_delta(tb, sx, sy, h);
    if tb.is_checkbox == Some(true) {
        assert(d.shapes =~= seq![Shape::FillRect { rect: r, color: st.theme.checkbox_color }, st.tick(r.pos, b), border]);
    }
}

/// Cells present in the first `n` body rows among the table's columns.
pub open spec fn present_cells(t: Table, n: int) -> int
    decreases n,
{
    if n <= 0 {
        0
    } else {
        present_cells(t, n - 1) + min_int(t.rows@[n - 1]@.len() as int, t.headers@.len() as int)
    }
}

proof fn lemma_header_cells_count(st: Settings, t: Table, pos: Point, k: int)
    requires
        0 <= k,
    ensures
        st.selection is None ==> st.header_cells(t, pos, k).shapes.len() == 0,
        st.header_cells(t, pos, k).queued.len() == k,
    decreases k,
{
    if k > 0 {
        lemma_header_cells_count(st, t, pos, k - 1);
    }
}

proof fn lemma_row_cells_count(st: Settings, t: Table, r: int, pos: Point, y: int, k: int)
    requires
        0 <= k,
    ensures
        st.selection is None ==> st.row_cells(t, r, pos, y, k).shapes.len() == 0,
        st.row_cells(t, r, pos, y, k).queued.len() == min_int(t.rows@[r]@.len() as int, k),
    decreases k,
{
    if k > 0 {
        lemma_row_cells_count(st, t, r, pos, y, k - 1);
    }
}

proof fn lemma_rows_count(st: Settings, t: Table, pos: Point, n: int)
    requires
        0 <= n,
    ensures
        st.selection is None ==> st.rows_delta(t, pos, n).shapes.len() == n,
        st.rows_delta(t, pos, n).queued.len() == present_cells(t, n),
        st.selection is None ==> forall|i: int| 0 <= i < n ==> #[trigger] st.rows_delta(t, pos, n).shapes[i] is FillRect,
    decreases n,
{
    if n > 0 {
        lemma_rows_count(st, t, pos, n - 1);
        lemma_row_cells_count(st, t, n - 1, pos, row_y(t, n - 1), t.headers@.len() as int);
        let prev = st.rows_delta(t, pos, n - 1);
        let cells = st.row_cells(t, n - 1, pos, row_y(t, n - 1), t.headers@.len() as int);
        if st.selection is None {
            assert forall|i: int| 0 <= i < n implies #[trigger] st.rows_delta(t, pos, n).shapes[i] is FillRect by {
                if i < n - 1 {
                    assert(st.rows_delta(t, pos, n).shapes[i] == prev.shapes[i]);
                }
            }
        }
    }
}

proof fn lemma_present_full(t: Table, n: int)
    requires
        0 <= n <= t.rows@.len(),
        forall|r: int| 0 <= r < t.rows@.len() ==> (#[trigger] t.rows@[r])@.len() >= t.headers@.len(),
    ensures
        present_cells(t, n) == n * t.headers@.len(),
    decreases n,
{
    if n > 0 {
        lemma_present_full(t, n - 1);
        assert(t.rows@[n - 1]@.len() >= t.headers@.len());
        assert(min_int(t.rows@[n - 1]@.len() as int, t.headers@.len() as int) == t.headers@.len());
        assert((n - 1) * t.headers@.len() + t.headers@.len() == n * t.headers@.len()) by (nonlinear_arith);
    } else {
        assert(n * t.headers@.len() == 0) by (nonlinear_arith)
            requires
                n == 0,
        ;
    }
}

/// A table with `r` body rows and `c` columns queues one text per header
/// cell and per present body cell: `(r + 1) * c` when no body row is short,
/// whether or not a selection is active. Without a selection it paints
/// `r + 1` dividers and no other shape.
pub proof fn lemma_table_grid(st: Settings, t: Table, pos: Point)
    ensures
        st.table_delta(t, pos).queued.len() == t.headers@.len() + present_cells(t, t.rows@.len() as int),
        (forall|r: int| 0 <= r < t.rows@.len() ==> (#[trigger] t.rows@[r])@.len() >= t.headers@.len())
            ==> st.table_delta(t, pos).queued.len() == (t.rows@.len() + 1) * t.headers@.len(),
        st.selection is None ==> st.table_delta(t, pos).shapes.len() == t.rows@.len() + 1,
        st.selection is None ==> forall|i: int|
            0 <= i < t.rows@.len() + 1 ==> #[trigger] st.table_delta(t, pos).shapes[i] is FillRect,
{
    let n = t.rows@.len() as int;
    let c = t.headers@.len() as int;
    lemma_header_cells_count(st, t, pos, c);
    lemma_rows_count(st, t, pos, n);
    let rows = st.rows_delta(t, pos, n);
    if st.selection is None {
        assert forall|i: int| 0 <= i < n + 1 implies #[trigger] st.table_delta(t, pos).shapes[i] is FillRect by {
            if i > 0 {
                assert(st.table_delta(t, pos).shapes[i] == rows.shapes[i - 1]);
            }
        }
    }
    if forall|r: int| 0 <= r < t.rows@.len() ==> (#[trigger] t.rows@[r])@.len() >= t.headers@.len() {
        lemma_present_full(t, n);
        assert(c + n * c == (n + 1) * c) by (nonlinear_arith);
    }
}

/// The underline bars of a text box whose left edge is at `left` lie across
/// its measured width: each starts and ends between `left` and
/// `left + width`, one per visual line.
pub proof fn lemma_underlines_within_width(st: Settings, tb: TextBox, left: int, sy: int)
    requires
        tb.ok(),
        crate::geometry::coord_ok(left),
        crate::geometry::coord_ok(sy),
    ensures
        ({
            let lines = tb.layout.lines@;
            let d = st.lines_delta(lines, lines.len() as int, left, left, sy);
            &&& d.shapes.len() == lines.len()
            &&& forall|i: int|
                0 <= i < lines.len() ==> {
                    let s = #[trigger] d.shapes[i];
                    &&& s is FillRect
                    &&& left <= s->FillRect_rect.pos.x <= left + tb.layout.size.w
                    &&& left <= s->FillRect_rect.max_x() <= left + tb.layout.size.w
                }
        }),
{
    lemma_underlines_upto(st, tb, tb.layout.lines@.len() as int, left, sy);
}

proof fn lemma_underlines_upto(st: Settings, tb: TextBox, k: int, left: int, sy: int)
    requires
        tb.ok(),
        0 <= k <= tb.layout.lines@.len(),
        crate::geometry::coord_ok(left),
        crate::geometry::coord_ok(sy),
    ensures
        ({
            let d = st.lines_delta(tb.layout.lines@, k, left, left, sy);
            &&& d.shapes.len() == k
            &&& forall|i: int|
                0 <= i < k ==> {
                    let s = #[trigger] d.shapes[i];
                    &&& s is FillRect
                    &&& left <= s->FillRect_rect.pos.x <= left + tb.layout.size.w
                    &&& left <= s->FillRect_rect.max_x() <= left + tb.layout.size.w
                }
        }),
    decreases k,
{
    if k > 0 {
        let lines = tb.layout.lines@;
        lemma_underlines_upto(st, tb, k - 1, left, sy);
        let prev = st.lines_delta(lines, k - 1, left, left, sy);
        let d = st.lines_delta(lines, k, left, left, sy);
        let (a, b) = lines[k - 1];
        assert(a.ok() && b.ok() && 0 <= a.x <= tb.layout.size.w && 0 <= b.x <= tb.layout.size.w);
        let x0 = st.clamp_x(a.x + left, left);
        let x1 = st.clamp_x(b.x + left, left);
        assert(left <= x0 <= left + tb.layout.size.w);
        assert(left <= x1 <= left + tb.layout.size.w);
        assert forall|i: int| 0 <= i < k implies {
            let s = #[trigger] d.shapes[i];
            &&& s is FillRect
            &&& left <= s->FillRect_rect.pos.x <= left + tb.layout.size.w
            &&& left <= s->FillRect_rect.max_x() <= left + tb.layout.size.w
        } by {
            if i < k - 1 {
                assert(d.shapes[i] == prev.shapes[i]);
            }
        }
    }
}

/// While the content is at least a screen tall and the scroll offset is in
/// range, the scrollbar thumb lies within the screen and has a height between
/// one pixel and the screen height.
pub proof fn lemma_thumb_within_screen(st: Settings)
    requires
        st.ok(),
        0 < st.screen_size.h <= st.reserved_height,
        0 <= st.scroll_y <= st.reserved_height - st.screen_size.h,
    ensures
        0 <= st.thumb_top(),
        0 < st.thumb_height() <= st.screen_size.h,
        st.thumb_top() + st.thumb_height() <= st.screen_size.h,
{
    let h = st.screen_size.h as int;
    let r = st.reserved_height as int;
    let s = st.scroll_y as int;
    let top = s * h / r;
    let ht = (h * h + r - 1) / r;
    assert(0 <= top && r * top <= s * h) by (nonlinear_arith)
        requires
            0 <= s,
            0 < h,
            0 < r,
            top == s * h / r,
    ;
    assert(r * ht <= h * h + r - 1 && r * ht > h * h - 1) by (nonlinear_arith)
        requires
            0 < r,
            0 < h,
            ht == (h * h + r - 1) / r,
    ;
    assert(h * h <= r * h && s * h + h * h <= r * h) by (nonlinear_arith)
        requires
            0 < h <= r,
            0 <= s <= r - h,
    ;
    assert(0 < ht <= h) by (nonlinear_arith)
        requires
            0 < r,
            0 < h,
            r * ht <= h * h + r - 1,
            r * ht > h * h - 1,
            h * h <= r * h,
    ;
    assert(top + ht <= h) by (nonlinear_arith)
        requires
            0 < r,
            r * top <= s * h,
            r * ht <= h * h + r - 1,
            s * h + h * h <= r * h,
    ;
}

} // verus!
