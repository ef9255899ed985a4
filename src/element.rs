use crate::geometry::{Rect, Size};
use crate::text::{max_int, Text, TextBox};
use vstd::prelude::*;

verus! {

/// Most columns, and most body rows, of a table: with cells up to
/// `COORD_LIMIT` wide and tall, every cell of such a table is still placed
/// within `PLACE_LIMIT`.
pub const TABLE_LIMIT: usize = 16384;

/// An element paired with the bounds its positioner computed.
#[derive(Debug)]
pub struct Positioned<T> {
    pub inner: T,
    pub bounds: Option<Rect>,
}

/// A header row and body rows of text cells; a body row may be shorter than
/// the header, and its missing cells are left empty.
#[derive(Debug)]
pub struct Table {
    pub headers: Vec<TextBox>,
    pub rows: Vec<Vec<TextBox>>,
}

/// A horizontal rule.
#[derive(Debug)]
pub struct Spacer {
    pub visible: bool,
}

/// Elements grouped side by side.
#[derive(Debug)]
pub struct Row {
    pub elements: Vec<Positioned<Element>>,
}

/// A collapsible group: the summary is always drawn, the body only when the
/// section is not hidden.
#[derive(Debug)]
pub struct Section {
    pub summary: Option<Box<Positioned<Element>>>,
    pub elements: Vec<Positioned<Element>>,
    pub hidden: bool,
}

/// An image, known by the identifier of its decoded pixels.
#[derive(Debug)]
pub struct Image {
    pub id: usize,
}

#[derive(Debug)]
pub enum Element {
    TextBox(TextBox),
    Table(Table),
    Image(Image),
    Spacer(Spacer),
    Row(Row),
    Section(Section),
}

/// Measured extent of a cell, as `TextBox::size` gives it.
pub open spec fn cell_size(t: TextBox) -> Size {
    if t.texts@.len() == 0 { Size { w: 0, h: 0 } } else { t.layout.size }
}

/// Widest cell of column `c` among the first `n` body rows, the header included.
pub open spec fn col_width_upto(t: Table, c: int, n: int) -> int
    decreases n,
{
    if n <= 0 {
        cell_size(t.headers@[c]).w as int
    } else {
        let row = t.rows@[n - 1]@;
        let below = col_width_upto(t, c, n - 1);
        if c < row.len() { max_int(below, cell_size(row[c]).w as int) } else { below }
    }
}

pub open spec fn col_width(t: Table, c: int) -> int {
    col_width_upto(t, c, t.rows@.len() as int)
}

/// Tallest of the first `n` cells.
pub open spec fn cells_height(cells: Seq<TextBox>, n: int) -> int
    decreases n,
{
    if n <= 0 {
        0
    } else {
        max_int(cells_height(cells, n - 1), cell_size(cells[n - 1]).h as int)
    }
}

/// Height of the header row.
pub open spec fn header_height(t: Table) -> int {
    cells_height(t.headers@, t.headers@.len() as int)
}

/// Height of body row `r`.
pub open spec fn row_height(t: Table, r: int) -> int {
    cells_height(t.rows@[r]@, t.rows@[r]@.len() as int)
}

impl Table {
    pub open spec fn ok(self) -> bool {
        &&& self.headers@.len() <= TABLE_LIMIT
        &&& self.rows@.len() <= TABLE_LIMIT
        &&& forall|c: int| 0 <= c < self.headers@.len() ==> #[trigger] self.headers@[c].ok()
        &&& forall|r: int, c: int|
            0 <= r < self.rows@.len() && 0 <= c < self.rows@[r]@.len() ==> #[trigger] self.rows@[r]@[c].ok()
    }

    /// Width of each column: that of its widest cell.
    pub fn column_widths(&self) -> (r: Vec<i64>)
        requires
            self.ok(),
        ensures
            r@.len() == self.headers@.len(),
            forall|c: int| 0 <= c < r@.len() ==> #[trigger] r@[c] == col_width(*self, c),
            forall|c: int| 0 <= c < r@.len() ==> 0 <= #[trigger] r@[c] <= crate::geometry::COORD_LIMIT,
    {
        let mut widths: Vec<i64> = Vec::new();
        let mut c: usize = 0;
        while c < self.headers.len()
            invariant
                self.ok(),
                c <= self.headers@.len(),
                widths@.len() == c,
                forall|k: int| 0 <= k < c ==> #[trigger] widths@[k] == col_width(*self, k),
                forall|k: int| 0 <= k < c ==> 0 <= #[trigger] widths@[k] <= crate::geometry::COORD_LIMIT,
            decreases self.headers.len() - c,
        {
            assert(self.headers@[c as int].ok());
            let mut w: i64 = self.headers[c].size().w;
            let mut n: usize = 0;
            while n < self.rows.len()
                invariant
                    self.ok(),
                    c < self.headers@.len(),
                    n <= self.rows@.len(),
                    w == col_width_upto(*self, c as int, n as int),
                    0 <= w <= crate::geometry::COORD_LIMIT,
                decreases self.rows.len() - n,
            {
                let row = &self.rows[n];
                if c < row.len() {
                    assert(self.rows@[n as int]@[c as int].ok());
                    let cw = row[c].size().w;
                    if cw > w {
                        w = cw;
                    }
                }
                n += 1;
            }
            widths.push(w);
            c += 1;
        }
        widths
    }

    /// Height of the header row, then of each body row: that of its tallest cell.
    pub fn row_heights(&self) -> (r: Vec<i64>)
        requires
            self.ok(),
        ensures
            r@.len() == self.rows@.len() + 1,
            r@[0] == header_height(*self),
            forall|k: int| 0 <= k < self.rows@.len() ==> #[trigger] r@[k + 1] == row_height(*self, k),
            forall|k: int| 0 <= k < r@.len() ==> 0 <= #[trigger] r@[k] <= crate::geometry::COORD_LIMIT,
    {
        let mut heights: Vec<i64> = Vec::new();
        let h = tallest(&self.headers);
        heights.push(h);
        let mut n: usize = 0;
        while n < self.rows.len()
            invariant
                self.ok(),
                n <= self.rows@.len(),
                heights@.len() == n + 1,
                heights@[0] == header_height(*self),
                forall|k: int| 0 <= k < n ==> #[trigger] heights@[k + 1] == row_height(*self, k),
                forall|k: int| 0 <= k < heights@.len() ==> 0 <= #[trigger] heights@[k] <= crate::geometry::COORD_LIMIT,
            decreases self.rows.len() - n,
        {
            let h = tallest(&self.rows[n]);
            heights.push(h);
            n += 1;
        }
        heights
    }
}

/// Height of the tallest cell.
fn tallest(cells: &Vec<TextBox>) -> (r: i64)
    requires
        forall|c: int| 0 <= c < cells@.len() ==> #[trigger] cells@[c].ok(),
    ensures
        r == cells_height(cells@, cells@.len() as int),
        0 <= r <= crate::geometry::COORD_LIMIT,
{
    let mut h: i64 = 0;
    let mut i: usize = 0;
    while i < cells.len()
        invariant
            forall|c: int| 0 <= c < cells@.len() ==> #[trigger] cells@[c].ok(),
            i <= cells@.len(),
            h == cells_height(cells@, i as int),
            0 <= h <= crate::geometry::COORD_LIMIT,
        decreases cells.len() - i,
    {
        assert(cells@[i as int].ok());
        let ch = cells[i].size().h;
        if ch > h {
            h = ch;
        }
        i += 1;
    }
    h
}

/// A copy of the runs.
pub fn duplicate_runs(texts: &Vec<Text>) -> (r: Vec<Text>)
    ensures
        r@ == texts@,
{
    let mut out: Vec<Text> = Vec::new();
    let mut i: usize = 0;
    while i < texts.len()
        invariant
            i <= texts@.len(),
            out@ == texts@.take(i as int),
        decreases texts.len() - i,
    {
        out.push(texts[i].duplicate());
        i += 1;
        assert(out@ =~= texts@.take(i as int));
    }
    assert(texts@.take(i as int) =~= texts@);
    out
}


impl Table {
    /// Whether the table is within the limits and all its cells are valid.
    pub fn is_ok(&self) -> (r: bool)
        ensures
            r == self.ok(),
    {
        if self.headers.len() > TABLE_LIMIT || self.rows.len() > TABLE_LIMIT {
            return false;
        }
        let mut c: usize = 0;
        while c < self.headers.len()
            invariant
                c <= self.headers@.len(),
                forall|k: int| 0 <= k < c ==> #[trigger] self.headers@[k].ok(),
            decreases self.headers.len() - c,
        {
            if !self.headers[c].is_ok() {
                return false;
            }
            c += 1;
        }
        let mut r: usize = 0;
        while r < self.rows.len()
            invariant
                r <= self.rows@.len(),
                forall|c: int| 0 <= c < self.headers@.len() ==> #[trigger] self.headers@[c].ok(),
                forall|a: int, b: int| 0 <= a < r && 0 <= b < self.rows@[a]@.len() ==> #[trigger] self.rows@[a]@[b].ok(),
            decreases self.rows.len() - r,
        {
            let row = &self.rows[r];
            let mut k: usize = 0;
            while k < row.len()
                invariant
                    r < self.rows@.len(),
                    row == &self.rows@[r as int],
                    k <= row@.len(),
                    forall|b: int| 0 <= b < k ==> #[trigger] row@[b].ok(),
                decreases row.len() - k,
            {
                if !row[k].is_ok() {
                    return false;
                }
                k += 1;
            }
            r += 1;
        }
        true
    }
}

} // verus!
