use crate::geometry::{Point, Rect};
use crate::text::{Color, Text};
use vstd::prelude::*;

verus! {

/// One flat-colored vector shape of a frame, in screen pixels.
#[derive(Clone, Copy, Debug, PartialEq, Eq, Structural)]
pub enum Shape {
    /// A filled axis-aligned rectangle.
    FillRect { rect: Rect, color: Color },
    /// The outline of a rectangle, `width` pixels wide.
    StrokeRect { rect: Rect, color: Color, width: i64 },
    /// A filled triangle.
    FillTriangle { a: Point, b: Point, c: Point, color: Color },
    /// An open path through three points, `width` pixels wide.
    StrokePolyline { a: Point, b: Point, c: Point, color: Color, width: i64 },
}

/// Runs handed to the shaping service to be drawn with the text pass.
#[derive(Debug)]
pub struct QueuedText {
    pub texts: Vec<Text>,
    pub screen_position: Point,
    pub wrap_width: i64,
}

pub struct QueuedView {
    pub texts: Seq<Text>,
    pub screen_position: Point,
    pub wrap_width: i64,
}

impl QueuedText {
    pub open spec fn view(&self) -> QueuedView {
        QueuedView { texts: self.texts@, screen_position: self.screen_position, wrap_width: self.wrap_width }
    }
}

/// What one frame accumulates: the vector shapes, the queued text and the
/// selected characters.
#[derive(Debug)]
pub struct Frame {
    pub shapes: Vec<Shape>,
    pub queued: Vec<QueuedText>,
    pub selection_text: Vec<char>,
}

pub struct FrameView {
    pub shapes: Seq<Shape>,
    pub queued: Seq<QueuedView>,
    pub selected: Seq<char>,
}

impl FrameView {
    pub open spec fn empty() -> FrameView {
        FrameView { shapes: Seq::empty(), queued: Seq::empty(), selected: Seq::empty() }
    }

    pub open spec fn shape(s: Shape) -> FrameView {
        FrameView { shapes: seq![s], queued: Seq::empty(), selected: Seq::empty() }
    }

    pub open spec fn text(q: QueuedView) -> FrameView {
        FrameView { shapes: Seq::empty(), queued: seq![q], selected: Seq::empty() }
    }

    pub open spec fn cat(self, o: FrameView) -> FrameView {
        FrameView {
            shapes: self.shapes + o.shapes,
            queued: self.queued + o.queued,
            selected: self.selected + o.selected,
        }
    }
}

pub proof fn lemma_cat_assoc(a: FrameView, b: FrameView, c: FrameView)
    ensures
        a.cat(b).cat(c) == a.cat(b.cat(c)),
{
    assert(a.cat(b).cat(c).shapes =~= a.cat(b.cat(c)).shapes);
    assert(a.cat(b).cat(c).queued =~= a.cat(b.cat(c)).queued);
    assert(a.cat(b).cat(c).selected =~= a.cat(b.cat(c)).selected);
}

pub proof fn lemma_cat_empty(a: FrameView)
    ensures
        a.cat(FrameView::empty()) == a,
        FrameView::empty().cat(a) == a,
{
    assert(a.cat(FrameView::empty()).shapes =~= a.shapes);
    assert(a.cat(FrameView::empty()).queued =~= a.queued);
    assert(a.cat(FrameView::empty()).selected =~= a.selected);
    assert(FrameView::empty().cat(a).shapes =~= a.shapes);
    assert(FrameView::empty().cat(a).queued =~= a.queued);
    assert(FrameView::empty().cat(a).selected =~= a.selected);
}

impl Frame {
    pub open spec fn view(&self) -> FrameView {
        FrameView {
            shapes: self.shapes@,
            queued: self.queued@.map_values(|q: QueuedText| q.view()),
            selected: self.selection_text@,
        }
    }

    pub fn new() -> (r: Frame)
        ensures
            r.view() == FrameView::empty(),
    {
        let r = Frame { shapes: Vec::new(), queued: Vec::new(), selection_text: Vec::new() };
        assert(r.view().queued =~= Seq::empty());
        r
    }

    /// Empties the frame.
    pub fn clear(&mut self)
        ensures
            final(self).view() == FrameView::empty(),
    {
        *self = Frame::new();
    }

    pub fn push_shape(&mut self, s: Shape)
        ensures
            final(self).view() == old(self).view().cat(FrameView::shape(s)),
    {
        self.shapes.push(s);
        assert(self.view().shapes =~= old(self).view().cat(FrameView::shape(s)).shapes);
        assert(self.view().queued =~= old(self).view().cat(FrameView::shape(s)).queued);
        assert(self.view().selected =~= old(self).view().cat(FrameView::shape(s)).selected);
    }

    pub fn push_text(&mut self, q: QueuedText)
        ensures
            final(self).view() == old(self).view().cat(FrameView::text(q.view())),
    {
        let ghost qv = q.view();
        self.queued.push(q);
        assert(self.view().shapes =~= old(self).view().cat(FrameView::text(qv)).shapes);
        assert(self.view().queued =~= old(self).view().cat(FrameView::text(qv)).queued);
        assert(self.view().selected =~= old(self).view().cat(FrameView::text(qv)).selected);
    }

    /// Appends selected characters.
    pub fn push_selected(&mut self, chars: &Vec<char>)
        ensures
            final(self).view() == old(self).view().cat(
                FrameView { shapes: Seq::empty(), queued: Seq::empty(), selected: chars@ },
            ),
    {
        let mut i: usize = 0;
        while i < chars.len()
            invariant
                i <= chars@.len(),
                self.shapes@ == old(self).shapes@,
                self.queued@ == old(self).queued@,
                self.selection_text@ == old(self).selection_text@ + chars@.take(i as int),
            decreases chars.len() - i,
        {
            self.selection_text.push(chars[i]);
            i += 1;
            assert(self.selection_text@ =~= old(self).selection_text@ + chars@.take(i as int));
        }
        assert(chars@.take(i as int) =~= chars@);
        let ghost d = FrameView { shapes: Seq::empty(), queued: Seq::empty(), selected: chars@ };
        assert(self.view().shapes =~= old(self).view().cat(d).shapes);
        assert(self.view().queued =~= old(self).view().cat(d).queued);
        assert(self.view().selected =~= old(self).view().cat(d).selected);
    }
}

} // verus!
