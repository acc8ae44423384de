//! Composing widgets: a list of widgets, each with the rectangle of the
//! screen it is laid out in.

use vstd::prelude::*;
use crate::rect::Rect;

verus! {

/// A list of widgets joined side by side, each with its own layout
/// rectangle.
pub struct VecJoin<W> {
    widgets: Vec<(Rect, W)>,
}

impl<W> VecJoin<W> {
    /// The laid-out widgets, in order.
    pub closed spec fn items(self) -> Seq<(Rect, W)> {
        self.widgets@
    }

    /// Create an empty join.
    pub fn new() -> (v: VecJoin<W>)
        ensures
            v.items() == Seq::<(Rect, W)>::empty(),
    {
        let v = VecJoin { widgets: Vec::new() };
        proof {
            assert(v.items() =~= Seq::<(Rect, W)>::empty());
        }
        v
    }

    /// How many widgets the join holds.
    pub fn len(&self) -> (n: usize)
        ensures
            n == self.items().len(),
    {
        self.widgets.len()
    }

    /// Add a widget at the end.
    pub fn push(&mut self, rect: Rect, widget: W)
        ensures
            final(self).items() == old(self).items().push((rect, widget)),
    {
        self.widgets.push((rect, widget));
    }

    /// Take the last widget out, with its rectangle.
    pub fn pop(&mut self) -> (r: Option<(Rect, W)>)
        ensures
            old(self).items().len() == 0 ==> r is None && final(self).items() == old(self).items(),
            old(self).items().len() > 0 ==> r == Some(old(self).items().last())
                && final(self).items() == old(self).items().drop_last(),
    {
        self.widgets.pop()
    }

    /// Insert a widget at `index`, shifting the widgets after it.
    pub fn insert(&mut self, index: usize, rect: Rect, widget: W)
        requires
            index <= old(self).items().len(),
        ensures
            final(self).items() == old(self).items().insert(index as int, (rect, widget)),
    {
        self.widgets.insert(index, (rect, widget));
    }

    /// Take the widget at `index` out, moving the last widget into its
    /// place.
    pub fn swap_remove(&mut self, index: usize) -> (r: (Rect, W))
        requires
            index < old(self).items().len(),
        ensures
            r == old(self).items()[index as int],
            final(self).items() == old(self).items().update(
                index as int,
                old(self).items().last(),
            ).drop_last(),
    {
        self.widgets.swap_remove(index)
    }

    /// Take the widget at `index` out, shifting the widgets after it.
    pub fn remove(&mut self, index: usize) -> (r: (Rect, W))
        requires
            index < old(self).items().len(),
        ensures
            r == old(self).items()[index as int],
            final(self).items() == old(self).items().remove(index as int),
    {
        self.widgets.remove(index)
    }

    /// The widget at `index`.
    pub fn widget(&self, index: usize) -> (w: &W)
        requires
            index < self.items().len(),
        ensures
            *w == self.items()[index as int].1,
    {
        let (_, widget) = &self.widgets[index];
        widget
    }

    /// The widget at `index`, mutably.
    pub fn widget_mut(&mut self, index: usize) -> (w: &mut W)
        requires
            index < old(self).items().len(),
        ensures
            *w == old(self).items()[index as int].1,
            final(self).items() == old(self).items().update(
                index as int,
                (old(self).items()[index as int].0, *final(w)),
            ),
    {
        let pair = &mut self.widgets[index];
        &mut pair.1
    }

    /// The layout rectangle of the widget at `index`.
    pub fn layout(&self, index: usize) -> (r: &Rect)
        requires
            index < self.items().len(),
        ensures
            *r == self.items()[index as int].0,
    {
        let (rect, _) = &self.widgets[index];
        rect
    }

    /// The layout rectangle of the widget at `index`, mutably.
    pub fn layout_mut(&mut self, index: usize) -> (r: &mut Rect)
        requires
            index < old(self).items().len(),
        ensures
            *r == old(self).items()[index as int].0,
            final(self).items() == old(self).items().update(
                index as int,
                (*final(r), old(self).items()[index as int].1),
            ),
    {
        let pair = &mut self.widgets[index];
        &mut pair.0
    }
}

} // verus!
