//! Rectangles used for laying out regions of the screen.

use vstd::prelude::*;

verus! {

/// A rectangle, given by its left/right columns and top/bottom rows.
///
/// A well-formed rectangle has `x0 <= x1` and `y0 <= y1`.
#[derive(Debug, Clone, Copy, PartialEq, Eq, Structural)]
pub struct Rect {
    pub x0: i16,
    pub x1: i16,
    pub y0: i16,
    pub y1: i16,
}

impl Rect {
    /// A rectangle is well-formed when its corners are ordered.
    pub open spec fn wf(self) -> bool {
        self.x0 <= self.x1 && self.y0 <= self.y1
    }

    /// Get the rectangle's width.
    pub fn width(&self) -> (w: u16)
        requires
            self.wf(),
        ensures
            w == self.x1 - self.x0,
    {
        (self.x1 as i32 - self.x0 as i32) as u16
    }

    /// Get the rectangle's height.
    pub fn height(&self) -> (h: u16)
        requires
            self.wf(),
        ensures
            h == self.y1 - self.y0,
    {
        (self.y1 as i32 - self.y0 as i32) as u16
    }

    /// Move the left edge right by `amount`, stopping at the right edge.
    pub fn shrink_left(&mut self, amount: i16)
        requires
            old(self).wf(),
            i16::MIN <= old(self).x0 + amount <= i16::MAX,
        ensures
            *final(self) == (Rect {
                x0: if old(self).x0 + amount <= old(self).x1 {
                    (old(self).x0 + amount) as i16
                } else {
                    old(self).x1
                },
                ..*old(self)
            }),
            final(self).wf(),
    {
        self.x0 = self.x0 + amount;
        if self.x0 > self.x1 {
            self.x0 = self.x1;
        }
    }

    /// Move the right edge left by `amount`, stopping at the left edge.
    pub fn shrink_right(&mut self, amount: i16)
        requires
            old(self).wf(),
            i16::MIN <= old(self).x1 - amount <= i16::MAX,
        ensures
            *final(self) == (Rect {
                x1: if old(self).x1 - amount >= old(self).x0 {
                    (old(self).x1 - amount) as i16
                } else {
                    old(self).x0
                },
                ..*old(self)
            }),
            final(self).wf(),
    {
        self.x1 = self.x1 - amount;
        if self.x1 < self.x0 {
            self.x1 = self.x0;
        }
    }

    /// Move the top edge down by `amount`, stopping at the bottom edge.
    pub fn shrink_top(&mut self, amount: i16)
        requires
            old(self).wf(),
            i16::MIN <= old(self).y0 + amount <= i16::MAX,
        ensures
            *final(self) == (Rect {
                y0: if old(self).y0 + amount <= old(self).y1 {
                    (old(self).y0 + amount) as i16
                } else {
                    old(self).y1
                },
                ..*old(self)
            }),
            final(self).wf(),
    {
        self.y0 = self.y0 + amount;
        if self.y0 > self.y1 {
            self.y0 = self.y1;
        }
    }

    /// Move the bottom edge up by `amount`, stopping at the top edge.
    pub fn shrink_bottom(&mut self, amount: i16)
        requires
            old(self).wf(),
            i16::MIN <= old(self).y1 - amount <= i16::MAX,
        ensures
            *final(self) == (Rect {
                y1: if old(self).y1 - amount >= old(self).y0 {
                    (old(self).y1 - amount) as i16
                } else {
                    old(self).y0
                },
                ..*old(self)
            }),
            final(self).wf(),
    {
        self.y1 = self.y1 - amount;
        if self.y1 < self.y0 {
            self.y1 = self.y0;
        }
    }
}

} // verus!
