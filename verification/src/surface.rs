//! Cell grids that widgets draw into and the renderer diffs.

use vstd::prelude::*;
use vstd::string::StrSliceExecFns;
use crate::color::Color;
use crate::rect::Rect;
use crate::style::{Style, default_style};
use crate::width::{char_cols, spec_char_cols};

verus! {

/// A single grid cell of text on the terminal.
#[derive(Clone, Copy, Debug, PartialEq, Eq, Structural)]
pub struct Cell {
    pub style: Style,
    pub c: char,
}

/// The cell that a cleared surface is filled with.
pub open spec fn blank_cell() -> Cell {
    Cell { style: default_style(), c: ' ' }
}

/// The mathematical model of a [`Surface`]: its dimensions and its cells in
/// row-major order.
pub struct GridView {
    pub w: nat,
    pub h: nat,
    pub cells: Seq<Cell>,
}

impl GridView {
    /// The grid stores exactly one cell per coordinate and both dimensions
    /// fit in a signed 16-bit coordinate.
    pub open spec fn wf(self) -> bool {
        &&& self.cells.len() == self.w * self.h
        &&& self.w <= 0x7fff
        &&& self.h <= 0x7fff
    }

    /// Whether `(x, y)` addresses a cell of the grid.
    pub open spec fn in_bounds(self, x: int, y: int) -> bool {
        0 <= x < self.w && 0 <= y < self.h
    }

    /// The position of cell `(x, y)` in row-major order.
    pub open spec fn idx(self, x: int, y: int) -> int {
        y * self.w + x
    }

    /// The cell at position `(x, y)`.
    pub open spec fn cell(self, x: int, y: int) -> Cell {
        self.cells[self.idx(x, y)]
    }

    /// Row-major positions of in-bounds coordinates lie within the cell store.
    pub proof fn lemma_idx_bounds(self, x: int, y: int)
        requires
            self.wf(),
            self.in_bounds(x, y),
        ensures
            0 <= self.idx(x, y) < self.cells.len(),
    {
        assert(0 <= y * self.w + x < self.w * self.h) by (nonlinear_arith)
            requires
                0 <= x < self.w,
                0 <= y < self.h,
        ;
    }

    /// Distinct in-bounds coordinates have distinct row-major positions.
    pub proof fn lemma_idx_inj(self, x1: int, y1: int, x2: int, y2: int)
        requires
            self.wf(),
            self.in_bounds(x1, y1),
            self.in_bounds(x2, y2),
            !(x1 == x2 && y1 == y2),
        ensures
            self.idx(x1, y1) != self.idx(x2, y2),
    {
        assert(y1 * self.w + x1 != y2 * self.w + x2) by (nonlinear_arith)
            requires
                0 <= x1 < self.w,
                0 <= x2 < self.w,
                !(x1 == x2 && y1 == y2),
        ;
    }

    /// The grid after a `put` of `c` at `(x, y)` in style `style`: the
    /// addressed cell takes the character, the cells hidden under a
    /// multi-column character become continuation cells holding `'\0'` in the
    /// same style, stopping at the right edge. A put outside the grid changes
    /// nothing.
    pub open spec fn put(self, c: char, x: int, y: int, style: Style) -> GridView {
        if !self.in_bounds(x, y) {
            self
        } else {
            let n = spec_char_cols(c) as int;
            let c0 = self.cells.update(self.idx(x, y), Cell { c, style });
            let c1 = if n >= 2 && x + 1 < self.w {
                c0.update(self.idx(x + 1, y), Cell { c: '\0', style })
            } else {
                c0
            };
            let c2 = if n >= 3 && x + 1 < self.w && x + 2 < self.w {
                c1.update(self.idx(x + 2, y), Cell { c: '\0', style })
            } else {
                c1
            };
            GridView { w: self.w, h: self.h, cells: c2 }
        }
    }

    /// What one cell holds after a `put`: the target cell, a continuation
    /// cell to the target's right, or the unchanged old cell.
    pub proof fn lemma_put_cell(self, c: char, x: int, y: int, style: Style, i: int, j: int)
        requires
            self.wf(),
            spec_char_cols(c) <= 3,
            self.in_bounds(i, j),
        ensures
            self.put(c, x, y, style).cell(i, j) == (if self.in_bounds(x, y) && j == y && i == x {
                Cell { c, style }
            } else if self.in_bounds(x, y) && j == y && x < i < x + spec_char_cols(c) {
                Cell { c: '\0', style }
            } else {
                self.cell(i, j)
            }),
    {
        if self.in_bounds(x, y) {
            self.lemma_idx_bounds(x, y);
            if x + 1 < self.w {
                self.lemma_idx_bounds(x + 1, y);
            }
            if x + 2 < self.w {
                self.lemma_idx_bounds(x + 2, y);
            }
            self.lemma_idx_bounds(i, j);
            if !(i == x && j == y) {
                self.lemma_idx_inj(i, j, x, y);
            }
            if x + 1 < self.w && !(i == x + 1 && j == y) {
                self.lemma_idx_inj(i, j, x + 1, y);
            }
            if x + 2 < self.w && !(i == x + 2 && j == y) {
                self.lemma_idx_inj(i, j, x + 2, y);
            }
        }
    }

    /// What each cell holds after a `put`: the target cell, the continuation
    /// cells to its right, and every other cell unchanged.
    pub proof fn lemma_put_cells(self, c: char, x: int, y: int, style: Style)
        requires
            self.wf(),
            spec_char_cols(c) <= 3,
        ensures
            self.put(c, x, y, style).wf(),
            self.put(c, x, y, style).w == self.w,
            self.put(c, x, y, style).h == self.h,
            forall|i: int, j: int|
                self.in_bounds(i, j) ==> self.put(c, x, y, style).cell(i, j) == (if self.in_bounds(
                    x,
                    y,
                ) && j == y && i == x {
                    Cell { c, style }
                } else if self.in_bounds(x, y) && j == y && x < i < x + spec_char_cols(c) {
                    Cell { c: '\0', style }
                } else {
                    self.cell(i, j)
                }),
    {
        if self.in_bounds(x, y) {
            self.lemma_idx_bounds(x, y);
            if x + 1 < self.w {
                self.lemma_idx_bounds(x + 1, y);
            }
            if x + 2 < self.w {
                self.lemma_idx_bounds(x + 2, y);
            }
        }
        assert forall|i: int, j: int| self.in_bounds(i, j) implies self.put(c, x, y, style).cell(
            i,
            j,
        ) == (if self.in_bounds(x, y) && j == y && i == x {
            Cell { c, style }
        } else if self.in_bounds(x, y) && j == y && x < i < x + spec_char_cols(c) {
            Cell { c: '\0', style }
        } else {
            self.cell(i, j)
        }) by {
            self.lemma_put_cell(c, x, y, style, i, j);
        }
    }

    /// The grid after printing `text` left to right starting at `(x, y)`:
    /// each character is put at the current position, which then advances by
    /// the character's width, and printing stops at the first character whose
    /// far edge would cross column `x1`.
    pub open spec fn print(self, text: Seq<char>, x: int, x1: int, y: int, style: Style) -> GridView
        decreases text.len(),
    {
        if text.len() == 0 {
            self
        } else {
            let c = text[0];
            let w = spec_char_cols(c) as int;
            if x + w > x1 {
                self
            } else {
                self.put(c, x, y, style).print(text.skip(1), x + w, x1, y, style)
            }
        }
    }
}

/// A 2-dimensional array of cells.
///
/// Cells are addressed by `(x, y)` with `x` growing rightwards and `y`
/// growing downwards.
pub struct Surface {
    w: u16,
    h: u16,
    cells: Vec<Cell>,
}

impl View for Surface {
    type V = GridView;

    closed spec fn view(&self) -> GridView {
        GridView { w: self.w as nat, h: self.h as nat, cells: self.cells@ }
    }
}

impl Surface {
    /// Create a new, blank surface.
    pub fn blank(w: u16, h: u16) -> (s: Surface)
        requires
            w <= 0x7fff,
            h <= 0x7fff,
        ensures
            s@.wf(),
            s@.w == w,
            s@.h == h,
            forall|x: int, y: int| s@.in_bounds(x, y) ==> s@.cell(x, y) == blank_cell(),
    {
        proof {
            assert(w as int * h as int <= 0x7fff * 0x7fff) by (nonlinear_arith)
                requires
                    w <= 0x7fff,
                    h <= 0x7fff,
            ;
        }
        let n: usize = w as usize * h as usize;
        let mut cells: Vec<Cell> = Vec::with_capacity(n);
        for i in 0..n
            invariant
                cells.len() == i,
                forall|k: int| 0 <= k < i ==> cells[k] == blank_cell(),
        {
            cells.push(Cell { style: Style::default(), c: ' ' });
        }
        let s = Surface { w, h, cells };
        proof {
            assert forall|x: int, y: int| s@.in_bounds(x, y) implies s@.cell(x, y)
                == blank_cell() by {
                s@.lemma_idx_bounds(x, y);
            }
        }
        s
    }

    /// Get the surface's width.
    pub fn width(&self) -> (w: u16)
        ensures
            w == self@.w,
    {
        self.w
    }

    /// Get the surface's height.
    pub fn height(&self) -> (h: u16)
        ensures
            h == self@.h,
    {
        self.h
    }

    /// The position of `(x, y)` in the cell store, or `None` when it lies
    /// outside the surface.
    fn index(&self, x: i16, y: i16) -> (r: Option<usize>)
        requires
            self@.wf(),
        ensures
            match r {
                Some(i) => self@.in_bounds(x as int, y as int) && i == self@.idx(
                    x as int,
                    y as int,
                ) && i < self@.cells.len(),
                None => !self@.in_bounds(x as int, y as int),
            },
    {
        if x < 0 || y < 0 {
            return None;
        }
        if x as u16 >= self.w || y as u16 >= self.h {
            return None;
        }
        let cap = self.cells.len();
        proof {
            self@.lemma_idx_bounds(x as int, y as int);
            assert((y as int * self.w as int + x as int) < cap);
            assert(y as int * self.w as int >= 0) by (nonlinear_arith)
                requires
                    y >= 0,
            ;
        }
        Some(y as usize * self.w as usize + x as usize)
    }

    /// Get a reference to the cell at position (x, y).
    pub fn cell(&self, x: u16, y: u16) -> (c: &Cell)
        requires
            self@.wf(),
            self@.in_bounds(x as int, y as int),
        ensures
            *c == self@.cell(x as int, y as int),
    {
        let i = match self.index(x as i16, y as i16) {
            Some(i) => i,
            None => unreached(),
        };
        proof {
            self@.lemma_idx_bounds(x as int, y as int);
        }
        &self.cells[i]
    }

    /// Get a mutable reference to the cell at position (x, y).
    pub fn cell_mut(&mut self, x: u16, y: u16) -> (c: &mut Cell)
        requires
            old(self)@.wf(),
            old(self)@.in_bounds(x as int, y as int),
        ensures
            *c == old(self)@.cell(x as int, y as int),
            final(self)@.wf(),
            final(self)@.w == old(self)@.w,
            final(self)@.h == old(self)@.h,
            final(self)@.cell(x as int, y as int) == *final(c),
            final(self)@.cells == old(self)@.cells.update(
                old(self)@.idx(x as int, y as int),
                *final(c),
            ),
            forall|i: int, j: int|
                old(self)@.in_bounds(i, j) && !(i == x as int && j == y as int)
                    ==> final(self)@.cell(i, j) == old(self)@.cell(i, j),
    {
        let i = match self.index(x as i16, y as i16) {
            Some(i) => i,
            None => unreached(),
        };
        proof {
            self@.lemma_idx_bounds(x as int, y as int);
            assert forall|i2: int, j2: int|
                old(self)@.in_bounds(i2, j2) && !(i2 == x as int && j2 == y as int) implies old(
                self,
            )@.idx(i2, j2) != old(self)@.idx(x as int, y as int) && 0 <= old(self)@.idx(i2, j2)
                < old(self)@.cells.len() by {
                old(self)@.lemma_idx_bounds(i2, j2);
                old(self)@.lemma_idx_inj(i2, j2, x as int, y as int);
            }
        }
        &mut self.cells[i]
    }

    /// Set the cell at position (x, y), blanking the continuation cells a
    /// multi-column character covers.
    pub fn put(&mut self, c: char, x: i16, y: i16, style: Style)
        requires
            old(self)@.wf(),
        ensures
            final(self)@ == old(self)@.put(c, x as int, y as int, style),
            final(self)@.wf(),
            final(self)@.w == old(self)@.w,
            final(self)@.h == old(self)@.h,
    {
        let i = match self.index(x, y) {
            Some(i) => i,
            None => {
                return ;
            },
        };
        self.cells[i] = Cell { c, style };
        let n = char_cols(c);
        if n >= 2 {
            let i1 = match self.index(x + 1, y) {
                Some(i1) => i1,
                None => {
                    return ;
                },
            };
            self.cells[i1] = Cell { c: '\0', style };
            if n >= 3 {
                let i2 = match self.index(x + 2, y) {
                    Some(i2) => i2,
                    None => {
                        return ;
                    },
                };
                self.cells[i2] = Cell { c: '\0', style };
            }
        }
    }

    /// Print text to the surface.
    pub fn print(&mut self, text: &str, x: i16, y: i16, style: Style)
        requires
            old(self)@.wf(),
        ensures
            final(self)@ == old(self)@.print(
                text@,
                x as int,
                old(self)@.w as int,
                y as int,
                style,
            ),
            final(self)@.wf(),
            final(self)@.w == old(self)@.w,
            final(self)@.h == old(self)@.h,
    {
        let w = self.w as i16;
        self.print_inner(text, x, w, y, style)
    }

    /// Print text, stopping before column `x1`.
    pub(crate) fn print_inner(&mut self, text: &str, x0: i16, x1: i16, y: i16, style: Style)
        requires
            old(self)@.wf(),
        ensures
            final(self)@ == old(self)@.print(text@, x0 as int, x1 as int, y as int, style),
            final(self)@.wf(),
            final(self)@.w == old(self)@.w,
            final(self)@.h == old(self)@.h,
    {
        let ghost orig: GridView = self@;
        proof {
            assert(text@.skip(0) =~= text@);
        }
        let len = text.unicode_len();
        let mut i: usize = 0;
        let mut x: i32 = x0 as i32;
        while i < len
            invariant
                orig == old(self)@,
                self@.wf(),
                self@.w == orig.w,
                self@.h == orig.h,
                i <= len,
                len == text@.len(),
                x0 as int <= x,
                x <= x1 as int || x == x0 as int,
                orig.print(text@, x0 as int, x1 as int, y as int, style) == self@.print(
                    text@.skip(i as int),
                    x as int,
                    x1 as int,
                    y as int,
                    style,
                ),
            decreases len - i,
        {
            let c = text.get_char(i);
            proof {
                assert(text@.skip(i as int)[0] == text@[i as int]);
            }
            let cw = char_cols(c) as i32;
            if x + cw > x1 as i32 {
                return ;
            }
            proof {
                assert(-0x8000 <= x <= 0x7fff);
                self@.lemma_put_cells(c, x as int, y as int, style);
                assert(text@.skip(i as int).skip(1) =~= text@.skip(i + 1));
            }
            self.put(c, x as i16, y, style);
            x = x + cw;
            i = i + 1;
        }
        proof {
            assert(text@.skip(len as int) =~= Seq::<char>::empty());
        }
    }
}

/// The line segments that a box-drawing character covers, as a 4-bit mask:
/// bit 0 reaches right, bit 1 reaches up, bit 2 reaches left and bit 3
/// reaches down from the center of the cell.
pub open spec fn spec_seg_of(c: char) -> Option<u8> {
    if c == '\u{2576}' {
        Some(0b0001u8)
    } else if c == '\u{2575}' {
        Some(0b0010u8)
    } else if c == '\u{2574}' {
        Some(0b0100u8)
    } else if c == '\u{2577}' {
        Some(0b1000u8)
    } else if c == '\u{2514}' {
        Some(0b0011u8)
    } else if c == '\u{2500}' {
        Some(0b0101u8)
    } else if c == '\u{250c}' {
        Some(0b1001u8)
    } else if c == '\u{2518}' {
        Some(0b0110u8)
    } else if c == '\u{2502}' {
        Some(0b1010u8)
    } else if c == '\u{2510}' {
        Some(0b1100u8)
    } else if c == '\u{2534}' {
        Some(0b0111u8)
    } else if c == '\u{251c}' {
        Some(0b1011u8)
    } else if c == '\u{252c}' {
        Some(0b1101u8)
    } else if c == '\u{2524}' {
        Some(0b1110u8)
    } else if c == '\u{253c}' {
        Some(0b1111u8)
    } else {
        None
    }
}

/// The box-drawing character that covers exactly the segments of the
/// (non-empty) 4-bit mask `v`.
pub open spec fn spec_seg_char(v: u8) -> char {
    if v == 0b0001 {
        '\u{2576}'
    } else if v == 0b0010 {
        '\u{2575}'
    } else if v == 0b0100 {
        '\u{2574}'
    } else if v == 0b1000 {
        '\u{2577}'
    } else if v == 0b0011 {
        '\u{2514}'
    } else if v == 0b0101 {
        '\u{2500}'
    } else if v == 0b1001 {
        '\u{250c}'
    } else if v == 0b0110 {
        '\u{2518}'
    } else if v == 0b1010 {
        '\u{2502}'
    } else if v == 0b1100 {
        '\u{2510}'
    } else if v == 0b0111 {
        '\u{2534}'
    } else if v == 0b1011 {
        '\u{251c}'
    } else if v == 0b1101 {
        '\u{252c}'
    } else if v == 0b1110 {
        '\u{2524}'
    } else if v == 0b1111 {
        '\u{253c}'
    } else {
        ' '
    }
}

/// Merging new line segments into a cell's character: whatever box-drawing
/// segments the character already covers, joined with `bits`.
pub open spec fn spec_seg_merge(c: char, bits: u8) -> char {
    spec_seg_char(
        (match spec_seg_of(c) {
            Some(v) => v,
            None => 0u8,
        }) | bits,
    )
}

/// The line segments that a box-drawing character covers, if it is one.
pub fn char_to_segments(c: char) -> (r: Option<u8>)
    ensures
        r == spec_seg_of(c),
{
    match c {
        '\u{2576}' => Some(0b0001),
        '\u{2575}' => Some(0b0010),
        '\u{2574}' => Some(0b0100),
        '\u{2577}' => Some(0b1000),
        '\u{2514}' => Some(0b0011),
        '\u{2500}' => Some(0b0101),
        '\u{250c}' => Some(0b1001),
        '\u{2518}' => Some(0b0110),
        '\u{2502}' => Some(0b1010),
        '\u{2510}' => Some(0b1100),
        '\u{2534}' => Some(0b0111),
        '\u{251c}' => Some(0b1011),
        '\u{252c}' => Some(0b1101),
        '\u{2524}' => Some(0b1110),
        '\u{253c}' => Some(0b1111),
        _ => None,
    }
}

/// The box-drawing character covering exactly the segments of `v`.
pub fn segments_to_char(v: u8) -> (c: char)
    requires
        1 <= v <= 15,
    ensures
        c == spec_seg_char(v),
{
    match v {
        0b0001 => '\u{2576}',
        0b0010 => '\u{2575}',
        0b0100 => '\u{2574}',
        0b1000 => '\u{2577}',
        0b0011 => '\u{2514}',
        0b0101 => '\u{2500}',
        0b1001 => '\u{250c}',
        0b0110 => '\u{2518}',
        0b1010 => '\u{2502}',
        0b1100 => '\u{2510}',
        0b0111 => '\u{2534}',
        0b1011 => '\u{251c}',
        0b1101 => '\u{252c}',
        0b1110 => '\u{2524}',
        _ => '\u{253c}',
    }
}

impl GridView {
    /// The segment bits that `draw_h_line(x0, x1, y)` adds to the cell in
    /// column `i` of the line's row: the right-reaching half of the stroke is
    /// laid over columns `[x0, x1)` and the left-reaching half over
    /// `[x0 + 1, x1 + 1)`, each clipped against the grid.
    pub open spec fn hline_bits(self, i: int, x0: int, x1: int) -> u8 {
        let b1: u8 = if x0 >= 0 && x0 <= i < x1 && i < self.w {
            0b0001u8
        } else {
            0u8
        };
        let b2: u8 = if x0 + 1 >= 0 && x0 + 1 <= i < x1 + 1 && i < self.w {
            0b0100u8
        } else {
            0u8
        };
        (b1 + b2) as u8
    }

    /// The segment bits that `draw_v_line(y0, y1, x)` adds to the cell in
    /// row `j` of the line's column.
    pub open spec fn vline_bits(self, j: int, y0: int, y1: int) -> u8 {
        let b1: u8 = if y0 >= 0 && y0 <= j < y1 && j < self.h {
            0b1000u8
        } else {
            0u8
        };
        let b2: u8 = if y0 + 1 >= 0 && y0 + 1 <= j < y1 + 1 && j < self.h {
            0b0010u8
        } else {
            0u8
        };
        (b1 + b2) as u8
    }
}

impl Surface {
    /// Draw a horizontal line on the surface.
    ///
    /// Each touched cell keeps its style and has the line's segments merged
    /// into its character.
    pub fn draw_h_line(&mut self, x0: i16, x1: i16, y: i16)
        requires
            old(self)@.wf(),
        ensures
            final(self)@.wf(),
            final(self)@.w == old(self)@.w,
            final(self)@.h == old(self)@.h,
            forall|i: int, j: int|
                old(self)@.in_bounds(i, j) ==> final(self)@.cell(i, j) == (if j == y as int
                    && old(self)@.hline_bits(i, x0 as int, x1 as int) != 0 {
                    Cell {
                        c: spec_seg_merge(
                            old(self)@.cell(i, j).c,
                            old(self)@.hline_bits(i, x0 as int, x1 as int),
                        ),
                        style: old(self)@.cell(i, j).style,
                    }
                } else {
                    old(self)@.cell(i, j)
                }),
    {
        let ghost orig: GridView = self@;
        if y < 0 || y as u16 >= self.h {
            proof {
                assert forall|i: int, j: int| orig.in_bounds(i, j) implies !(j == y as int) by {}
            }
            return ;
        }
        let start: i32 = x0 as i32;
        let stop: i32 = x1 as i32 + 1;
        let mut i: i32 = start;
        while i < stop
            invariant
                orig == old(self)@,
                self@.wf(),
                self@.w == orig.w,
                self@.h == orig.h,
                start == x0 as int,
                stop == x1 as int + 1,
                start <= i,
                0 <= (y as int) < orig.h,
                forall|i2: int, j2: int|
                    orig.in_bounds(i2, j2) ==> self@.cell(i2, j2) == (if j2 == y as int && i2 < i
                        && orig.hline_bits(i2, x0 as int, x1 as int) != 0 {
                        Cell {
                            c: spec_seg_merge(
                                orig.cell(i2, j2).c,
                                orig.hline_bits(i2, x0 as int, x1 as int),
                            ),
                            style: orig.cell(i2, j2).style,
                        }
                    } else {
                        orig.cell(i2, j2)
                    }),
            decreases stop - i,
        {
            if i >= 0 && i < self.w as i32 {
                let in1 = x0 >= 0 && x0 as i32 <= i && i < x1 as i32;
                let in2 = x0 as i32 + 1 >= 0 && x0 as i32 + 1 <= i && i < x1 as i32 + 1;
                let bits: u8 = (if in1 {
                    0b0001u8
                } else {
                    0u8
                }) + (if in2 {
                    0b0100u8
                } else {
                    0u8
                });
                proof {
                    assert(bits == orig.hline_bits(i as int, x0 as int, x1 as int));
                }
                if bits != 0 {
                    let c_old = self.cell(i as u16, y as u16).c;
                    let v = match char_to_segments(c_old) {
                        Some(v) => v,
                        None => 0,
                    };
                    proof {
                        assert(1 <= (v | bits) <= 15) by (bit_vector)
                            requires
                                bits == 1u8 || bits == 4u8 || bits == 5u8,
                                v <= 15u8,
                        ;
                    }
                    let merged = segments_to_char(v | bits);
                    let target = self.cell_mut(i as u16, y as u16);
                    target.c = merged;
                }
            }
            i = i + 1;
        }
    }

    /// Draw a vertical line on the surface.
    ///
    /// Each touched cell keeps its style and has the line's segments merged
    /// into its character.
    pub fn draw_v_line(&mut self, y0: i16, y1: i16, x: i16)
        requires
            old(self)@.wf(),
        ensures
            final(self)@.wf(),
            final(self)@.w == old(self)@.w,
            final(self)@.h == old(self)@.h,
            forall|i: int, j: int|
                old(self)@.in_bounds(i, j) ==> final(self)@.cell(i, j) == (if i == x as int
                    && old(self)@.vline_bits(j, y0 as int, y1 as int) != 0 {
                    Cell {
                        c: spec_seg_merge(
                            old(self)@.cell(i, j).c,
                            old(self)@.vline_bits(j, y0 as int, y1 as int),
                        ),
                        style: old(self)@.cell(i, j).style,
                    }
                } else {
                    old(self)@.cell(i, j)
                }),
    {
        let ghost orig: GridView = self@;
        if x < 0 || x as u16 >= self.w {
            proof {
                assert forall|i: int, j: int| orig.in_bounds(i, j) implies !(i == x as int) by {}
            }
            return ;
        }
        let start: i32 = y0 as i32;
        let stop: i32 = y1 as i32 + 1;
        let mut j: i32 = start;
        while j < stop
            invariant
                orig == old(self)@,
                self@.wf(),
                self@.w == orig.w,
                self@.h == orig.h,
                start == y0 as int,
                stop == y1 as int + 1,
                start <= j,
                0 <= (x as int) < orig.w,
                forall|i2: int, j2: int|
                    orig.in_bounds(i2, j2) ==> self@.cell(i2, j2) == (if i2 == x as int && j2 < j
                        && orig.vline_bits(j2, y0 as int, y1 as int) != 0 {
                        Cell {
                            c: spec_seg_merge(
                                orig.cell(i2, j2).c,
                                orig.vline_bits(j2, y0 as int, y1 as int),
                            ),
                            style: orig.cell(i2, j2).style,
                        }
                    } else {
                        orig.cell(i2, j2)
                    }),
            decreases stop - j,
        {
            if j >= 0 && j < self.h as i32 {
                let in1 = y0 >= 0 && y0 as i32 <= j && j < y1 as i32;
                let in2 = y0 as i32 + 1 >= 0 && y0 as i32 + 1 <= j && j < y1 as i32 + 1;
                let bits: u8 = (if in1 {
                    0b1000u8
                } else {
                    0u8
                }) + (if in2 {
                    0b0010u8
                } else {
                    0u8
                });
                proof {
                    assert(bits == orig.vline_bits(j as int, y0 as int, y1 as int));
                }
                if bits != 0 {
                    let c_old = self.cell(x as u16, j as u16).c;
                    let v = match char_to_segments(c_old) {
                        Some(v) => v,
                        None => 0,
                    };
                    proof {
                        assert(1 <= (v | bits) <= 15) by (bit_vector)
                            requires
                                bits == 8u8 || bits == 2u8 || bits == 10u8,
                                v <= 15u8,
                        ;
                    }
                    let merged = segments_to_char(v | bits);
                    let target = self.cell_mut(x as u16, j as u16);
                    target.c = merged;
                }
            }
            j = j + 1;
        }
    }

    /// Reset every cell inside `rect` (clipped against the surface) to the
    /// blank cell.
    pub(crate) fn clear(&mut self, rect: Rect)
        requires
            old(self)@.wf(),
        ensures
            final(self)@.wf(),
            final(self)@.w == old(self)@.w,
            final(self)@.h == old(self)@.h,
            forall|i: int, j: int|
                old(self)@.in_bounds(i, j) ==> final(self)@.cell(i, j) == (if rect.x0 <= i
                    < rect.x1 && rect.y0 <= j < rect.y1 {
                    blank_cell()
                } else {
                    old(self)@.cell(i, j)
                }),
    {
        let ghost orig: GridView = self@;
        let x0: u16 = if rect.x0 < 0 {
            0
        } else {
            rect.x0 as u16
        };
        let y0: u16 = if rect.y0 < 0 {
            0
        } else {
            rect.y0 as u16
        };
        let x1: u16 = if rect.x1 < 0 {
            0
        } else if rect.x1 as u16 > self.w {
            self.w
        } else {
            rect.x1 as u16
        };
        let y1: u16 = if rect.y1 < 0 {
            0
        } else if rect.y1 as u16 > self.h {
            self.h
        } else {
            rect.y1 as u16
        };
        let mut y: u16 = y0;
        while y < y1
            invariant
                orig == old(self)@,
                self@.wf(),
                self@.w == orig.w,
                self@.h == orig.h,
                y0 <= y,
                y1 <= orig.h,
                x1 <= orig.w,
                y0 as int == if rect.y0 < 0 { 0 } else { rect.y0 as int },
                x0 as int == if rect.x0 < 0 { 0 } else { rect.x0 as int },
                y1 as int == if rect.y1 < 0 { 0 } else if rect.y1 > orig.h { orig.h as int } else { rect.y1 as int },
                x1 as int == if rect.x1 < 0 { 0 } else if rect.x1 > orig.w { orig.w as int } else { rect.x1 as int },
                forall|i: int, j: int|
                    orig.in_bounds(i, j) ==> self@.cell(i, j) == (if rect.x0 <= i < rect.x1
                        && rect.y0 <= j < rect.y1 && j < y {
                        blank_cell()
                    } else {
                        orig.cell(i, j)
                    }),
            decreases y1 - y,
        {
            let mut x: u16 = x0;
            while x < x1
                invariant
                    orig == old(self)@,
                    self@.wf(),
                    self@.w == orig.w,
                    self@.h == orig.h,
                    y0 <= y < y1,
                    y1 <= orig.h,
                    x0 <= x,
                    x1 <= orig.w,
                    y0 as int == if rect.y0 < 0 { 0 } else { rect.y0 as int },
                    x0 as int == if rect.x0 < 0 { 0 } else { rect.x0 as int },
                    y1 as int == if rect.y1 < 0 { 0 } else if rect.y1 > orig.h { orig.h as int } else { rect.y1 as int },
                    x1 as int == if rect.x1 < 0 { 0 } else if rect.x1 > orig.w { orig.w as int } else { rect.x1 as int },
                    forall|i: int, j: int|
                        orig.in_bounds(i, j) ==> self@.cell(i, j) == (if rect.x0 <= i < rect.x1
                            && rect.y0 <= j < rect.y1 && (j < y || (j == y && i < x)) {
                            blank_cell()
                        } else {
                            orig.cell(i, j)
                        }),
                decreases x1 - x,
            {
                let target = self.cell_mut(x, y);
                *target = Cell { style: Style::default(), c: ' ' };
                x = x + 1;
            }
            y = y + 1;
        }
    }
}

/// A shared view of a rectangular region of a surface.
///
/// The region addresses cells in its own coordinate system, translated
/// against the underlying surface; it carries no reference of its own, so
/// every method takes the surface it was cut from.
#[derive(Clone, Copy)]
pub struct SurfaceRef {
    rect: Rect,
}

/// A mutable view of a rectangular region of a surface.
///
/// The region addresses cells in its own coordinate system, translated
/// against the underlying surface; it carries no reference of its own, so
/// every method takes the surface it was cut from.
#[derive(Clone, Copy)]
pub struct SurfaceMut {
    rect: Rect,
}

impl SurfaceRef {
    /// The region's rectangle, in the surface's coordinates.
    pub closed spec fn spec_rect(self) -> Rect {
        self.rect
    }

    /// The region lies within a grid of width `w` and height `h`.
    pub open spec fn wf_for(self, w: nat, h: nat) -> bool {
        &&& 0 <= self.spec_rect().x0 <= self.spec_rect().x1 <= w
        &&& 0 <= self.spec_rect().y0 <= self.spec_rect().y1 <= h
    }

    /// Get a reference to the cell at position (x, y).
    pub fn cell<'a>(&self, surf: &'a Surface, x: u16, y: u16) -> (c: &'a Cell)
        requires
            surf@.wf(),
            self.wf_for(surf@.w, surf@.h),
            x < self.spec_rect().x1 - self.spec_rect().x0,
            y < self.spec_rect().y1 - self.spec_rect().y0,
        ensures
            *c == surf@.cell(
                self.spec_rect().x0 + x as int,
                self.spec_rect().y0 + y as int,
            ),
    {
        surf.cell((x as i16 + self.rect.x0) as u16, (y as i16 + self.rect.y0) as u16)
    }

    /// Get the region's width.
    pub fn width(&self) -> (w: u16)
        requires
            self.spec_rect().wf(),
        ensures
            w == self.spec_rect().x1 - self.spec_rect().x0,
    {
        self.rect.width()
    }

    /// Get the region's height.
    pub fn height(&self) -> (h: u16)
        requires
            self.spec_rect().wf(),
        ensures
            h == self.spec_rect().y1 - self.spec_rect().y0,
    {
        self.rect.height()
    }

    /// Get a rectangle covering the entire area of the region, in the
    /// region's own coordinates.
    pub fn rect(&self) -> (r: Rect)
        requires
            self.spec_rect().wf(),
            self.spec_rect().x1 - self.spec_rect().x0 <= 0x7fff,
            self.spec_rect().y1 - self.spec_rect().y0 <= 0x7fff,
        ensures
            r == (Rect {
                x0: 0,
                x1: (self.spec_rect().x1 - self.spec_rect().x0) as i16,
                y0: 0,
                y1: (self.spec_rect().y1 - self.spec_rect().y0) as i16,
            }),
    {
        Rect { x0: 0, x1: self.width() as i16, y0: 0, y1: self.height() as i16 }
    }
}

impl Surface {
    /// Get a `SurfaceRef` view of the whole surface.
    pub fn as_ref(&self) -> (r: SurfaceRef)
        requires
            self@.wf(),
        ensures
            r.spec_rect() == (Rect {
                x0: 0,
                y0: 0,
                x1: self@.w as i16,
                y1: self@.h as i16,
            }),
            r.wf_for(self@.w, self@.h),
    {
        SurfaceRef {
            rect: Rect { x0: 0, y0: 0, x1: self.w as i16, y1: self.h as i16 },
        }
    }

    /// Get a `SurfaceMut` view of the whole surface.
    pub fn as_mut(&self) -> (r: SurfaceMut)
        requires
            self@.wf(),
        ensures
            r.spec_rect() == (Rect {
                x0: 0,
                y0: 0,
                x1: self@.w as i16,
                y1: self@.h as i16,
            }),
            r.wf_for(self@.w, self@.h),
    {
        let w = self.w as i16;
        let h = self.h as i16;
        SurfaceMut { rect: Rect { x0: 0, y0: 0, x1: w, y1: h } }
    }
}

impl SurfaceMut {
    /// The region's rectangle, in the surface's coordinates.
    pub closed spec fn spec_rect(self) -> Rect {
        self.rect
    }

    /// The region lies within a grid of width `w` and height `h`.
    pub open spec fn wf_for(self, w: nat, h: nat) -> bool {
        &&& 0 <= self.spec_rect().x0 <= self.spec_rect().x1 <= w
        &&& 0 <= self.spec_rect().y0 <= self.spec_rect().y1 <= h
    }

    /// Get the region's width.
    pub fn width(&self) -> (w: u16)
        requires
            self.spec_rect().wf(),
        ensures
            w == self.spec_rect().x1 - self.spec_rect().x0,
    {
        self.rect.width()
    }

    /// Get the region's height.
    pub fn height(&self) -> (h: u16)
        requires
            self.spec_rect().wf(),
        ensures
            h == self.spec_rect().y1 - self.spec_rect().y0,
    {
        self.rect.height()
    }

    /// Get a rectangle covering the entire area of the region, in the
    /// region's own coordinates.
    pub fn rect(&self) -> (r: Rect)
        requires
            self.spec_rect().wf(),
            self.spec_rect().x1 - self.spec_rect().x0 <= 0x7fff,
            self.spec_rect().y1 - self.spec_rect().y0 <= 0x7fff,
        ensures
            r == (Rect {
                x0: 0,
                x1: (self.spec_rect().x1 - self.spec_rect().x0) as i16,
                y0: 0,
                y1: (self.spec_rect().y1 - self.spec_rect().y0) as i16,
            }),
    {
        Rect { x0: 0, x1: self.width() as i16, y0: 0, y1: self.height() as i16 }
    }

    /// Get a reference to the cell at position (x, y).
    pub fn cell<'a>(&self, surf: &'a Surface, x: u16, y: u16) -> (c: &'a Cell)
        requires
            surf@.wf(),
            self.wf_for(surf@.w, surf@.h),
            x < self.spec_rect().x1 - self.spec_rect().x0,
            y < self.spec_rect().y1 - self.spec_rect().y0,
        ensures
            *c == surf@.cell(
                self.spec_rect().x0 + x as int,
                self.spec_rect().y0 + y as int,
            ),
    {
        surf.cell((x as i16 + self.rect.x0) as u16, (y as i16 + self.rect.y0) as u16)
    }

    /// Get a mutable reference to the cell at position (x, y).
    pub fn cell_mut<'a>(&self, surf: &'a mut Surface, x: u16, y: u16) -> (c: &'a mut Cell)
        requires
            old(surf)@.wf(),
            self.wf_for(old(surf)@.w, old(surf)@.h),
            x < self.spec_rect().x1 - self.spec_rect().x0,
            y < self.spec_rect().y1 - self.spec_rect().y0,
        ensures
            *c == old(surf)@.cell(
                self.spec_rect().x0 + x as int,
                self.spec_rect().y0 + y as int,
            ),
            final(surf)@.wf(),
            final(surf)@.w == old(surf)@.w,
            final(surf)@.h == old(surf)@.h,
            final(surf)@.cell(
                self.spec_rect().x0 + x as int,
                self.spec_rect().y0 + y as int,
            ) == *final(c),
            forall|i: int, j: int|
                old(surf)@.in_bounds(i, j) && !(i == self.spec_rect().x0 + x as int && j
                    == self.spec_rect().y0 + y as int)
                    ==> final(surf)@.cell(i, j) == old(surf)@.cell(i, j),
    {
        surf.cell_mut((x as i16 + self.rect.x0) as u16, (y as i16 + self.rect.y0) as u16)
    }

    /// Print a single character to a position on the region.
    ///
    /// Coordinates outside the region are ignored; inside, the character is
    /// put at the translated position of the underlying surface.
    pub fn put(&self, surf: &mut Surface, c: char, x: i16, y: i16, style: Style)
        requires
            old(surf)@.wf(),
            self.wf_for(old(surf)@.w, old(surf)@.h),
        ensures
            final(surf)@ == (if 0 <= x < self.spec_rect().x1 - self.spec_rect().x0 && 0 <= y
                < self.spec_rect().y1 - self.spec_rect().y0 {
                old(surf)@.put(
                    c,
                    x + self.spec_rect().x0,
                    y + self.spec_rect().y0,
                    style,
                )
            } else {
                old(surf)@
            }),
            final(surf)@.wf(),
            final(surf)@.w == old(surf)@.w,
            final(surf)@.h == old(surf)@.h,
    {
        if x < 0 || y < 0 {
            return ;
        }
        let w = self.rect.width();
        let h = self.rect.height();
        if x as u16 >= w || y as u16 >= h {
            return ;
        }
        surf.put(c, x + self.rect.x0, y + self.rect.y0, style);
    }

    /// Print text to the region, clipped against its right edge.
    pub fn print(&self, surf: &mut Surface, text: &str, x: i16, y: i16, style: Style)
        requires
            old(surf)@.wf(),
            self.wf_for(old(surf)@.w, old(surf)@.h),
        ensures
            final(surf)@ == old(surf)@.print(
                text@,
                x + self.spec_rect().x0,
                self.spec_rect().x1 as int,
                y + self.spec_rect().y0,
                style,
            ),
            final(surf)@.wf(),
            final(surf)@.w == old(surf)@.w,
            final(surf)@.h == old(surf)@.h,
    {
        let tx: i32 = x as i32 + self.rect.x0 as i32;
        let ty: i32 = y as i32 + self.rect.y0 as i32;
        if tx > 0x7fff {
            proof {
                if text@.len() > 0 {
                    assert(tx > self.spec_rect().x1);
                }
            }
            return ;
        }
        if ty > 0x7fff {
            proof {
                old(surf)@.lemma_print_row_oob(
                    text@,
                    x + self.spec_rect().x0,
                    self.spec_rect().x1 as int,
                    y + self.spec_rect().y0,
                    style,
                );
            }
            return ;
        }
        surf.print_inner(text, tx as i16, self.rect.x1, ty as i16, style);
    }

    /// Draw a horizontal line on the region.
    pub fn draw_h_line(&self, surf: &mut Surface, x0: i16, x1: i16, y: i16)
        requires
            old(surf)@.wf(),
            self.wf_for(old(surf)@.w, old(surf)@.h),
        ensures
            final(surf)@.wf(),
            final(surf)@.w == old(surf)@.w,
            final(surf)@.h == old(surf)@.h,
            forall|i: int, j: int|
                old(surf)@.in_bounds(i, j) ==> final(surf)@.cell(i, j) == (if j
                    == self.h_row(y as int) && old(surf)@.hline_bits(
                    i,
                    self.h_start(x0 as int),
                    self.h_stop(x1 as int),
                ) != 0 {
                    Cell {
                        c: spec_seg_merge(
                            old(surf)@.cell(i, j).c,
                            old(surf)@.hline_bits(i, self.h_start(x0 as int), self.h_stop(x1 as int)),
                        ),
                        style: old(surf)@.cell(i, j).style,
                    }
                } else {
                    old(surf)@.cell(i, j)
                }),
    {
        let wr = self.rect.width();
        let x0c0 = if x0 < -1 {
            -1
        } else {
            x0
        };
        let x0c = if x0c0 > wr as i16 {
            wr as i16
        } else {
            x0c0
        };
        let x1c = if x1 > wr as i16 {
            wr as i16
        } else {
            x1
        };
        let yc0 = if y < -1 {
            -1
        } else {
            y
        };
        let hr = self.rect.height();
        let yc = if yc0 > hr as i16 {
            hr as i16
        } else {
            yc0
        };
        surf.draw_h_line(x0c + self.rect.x0, x1c + self.rect.x0, yc + self.rect.y0);
    }

    /// The row of the underlying surface that `draw_h_line` touches: the
    /// line's row, clamped into the region and translated.
    pub open spec fn h_row(self, y: int) -> int {
        let h = self.spec_rect().y1 - self.spec_rect().y0;
        let yc = if y < -1 {
            -1int
        } else if y > h {
            h
        } else {
            y
        };
        yc + self.spec_rect().y0
    }

    /// The first column that `draw_h_line` strokes, clamped and translated.
    pub open spec fn h_start(self, x0: int) -> int {
        let w = self.spec_rect().x1 - self.spec_rect().x0;
        (if x0 < -1 {
            -1int
        } else if x0 > w {
            w
        } else {
            x0
        }) + self.spec_rect().x0
    }

    /// The column past the last that `draw_h_line` strokes, clamped and
    /// translated.
    pub open spec fn h_stop(self, x1: int) -> int {
        let w = self.spec_rect().x1 - self.spec_rect().x0;
        (if x1 > w {
            w
        } else {
            x1
        }) + self.spec_rect().x0
    }

    /// The column of the underlying surface that `draw_v_line` touches.
    pub open spec fn v_col(self, x: int) -> int {
        let w = self.spec_rect().x1 - self.spec_rect().x0;
        let xc = if x < -1 {
            -1int
        } else if x > w {
            w
        } else {
            x
        };
        xc + self.spec_rect().x0
    }

    /// The first row that `draw_v_line` strokes, clamped and translated.
    pub open spec fn v_start(self, y0: int) -> int {
        let h = self.spec_rect().y1 - self.spec_rect().y0;
        (if y0 < -1 {
            -1int
        } else if y0 > h {
            h
        } else {
            y0
        }) + self.spec_rect().y0
    }

    /// The row past the last that `draw_v_line` strokes, clamped and
    /// translated.
    pub open spec fn v_stop(self, y1: int) -> int {
        let h = self.spec_rect().y1 - self.spec_rect().y0;
        (if y1 > h {
            h
        } else {
            y1
        }) + self.spec_rect().y0
    }

    /// Draw a vertical line on the region.
    pub fn draw_v_line(&self, surf: &mut Surface, y0: i16, y1: i16, x: i16)
        requires
            old(surf)@.wf(),
            self.wf_for(old(surf)@.w, old(surf)@.h),
        ensures
            final(surf)@.wf(),
            final(surf)@.w == old(surf)@.w,
            final(surf)@.h == old(surf)@.h,
            forall|i: int, j: int|
                old(surf)@.in_bounds(i, j) ==> final(surf)@.cell(i, j) == (if i
                    == self.v_col(x as int) && old(surf)@.vline_bits(
                    j,
                    self.v_start(y0 as int),
                    self.v_stop(y1 as int),
                ) != 0 {
                    Cell {
                        c: spec_seg_merge(
                            old(surf)@.cell(i, j).c,
                            old(surf)@.vline_bits(j, self.v_start(y0 as int), self.v_stop(y1 as int)),
                        ),
                        style: old(surf)@.cell(i, j).style,
                    }
                } else {
                    old(surf)@.cell(i, j)
                }),
    {
        let hr = self.rect.height();
        let y0c0 = if y0 < -1 {
            -1
        } else {
            y0
        };
        let y0c = if y0c0 > hr as i16 {
            hr as i16
        } else {
            y0c0
        };
        let y1c = if y1 > hr as i16 {
            hr as i16
        } else {
            y1
        };
        let xc0 = if x < -1 {
            -1
        } else {
            x
        };
        let wr = self.rect.width();
        let xc = if xc0 > wr as i16 {
            wr as i16
        } else {
            xc0
        };
        surf.draw_v_line(y0c + self.rect.y0, y1c + self.rect.y0, xc + self.rect.x0);
    }

    /// Get a sub-region of the region.
    pub fn region(&self, rect: Rect) -> (r: SurfaceMut)
        requires
            self.spec_rect().wf(),
            rect.x0 >= 0,
            rect.x0 <= rect.x1,
            rect.x1 <= self.spec_rect().x1 - self.spec_rect().x0,
            rect.y0 >= 0,
            rect.y0 <= rect.y1,
            rect.y1 <= self.spec_rect().y1 - self.spec_rect().y0,
        ensures
            r.spec_rect() == (Rect {
                x0: (self.spec_rect().x0 + rect.x0) as i16,
                x1: (self.spec_rect().x0 + rect.x1) as i16,
                y0: (self.spec_rect().y0 + rect.y0) as i16,
                y1: (self.spec_rect().y0 + rect.y1) as i16,
            }),
    {
        SurfaceMut {
            rect: Rect {
                x0: self.rect.x0 + rect.x0,
                x1: self.rect.x0 + rect.x1,
                y0: self.rect.y0 + rect.y0,
                y1: self.rect.y0 + rect.y1,
            },
        }
    }

    /// Clear the region to blank cells.
    pub fn clear(&self, surf: &mut Surface)
        requires
            old(surf)@.wf(),
            self.wf_for(old(surf)@.w, old(surf)@.h),
        ensures
            final(surf)@.wf(),
            final(surf)@.w == old(surf)@.w,
            final(surf)@.h == old(surf)@.h,
            forall|i: int, j: int|
                old(surf)@.in_bounds(i, j) ==> final(surf)@.cell(i, j) == (if self.spec_rect().x0
                    <= i < self.spec_rect().x1 && self.spec_rect().y0 <= j
                    < self.spec_rect().y1 {
                    blank_cell()
                } else {
                    old(surf)@.cell(i, j)
                }),
    {
        surf.clear(self.rect);
    }

    /// Fill the region with the given background color.
    pub fn fill(&self, surf: &mut Surface, color: Color)
        requires
            old(surf)@.wf(),
            self.wf_for(old(surf)@.w, old(surf)@.h),
        ensures
            final(surf)@.wf(),
            final(surf)@.w == old(surf)@.w,
            final(surf)@.h == old(surf)@.h,
            forall|i: int, j: int|
                old(surf)@.in_bounds(i, j) ==> final(surf)@.cell(i, j) == (if self.spec_rect().x0
                    <= i < self.spec_rect().x1 && self.spec_rect().y0 <= j
                    < self.spec_rect().y1 {
                    Cell { c: ' ', style: Style { bg: color, ..default_style() } }
                } else {
                    old(surf)@.cell(i, j)
                }),
    {
        let ghost orig: GridView = surf@;
        // a space is a single column wide, so each put touches one cell
        let _space_cols = char_cols(' ');
        let style = Style::bg(color);
        let x0 = self.rect.x0;
        let x1 = self.rect.x1;
        let y0 = self.rect.y0;
        let y1 = self.rect.y1;
        let mut y: i16 = y0;
        while y < y1
            invariant
                orig == old(surf)@,
                surf@.wf(),
                surf@.w == orig.w,
                surf@.h == orig.h,
                spec_char_cols(' ') == 1,
                style == (Style { bg: color, ..default_style() }),
                x0 == self.spec_rect().x0,
                x1 == self.spec_rect().x1,
                y0 == self.spec_rect().y0,
                y1 == self.spec_rect().y1,
                self.wf_for(orig.w, orig.h),
                y0 <= y <= y1,
                forall|i: int, j: int|
                    orig.in_bounds(i, j) ==> surf@.cell(i, j) == (if x0 <= i < x1 && y0 <= j < y {
                        Cell { c: ' ', style: Style { bg: color, ..default_style() } }
                    } else {
                        orig.cell(i, j)
                    }),
            decreases y1 - y,
        {
            let mut x: i16 = x0;
            while x < x1
                invariant
                    orig == old(surf)@,
                    surf@.wf(),
                    surf@.w == orig.w,
                    surf@.h == orig.h,
                    spec_char_cols(' ') == 1,
                    style == (Style { bg: color, ..default_style() }),
                    x0 == self.spec_rect().x0,
                    x1 == self.spec_rect().x1,
                    y0 == self.spec_rect().y0,
                    y1 == self.spec_rect().y1,
                    self.wf_for(orig.w, orig.h),
                    y0 <= y < y1,
                    x0 <= x <= x1,
                    forall|i: int, j: int|
                        orig.in_bounds(i, j) ==> surf@.cell(i, j) == (if (x0 <= i < x1 && y0 <= j
                            < y) || (j == y && x0 <= i < x) {
                            Cell { c: ' ', style: Style { bg: color, ..default_style() } }
                        } else {
                            orig.cell(i, j)
                        }),
                decreases x1 - x,
            {
                let ghost pre: GridView = surf@;
                surf.put(' ', x, y, style);
                proof {
                    assert(surf@ == pre.put(' ', x as int, y as int, style));
                    assert forall|i: int, j: int| orig.in_bounds(i, j) implies surf@.cell(i, j)
                        == (if (x0 <= i < x1 && y0 <= j < y) || (j == y && x0 <= i < x + 1) {
                        Cell { c: ' ', style: Style { bg: color, ..default_style() } }
                    } else {
                        orig.cell(i, j)
                    }) by {
                        pre.lemma_put_cell(' ', x as int, y as int, style, i, j);
                    }
                }
                x = x + 1;
            }
            y = y + 1;
        }
    }
}

impl GridView {
    /// Printing on a row that lies outside the grid leaves it unchanged.
    pub proof fn lemma_print_row_oob(
        self,
        text: Seq<char>,
        x: int,
        x1: int,
        y: int,
        style: Style,
    )
        requires
            y < 0 || y >= self.h,
        ensures
            self.print(text, x, x1, y, style) == self,
        decreases text.len(),
    {
        if text.len() > 0 {
            let c = text[0];
            let w = spec_char_cols(c) as int;
            if x + w <= x1 {
                assert(self.put(c, x, y, style) == self);
                self.put(c, x, y, style).lemma_print_row_oob(text.skip(1), x + w, x1, y, style);
            }
        }
    }
}

} // verus!
