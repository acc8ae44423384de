//! The damage-tracked renderer: a front buffer holding what is believed to
//! be on the terminal, a back buffer holding the next frame, and a diff that
//! emits the fewest escape-sequence bytes that bring the one to the other.

use vstd::prelude::*;
use vstd::utf8::{char_is_scalar, encode_scalar};
use crate::color::Color;
use crate::style::{default_style, Attrs, Style, UnderlineKind, UnderlineStyle};
use crate::surface::{blank_cell, Cell, GridView, Surface};
use crate::width::{char_cols, spec_char_cols};

verus! {

/// The decimal digits of `n`, most significant first.
pub open spec fn dec_digits(n: int) -> Seq<u8>
    decreases n,
{
    if n < 10 {
        seq![(0x30 + (if n >= 0 {
            n
        } else {
            0
        })) as u8]
    } else {
        dec_digits(n / 10) + seq![(0x30 + n % 10) as u8]
    }
}

/// Append the decimal digits of `n`.
fn push_decimal(out: &mut Vec<u8>, n: u16)
    ensures
        final(out)@ == old(out)@ + dec_digits(n as int),
    decreases n,
{
    if n < 10 {
        out.push(0x30 + (n as u8));
        proof {
            assert(final(out)@ =~= old(out)@ + dec_digits(n as int));
        }
    } else {
        push_decimal(out, n / 10);
        out.push(0x30 + ((n % 10) as u8));
        proof {
            assert(final(out)@ =~= old(out)@ + dec_digits(n as int));
        }
    }
}

/// The cursor-movement sequence that puts the cursor at column `x`, row `y`
/// (zero-based): `ESC [ y+1 ; x+1 H`.
pub open spec fn goto_bytes(x: int, y: int) -> Seq<u8> {
    seq![0x1Bu8, 0x5Bu8] + dec_digits(y + 1) + seq![0x3Bu8] + dec_digits(x + 1) + seq![0x48u8]
}

/// The reset-attributes sequence `ESC [ 0 m`.
pub open spec fn sgr_reset_bytes() -> Seq<u8> {
    seq![0x1Bu8, 0x5Bu8, 0x30u8, 0x6Du8]
}

/// The foreground-color part of a style's escape sequence.
pub open spec fn fg_bytes(c: Color) -> Seq<u8> {
    match c {
        Color::Default => Seq::empty(),
        Color::Colors16 { code, bright } => if bright {
            seq![0x1Bu8, 0x5Bu8, 0x39u8, (0x30 + code.spec_number()) as u8]
                + seq![0x3Bu8, 0x31u8, 0x6Du8]
        } else {
            seq![0x1Bu8, 0x5Bu8, 0x33u8, (0x30 + code.spec_number()) as u8]
                + seq![0x3Bu8, 0x31u8, 0x6Du8]
        },
        Color::Colors256(x) => seq![0x1Bu8, 0x5Bu8, 0x33u8, 0x38u8, 0x3Bu8, 0x35u8, 0x3Bu8]
            + dec_digits(x as int) + seq![0x6Du8],
        Color::Rgb { r, g, b } => seq![0x1Bu8, 0x5Bu8, 0x33u8, 0x38u8, 0x3Bu8, 0x32u8, 0x3Bu8]
            + dec_digits(r as int) + seq![0x3Bu8] + dec_digits(g as int) + seq![0x3Bu8]
            + dec_digits(b as int) + seq![0x6Du8],
    }
}

/// The background-color part of a style's escape sequence.
pub open spec fn bg_bytes(c: Color) -> Seq<u8> {
    match c {
        Color::Default => Seq::empty(),
        Color::Colors16 { code, bright } => if bright {
            seq![0x1Bu8, 0x5Bu8, 0x31u8, 0x30u8, (0x30 + code.spec_number()) as u8]
                + seq![0x3Bu8, 0x31u8, 0x6Du8]
        } else {
            seq![0x1Bu8, 0x5Bu8, 0x34u8, (0x30 + code.spec_number()) as u8]
                + seq![0x3Bu8, 0x31u8, 0x6Du8]
        },
        Color::Colors256(x) => seq![0x1Bu8, 0x5Bu8, 0x34u8, 0x38u8, 0x3Bu8, 0x35u8, 0x3Bu8]
            + dec_digits(x as int) + seq![0x6Du8],
        Color::Rgb { r, g, b } => seq![0x1Bu8, 0x5Bu8, 0x34u8, 0x38u8, 0x3Bu8, 0x32u8, 0x3Bu8]
            + dec_digits(r as int) + seq![0x3Bu8] + dec_digits(g as int) + seq![0x3Bu8]
            + dec_digits(b as int) + seq![0x6Du8],
    }
}

/// One boolean attribute's escape sequence: `ESC [ code m` when set.
pub open spec fn flag_bytes(set: bool, code: u8) -> Seq<u8> {
    if set {
        seq![0x1Bu8, 0x5Bu8, code, 0x6Du8]
    } else {
        Seq::empty()
    }
}

/// The underline part of a style's escape sequence: the underline kind,
/// then its color.
pub open spec fn underline_bytes(u: Option<UnderlineStyle>) -> Seq<u8> {
    match u {
        Option::None => Seq::empty(),
        Option::Some(ul) => (match ul.kind {
            UnderlineKind::Single => seq![0x1Bu8, 0x5Bu8, 0x34u8, 0x6Du8],
            UnderlineKind::Double => seq![0x1Bu8, 0x5Bu8, 0x34u8, 0x3Au8, 0x32u8, 0x6Du8],
            UnderlineKind::Wavy => seq![0x1Bu8, 0x5Bu8, 0x34u8, 0x3Au8, 0x33u8, 0x6Du8],
        }) + (match ul.color {
            Color::Default => Seq::empty(),
            Color::Colors16 { code, bright } => seq![
                0x1Bu8,
                0x5Bu8,
                0x35u8,
                0x38u8,
                0x3Bu8,
                0x35u8,
                0x3Bu8,
            ] + dec_digits(code.spec_number() + if bright {
                8int
            } else {
                0int
            }) + seq![0x6Du8],
            Color::Colors256(x) => seq![0x1Bu8, 0x5Bu8, 0x35u8, 0x38u8, 0x3Bu8, 0x35u8, 0x3Bu8]
                + dec_digits(x as int) + seq![0x6Du8],
            Color::Rgb { r, g, b } => seq![0x1Bu8, 0x5Bu8, 0x35u8, 0x38u8, 0x3Bu8, 0x32u8, 0x3Bu8]
                + dec_digits(r as int) + seq![0x3Bu8] + dec_digits(g as int) + seq![0x3Bu8]
                + dec_digits(b as int) + seq![0x6Du8],
        }),
    }
}

/// The attribute part of a style's escape sequence: the boolean flags in
/// order, then the underline.
pub open spec fn attr_bytes(attrs: Attrs) -> Seq<u8> {
    flag_bytes(attrs.bold, 0x31) + flag_bytes(attrs.faint, 0x32) + flag_bytes(attrs.italic, 0x33)
        + flag_bytes(attrs.blink, 0x35) + flag_bytes(attrs.strikethrough, 0x39) + (if attrs.overlined {
        seq![0x1Bu8, 0x5Bu8, 0x35u8, 0x33u8, 0x6Du8]
    } else {
        Seq::empty()
    }) + underline_bytes(attrs.underline)
}

/// The whole escape sequence that switches the terminal to `style`: reset,
/// foreground, background, the attribute flags, and the underline.
pub open spec fn sgr_bytes(style: Style) -> Seq<u8> {
    sgr_reset_bytes() + fg_bytes(style.fg) + bg_bytes(style.bg) + attr_bytes(style.attrs)
}

/// Append the escape bytes of one color used as foreground.
fn push_fg(out: &mut Vec<u8>, c: Color)
    ensures
        final(out)@ == old(out)@ + fg_bytes(c),
{
    match c {
        Color::Default => {
            proof {
                assert(final(out)@ =~= old(out)@ + fg_bytes(c));
            }
        },
        Color::Colors16 { code, bright } => {
            out.push(0x1B);
            out.push(0x5B);
            if bright {
                out.push(0x39);
            } else {
                out.push(0x33);
            }
            out.push(0x30 + code.number());
            out.push(0x3B);
            out.push(0x31);
            out.push(0x6D);
            proof {
                assert(final(out)@ =~= old(out)@ + fg_bytes(c));
            }
        },
        Color::Colors256(x) => {
            out.push(0x1B);
            out.push(0x5B);
            out.push(0x33);
            out.push(0x38);
            out.push(0x3B);
            out.push(0x35);
            out.push(0x3B);
            push_decimal(out, x as u16);
            out.push(0x6D);
            proof {
                assert(final(out)@ =~= old(out)@ + fg_bytes(c));
            }
        },
        Color::Rgb { r, g, b } => {
            out.push(0x1B);
            out.push(0x5B);
            out.push(0x33);
            out.push(0x38);
            out.push(0x3B);
            out.push(0x32);
            out.push(0x3B);
            push_decimal(out, r as u16);
            out.push(0x3B);
            push_decimal(out, g as u16);
            out.push(0x3B);
            push_decimal(out, b as u16);
            out.push(0x6D);
            proof {
                assert(final(out)@ =~= old(out)@ + fg_bytes(c));
            }
        },
    }
}

/// Append the escape bytes of one color used as background.
fn push_bg(out: &mut Vec<u8>, c: Color)
    ensures
        final(out)@ == old(out)@ + bg_bytes(c),
{
    match c {
        Color::Default => {
            proof {
                assert(final(out)@ =~= old(out)@ + bg_bytes(c));
            }
        },
        Color::Colors16 { code, bright } => {
            out.push(0x1B);
            out.push(0x5B);
            if bright {
                out.push(0x31);
                out.push(0x30);
            } else {
                out.push(0x34);
            }
            out.push(0x30 + code.number());
            out.push(0x3B);
            out.push(0x31);
            out.push(0x6D);
            proof {
                assert(final(out)@ =~= old(out)@ + bg_bytes(c));
            }
        },
        Color::Colors256(x) => {
            out.push(0x1B);
            out.push(0x5B);
            out.push(0x34);
            out.push(0x38);
            out.push(0x3B);
            out.push(0x35);
            out.push(0x3B);
            push_decimal(out, x as u16);
            out.push(0x6D);
            proof {
                assert(final(out)@ =~= old(out)@ + bg_bytes(c));
            }
        },
        Color::Rgb { r, g, b } => {
            out.push(0x1B);
            out.push(0x5B);
            out.push(0x34);
            out.push(0x38);
            out.push(0x3B);
            out.push(0x32);
            out.push(0x3B);
            push_decimal(out, r as u16);
            out.push(0x3B);
            push_decimal(out, g as u16);
            out.push(0x3B);
            push_decimal(out, b as u16);
            out.push(0x6D);
            proof {
                assert(final(out)@ =~= old(out)@ + bg_bytes(c));
            }
        },
    }
}

/// Append the escape bytes of the underline setting.
#[verifier::rlimit(60)]
fn push_underline(out: &mut Vec<u8>, u: Option<UnderlineStyle>)
    ensures
        final(out)@ == old(out)@ + underline_bytes(u),
{
    match u {
        None => {
            proof {
                assert(final(out)@ =~= old(out)@ + underline_bytes(u));
            }
        },
        Some(ul) => {
            out.push(0x1B);
            out.push(0x5B);
            out.push(0x34);
            match ul.kind {
                UnderlineKind::Single => {},
                UnderlineKind::Double => {
                    out.push(0x3A);
                    out.push(0x32);
                },
                UnderlineKind::Wavy => {
                    out.push(0x3A);
                    out.push(0x33);
                },
            }
            out.push(0x6D);
            match ul.color {
                Color::Default => {},
                Color::Colors16 { code, bright } => {
                    out.push(0x1B);
                    out.push(0x5B);
                    out.push(0x35);
                    out.push(0x38);
                    out.push(0x3B);
                    out.push(0x35);
                    out.push(0x3B);
                    let x: u16 = code.number() as u16 + (if bright {
                        8
                    } else {
                        0
                    });
                    push_decimal(out, x);
                    out.push(0x6D);
                },
                Color::Colors256(x) => {
                    out.push(0x1B);
                    out.push(0x5B);
                    out.push(0x35);
                    out.push(0x38);
                    out.push(0x3B);
                    out.push(0x35);
                    out.push(0x3B);
                    push_decimal(out, x as u16);
                    out.push(0x6D);
                },
                Color::Rgb { r, g, b } => {
                    out.push(0x1B);
                    out.push(0x5B);
                    out.push(0x35);
                    out.push(0x38);
                    out.push(0x3B);
                    out.push(0x32);
                    out.push(0x3B);
                    push_decimal(out, r as u16);
                    out.push(0x3B);
                    push_decimal(out, g as u16);
                    out.push(0x3B);
                    push_decimal(out, b as u16);
                    out.push(0x6D);
                },
            }
            proof {
                assert(final(out)@ =~= old(out)@ + underline_bytes(u));
            }
        },
    }
}

/// Append one boolean attribute's escape bytes.
fn push_flag(out: &mut Vec<u8>, set: bool, code: u8)
    ensures
        final(out)@ == old(out)@ + flag_bytes(set, code),
{
    if set {
        out.push(0x1B);
        out.push(0x5B);
        out.push(code);
        out.push(0x6D);
    }
    proof {
        assert(final(out)@ =~= old(out)@ + flag_bytes(set, code));
    }
}

/// Append the overline attribute's escape bytes.
fn push_overline(out: &mut Vec<u8>, set: bool)
    ensures
        final(out)@ == old(out)@ + (if set {
            seq![0x1Bu8, 0x5Bu8, 0x35u8, 0x33u8, 0x6Du8]
        } else {
            Seq::<u8>::empty()
        }),
{
    if set {
        out.push(0x1B);
        out.push(0x5B);
        out.push(0x35);
        out.push(0x33);
        out.push(0x6D);
    }
    proof {
        assert(final(out)@ =~= old(out)@ + (if set {
            seq![0x1Bu8, 0x5Bu8, 0x35u8, 0x33u8, 0x6Du8]
        } else {
            Seq::<u8>::empty()
        }));
    }
}

/// Append the escape bytes of a style's attributes.
fn push_attrs(out: &mut Vec<u8>, attrs: Attrs)
    ensures
        final(out)@ == old(out)@ + attr_bytes(attrs),
{
    let ghost base = out@;
    let ghost a1 = flag_bytes(attrs.bold, 0x31);
    let ghost a2 = flag_bytes(attrs.faint, 0x32);
    let ghost a3 = flag_bytes(attrs.italic, 0x33);
    let ghost a4 = flag_bytes(attrs.blink, 0x35);
    let ghost a5 = flag_bytes(attrs.strikethrough, 0x39);
    let ghost a6 = if attrs.overlined {
        seq![0x1Bu8, 0x5Bu8, 0x35u8, 0x33u8, 0x6Du8]
    } else {
        Seq::<u8>::empty()
    };
    let ghost a7 = underline_bytes(attrs.underline);
    push_flag(out, attrs.bold, 0x31);
    push_flag(out, attrs.faint, 0x32);
    proof {
        vstd::seq_lib::lemma_concat_associative(base, a1, a2);
    }
    push_flag(out, attrs.italic, 0x33);
    proof {
        vstd::seq_lib::lemma_concat_associative(base, a1 + a2, a3);
    }
    push_flag(out, attrs.blink, 0x35);
    proof {
        vstd::seq_lib::lemma_concat_associative(base, a1 + a2 + a3, a4);
    }
    push_flag(out, attrs.strikethrough, 0x39);
    proof {
        vstd::seq_lib::lemma_concat_associative(base, a1 + a2 + a3 + a4, a5);
    }
    push_overline(out, attrs.overlined);
    proof {
        vstd::seq_lib::lemma_concat_associative(base, a1 + a2 + a3 + a4 + a5, a6);
    }
    push_underline(out, attrs.underline);
    proof {
        vstd::seq_lib::lemma_concat_associative(base, a1 + a2 + a3 + a4 + a5 + a6, a7);
        assert(out@ == base + (a1 + a2 + a3 + a4 + a5 + a6 + a7));
        assert(attr_bytes(attrs) == a1 + a2 + a3 + a4 + a5 + a6 + a7);
    }
}

/// Append the UTF-8 encoding of one character.
fn push_char(out: &mut Vec<u8>, c: char)
    ensures
        final(out)@ == old(out)@ + encode_scalar(c as u32),
{
    proof {
        char_is_scalar(c);
    }
    let v = c as u32;
    if v <= 0x7F {
        out.push((v & 0x7F) as u8);
    } else if v <= 0x7FF {
        out.push(0xC0 | (((v >> 6u32) & 0x1F) as u8));
        out.push(0x80 | ((v & 0x3F) as u8));
    } else if v <= 0xFFFF {
        out.push(0xE0 | (((v >> 12u32) & 0x0F) as u8));
        out.push(0x80 | (((v >> 6u32) & 0x3F) as u8));
        out.push(0x80 | ((v & 0x3F) as u8));
    } else {
        out.push(0xF0 | (((v >> 18u32) & 0x7) as u8));
        out.push(0x80 | (((v >> 12u32) & 0x3F) as u8));
        out.push(0x80 | (((v >> 6u32) & 0x3F) as u8));
        out.push(0x80 | ((v & 0x3F) as u8));
    }
    proof {
        assert(final(out)@ =~= old(out)@ + encode_scalar(c as u32));
    }
}

/// The hide-cursor sequence `ESC [ ? 2 5 l`.
pub open spec fn hide_cursor_bytes() -> Seq<u8> {
    seq![0x1Bu8, 0x5Bu8, 0x3Fu8, 0x32u8, 0x35u8, 0x6Cu8]
}

/// The renderer's buffers and bookkeeping: the front buffer (what is
/// believed to be on the terminal), the back buffer (the next frame), the
/// queued output bytes with how much of them has already been written, the
/// damage flag forcing a full repaint, and the analytically tracked cursor
/// position and last emitted style.
pub struct Buffers {
    front_buffer: Surface,
    back_buffer: Surface,
    writing: Vec<u8>,
    amount_written: usize,
    damaged: bool,
    cursor_x: u16,
    cursor_y: u16,
    current_style: Style,
}

impl Buffers {
    /// The front buffer: what is believed to be on the terminal.
    pub closed spec fn front(self) -> GridView {
        self.front_buffer@
    }

    /// The back buffer: the frame being prepared.
    pub closed spec fn back(self) -> GridView {
        self.back_buffer@
    }

    /// The queued output bytes.
    pub closed spec fn pending(self) -> Seq<u8> {
        self.writing@
    }

    /// How many of the queued bytes have already been written out.
    pub closed spec fn written(self) -> int {
        self.amount_written as int
    }

    /// Whether the whole grid must be repainted.
    pub closed spec fn is_damaged(self) -> bool {
        self.damaged
    }

    /// The column the terminal cursor is believed to sit in.
    pub closed spec fn cursor_col(self) -> int {
        self.cursor_x as int
    }

    /// The row the terminal cursor is believed to sit in.
    pub closed spec fn cursor_row(self) -> int {
        self.cursor_y as int
    }

    /// The last style that was emitted.
    pub closed spec fn style(self) -> Style {
        self.current_style
    }

    /// Both buffers are sound grids of the same size, and the written
    /// prefix lies within the queued bytes.
    pub open spec fn wf(self) -> bool {
        &&& self.front().wf()
        &&& self.back().wf()
        &&& self.front().w == self.back().w
        &&& self.front().h == self.back().h
        &&& 0 <= self.written() <= self.pending().len()
    }

    /// Create the buffers for a `w` by `h` terminal: both grids blank, the
    /// hide-cursor sequence queued, and the whole grid marked damaged.
    pub fn new(w: u16, h: u16) -> (b: Buffers)
        requires
            w <= 0x7fff,
            h <= 0x7fff,
        ensures
            b.wf(),
            b.front().w == w,
            b.front().h == h,
            forall|x: int, y: int| b.front().in_bounds(x, y) ==> b.front().cell(x, y)
                == blank_cell(),
            forall|x: int, y: int| b.back().in_bounds(x, y) ==> b.back().cell(x, y)
                == blank_cell(),
            b.pending() == hide_cursor_bytes(),
            b.written() == 0,
            b.is_damaged(),
            b.cursor_col() == 0,
            b.cursor_row() == 0,
            b.style() == default_style(),
    {
        let mut writing: Vec<u8> = Vec::new();
        writing.push(0x1B);
        writing.push(0x5B);
        writing.push(0x3F);
        writing.push(0x32);
        writing.push(0x35);
        writing.push(0x6C);
        proof {
            assert(writing@ =~= hide_cursor_bytes());
        }
        Buffers {
            front_buffer: Surface::blank(w, h),
            back_buffer: Surface::blank(w, h),
            writing,
            amount_written: 0,
            damaged: true,
            cursor_x: 0,
            cursor_y: 0,
            current_style: Style::default(),
        }
    }

    /// Throw the queued bytes away, queue a move to the top-left corner,
    /// and mark the whole grid damaged.
    pub fn damage(&mut self)
        ensures
            final(self).wf() == (final(self).front().wf() && final(self).back().wf()
                && final(self).front().w == final(self).back().w && final(self).front().h
                == final(self).back().h),
            final(self).front() == old(self).front(),
            final(self).back() == old(self).back(),
            final(self).pending() == goto_bytes(0, 0),
            final(self).written() == 0,
            final(self).is_damaged(),
            final(self).cursor_col() == 0,
            final(self).cursor_row() == 0,
            final(self).style() == old(self).style(),
    {
        self.damaged = true;
        self.writing.clear();
        self.writing.push(0x1B);
        self.writing.push(0x5B);
        push_decimal(&mut self.writing, 1);
        self.writing.push(0x3B);
        push_decimal(&mut self.writing, 1);
        self.writing.push(0x48);
        self.amount_written = 0;
        self.cursor_x = 0;
        self.cursor_y = 0;
        proof {
            assert(self.writing@ =~= goto_bytes(0, 0));
        }
    }

    /// Replace both buffers with blank grids of the new size and mark the
    /// whole grid damaged.
    pub fn resize(&mut self, w: u16, h: u16)
        requires
            w <= 0x7fff,
            h <= 0x7fff,
        ensures
            final(self).wf(),
            final(self).front().w == w,
            final(self).front().h == h,
            forall|x: int, y: int| final(self).front().in_bounds(x, y)
                ==> final(self).front().cell(x, y) == blank_cell(),
            forall|x: int, y: int| final(self).back().in_bounds(x, y)
                ==> final(self).back().cell(x, y) == blank_cell(),
            final(self).pending() == goto_bytes(0, 0),
            final(self).written() == 0,
            final(self).is_damaged(),
            final(self).cursor_col() == 0,
            final(self).cursor_row() == 0,
            final(self).style() == old(self).style(),
    {
        self.front_buffer = Surface::blank(w, h);
        self.back_buffer = Surface::blank(w, h);
        self.writing.clear();
        self.damage();
    }

    /// Queue a cursor movement to `(x, y)`, unless the cursor already sits
    /// there.
    pub fn move_cursor(&mut self, x: u16, y: u16)
        requires
            old(self).wf(),
            x < 0xFFFF,
            y < 0xFFFF,
        ensures
            final(self).wf(),
            final(self).front() == old(self).front(),
            final(self).back() == old(self).back(),
            final(self).written() == old(self).written(),
            final(self).is_damaged() == old(self).is_damaged(),
            final(self).style() == old(self).style(),
            final(self).cursor_col() == x,
            final(self).cursor_row() == y,
            final(self).pending() == (if old(self).cursor_col() == x && old(self).cursor_row()
                == y {
                old(self).pending()
            } else {
                old(self).pending() + goto_bytes(x as int, y as int)
            }),
    {
        if x != self.cursor_x || y != self.cursor_y {
            self.writing.push(0x1B);
            self.writing.push(0x5B);
            push_decimal(&mut self.writing, y + 1);
            self.writing.push(0x3B);
            push_decimal(&mut self.writing, x + 1);
            self.writing.push(0x48);
            self.cursor_x = x;
            self.cursor_y = y;
            proof {
                assert(self.writing@ =~= old(self).pending() + goto_bytes(x as int, y as int));
            }
        }
    }

    /// Queue a style change to `style`, unless it is already the last style
    /// emitted. A change resets all attributes and then emits the style's
    /// colors, flags and underline.
    #[verifier::rlimit(100)]
    pub fn set_style(&mut self, style: Style)
        requires
            old(self).wf(),
        ensures
            final(self).wf(),
            final(self).front() == old(self).front(),
            final(self).back() == old(self).back(),
            final(self).written() == old(self).written(),
            final(self).is_damaged() == old(self).is_damaged(),
            final(self).cursor_col() == old(self).cursor_col(),
            final(self).cursor_row() == old(self).cursor_row(),
            final(self).style() == style,
            final(self).pending() == (if old(self).style() == style {
                old(self).pending()
            } else {
                old(self).pending() + sgr_bytes(style)
            }),
    {
        if self.current_style != style {
            self.writing.push(0x1B);
            self.writing.push(0x5B);
            self.writing.push(0x30);
            self.writing.push(0x6D);
            proof {
                assert(self.writing@ =~= old(self).pending() + sgr_reset_bytes());
            }
            let ghost c1 = self.writing@;
            push_fg(&mut self.writing, style.fg);
            let ghost c2 = self.writing@;
            push_bg(&mut self.writing, style.bg);
            let ghost c3 = self.writing@;
            push_attrs(&mut self.writing, style.attrs);
            self.current_style = style;
            proof {
                assert(c2 == c1 + fg_bytes(style.fg));
                assert(c3 == c2 + bg_bytes(style.bg));
                assert(self.writing@ == c3 + attr_bytes(style.attrs));
                assert(self.writing@ =~= old(self).pending() + sgr_bytes(style));
            }
        }
    }

    /// The queued output bytes.
    pub fn writing(&self) -> (w: &Vec<u8>)
        ensures
            w@ == self.pending(),
    {
        &self.writing
    }

    /// How many of the queued bytes have already been written out.
    pub fn amount_written(&self) -> (n: usize)
        ensures
            n == self.written(),
    {
        self.amount_written
    }

    /// Record that `n` more of the queued bytes have been written out.
    pub fn record_written(&mut self, n: usize)
        requires
            old(self).wf(),
            old(self).written() + n <= old(self).pending().len(),
        ensures
            final(self).wf(),
            final(self).written() == old(self).written() + n,
            final(self).pending() == old(self).pending(),
            final(self).front() == old(self).front(),
            final(self).back() == old(self).back(),
            final(self).is_damaged() == old(self).is_damaged(),
            final(self).cursor_col() == old(self).cursor_col(),
            final(self).cursor_row() == old(self).cursor_row(),
            final(self).style() == old(self).style(),
    {
        // bounds the sum: the queue's length fits in a machine word
        let _len = self.writing.len();
        self.amount_written = self.amount_written + n;
    }

    /// If every queued byte has been written, drop the queue; reports
    /// whether the queue is now empty.
    pub fn finish_write(&mut self) -> (done: bool)
        requires
            old(self).wf(),
        ensures
            final(self).wf(),
            done == (old(self).written() == old(self).pending().len()),
            done ==> final(self).pending().len() == 0 && final(self).written() == 0,
            !done ==> *final(self) == *old(self),
            final(self).front() == old(self).front(),
            final(self).back() == old(self).back(),
            final(self).is_damaged() == old(self).is_damaged(),
            final(self).cursor_col() == old(self).cursor_col(),
            final(self).cursor_row() == old(self).cursor_row(),
            final(self).style() == old(self).style(),
    {
        if self.amount_written == self.writing.len() {
            self.writing.clear();
            self.amount_written = 0;
            true
        } else {
            false
        }
    }

    /// The back buffer, for a widget to draw into.
    pub fn back_mut(&mut self) -> (s: &mut Surface)
        requires
            old(self).wf(),
        ensures
            *s == old(self).back_buffer_value(),
            final(self).back() == final(s)@,
            final(self).front() == old(self).front(),
            final(self).pending() == old(self).pending(),
            final(self).written() == old(self).written(),
            final(self).is_damaged() == old(self).is_damaged(),
            final(self).cursor_col() == old(self).cursor_col(),
            final(self).cursor_row() == old(self).cursor_row(),
            final(self).style() == old(self).style(),
    {
        &mut self.back_buffer
    }

    /// The back buffer's surface value.
    pub closed spec fn back_buffer_value(self) -> Surface {
        self.back_buffer
    }

    /// The front buffer.
    pub fn front_ref(&self) -> (s: &Surface)
        ensures
            s@ == self.front(),
    {
        &self.front_buffer
    }

    /// The back buffer.
    pub fn back_ref(&self) -> (s: &Surface)
        ensures
            s@ == self.back(),
    {
        &self.back_buffer
    }
}

/// Whether the cell at `(i, j)` of the back buffer lies in the shadow of a
/// multi-column character to its left: such cells are blanked as
/// continuation cells when their owner is emitted.
pub open spec fn covered(back: GridView, i: int, j: int) -> bool {
    ||| (i >= 1 && spec_char_cols(back.cell(i - 1, j).c) >= 2)
    ||| (i >= 2 && spec_char_cols(back.cell(i - 2, j).c) >= 3)
}

/// The cell the front buffer holds at `(i, j)` after a diff: the back
/// buffer's cell where the diff re-emitted it, the unchanged front cell
/// where it did not.
pub open spec fn cell_target(front: GridView, back: GridView, damaged: bool, i: int, j: int) -> Cell {
    if damaged || back.cell(i, j) != front.cell(i, j) {
        back.cell(i, j)
    } else {
        front.cell(i, j)
    }
}

/// Whether the two grids agree on every cell.
pub open spec fn grids_agree(front: GridView, back: GridView) -> bool {
    forall|i: int, j: int| back.in_bounds(i, j) ==> back.cell(i, j) == front.cell(i, j)
}

impl Buffers {
    /// Raster-scan diff: re-emit every cell of the back buffer that is
    /// damaged or differs from the front buffer and is visibly wide,
    /// bringing the front buffer up to date, blanking the continuation
    /// cells of multi-column characters, and clearing the damage flag.
    ///
    /// Rendering an unchanged, undamaged frame queues no bytes at all.
    pub fn swap_buffers(&mut self)
        requires
            old(self).wf(),
        ensures
            final(self).wf(),
            final(self).back() == old(self).back(),
            final(self).front().w == old(self).front().w,
            final(self).front().h == old(self).front().h,
            !final(self).is_damaged(),
            final(self).written() == old(self).written(),
            old(self).pending().is_prefix_of(final(self).pending()),
            (!old(self).is_damaged() && grids_agree(old(self).front(), old(self).back())) ==> {
                &&& final(self).front() == old(self).front()
                &&& final(self).pending() == old(self).pending()
                &&& final(self).cursor_col() == old(self).cursor_col()
                &&& final(self).cursor_row() == old(self).cursor_row()
                &&& final(self).style() == old(self).style()
            },
            forall|i: int, j: int|
                old(self).back().in_bounds(i, j) && spec_char_cols(old(self).back().cell(i, j).c)
                    >= 1 && !covered(old(self).back(), i, j) ==> final(self).front().cell(i, j)
                    == cell_target(
                    old(self).front(),
                    old(self).back(),
                    old(self).is_damaged(),
                    i,
                    j,
                ),
            forall|i: int, j: int|
                old(self).back().in_bounds(i, j) && spec_char_cols(old(self).back().cell(i, j).c)
                    == 0 ==> (final(self).front().cell(i, j) == old(self).front().cell(i, j)
                    || final(self).front().cell(i, j) == (Cell {
                    c: '\0',
                    style: old(self).front().cell(i, j).style,
                })),
            forall|i: int, j: int|
                old(self).back().in_bounds(i, j) && spec_char_cols(old(self).back().cell(i, j).c)
                    == 2 && !covered(old(self).back(), i, j) && (old(self).is_damaged() || old(
                    self,
                ).back().cell(i, j) != old(self).front().cell(i, j)) && i + 1
                    < old(self).back().w && spec_char_cols(old(self).back().cell(i + 1, j).c) == 0
                    ==> final(self).front().cell(i + 1, j) == (Cell {
                    c: '\0',
                    style: old(self).front().cell(i + 1, j).style,
                }),
    {
        let ghost orig: Buffers = *old(self);
        let w = self.front_buffer.width();
        let h = self.front_buffer.height();
        let mut y: u16 = 0;
        while y < h
            invariant
                self.wf(),
                w == orig.front().w,
                h == orig.front().h,
                self.back() == orig.back(),
                self.front().w == orig.front().w,
                self.front().h == orig.front().h,
                self.is_damaged() == orig.is_damaged(),
                self.written() == orig.written(),
                orig.pending().is_prefix_of(self.pending()),
                y <= h,
                (!orig.is_damaged() && grids_agree(orig.front(), orig.back())) ==> {
                    &&& self.front() == orig.front()
                    &&& self.pending() == orig.pending()
                    &&& self.cursor_col() == orig.cursor_col()
                    &&& self.cursor_row() == orig.cursor_row()
                    &&& self.style() == orig.style()
                },
                forall|i: int, j: int|
                    orig.back().in_bounds(i, j) && j < y && spec_char_cols(
                        orig.back().cell(i, j).c,
                    ) >= 1 && !covered(orig.back(), i, j) ==> self.front().cell(i, j)
                        == cell_target(orig.front(), orig.back(), orig.is_damaged(), i, j),
                forall|i: int, j: int|
                    orig.back().in_bounds(i, j) && j < y && spec_char_cols(
                        orig.back().cell(i, j).c,
                    ) == 0 ==> (self.front().cell(i, j) == orig.front().cell(i, j)
                        || self.front().cell(i, j) == (Cell {
                        c: '\0',
                        style: orig.front().cell(i, j).style,
                    })),
                forall|i: int, j: int|
                    orig.back().in_bounds(i, j) && j < y && spec_char_cols(
                        orig.back().cell(i, j).c,
                    ) == 2 && !covered(orig.back(), i, j) && (orig.is_damaged() || orig.back().cell(
                        i,
                        j,
                    ) != orig.front().cell(i, j)) && i + 1 < orig.back().w && spec_char_cols(
                        orig.back().cell(i + 1, j).c,
                    ) == 0 ==> self.front().cell(i + 1, j) == (Cell {
                        c: '\0',
                        style: orig.front().cell(i + 1, j).style,
                    }),
                forall|i: int, j: int|
                    orig.back().in_bounds(i, j) && j >= y ==> self.front().cell(i, j).style
                        == orig.front().cell(i, j).style && (self.front().cell(i, j)
                        == orig.front().cell(i, j) || self.front().cell(i, j).c == '\0'),
                forall|i: int, j: int|
                    orig.back().in_bounds(i, j) && j >= y && !covered(orig.back(), i, j)
                        ==> self.front().cell(i, j) == orig.front().cell(i, j),
            decreases h - y,
        {
            let mut x: u16 = 0;
            while x < w
                invariant
                    self.wf(),
                    w == orig.front().w,
                    h == orig.front().h,
                    self.back() == orig.back(),
                    self.front().w == orig.front().w,
                    self.front().h == orig.front().h,
                    self.is_damaged() == orig.is_damaged(),
                    self.written() == orig.written(),
                    orig.pending().is_prefix_of(self.pending()),
                    y < h,
                    x <= w,
                    (!orig.is_damaged() && grids_agree(orig.front(), orig.back())) ==> {
                        &&& self.front() == orig.front()
                        &&& self.pending() == orig.pending()
                        &&& self.cursor_col() == orig.cursor_col()
                        &&& self.cursor_row() == orig.cursor_row()
                        &&& self.style() == orig.style()
                    },
                    forall|i: int, j: int|
                        orig.back().in_bounds(i, j) && (j < y || (j == y && i < x))
                            && spec_char_cols(orig.back().cell(i, j).c) >= 1 && !covered(
                            orig.back(),
                            i,
                            j,
                        ) ==> self.front().cell(i, j) == cell_target(
                            orig.front(),
                            orig.back(),
                            orig.is_damaged(),
                            i,
                            j,
                        ),
                    forall|i: int, j: int|
                        orig.back().in_bounds(i, j) && (j < y || (j == y && i < x))
                            && spec_char_cols(orig.back().cell(i, j).c) == 0 ==> (
                        self.front().cell(i, j) == orig.front().cell(i, j) || self.front().cell(
                            i,
                            j,
                        ) == (Cell { c: '\0', style: orig.front().cell(i, j).style })),
                    forall|i: int, j: int|
                        orig.back().in_bounds(i, j) && (j < y || (j == y && i < x))
                            && spec_char_cols(orig.back().cell(i, j).c) == 2 && !covered(
                            orig.back(),
                            i,
                            j,
                        ) && (orig.is_damaged() || orig.back().cell(i, j) != orig.front().cell(
                            i,
                            j,
                        )) && i + 1 < orig.back().w && spec_char_cols(orig.back().cell(i + 1, j).c)
                            == 0 ==> self.front().cell(i + 1, j) == (Cell {
                            c: '\0',
                            style: orig.front().cell(i + 1, j).style,
                        }),
                    forall|i: int, j: int|
                        orig.back().in_bounds(i, j) && (j > y || (j == y && i >= x))
                            ==> self.front().cell(i, j).style == orig.front().cell(i, j).style && (
                        self.front().cell(i, j) == orig.front().cell(i, j) || self.front().cell(
                            i,
                            j,
                        ).c == '\0'),
                    forall|i: int, j: int|
                        orig.back().in_bounds(i, j) && (j > y || (j == y && i >= x)) && !covered(
                            orig.back(),
                            i,
                            j,
                        ) ==> self.front().cell(i, j) == orig.front().cell(i, j),
                decreases w - x,
            {
                let bc = *self.back_buffer.cell(x, y);
                let cw = char_cols(bc.c);
                let fc = *self.front_buffer.cell(x, y);
                if (self.damaged || bc != fc) && cw != 0 {
                    self.move_cursor(x, y);
                    self.set_style(bc.style);
                    push_char(&mut self.writing, bc.c);
                    let target = self.front_buffer.cell_mut(x, y);
                    *target = bc;
                    if cw >= 2 && x + 1 < w {
                        let cont = self.front_buffer.cell_mut(x + 1, y);
                        cont.c = '\0';
                        if cw >= 3 && x + 2 < w {
                            let cont2 = self.front_buffer.cell_mut(x + 2, y);
                            cont2.c = '\0';
                        }
                    }
                    self.cursor_x = self.cursor_x + (cw as u16);
                    if self.cursor_x >= w {
                        self.cursor_x = 0;
                        self.cursor_y = self.cursor_y + 1;
                    }
                }
                x = x + 1;
            }
            y = y + 1;
        }
        self.damaged = false;
    }
}

} // verus!
