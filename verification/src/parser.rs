//! The terminal-protocol grammar: recognizing key presses and mouse reports
//! in a stream of raw bytes.
//!
//! [`parse_event`] attempts to parse one event from the oldest bytes of a
//! [`CycleBuffer`]. Its three outcomes mirror what a parse can tell us: a
//! complete event with the number of bytes it spans, a need for more input
//! (every byte so far is a prefix of some legal sequence), or a failure with
//! the number of bytes examined, which the caller reports verbatim as an
//! unsupported sequence.

use vstd::prelude::*;
use vstd::utf8::{
    codepoint_width_2,
    codepoint_width_3,
    codepoint_width_4,
    is_continuation_byte,
    is_leading_byte_width_2,
    is_leading_byte_width_3,
    is_leading_byte_width_4,
    is_scalar,
    not_overlong_encoding,
};
use crate::cycle_buffer::CycleBuffer;
use crate::events::{Event, EventView, Key, MouseButton, MouseEvent};

verus! {

/// What a parse attempt can come to, at the specification level.
pub enum SpecParsed {
    /// A complete event spanning the first `consumed` bytes.
    Event { event: Event, consumed: int },
    /// Every available byte is a prefix of some legal sequence; more input
    /// is needed to decide.
    MoreInputNeeded,
    /// The first `examined` bytes are not a legal sequence; they should be
    /// reported verbatim.
    Failed { examined: int },
}

/// What a parse attempt came to.
#[derive(Debug, PartialEq, Eq)]
pub enum Parsed {
    /// A complete event spanning the first `consumed` bytes.
    Event { event: Event, consumed: usize },
    /// Every available byte is a prefix of some legal sequence; more input
    /// is needed to decide.
    MoreInputNeeded,
    /// The first `examined` bytes are not a legal sequence; they should be
    /// reported verbatim.
    Failed { examined: usize },
}

impl Parsed {
    /// The specification-level value of this outcome.
    pub open spec fn view(self) -> SpecParsed {
        match self {
            Parsed::Event { event, consumed } => SpecParsed::Event {
                event,
                consumed: consumed as int,
            },
            Parsed::MoreInputNeeded => SpecParsed::MoreInputNeeded,
            Parsed::Failed { examined } => SpecParsed::Failed { examined: examined as int },
        }
    }
}

/// An ASCII decimal digit.
pub open spec fn is_digit(b: u8) -> bool {
    0x30 <= b <= 0x39
}

/// The value of the decimal digits `s[a..b]`, most significant first.
pub open spec fn seg_value(s: Seq<u8>, a: int, b: int) -> int
    decreases b - a,
{
    if b <= a {
        0
    } else {
        seg_value(s, a, b - 1) * 10 + (s[b - 1] - 0x30)
    }
}

/// Whether `s[a..b]` is a non-empty run of decimal digits.
pub open spec fn seg_is_number(s: Seq<u8>, a: int, b: int) -> bool {
    a < b && forall|k: int| a <= k < b ==> is_digit(s[k])
}

/// The first position in `s[a..b]` holding a semicolon, or `b` if there is
/// none.
pub open spec fn find_semi(s: Seq<u8>, a: int, b: int) -> int
    decreases b - a,
{
    if a >= b {
        b
    } else if s[a] == 0x3B {
        a
    } else {
        find_semi(s, a + 1, b)
    }
}

/// The bounds of `find_semi`: its result lies between `a` and `b`.
pub proof fn lemma_find_semi_bounds(s: Seq<u8>, a: int, b: int)
    requires
        a <= b,
    ensures
        a <= find_semi(s, a, b) <= b,
    decreases b - a,
{
    if a < b && s[a] != 0x3B {
        lemma_find_semi_bounds(s, a + 1, b);
    }
}

/// The semicolon-separated fields of `s[a..b]`, each read as a decimal
/// number, or `None` if any field is empty or holds a non-digit.
pub open spec fn fields_spec(s: Seq<u8>, a: int, b: int) -> Option<Seq<int>>
    decreases b - a,
    via fields_spec_dec
{
    let j = find_semi(s, a, b);
    if !seg_is_number(s, a, j) {
        None
    } else if j == b {
        Some(seq![seg_value(s, a, j)])
    } else {
        match fields_spec(s, j + 1, b) {
            None => None,
            Some(rest) => Some(seq![seg_value(s, a, j)] + rest),
        }
    }
}

#[via_fn]
proof fn fields_spec_dec(s: Seq<u8>, a: int, b: int) {
    if a <= b {
        lemma_find_semi_bounds(s, a, b);
    }
}

/// The first three semicolon-separated fields of `s[a..b]` read as decimal
/// numbers; anything after the third field is ignored. `None` if there are
/// fewer than three fields or one of the first three is not a number.
pub open spec fn first3_spec(s: Seq<u8>, a: int, b: int) -> Option<(int, int, int)> {
    let j1 = find_semi(s, a, b);
    let j2 = find_semi(s, j1 + 1, b);
    let j3 = find_semi(s, j2 + 1, b);
    if j1 < b && j2 < b && seg_is_number(s, a, j1) && seg_is_number(s, j1 + 1, j2)
        && seg_is_number(s, j2 + 1, j3) {
        Some((seg_value(s, a, j1), seg_value(s, j1 + 1, j2), seg_value(s, j2 + 1, j3)))
    } else {
        None
    }
}

/// The first position `t >= a` in `s` whose byte ends an SGR mouse report
/// (`m` or `M`), or `s.len()` if there is none.
pub open spec fn find_sgr_end(s: Seq<u8>, a: int) -> int
    decreases s.len() - a,
{
    if a >= s.len() {
        s.len() as int
    } else if s[a] == 0x6D || s[a] == 0x4D {
        a
    } else {
        find_sgr_end(s, a + 1)
    }
}

/// The first position `t >= a` in `s` whose byte can end a CSI sequence
/// (`0x40..=0x7E`), or `s.len()` if there is none.
pub open spec fn find_csi_end(s: Seq<u8>, a: int) -> int
    decreases s.len() - a,
{
    if a >= s.len() {
        s.len() as int
    } else if 64 <= s[a] <= 126 {
        a
    } else {
        find_csi_end(s, a + 1)
    }
}

/// What decoding one UTF-8 character can come to.
pub enum SpecUtf8 {
    /// A character, and the position just past its encoding.
    Char { c: char, end: int },
    /// The bytes so far are a proper prefix of some encoding.
    NeedMore,
    /// The four bytes starting at the decode position are not an encoding.
    Bad,
}

/// Whether `b0 b1` encode one character.
pub open spec fn utf8_valid2(b0: u8, b1: u8) -> bool {
    is_leading_byte_width_2(b0) && is_continuation_byte(b1) && not_overlong_encoding(
        codepoint_width_2(b0, b1),
        2,
    ) && is_scalar(codepoint_width_2(b0, b1))
}

/// Whether `b0 b1 b2` encode one character.
pub open spec fn utf8_valid3(b0: u8, b1: u8, b2: u8) -> bool {
    is_leading_byte_width_3(b0) && is_continuation_byte(b1) && is_continuation_byte(b2)
        && not_overlong_encoding(codepoint_width_3(b0, b1, b2), 3) && is_scalar(
        codepoint_width_3(b0, b1, b2),
    )
}

/// Whether `b0 b1 b2 b3` encode one character.
pub open spec fn utf8_valid4(b0: u8, b1: u8, b2: u8, b3: u8) -> bool {
    is_leading_byte_width_4(b0) && is_continuation_byte(b1) && is_continuation_byte(b2)
        && is_continuation_byte(b3) && not_overlong_encoding(codepoint_width_4(b0, b1, b2, b3), 4)
        && is_scalar(codepoint_width_4(b0, b1, b2, b3))
}

/// Decode one UTF-8 character of `s` starting at `i`, reading at most four
/// bytes: an ASCII byte is itself, and longer encodings are accepted exactly
/// when strict UTF-8 accepts them.
pub open spec fn utf8_step(s: Seq<u8>, i: int) -> SpecUtf8 {
    let b0 = s[i];
    if b0 < 0x80 {
        SpecUtf8::Char { c: b0 as char, end: i + 1 }
    } else if i + 1 >= s.len() {
        SpecUtf8::NeedMore
    } else if utf8_valid2(b0, s[i + 1]) {
        SpecUtf8::Char { c: codepoint_width_2(b0, s[i + 1]) as char, end: i + 2 }
    } else if i + 2 >= s.len() {
        SpecUtf8::NeedMore
    } else if utf8_valid3(b0, s[i + 1], s[i + 2]) {
        SpecUtf8::Char { c: codepoint_width_3(b0, s[i + 1], s[i + 2]) as char, end: i + 3 }
    } else if i + 3 >= s.len() {
        SpecUtf8::NeedMore
    } else if utf8_valid4(b0, s[i + 1], s[i + 2], s[i + 3]) {
        SpecUtf8::Char {
            c: codepoint_width_4(b0, s[i + 1], s[i + 2], s[i + 3]) as char,
            end: i + 4,
        }
    } else {
        SpecUtf8::Bad
    }
}

/// The mouse button of an X10 report whose (wrapped) first parameter is
/// `cb`, together with whether the report is a release. The low two bits
/// select the button, bit 6 marks a wheel movement.
pub open spec fn x10_event_spec(cb: u8, cx: u16, cy: u16) -> MouseEvent {
    let low2 = cb % 4;
    let wheel = (cb / 64) % 2 == 1;
    if low2 == 0 {
        MouseEvent::Press(
            if wheel {
                MouseButton::WheelUp
            } else {
                MouseButton::Left
            },
            cx,
            cy,
        )
    } else if low2 == 1 {
        MouseEvent::Press(
            if wheel {
                MouseButton::WheelDown
            } else {
                MouseButton::Middle
            },
            cx,
            cy,
        )
    } else if low2 == 2 {
        MouseEvent::Press(
            if wheel {
                MouseButton::WheelLeft
            } else {
                MouseButton::Right
            },
            cx,
            cy,
        )
    } else {
        if wheel {
            MouseEvent::Press(MouseButton::WheelRight, cx, cy)
        } else {
            MouseEvent::Release(cx, cy)
        }
    }
}

/// `b - 32`, wrapping below zero as the X10 protocol's byte arithmetic does.
pub open spec fn x10_param_spec(b: u8) -> u8 {
    if b >= 32 {
        (b - 32) as u8
    } else {
        (b + 224) as u8
    }
}

/// `b - 32`, stopping at zero, for X10 coordinates.
pub open spec fn x10_coord_spec(b: u8) -> u16 {
    if b >= 32 {
        (b - 32) as u16
    } else {
        0
    }
}

/// The event of an SGR mouse report with parameters `cb, cx, cy` and final
/// byte `term` (`M` for press, `m` for release), if the parameters name one.
pub open spec fn sgr_event_spec(cb: int, cx: int, cy: int, term: u8) -> Option<MouseEvent> {
    if !(0 <= cx <= 0xFFFF && 0 <= cy <= 0xFFFF && 0 <= cb <= 0xFFFF) {
        None
    } else if 0 <= cb <= 2 || 64 <= cb <= 67 {
        let button = if cb == 0 {
            MouseButton::Left
        } else if cb == 1 {
            MouseButton::Middle
        } else if cb == 2 {
            MouseButton::Right
        } else if cb == 64 {
            MouseButton::WheelUp
        } else if cb == 65 {
            MouseButton::WheelDown
        } else if cb == 66 {
            MouseButton::WheelLeft
        } else {
            MouseButton::WheelRight
        };
        if term == 0x4D {
            Some(MouseEvent::Press(button, cx as u16, cy as u16))
        } else {
            Some(MouseEvent::Release(cx as u16, cy as u16))
        }
    } else if cb == 32 {
        Some(MouseEvent::Hold(cx as u16, cy as u16))
    } else if cb == 3 {
        Some(MouseEvent::Release(cx as u16, cy as u16))
    } else {
        None
    }
}

/// The event of an rxvt mouse report with parameters `cb, cx, cy`, if the
/// parameters name one.
pub open spec fn rxvt_event_spec(cb: int, cx: int, cy: int) -> Option<MouseEvent> {
    if !(0 <= cx <= 0xFFFF && 0 <= cy <= 0xFFFF && 0 <= cb <= 0xFFFF) {
        None
    } else if cb == 32 {
        Some(MouseEvent::Press(MouseButton::Left, cx as u16, cy as u16))
    } else if cb == 33 {
        Some(MouseEvent::Press(MouseButton::Middle, cx as u16, cy as u16))
    } else if cb == 34 {
        Some(MouseEvent::Press(MouseButton::Right, cx as u16, cy as u16))
    } else if cb == 35 {
        Some(MouseEvent::Release(cx as u16, cy as u16))
    } else if cb == 64 {
        Some(MouseEvent::Hold(cx as u16, cy as u16))
    } else if cb == 96 || cb == 97 {
        Some(MouseEvent::Press(MouseButton::WheelUp, cx as u16, cy as u16))
    } else {
        None
    }
}

/// The key of a tilde-terminated CSI sequence with the single parameter
/// `v`, if the parameter names one.
pub open spec fn tilde_key_spec(v: int) -> Option<Key> {
    if v == 1 || v == 7 {
        Some(Key::Home)
    } else if v == 2 {
        Some(Key::Insert)
    } else if v == 3 {
        Some(Key::Delete)
    } else if v == 4 || v == 8 {
        Some(Key::End)
    } else if v == 5 {
        Some(Key::PageUp)
    } else if v == 6 {
        Some(Key::PageDown)
    } else if 11 <= v <= 15 {
        Some(Key::F((v - 10) as u8))
    } else if 17 <= v <= 21 {
        Some(Key::F((v - 11) as u8))
    } else if 23 <= v <= 24 {
        Some(Key::F((v - 12) as u8))
    } else {
        None
    }
}

/// The key of a modified cursor sequence `CSI 1 ; mod term`, if the
/// modifier and final byte name one (shift, alt or ctrl arrows, and
/// ctrl-home / ctrl-end).
pub open spec fn modified_key_spec(modifier: int, term: u8) -> Option<Key> {
    if modifier == 2 {
        if term == 0x44 {
            Some(Key::ShiftLeft)
        } else if term == 0x43 {
            Some(Key::ShiftRight)
        } else if term == 0x41 {
            Some(Key::ShiftUp)
        } else if term == 0x42 {
            Some(Key::ShiftDown)
        } else {
            None
        }
    } else if modifier == 3 {
        if term == 0x44 {
            Some(Key::AltLeft)
        } else if term == 0x43 {
            Some(Key::AltRight)
        } else if term == 0x41 {
            Some(Key::AltUp)
        } else if term == 0x42 {
            Some(Key::AltDown)
        } else {
            None
        }
    } else if modifier == 5 {
        if term == 0x44 {
            Some(Key::CtrlLeft)
        } else if term == 0x43 {
            Some(Key::CtrlRight)
        } else if term == 0x41 {
            Some(Key::CtrlUp)
        } else if term == 0x42 {
            Some(Key::CtrlDown)
        } else if term == 0x48 {
            Some(Key::CtrlHome)
        } else if term == 0x46 {
            Some(Key::CtrlEnd)
        } else {
            None
        }
    } else {
        None
    }
}

/// A numbered CSI sequence `ESC [ digits ... term`: the parameter segment
/// is `s[2..t]` and `term = s[t]` is the first byte in `0x40..=0x7E` at or
/// after position 3.
pub open spec fn csi_numbered_spec(s: Seq<u8>) -> SpecParsed {
    let t = find_csi_end(s, 3);
    if t >= s.len() {
        SpecParsed::MoreInputNeeded
    } else {
        let term = s[t];
        if term == 0x4D {
            // rxvt mouse report: all parameters numeric, at least three
            match fields_spec(s, 2, t) {
                None => SpecParsed::Failed { examined: t + 1 },
                Some(nums) => if nums.len() >= 3 {
                    match rxvt_event_spec(nums[0], nums[1], nums[2]) {
                        Some(me) => SpecParsed::Event {
                            event: Event::Mouse(me),
                            consumed: t + 1,
                        },
                        None => SpecParsed::Failed { examined: t + 1 },
                    }
                } else {
                    SpecParsed::Failed { examined: t + 1 }
                },
            }
        } else if term == 0x7E {
            // special key: exactly one parameter, at most 255
            match fields_spec(s, 2, t) {
                None => SpecParsed::Failed { examined: t + 1 },
                Some(nums) => if nums.len() == 1 && nums[0] <= 0xFF {
                    match tilde_key_spec(nums[0]) {
                        Some(k) => SpecParsed::Event { event: Event::Key(k), consumed: t + 1 },
                        None => SpecParsed::Failed { examined: t + 1 },
                    }
                } else {
                    SpecParsed::Failed { examined: t + 1 }
                },
            }
        } else if term == 0x41 || term == 0x42 || term == 0x43 || term == 0x44 || term == 0x46
            || term == 0x48 {
            // modified cursor key: exactly two parameters, the first 1
            match fields_spec(s, 2, t) {
                None => SpecParsed::Failed { examined: t + 1 },
                Some(nums) => if nums.len() == 2 && nums[0] == 1 && nums[1] <= 0xFF {
                    match modified_key_spec(nums[1], term) {
                        Some(k) => SpecParsed::Event { event: Event::Key(k), consumed: t + 1 },
                        None => SpecParsed::Failed { examined: t + 1 },
                    }
                } else {
                    SpecParsed::Failed { examined: t + 1 }
                },
            }
        } else {
            SpecParsed::Failed { examined: t + 1 }
        }
    }
}

/// An SGR mouse report `ESC [ < params (m|M)`: the parameter segment is
/// `s[3..t]` and `t` is the first position at or after 3 holding `m` or `M`.
pub open spec fn csi_sgr_spec(s: Seq<u8>) -> SpecParsed {
    let t = find_sgr_end(s, 3);
    if t >= s.len() {
        SpecParsed::MoreInputNeeded
    } else {
        match first3_spec(s, 3, t) {
            None => SpecParsed::Failed { examined: t + 1 },
            Some((cb, cx, cy)) => match sgr_event_spec(cb, cx, cy, s[t]) {
                Some(me) => SpecParsed::Event { event: Event::Mouse(me), consumed: t + 1 },
                None => SpecParsed::Failed { examined: t + 1 },
            },
        }
    }
}

/// A CSI sequence: everything after `ESC [`.
pub open spec fn csi_spec(s: Seq<u8>) -> SpecParsed {
    if s.len() <= 2 {
        SpecParsed::MoreInputNeeded
    } else {
        let b = s[2];
        if b == 0x5B {
            // ESC [ [ letter: F1 through F5 on some terminals
            if s.len() <= 3 {
                SpecParsed::MoreInputNeeded
            } else if 0x41 <= s[3] <= 0x45 {
                SpecParsed::Event {
                    event: Event::Key(Key::F((1 + s[3] - 0x41) as u8)),
                    consumed: 4,
                }
            } else {
                SpecParsed::Failed { examined: 4 }
            }
        } else if b == 0x44 {
            SpecParsed::Event { event: Event::Key(Key::Left), consumed: 3 }
        } else if b == 0x43 {
            SpecParsed::Event { event: Event::Key(Key::Right), consumed: 3 }
        } else if b == 0x41 {
            SpecParsed::Event { event: Event::Key(Key::Up), consumed: 3 }
        } else if b == 0x42 {
            SpecParsed::Event { event: Event::Key(Key::Down), consumed: 3 }
        } else if b == 0x48 {
            SpecParsed::Event { event: Event::Key(Key::Home), consumed: 3 }
        } else if b == 0x46 {
            SpecParsed::Event { event: Event::Key(Key::End), consumed: 3 }
        } else if b == 0x5A {
            SpecParsed::Event { event: Event::Key(Key::BackTab), consumed: 3 }
        } else if b == 0x4D {
            // X10 mouse report: three raw parameter bytes
            if s.len() < 6 {
                SpecParsed::MoreInputNeeded
            } else {
                SpecParsed::Event {
                    event: Event::Mouse(
                        x10_event_spec(
                            x10_param_spec(s[3]),
                            x10_coord_spec(s[4]),
                            x10_coord_spec(s[5]),
                        ),
                    ),
                    consumed: 6,
                }
            }
        } else if b == 0x3C {
            csi_sgr_spec(s)
        } else if 0x30 <= b <= 0x39 {
            csi_numbered_spec(s)
        } else {
            SpecParsed::Failed { examined: 3 }
        }
    }
}

/// One event parsed from the front of `s`, or the need for more input, or a
/// failure spanning the examined bytes. `s` must be non-empty.
pub open spec fn parse_spec(s: Seq<u8>) -> SpecParsed {
    if s.len() == 0 {
        SpecParsed::MoreInputNeeded
    } else {
        let b = s[0];
        if b == 0x1B {
            if s.len() == 1 {
                SpecParsed::MoreInputNeeded
            } else if s[1] == 0x4F {
                if s.len() == 2 {
                    SpecParsed::MoreInputNeeded
                } else if 0x50 <= s[2] <= 0x53 {
                    SpecParsed::Event {
                        event: Event::Key(Key::F((1 + s[2] - 0x50) as u8)),
                        consumed: 3,
                    }
                } else {
                    SpecParsed::Failed { examined: 3 }
                }
            } else if s[1] == 0x5B {
                csi_spec(s)
            } else {
                match utf8_step(s, 1) {
                    SpecUtf8::Char { c, end } => SpecParsed::Event {
                        event: Event::Key(Key::Alt(c)),
                        consumed: end,
                    },
                    SpecUtf8::NeedMore => SpecParsed::MoreInputNeeded,
                    SpecUtf8::Bad => SpecParsed::Failed { examined: 5 },
                }
            }
        } else if b == 0x0A || b == 0x0D {
            SpecParsed::Event { event: Event::Key(Key::Char('\n')), consumed: 1 }
        } else if b == 0x09 {
            SpecParsed::Event { event: Event::Key(Key::Char('\t')), consumed: 1 }
        } else if b == 0x7F {
            SpecParsed::Event { event: Event::Key(Key::Backspace), consumed: 1 }
        } else if 0x01 <= b <= 0x1A {
            SpecParsed::Event {
                event: Event::Key(Key::Ctrl(((b - 0x01 + 0x61) as u8) as char)),
                consumed: 1,
            }
        } else if 0x1C <= b <= 0x1F {
            SpecParsed::Event {
                event: Event::Key(Key::Ctrl(((b - 0x1C + 0x34) as u8) as char)),
                consumed: 1,
            }
        } else if b == 0x00 {
            SpecParsed::Event { event: Event::Key(Key::Null), consumed: 1 }
        } else {
            match utf8_step(s, 0) {
                SpecUtf8::Char { c, end } => SpecParsed::Event {
                    event: Event::Key(Key::Char(c)),
                    consumed: end,
                },
                SpecUtf8::NeedMore => SpecParsed::MoreInputNeeded,
                SpecUtf8::Bad => SpecParsed::Failed { examined: 4 },
            }
        }
    }
}

/// Relies on char::from_u32: `Some` exactly on Unicode scalar values (at
/// most 0x10FFFF and not a surrogate), returning the character with that
/// value.
pub assume_specification[ char::from_u32 ](u: u32) -> (r: Option<char>)
    ensures
        is_scalar(u) ==> r == Some(u as char),
        !is_scalar(u) ==> r is None,
;

/// What decoding one UTF-8 character came to.
#[derive(Debug, PartialEq, Eq)]
pub enum Utf8Result {
    /// A character, and the position just past its encoding.
    Char { c: char, end: usize },
    /// The bytes so far are a proper prefix of some encoding.
    NeedMore,
    /// The four bytes starting at the decode position are not an encoding.
    Bad,
}

impl Utf8Result {
    /// The specification-level value of this outcome.
    pub open spec fn view(self) -> SpecUtf8 {
        match self {
            Utf8Result::Char { c, end } => SpecUtf8::Char { c, end: end as int },
            Utf8Result::NeedMore => SpecUtf8::NeedMore,
            Utf8Result::Bad => SpecUtf8::Bad,
        }
    }
}

/// Decode one UTF-8 character of the buffer starting at position `i`,
/// reading at most four bytes.
fn utf8_decode<const CAPACITY: usize>(buf: &CycleBuffer<CAPACITY>, i: usize) -> (r: Utf8Result)
    requires
        buf.wf(),
        i < buf@.len(),
    ensures
        r@ == utf8_step(buf@, i as int),
{
    let len = buf.len();
    let b0 = buf.byte_at(i);
    if b0 < 0x80 {
        return Utf8Result::Char { c: b0 as char, end: i + 1 };
    }
    if i + 1 >= len {
        return Utf8Result::NeedMore;
    }
    let b1 = buf.byte_at(i + 1);
    if 0xC0 <= b0 && b0 <= 0xDF && 0x80 <= b1 && b1 <= 0xBF {
        let cp: u32 = (((b0 & 0x1F) as u32) << 6u32) | ((b1 & 0x3F) as u32);
        proof {
            assert(cp == codepoint_width_2(b0, b1));
            assert(cp <= 0x7FF) by (bit_vector)
                requires
                    cp == (((b0 & 0x1F) as u32) << 6u32) | ((b1 & 0x3F) as u32),
            ;
        }
        if cp >= 0x80 {
            match char::from_u32(cp) {
                Some(c) => {
                    return Utf8Result::Char { c, end: i + 2 };
                },
                None => {
                    return unreached();
                },
            }
        }
    }
    proof {
        assert(!utf8_valid2(b0, buf@[i + 1]));
    }
    if i + 2 >= len {
        return Utf8Result::NeedMore;
    }
    let b2 = buf.byte_at(i + 2);
    if 0xE0 <= b0 && b0 <= 0xEF && 0x80 <= b1 && b1 <= 0xBF && 0x80 <= b2 && b2 <= 0xBF {
        let cp: u32 = (((b0 & 0x0F) as u32) << 12u32) | (((b1 & 0x3F) as u32) << 6u32) | ((b2
            & 0x3F) as u32);
        proof {
            assert(cp == codepoint_width_3(b0, b1, b2));
            assert(cp <= 0xFFFF) by (bit_vector)
                requires
                    cp == (((b0 & 0x0F) as u32) << 12u32) | (((b1 & 0x3F) as u32) << 6u32) | ((b2
                        & 0x3F) as u32),
            ;
        }
        if cp >= 0x800 && !(0xD800 <= cp && cp <= 0xDFFF) {
            match char::from_u32(cp) {
                Some(c) => {
                    return Utf8Result::Char { c, end: i + 3 };
                },
                None => {
                    return unreached();
                },
            }
        }
    }
    proof {
        assert(!utf8_valid3(b0, buf@[i + 1], buf@[i + 2]));
    }
    if i + 3 >= len {
        return Utf8Result::NeedMore;
    }
    let b3 = buf.byte_at(i + 3);
    if 0xF0 <= b0 && b0 <= 0xF7 && 0x80 <= b1 && b1 <= 0xBF && 0x80 <= b2 && b2 <= 0xBF && 0x80
        <= b3 && b3 <= 0xBF {
        let cp: u32 = (((b0 & 0x07) as u32) << 18u32) | (((b1 & 0x3F) as u32) << 12u32) | (((b2
            & 0x3F) as u32) << 6u32) | ((b3 & 0x3F) as u32);
        proof {
            assert(cp == codepoint_width_4(b0, b1, b2, b3));
        }
        if 0x10000 <= cp && cp <= 0x10FFFF {
            match char::from_u32(cp) {
                Some(c) => {
                    return Utf8Result::Char { c, end: i + 4 };
                },
                None => {
                    return unreached();
                },
            }
        }
    }
    proof {
        assert(!utf8_valid4(b0, buf@[i + 1], buf@[i + 2], buf@[i + 3]));
    }
    Utf8Result::Bad
}

/// Find the first position at or after `from` whose byte ends an SGR mouse
/// report, or the buffer's length if there is none.
fn find_sgr_end_exec<const CAPACITY: usize>(buf: &CycleBuffer<CAPACITY>, from: usize) -> (t: usize)
    requires
        buf.wf(),
    ensures
        t == find_sgr_end(buf@, from as int),
        t <= buf@.len(),
        from <= buf@.len() ==> from <= t,
{
    let len = buf.len();
    let mut cur = from;
    if cur > len {
        proof {
            assert(find_sgr_end(buf@, from as int) == buf@.len());
        }
        return len;
    }
    while cur < len
        invariant
            buf.wf(),
            from <= cur <= len,
            len == buf@.len(),
            find_sgr_end(buf@, from as int) == find_sgr_end(buf@, cur as int),
        decreases len - cur,
    {
        let b = buf.byte_at(cur);
        if b == 0x6D || b == 0x4D {
            return cur;
        }
        cur = cur + 1;
    }
    cur
}

/// Find the first position at or after `from` whose byte can end a CSI
/// sequence, or the buffer's length if there is none.
fn find_csi_end_exec<const CAPACITY: usize>(buf: &CycleBuffer<CAPACITY>, from: usize) -> (t: usize)
    requires
        buf.wf(),
    ensures
        t == find_csi_end(buf@, from as int),
        t <= buf@.len(),
        from <= buf@.len() ==> from <= t,
{
    let len = buf.len();
    let mut cur = from;
    if cur > len {
        proof {
            assert(find_csi_end(buf@, from as int) == buf@.len());
        }
        return len;
    }
    while cur < len
        invariant
            buf.wf(),
            from <= cur <= len,
            len == buf@.len(),
            find_csi_end(buf@, from as int) == find_csi_end(buf@, cur as int),
        decreases len - cur,
    {
        let b = buf.byte_at(cur);
        if 64 <= b && b <= 126 {
            return cur;
        }
        cur = cur + 1;
    }
    cur
}

/// A decimal value capped just above the largest mouse parameter: values
/// over 0xFFFF all read as 0x10000, which no parameter check accepts.
pub open spec fn capval(v: int) -> u32 {
    if v > 0xFFFF {
        0x10000u32
    } else {
        v as u32
    }
}

/// A decimal digit run's value is never negative.
proof fn lemma_seg_value_nonneg(s: Seq<u8>, a: int, b: int)
    requires
        forall|k: int| a <= k < b ==> is_digit(s[k]),
    ensures
        seg_value(s, a, b) >= 0,
    decreases b - a,
{
    if b > a {
        lemma_seg_value_nonneg(s, a, b - 1);
    }
}

/// Read the decimal field `buf[a..j]`, capped by `capval`; `None` if the
/// field is empty or holds a non-digit.
fn parse_field<const CAPACITY: usize>(buf: &CycleBuffer<CAPACITY>, a: usize, j: usize) -> (r:
    Option<u32>)
    requires
        buf.wf(),
        a <= j <= buf@.len(),
    ensures
        r is Some <==> seg_is_number(buf@, a as int, j as int),
        r is Some ==> r == Some(capval(seg_value(buf@, a as int, j as int))),
{
    if a >= j {
        return None;
    }
    let mut acc: u32 = 0;
    let mut k = a;
    while k < j
        invariant
            buf.wf(),
            a <= k <= j <= buf@.len(),
            a < j,
            forall|m: int| a <= m < k ==> is_digit(buf@[m]),
            acc == capval(seg_value(buf@, a as int, k as int)),
        decreases j - k,
    {
        let b = buf.byte_at(k);
        if b < 0x30 || b > 0x39 {
            return None;
        }
        proof {
            lemma_seg_value_nonneg(buf@, a as int, k as int);
        }
        let d: u32 = (b - 0x30) as u32;
        let t: u32 = acc * 10 + d;
        acc = if t > 0xFFFF {
            0x10000
        } else {
            t
        };
        k = k + 1;
    }
    Some(acc)
}

/// Read all semicolon-separated decimal fields of `buf[a..b]`, each capped
/// by `capval`; `None` exactly when `fields_spec` rejects the segment.
fn parse_all_fields<const CAPACITY: usize>(buf: &CycleBuffer<CAPACITY>, a: usize, b: usize) -> (r:
    Option<Vec<u32>>)
    requires
        buf.wf(),
        a <= b <= buf@.len(),
    ensures
        (match (r, fields_spec(buf@, a as int, b as int)) {
            (Option::None, Option::None) => true,
            (Option::Some(vals), Option::Some(nums)) => vals@.len() == nums.len() && (forall|
                k: int,
            |
                0 <= k < nums.len() ==> vals@[k] == capval(nums[k])),
            _ => false,
        }),
{
    let ghost s: Seq<u8> = buf@;
    let mut vals: Vec<u32> = Vec::new();
    let ghost mut done: Seq<int> = Seq::empty();
    let mut pos = a;
    loop
        invariant
            buf.wf(),
            s == buf@,
            a <= pos <= b <= s.len(),
            vals@.len() == done.len(),
            forall|k: int| 0 <= k < done.len() ==> vals@[k] == capval(done[k]),
            (match fields_spec(s, pos as int, b as int) {
                Option::None => fields_spec(s, a as int, b as int) is None,
                Option::Some(rest) => fields_spec(s, a as int, b as int) == Some(done + rest),
            }),
        decreases b - pos + 1,
    {
        let j = find_semi_exec(buf, pos, b);
        match parse_field(buf, pos, j) {
            None => {
                return None;
            },
            Some(v) => {
                vals.push(v);
                proof {
                    done = done + seq![seg_value(s, pos as int, j as int)];
                }
                if j == b {
                    proof {
                        assert(fields_spec(s, pos as int, b as int) == Some(
                            seq![seg_value(s, pos as int, j as int)],
                        ));
                        assert(done.drop_last() + seq![done.last()] =~= done);
                    }
                    return Some(vals);
                }
                proof {
                    let tail = fields_spec(s, j + 1, b as int);
                    match tail {
                        Option::None => {
                            assert(fields_spec(s, pos as int, b as int) is None);
                        },
                        Option::Some(rest) => {
                            assert(fields_spec(s, pos as int, b as int) == Some(
                                seq![seg_value(s, pos as int, j as int)] + rest,
                            ));
                            assert(done.drop_last() + (seq![done.last()] + rest) =~= done + rest);
                        },
                    }
                }
                pos = j + 1;
            },
        }
    }
}

/// Read the first three semicolon-separated decimal fields of `buf[a..b]`,
/// each capped by `capval`, ignoring anything after the third field; `None`
/// exactly when `first3_spec` rejects the segment.
fn parse_first3<const CAPACITY: usize>(buf: &CycleBuffer<CAPACITY>, a: usize, b: usize) -> (r:
    Option<(u32, u32, u32)>)
    requires
        buf.wf(),
        a <= b <= buf@.len(),
    ensures
        (match (r, first3_spec(buf@, a as int, b as int)) {
            (Option::None, Option::None) => true,
            (Option::Some((x, y, z)), Option::Some((sx, sy, sz))) => x == capval(sx) && y
                == capval(sy) && z == capval(sz),
            _ => false,
        }),
{
    let ghost s: Seq<u8> = buf@;
    let j1 = find_semi_exec(buf, a, b);
    if j1 >= b {
        return None;
    }
    let j2 = find_semi_exec(buf, j1 + 1, b);
    if j2 >= b {
        return None;
    }
    let j3 = find_semi_exec(buf, j2 + 1, b);
    let v1 = match parse_field(buf, a, j1) {
        Some(v) => v,
        None => {
            return None;
        },
    };
    let v2 = match parse_field(buf, j1 + 1, j2) {
        Some(v) => v,
        None => {
            return None;
        },
    };
    let v3 = match parse_field(buf, j2 + 1, j3) {
        Some(v) => v,
        None => {
            return None;
        },
    };
    Some((v1, v2, v3))
}

/// Find the first semicolon in `buf[a..b]`, or `b` if there is none.
fn find_semi_exec<const CAPACITY: usize>(buf: &CycleBuffer<CAPACITY>, a: usize, b: usize) -> (j:
    usize)
    requires
        buf.wf(),
        a <= b <= buf@.len(),
    ensures
        j == find_semi(buf@, a as int, b as int),
        a <= j <= b,
{
    let ghost s: Seq<u8> = buf@;
    let mut j = a;
    while j < b
        invariant
            buf.wf(),
            s == buf@,
            a <= j <= b <= s.len(),
            find_semi(s, a as int, b as int) == find_semi(s, j as int, b as int),
        decreases b - j,
    {
        if buf.byte_at(j) == 0x3B {
            return j;
        }
        j = j + 1;
    }
    j
}

/// Values listed by `fields_spec` are never negative.
proof fn lemma_fields_nonneg(s: Seq<u8>, a: int, b: int)
    requires
        a <= b,
        fields_spec(s, a, b) is Some,
    ensures
        forall|k: int|
            0 <= k < fields_spec(s, a, b)->Some_0.len() ==> fields_spec(s, a, b)->Some_0[k] >= 0,
    decreases b - a,
{
    lemma_find_semi_bounds(s, a, b);
    let j = find_semi(s, a, b);
    lemma_seg_value_nonneg(s, a, j);
    if j != b {
        lemma_fields_nonneg(s, j + 1, b);
    }
}

/// The event of an rxvt mouse report, decided from capped parameters.
fn rxvt_event(cb: u32, cx: u32, cy: u32, Ghost(scb): Ghost<int>, Ghost(scx): Ghost<int>, Ghost(
    scy,
): Ghost<int>) -> (r: Option<MouseEvent>)
    requires
        cb == capval(scb),
        cx == capval(scx),
        cy == capval(scy),
        scb >= 0,
        scx >= 0,
        scy >= 0,
    ensures
        r == rxvt_event_spec(scb, scx, scy),
{
    if cx > 0xFFFF || cy > 0xFFFF || cb > 0xFFFF {
        None
    } else if cb == 32 {
        Some(MouseEvent::Press(MouseButton::Left, cx as u16, cy as u16))
    } else if cb == 33 {
        Some(MouseEvent::Press(MouseButton::Middle, cx as u16, cy as u16))
    } else if cb == 34 {
        Some(MouseEvent::Press(MouseButton::Right, cx as u16, cy as u16))
    } else if cb == 35 {
        Some(MouseEvent::Release(cx as u16, cy as u16))
    } else if cb == 64 {
        Some(MouseEvent::Hold(cx as u16, cy as u16))
    } else if cb == 96 || cb == 97 {
        Some(MouseEvent::Press(MouseButton::WheelUp, cx as u16, cy as u16))
    } else {
        None
    }
}

/// The event of an SGR mouse report, decided from capped parameters.
fn sgr_event(cb: u32, cx: u32, cy: u32, term: u8, Ghost(scb): Ghost<int>, Ghost(scx): Ghost<int>, Ghost(
    scy,
): Ghost<int>) -> (r: Option<MouseEvent>)
    requires
        cb == capval(scb),
        cx == capval(scx),
        cy == capval(scy),
        scb >= 0,
        scx >= 0,
        scy >= 0,
    ensures
        r == sgr_event_spec(scb, scx, scy, term),
{
    if cx > 0xFFFF || cy > 0xFFFF || cb > 0xFFFF {
        None
    } else if cb <= 2 || (64 <= cb && cb <= 67) {
        let button = if cb == 0 {
            MouseButton::Left
        } else if cb == 1 {
            MouseButton::Middle
        } else if cb == 2 {
            MouseButton::Right
        } else if cb == 64 {
            MouseButton::WheelUp
        } else if cb == 65 {
            MouseButton::WheelDown
        } else if cb == 66 {
            MouseButton::WheelLeft
        } else {
            MouseButton::WheelRight
        };
        if term == 0x4D {
            Some(MouseEvent::Press(button, cx as u16, cy as u16))
        } else {
            Some(MouseEvent::Release(cx as u16, cy as u16))
        }
    } else if cb == 32 {
        Some(MouseEvent::Hold(cx as u16, cy as u16))
    } else if cb == 3 {
        Some(MouseEvent::Release(cx as u16, cy as u16))
    } else {
        None
    }
}

/// The key of a tilde-terminated CSI sequence, decided from its capped
/// single parameter.
fn tilde_key(v: u32, Ghost(sv): Ghost<int>) -> (r: Option<Key>)
    requires
        v == capval(sv),
        0 <= sv <= 0xFF,
    ensures
        r == tilde_key_spec(sv),
{
    if v == 1 || v == 7 {
        Some(Key::Home)
    } else if v == 2 {
        Some(Key::Insert)
    } else if v == 3 {
        Some(Key::Delete)
    } else if v == 4 || v == 8 {
        Some(Key::End)
    } else if v == 5 {
        Some(Key::PageUp)
    } else if v == 6 {
        Some(Key::PageDown)
    } else if 11 <= v && v <= 15 {
        Some(Key::F((v - 10) as u8))
    } else if 17 <= v && v <= 21 {
        Some(Key::F((v - 11) as u8))
    } else if 23 <= v && v <= 24 {
        Some(Key::F((v - 12) as u8))
    } else {
        None
    }
}

/// The key of a modified cursor sequence, decided from its capped modifier
/// parameter and final byte.
fn modified_key(modifier: u32, term: u8, Ghost(sm): Ghost<int>) -> (r: Option<Key>)
    requires
        modifier == capval(sm),
        0 <= sm <= 0xFF,
    ensures
        r == modified_key_spec(sm, term),
{
    if modifier == 2 {
        if term == 0x44 {
            Some(Key::ShiftLeft)
        } else if term == 0x43 {
            Some(Key::ShiftRight)
        } else if term == 0x41 {
            Some(Key::ShiftUp)
        } else if term == 0x42 {
            Some(Key::ShiftDown)
        } else {
            None
        }
    } else if modifier == 3 {
        if term == 0x44 {
            Some(Key::AltLeft)
        } else if term == 0x43 {
            Some(Key::AltRight)
        } else if term == 0x41 {
            Some(Key::AltUp)
        } else if term == 0x42 {
            Some(Key::AltDown)
        } else {
            None
        }
    } else if modifier == 5 {
        if term == 0x44 {
            Some(Key::CtrlLeft)
        } else if term == 0x43 {
            Some(Key::CtrlRight)
        } else if term == 0x41 {
            Some(Key::CtrlUp)
        } else if term == 0x42 {
            Some(Key::CtrlDown)
        } else if term == 0x48 {
            Some(Key::CtrlHome)
        } else if term == 0x46 {
            Some(Key::CtrlEnd)
        } else {
            None
        }
    } else {
        None
    }
}

/// Parse a numbered CSI sequence (`ESC [ digit ...`).
fn parse_csi_numbered<const CAPACITY: usize>(buf: &CycleBuffer<CAPACITY>) -> (r: Parsed)
    requires
        buf.wf(),
        buf@.len() >= 3,
    ensures
        r@ == csi_numbered_spec(buf@),
{
    let len = buf.len();
    let t = find_csi_end_exec(buf, 3);
    if t >= len {
        return Parsed::MoreInputNeeded;
    }
    let term = buf.byte_at(t);
    if term == 0x4D {
        match parse_all_fields(buf, 2, t) {
            None => Parsed::Failed { examined: t + 1 },
            Some(vals) => {
                if vals.len() >= 3 {
                    proof {
                        lemma_fields_nonneg(buf@, 2, t as int);
                    }
                    let ghost nums = fields_spec(buf@, 2, t as int)->Some_0;
                    match rxvt_event(
                        vals[0],
                        vals[1],
                        vals[2],
                        Ghost(nums[0]),
                        Ghost(nums[1]),
                        Ghost(nums[2]),
                    ) {
                        Some(me) => Parsed::Event { event: Event::Mouse(me), consumed: t + 1 },
                        None => Parsed::Failed { examined: t + 1 },
                    }
                } else {
                    Parsed::Failed { examined: t + 1 }
                }
            },
        }
    } else if term == 0x7E {
        match parse_all_fields(buf, 2, t) {
            None => Parsed::Failed { examined: t + 1 },
            Some(vals) => {
                proof {
                    lemma_fields_nonneg(buf@, 2, t as int);
                }
                let ghost nums = fields_spec(buf@, 2, t as int)->Some_0;
                if vals.len() == 1 && vals[0] <= 0xFF {
                    match tilde_key(vals[0], Ghost(nums[0])) {
                        Some(k) => Parsed::Event { event: Event::Key(k), consumed: t + 1 },
                        None => Parsed::Failed { examined: t + 1 },
                    }
                } else {
                    Parsed::Failed { examined: t + 1 }
                }
            },
        }
    } else if term == 0x41 || term == 0x42 || term == 0x43 || term == 0x44 || term == 0x46 || term
        == 0x48 {
        match parse_all_fields(buf, 2, t) {
            None => Parsed::Failed { examined: t + 1 },
            Some(vals) => {
                proof {
                    lemma_fields_nonneg(buf@, 2, t as int);
                }
                let ghost nums = fields_spec(buf@, 2, t as int)->Some_0;
                if vals.len() == 2 && vals[0] == 1 && vals[1] <= 0xFF {
                    match modified_key(vals[1], term, Ghost(nums[1])) {
                        Some(k) => Parsed::Event { event: Event::Key(k), consumed: t + 1 },
                        None => Parsed::Failed { examined: t + 1 },
                    }
                } else {
                    Parsed::Failed { examined: t + 1 }
                }
            },
        }
    } else {
        Parsed::Failed { examined: t + 1 }
    }
}

/// Parse an SGR mouse report (`ESC [ < ...`).
fn parse_csi_sgr<const CAPACITY: usize>(buf: &CycleBuffer<CAPACITY>) -> (r: Parsed)
    requires
        buf.wf(),
        buf@.len() >= 3,
    ensures
        r@ == csi_sgr_spec(buf@),
{
    let len = buf.len();
    let t = find_sgr_end_exec(buf, 3);
    if t >= len {
        return Parsed::MoreInputNeeded;
    }
    let term = buf.byte_at(t);
    match parse_first3(buf, 3, t) {
        None => Parsed::Failed { examined: t + 1 },
        Some((cb, cx, cy)) => {
            proof {
                let j1 = find_semi(buf@, 3, t as int);
                let j2 = find_semi(buf@, j1 + 1, t as int);
                let j3 = find_semi(buf@, j2 + 1, t as int);
                lemma_seg_value_nonneg(buf@, 3, j1);
                lemma_seg_value_nonneg(buf@, j1 + 1, j2);
                lemma_seg_value_nonneg(buf@, j2 + 1, j3);
            }
            let ghost trip = first3_spec(buf@, 3, t as int)->Some_0;
            match sgr_event(cb, cx, cy, term, Ghost(trip.0), Ghost(trip.1), Ghost(trip.2)) {
                Some(me) => Parsed::Event { event: Event::Mouse(me), consumed: t + 1 },
                None => Parsed::Failed { examined: t + 1 },
            }
        },
    }
}

/// Parse a CSI sequence: everything after `ESC [`.
fn parse_csi<const CAPACITY: usize>(buf: &CycleBuffer<CAPACITY>) -> (r: Parsed)
    requires
        buf.wf(),
        buf@.len() >= 2,
    ensures
        r@ == csi_spec(buf@),
{
    let len = buf.len();
    if len <= 2 {
        return Parsed::MoreInputNeeded;
    }
    let b = buf.byte_at(2);
    if b == 0x5B {
        if len <= 3 {
            Parsed::MoreInputNeeded
        } else {
            let k = buf.byte_at(3);
            if 0x41 <= k && k <= 0x45 {
                Parsed::Event { event: Event::Key(Key::F(1 + k - 0x41)), consumed: 4 }
            } else {
                Parsed::Failed { examined: 4 }
            }
        }
    } else if b == 0x44 {
        Parsed::Event { event: Event::Key(Key::Left), consumed: 3 }
    } else if b == 0x43 {
        Parsed::Event { event: Event::Key(Key::Right), consumed: 3 }
    } else if b == 0x41 {
        Parsed::Event { event: Event::Key(Key::Up), consumed: 3 }
    } else if b == 0x42 {
        Parsed::Event { event: Event::Key(Key::Down), consumed: 3 }
    } else if b == 0x48 {
        Parsed::Event { event: Event::Key(Key::Home), consumed: 3 }
    } else if b == 0x46 {
        Parsed::Event { event: Event::Key(Key::End), consumed: 3 }
    } else if b == 0x5A {
        Parsed::Event { event: Event::Key(Key::BackTab), consumed: 3 }
    } else if b == 0x4D {
        if len < 6 {
            Parsed::MoreInputNeeded
        } else {
            let p = buf.byte_at(3);
            let cbu: u8 = if p >= 32 {
                p - 32
            } else {
                p + 224
            };
            let q = buf.byte_at(4);
            let cx: u16 = if q >= 32 {
                (q - 32) as u16
            } else {
                0
            };
            let w = buf.byte_at(5);
            let cy: u16 = if w >= 32 {
                (w - 32) as u16
            } else {
                0
            };
            let low2 = cbu % 4;
            let wheel = (cbu / 64) % 2 == 1;
            let me = if low2 == 0 {
                MouseEvent::Press(
                    if wheel {
                        MouseButton::WheelUp
                    } else {
                        MouseButton::Left
                    },
                    cx,
                    cy,
                )
            } else if low2 == 1 {
                MouseEvent::Press(
                    if wheel {
                        MouseButton::WheelDown
                    } else {
                        MouseButton::Middle
                    },
                    cx,
                    cy,
                )
            } else if low2 == 2 {
                MouseEvent::Press(
                    if wheel {
                        MouseButton::WheelLeft
                    } else {
                        MouseButton::Right
                    },
                    cx,
                    cy,
                )
            } else {
                if wheel {
                    MouseEvent::Press(MouseButton::WheelRight, cx, cy)
                } else {
                    MouseEvent::Release(cx, cy)
                }
            };
            Parsed::Event { event: Event::Mouse(me), consumed: 6 }
        }
    } else if b == 0x3C {
        parse_csi_sgr(buf)
    } else if 0x30 <= b && b <= 0x39 {
        parse_csi_numbered(buf)
    } else {
        Parsed::Failed { examined: 3 }
    }
}

/// Attempt to parse one event from the oldest bytes of the buffer.
///
/// The outcome is exactly what the grammar `parse_spec` assigns to the
/// buffer's readable bytes: a complete event and its span, a need for more
/// input, or a failure spanning the examined bytes.
pub fn parse_event<const CAPACITY: usize>(buf: &CycleBuffer<CAPACITY>) -> (r: Parsed)
    requires
        buf.wf(),
    ensures
        r@ == parse_spec(buf@),
{
    let len = buf.len();
    if len == 0 {
        return Parsed::MoreInputNeeded;
    }
    let b = buf.byte_at(0);
    if b == 0x1B {
        if len == 1 {
            Parsed::MoreInputNeeded
        } else {
            let b1 = buf.byte_at(1);
            if b1 == 0x4F {
                if len == 2 {
                    Parsed::MoreInputNeeded
                } else {
                    let b2 = buf.byte_at(2);
                    if 0x50 <= b2 && b2 <= 0x53 {
                        Parsed::Event { event: Event::Key(Key::F(1 + b2 - 0x50)), consumed: 3 }
                    } else {
                        Parsed::Failed { examined: 3 }
                    }
                }
            } else if b1 == 0x5B {
                parse_csi(buf)
            } else {
                match utf8_decode(buf, 1) {
                    Utf8Result::Char { c, end } => Parsed::Event {
                        event: Event::Key(Key::Alt(c)),
                        consumed: end,
                    },
                    Utf8Result::NeedMore => Parsed::MoreInputNeeded,
                    Utf8Result::Bad => Parsed::Failed { examined: 5 },
                }
            }
        }
    } else if b == 0x0A || b == 0x0D {
        Parsed::Event { event: Event::Key(Key::Char('\n')), consumed: 1 }
    } else if b == 0x09 {
        Parsed::Event { event: Event::Key(Key::Char('\t')), consumed: 1 }
    } else if b == 0x7F {
        Parsed::Event { event: Event::Key(Key::Backspace), consumed: 1 }
    } else if 0x01 <= b && b <= 0x1A {
        Parsed::Event { event: Event::Key(Key::Ctrl((b - 0x01 + 0x61) as char)), consumed: 1 }
    } else if 0x1C <= b && b <= 0x1F {
        Parsed::Event { event: Event::Key(Key::Ctrl((b - 0x1C + 0x34) as char)), consumed: 1 }
    } else if b == 0x00 {
        Parsed::Event { event: Event::Key(Key::Null), consumed: 1 }
    } else {
        match utf8_decode(buf, 0) {
            Utf8Result::Char { c, end } => Parsed::Event {
                event: Event::Key(Key::Char(c)),
                consumed: end,
            },
            Utf8Result::NeedMore => Parsed::MoreInputNeeded,
            Utf8Result::Bad => Parsed::Failed { examined: 4 },
        }
    }
}

/// The bounds of `find_sgr_end`: between `a` and the length.
pub proof fn lemma_find_sgr_bounds(s: Seq<u8>, a: int)
    requires
        0 <= a <= s.len(),
    ensures
        a <= find_sgr_end(s, a) <= s.len(),
    decreases s.len() - a,
{
    if a < s.len() && !(s[a] == 0x6D || s[a] == 0x4D) {
        lemma_find_sgr_bounds(s, a + 1);
    }
}

/// The bounds of `find_csi_end`: between `a` and the length.
pub proof fn lemma_find_csi_bounds(s: Seq<u8>, a: int)
    requires
        0 <= a <= s.len(),
    ensures
        a <= find_csi_end(s, a) <= s.len(),
    decreases s.len() - a,
{
    if a < s.len() && !(64 <= s[a] <= 126) {
        lemma_find_csi_bounds(s, a + 1);
    }
}

/// The parser makes progress and stays within its input: a complete event
/// spans at least one and at most all available bytes, a failure likewise,
/// and the parser asks for more input only when the input begins an escape
/// sequence or is a short prefix of a multi-byte character. Feeding any
/// finite input in any chunking therefore covers it exactly once: every
/// emitted event commits the exact prefix it spans, and an escape prefix is
/// resolved by the escape timeout.
pub proof fn lemma_parse_progress(s: Seq<u8>)
    ensures
        parse_spec(s) matches SpecParsed::Event { consumed, .. } ==> 1 <= consumed <= s.len(),
        parse_spec(s) matches SpecParsed::Failed { examined } ==> 1 <= examined <= s.len(),
        parse_spec(s) is MoreInputNeeded ==> s.len() == 0 || s[0] == 0x1B || s.len() <= 3,
{
    if s.len() > 0 {
        let b = s[0];
        if b == 0x1B {
            if s.len() >= 2 && s[1] == 0x5B && s.len() > 2 {
                let c = s[2];
                if c == 0x3C {
                    lemma_find_sgr_bounds(s, 3);
                } else if 0x30 <= c <= 0x39 {
                    lemma_find_csi_bounds(s, 3);
                }
            }
        }
    }
}

/// How many bytes of input the parser buffers; chosen larger than any legal
/// escape sequence so one event never needs more than one fill cycle.
pub const INPUT_BUFFER_SIZE: usize = 1024;

/// What one poll of the input parser came to.
#[derive(Debug, PartialEq, Eq)]
pub enum PollStep {
    /// No event can be produced yet. When `arm_timer` is set, the caller
    /// must start the escape-disambiguation timeout and poll again when it
    /// fires or when more input arrives.
    NotReady { arm_timer: bool },
    /// One parsed event.
    Ready(Event),
    /// The buffer is full and holds no parseable prefix: pathological input
    /// has exceeded the longest legal sequence.
    BufferFull,
}

/// The input parser: buffered raw bytes, the terminal-protocol grammar, and
/// the bounded timeout that tells a lone Escape key from the start of an
/// escape sequence.
///
/// The caller feeds raw bytes in with [`InputParser::feed`] and drives
/// parsing with [`InputParser::poll_parse`], passing in whether the escape
/// timeout it was asked to arm has fired; timekeeping itself stays outside.
pub struct InputParser {
    buffer: CycleBuffer<INPUT_BUFFER_SIZE>,
    escape_timer_armed: bool,
}

impl InputParser {
    /// The buffer and timer state are sound.
    pub closed spec fn wf(&self) -> bool {
        self.buffer.wf()
    }

    /// The bytes that have been fed in but not yet parsed into events.
    pub closed spec fn buffered(&self) -> Seq<u8> {
        self.buffer@
    }

    /// Whether the caller has been asked to arm the escape timeout.
    pub closed spec fn timer_armed(&self) -> bool {
        self.escape_timer_armed
    }

    /// Create a parser with an empty buffer and no pending timeout.
    pub fn new() -> (p: InputParser)
        ensures
            p.wf(),
            p.buffered() == Seq::<u8>::empty(),
            !p.timer_armed(),
    {
        InputParser { buffer: CycleBuffer::new(), escape_timer_armed: false }
    }

    /// How many more bytes the buffer can take.
    pub fn free_space(&self) -> (n: usize)
        requires
            self.wf(),
        ensures
            n == INPUT_BUFFER_SIZE - self.buffered().len(),
    {
        self.buffer.free_space()
    }

    /// Feed raw input bytes to the parser; as much of `data` as fits is
    /// appended to the buffer, and the number of bytes taken is returned.
    pub fn feed(&mut self, data: &[u8]) -> (n: usize)
        requires
            old(self).wf(),
        ensures
            final(self).wf(),
            n == if data@.len() <= INPUT_BUFFER_SIZE - old(self).buffered().len() {
                data@.len() as int
            } else {
                INPUT_BUFFER_SIZE - old(self).buffered().len()
            },
            final(self).buffered() == old(self).buffered() + data@.take(n as int),
            final(self).timer_armed() == old(self).timer_armed(),
    {
        self.buffer.fill_from(data)
    }

    /// Attempt to produce one event from the buffered bytes.
    ///
    /// A complete parse commits the bytes it spans, cancels any pending
    /// timeout and yields the event; an unparseable prefix is committed and
    /// yielded verbatim as an unsupported event; an incomplete parse
    /// starting with the Escape byte arms the timeout (once), and yields a
    /// lone Escape key press if the timeout fired before further bytes
    /// resolved the sequence.
    pub fn poll_parse(&mut self, timeout_fired: bool) -> (r: PollStep)
        requires
            old(self).wf(),
        ensures
            final(self).wf(),
            old(self).buffered().len() == 0 ==> r == (PollStep::NotReady { arm_timer: false })
                && *final(self) == *old(self),
            (match parse_spec(old(self).buffered()) {
                SpecParsed::Event { event, consumed } => {
                    &&& r matches PollStep::Ready(ev) && ev@ == event@
                    &&& final(self).buffered() == old(self).buffered().skip(consumed)
                    &&& !final(self).timer_armed()
                },
                SpecParsed::Failed { examined } => {
                    &&& r matches PollStep::Ready(ev) && ev@ == EventView::Unsupported(
                        old(self).buffered().take(examined),
                    )
                    &&& final(self).buffered() == old(self).buffered().skip(examined)
                    &&& !final(self).timer_armed()
                },
                SpecParsed::MoreInputNeeded => {
                    if old(self).buffered().len() == 0 {
                        true
                    } else if old(self).buffered()[0] == 0x1B {
                        if old(self).timer_armed() && timeout_fired {
                            &&& r matches PollStep::Ready(ev) && ev@ == EventView::Key(Key::Esc)
                            &&& final(self).buffered() == old(self).buffered().skip(1)
                            &&& !final(self).timer_armed()
                        } else if !old(self).timer_armed() {
                            &&& r == (PollStep::NotReady { arm_timer: true })
                            &&& final(self).buffered() == old(self).buffered()
                            &&& final(self).timer_armed()
                        } else {
                            &&& r == (PollStep::NotReady { arm_timer: false })
                            &&& final(self).buffered() == old(self).buffered()
                            &&& final(self).timer_armed()
                        }
                    } else if old(self).buffered().len() == INPUT_BUFFER_SIZE {
                        r == PollStep::BufferFull && *final(self) == *old(self)
                    } else {
                        r == (PollStep::NotReady { arm_timer: false }) && *final(self) == *old(self)
                    }
                },
            }),
    {
        if self.buffer.len() == 0 {
            return PollStep::NotReady { arm_timer: false };
        }
        let first = self.buffer.byte_at(0);
        match parse_event(&self.buffer) {
            Parsed::Event { event, consumed } => {
                proof {
                    lemma_parse_progress(self.buffer@);
                }
                self.buffer.consume_initialized(consumed);
                self.escape_timer_armed = false;
                PollStep::Ready(event)
            },
            Parsed::Failed { examined } => {
                proof {
                    lemma_parse_progress(self.buffer@);
                }
                let mut it = self.buffer.iter_initialized();
                let mut k: usize = 0;
                while k < examined
                    invariant
                        self.buffer.wf(),
                        it.amount_read() == k,
                        k <= examined <= self.buffer@.len(),
                    decreases examined - k,
                {
                    let _ = it.next(&self.buffer);
                    k = k + 1;
                }
                let bytes = it.take_read(&mut self.buffer);
                self.escape_timer_armed = false;
                PollStep::Ready(Event::Unsupported(bytes))
            },
            Parsed::MoreInputNeeded => {
                if first == 0x1B {
                    if self.escape_timer_armed && timeout_fired {
                        self.buffer.consume_initialized(1);
                        self.escape_timer_armed = false;
                        PollStep::Ready(Event::Key(Key::Esc))
                    } else if !self.escape_timer_armed {
                        self.escape_timer_armed = true;
                        PollStep::NotReady { arm_timer: true }
                    } else {
                        PollStep::NotReady { arm_timer: false }
                    }
                } else if self.buffer.len() == INPUT_BUFFER_SIZE {
                    PollStep::BufferFull
                } else {
                    PollStep::NotReady { arm_timer: false }
                }
            },
        }
    }
}

} // verus!
