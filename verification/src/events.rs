//! User-input events: key presses, mouse reports, and raw bytes the
//! terminal-protocol grammar does not recognize.

use vstd::prelude::*;
use crate::rect::Rect;

verus! {

/// A key.
#[derive(Clone, Copy, Debug, PartialEq, Eq, Structural)]
pub enum Key {
    /// Backspace.
    Backspace,
    /// Left arrow.
    Left,
    /// Shift Left arrow.
    ShiftLeft,
    /// Alt Left arrow.
    AltLeft,
    /// Ctrl Left arrow.
    CtrlLeft,
    /// Right arrow.
    Right,
    /// Shift Right arrow.
    ShiftRight,
    /// Alt Right arrow.
    AltRight,
    /// Ctrl Right arrow.
    CtrlRight,
    /// Up arrow.
    Up,
    /// Shift Up arrow.
    ShiftUp,
    /// Alt Up arrow.
    AltUp,
    /// Ctrl Up arrow.
    CtrlUp,
    /// Down arrow.
    Down,
    /// Shift Down arrow.
    ShiftDown,
    /// Alt Down arrow.
    AltDown,
    /// Ctrl Down arrow.
    CtrlDown,
    /// Home key.
    Home,
    /// Ctrl Home key.
    CtrlHome,
    /// End key.
    End,
    /// Ctrl End key.
    CtrlEnd,
    /// Page Up key.
    PageUp,
    /// Page Down key.
    PageDown,
    /// Backward Tab key.
    BackTab,
    /// Delete key.
    Delete,
    /// Insert key.
    Insert,
    /// Function keys 1 through 12.
    F(u8),
    /// Normal character.
    Char(char),
    /// Alt modified character.
    Alt(char),
    /// Ctrl modified character.
    Ctrl(char),
    /// Null byte.
    Null,
    /// Esc key.
    Esc,
}

/// A mouse button.
#[derive(Clone, Copy, Debug, PartialEq, Eq, Structural)]
pub enum MouseButton {
    /// The left mouse button.
    Left,
    /// The right mouse button.
    Right,
    /// The middle mouse button.
    Middle,
    /// Mouse wheel is going up.
    WheelUp,
    /// Mouse wheel is going down.
    WheelDown,
    /// Mouse wheel is going left.
    WheelLeft,
    /// Mouse wheel is going right.
    WheelRight,
}

/// A mouse-related event. The coordinates are one-based.
#[derive(Clone, Copy, Debug, PartialEq, Eq, Structural)]
pub enum MouseEvent {
    /// A mouse button was pressed.
    Press(MouseButton, u16, u16),
    /// A mouse button was released.
    Release(u16, u16),
    /// A mouse button is held over the given coordinates.
    Hold(u16, u16),
}

/// An event reported by the terminal.
#[derive(Debug)]
pub enum Event {
    /// A key press.
    Key(Key),
    /// A mouse button press, release or wheel use at specific coordinates.
    Mouse(MouseEvent),
    /// A byte sequence the grammar does not recognize, reported verbatim.
    Unsupported(Vec<u8>),
}

/// The mathematical model of an [`Event`]: the same variants, with an
/// unsupported byte sequence held as a `Seq`.
pub enum EventView {
    Key(Key),
    Mouse(MouseEvent),
    Unsupported(Seq<u8>),
}

impl View for Event {
    type V = EventView;

    open spec fn view(&self) -> EventView {
        match self {
            Event::Key(k) => EventView::Key(*k),
            Event::Mouse(m) => EventView::Mouse(*m),
            Event::Unsupported(v) => EventView::Unsupported(v@),
        }
    }
}

impl Clone for Event {
    fn clone(&self) -> (r: Event)
        ensures
            r@ == self@,
    {
        match self {
            Event::Key(k) => Event::Key(*k),
            Event::Mouse(m) => Event::Mouse(*m),
            Event::Unsupported(v) => {
                let mut bytes: Vec<u8> = Vec::with_capacity(v.len());
                let mut i: usize = 0;
                while i < v.len()
                    invariant
                        i <= v.len(),
                        bytes@ =~= v@.take(i as int),
                    decreases v.len() - i,
                {
                    bytes.push(v[i]);
                    proof {
                        assert(bytes@ =~= v@.take(i + 1));
                    }
                    i = i + 1;
                }
                proof {
                    assert(v@.take(v@.len() as int) =~= v@);
                }
                Event::Unsupported(bytes)
            },
        }
    }
}

impl PartialEq for Event {
    fn eq(&self, other: &Event) -> (r: bool) {
        match (self, other) {
            (Event::Key(a), Event::Key(b)) => a == b,
            (Event::Mouse(a), Event::Mouse(b)) => a == b,
            (Event::Unsupported(a), Event::Unsupported(b)) => {
                if a.len() != b.len() {
                    return false;
                }
                let mut i: usize = 0;
                while i < a.len()
                    invariant
                        i <= a.len(),
                        a@.len() == b@.len(),
                        self@ == EventView::Unsupported(a@),
                        other@ == EventView::Unsupported(b@),
                        forall|k: int| 0 <= k < i ==> a@[k] == b@[k],
                    decreases a.len() - i,
                {
                    if a[i] != b[i] {
                        return false;
                    }
                    i = i + 1;
                }
                proof {
                    assert(a@ =~= b@);
                }
                true
            },
            _ => false,
        }
    }
}

impl Eq for Event {

}

impl vstd::std_specs::cmp::PartialEqSpecImpl for Event {
    open spec fn obeys_eq_spec() -> bool {
        true
    }

    open spec fn eq_spec(&self, other: &Event) -> bool {
        self@ == other@
    }
}

/// A per-watcher event filter: a step in the stack that every event passes
/// through before a watcher observes it. A filter may remap an event or
/// suppress it.
#[derive(Clone, Copy, Debug, PartialEq, Eq, Structural)]
pub enum EventFilter {
    /// Keep only mouse events inside the rectangle, translating their
    /// coordinates to be relative to its corner; other events pass through.
    MouseRegion(Rect),
}

/// Translate a mouse coordinate pair into `r`'s own coordinates, or nothing
/// if it lies outside `r` (or beyond what a coordinate can hold).
pub open spec fn map_coords_spec(r: Rect, x: u16, y: u16) -> Option<(u16, u16)> {
    if r.x0 <= x < r.x1 && r.y0 <= y < r.y1 && x - r.x0 <= 0xFFFF && y - r.y0 <= 0xFFFF {
        Some((((x - r.x0) as u16), ((y - r.y0) as u16)))
    } else {
        None
    }
}

/// One filter applied to one event.
pub open spec fn apply_filter_spec(f: EventFilter, e: EventView) -> Option<EventView> {
    match f {
        EventFilter::MouseRegion(r) => match e {
            EventView::Mouse(me) => match me {
                MouseEvent::Press(b, x, y) => match map_coords_spec(r, x, y) {
                    Option::None => None,
                    Option::Some((nx, ny)) => Some(EventView::Mouse(MouseEvent::Press(b, nx, ny))),
                },
                MouseEvent::Release(x, y) => match map_coords_spec(r, x, y) {
                    Option::None => None,
                    Option::Some((nx, ny)) => Some(EventView::Mouse(MouseEvent::Release(nx, ny))),
                },
                MouseEvent::Hold(x, y) => match map_coords_spec(r, x, y) {
                    Option::None => None,
                    Option::Some((nx, ny)) => Some(EventView::Mouse(MouseEvent::Hold(nx, ny))),
                },
            },
            _ => Some(e),
        },
    }
}

/// A whole filter stack applied to one event, oldest filter first; the
/// first filter to suppress the event suppresses it for good.
pub open spec fn apply_filters_spec(fs: Seq<EventFilter>, e: EventView) -> Option<EventView>
    decreases fs.len(),
{
    if fs.len() == 0 {
        Some(e)
    } else {
        match apply_filter_spec(fs[0], e) {
            Option::None => None,
            Option::Some(e2) => apply_filters_spec(fs.skip(1), e2),
        }
    }
}

/// Translate a mouse coordinate pair into `r`'s own coordinates, or nothing
/// if it lies outside `r`.
pub fn map_mouse_coords(r: &Rect, x: u16, y: u16) -> (out: Option<(u16, u16)>)
    ensures
        out == map_coords_spec(*r, x, y),
{
    let xi = x as i32;
    let yi = y as i32;
    if r.x0 as i32 <= xi && xi < r.x1 as i32 && r.y0 as i32 <= yi && yi < r.y1 as i32 && xi
        - r.x0 as i32 <= 0xFFFF && yi - r.y0 as i32 <= 0xFFFF {
        Some(((xi - r.x0 as i32) as u16, (yi - r.y0 as i32) as u16))
    } else {
        None
    }
}

/// Apply one filter to one event.
pub fn apply_filter(f: &EventFilter, e: &Event) -> (out: Option<Event>)
    ensures
        (match (out, apply_filter_spec(*f, e@)) {
            (Option::None, Option::None) => true,
            (Option::Some(a), Option::Some(b)) => a@ == b,
            _ => false,
        }),
{
    match f {
        EventFilter::MouseRegion(r) => match e {
            Event::Mouse(me) => match me {
                MouseEvent::Press(b, x, y) => match map_mouse_coords(r, *x, *y) {
                    None => None,
                    Some((nx, ny)) => Some(Event::Mouse(MouseEvent::Press(*b, nx, ny))),
                },
                MouseEvent::Release(x, y) => match map_mouse_coords(r, *x, *y) {
                    None => None,
                    Some((nx, ny)) => Some(Event::Mouse(MouseEvent::Release(nx, ny))),
                },
                MouseEvent::Hold(x, y) => match map_mouse_coords(r, *x, *y) {
                    None => None,
                    Some((nx, ny)) => Some(Event::Mouse(MouseEvent::Hold(nx, ny))),
                },
            },
            _ => Some(e.clone()),
        },
    }
}

/// Apply a whole filter stack to one event, oldest filter first.
pub fn apply_filters(filters: &Vec<EventFilter>, e: &Event) -> (out: Option<Event>)
    ensures
        (match (out, apply_filters_spec(filters@, e@)) {
            (Option::None, Option::None) => true,
            (Option::Some(a), Option::Some(b)) => a@ == b,
            _ => false,
        }),
{
    let mut cur: Event = e.clone();
    let mut i: usize = 0;
    proof {
        assert(filters@.skip(0) =~= filters@);
    }
    while i < filters.len()
        invariant
            i <= filters@.len(),
            apply_filters_spec(filters@, e@) == apply_filters_spec(filters@.skip(i as int), cur@),
        decreases filters@.len() - i,
    {
        proof {
            assert(filters@.skip(i as int)[0] == filters@[i as int]);
            assert(filters@.skip(i as int).skip(1) =~= filters@.skip(i + 1));
        }
        match apply_filter(&filters[i], &cur) {
            None => {
                return None;
            },
            Some(next) => {
                cur = next;
            },
        }
        i = i + 1;
    }
    proof {
        assert(filters@.skip(filters@.len() as int) =~= Seq::<EventFilter>::empty());
    }
    Some(cur)
}

} // verus!
