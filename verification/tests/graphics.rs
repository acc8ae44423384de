use termcandy::color::{Color, ColorCode};
use termcandy::events::Event;
use termcandy::rect::Rect;
use termcandy::style::{Attrs, Style, UnderlineKind, UnderlineStyle};
use termcandy::surface::{char_to_segments, segments_to_char, Surface};
use termcandy::width::char_cols;

#[test]
fn color_constructors() {
    assert_eq!(Color::red(), Color::Colors16 { code: ColorCode::Red, bright: false });
    assert_eq!(Color::bright_cyan(), Color::Colors16 { code: ColorCode::Cyan, bright: true });
    assert_eq!(Color::rgb(1, 2, 3), Color::Rgb { r: 1, g: 2, b: 3 });
    assert_eq!(Color::default(), Color::Default);
    assert_eq!(ColorCode::Yellow.number(), 3);
}

#[test]
fn style_constructors() {
    assert!(Style::bold().attrs.bold);
    assert!(Style::faint().attrs.faint);
    assert!(Style::italic().attrs.italic);
    assert!(Style::blink().attrs.blink);
    assert!(Style::strikethrough().attrs.strikethrough);
    assert!(Style::overlined().attrs.overlined);
    assert_eq!(Style::fg(Color::red()).fg, Color::red());
    assert_eq!(Style::bg(Color::blue()).bg, Color::blue());
    assert_eq!(
        Style::underline(UnderlineStyle::wavy()).attrs.underline,
        Some(UnderlineStyle { kind: UnderlineKind::Wavy, color: Color::Default })
    );
    assert_eq!(Attrs::bold(), Attrs { bold: true, ..Attrs::default() });
    assert_eq!(UnderlineStyle::double().kind, UnderlineKind::Double);
    assert_eq!(UnderlineStyle::single().kind, UnderlineKind::Single);
}

#[test]
fn rect_shrinking_stops_at_the_opposite_edge() {
    let mut r = Rect { x0: 0, x1: 10, y0: 0, y1: 4 };
    assert_eq!(r.width(), 10);
    assert_eq!(r.height(), 4);
    r.shrink_left(3);
    assert_eq!(r.x0, 3);
    r.shrink_left(20);
    assert_eq!(r.x0, 10);
    r.shrink_bottom(1);
    assert_eq!(r.y1, 3);
    r.shrink_top(5);
    assert_eq!(r.y0, 3);
    let mut r2 = Rect { x0: 2, x1: 8, y0: 0, y1: 1 };
    r2.shrink_right(4);
    assert_eq!(r2.x1, 4);
}

#[test]
fn character_widths() {
    assert_eq!(char_cols('a'), 1);
    assert_eq!(char_cols(' '), 1);
    assert_eq!(char_cols('世'), 2);
    assert_eq!(char_cols('\0'), 0);
    assert_eq!(char_cols('\u{1b}'), 0);
}

#[test]
fn put_and_read_cells() {
    let mut s = Surface::blank(4, 3);
    assert_eq!(s.width(), 4);
    assert_eq!(s.height(), 3);
    assert_eq!(s.cell(0, 0).c, ' ');
    s.put('x', 2, 1, Style::bold());
    assert_eq!(s.cell(2, 1).c, 'x');
    assert!(s.cell(2, 1).style.attrs.bold);
    // out-of-bounds puts change nothing
    s.put('y', -1, 0, Style::default());
    s.put('y', 4, 0, Style::default());
    assert_eq!(s.cell(0, 0).c, ' ');
}

#[test]
fn wide_put_blanks_the_next_cell() {
    let mut s = Surface::blank(4, 1);
    s.put('世', 1, 0, Style::default());
    assert_eq!(s.cell(1, 0).c, '世');
    assert_eq!(s.cell(2, 0).c, '\0');
    assert_eq!(s.cell(3, 0).c, ' ');
}

#[test]
fn print_clips_at_the_right_edge() {
    let mut s = Surface::blank(4, 1);
    s.print("abcdef", 1, 0, Style::default());
    assert_eq!(s.cell(0, 0).c, ' ');
    assert_eq!(s.cell(1, 0).c, 'a');
    assert_eq!(s.cell(2, 0).c, 'b');
    assert_eq!(s.cell(3, 0).c, 'c');
}

#[test]
fn segments_round_trip() {
    for v in 1..=15u8 {
        let c = segments_to_char(v);
        assert_eq!(char_to_segments(c), Some(v));
    }
    assert_eq!(char_to_segments('x'), None);
    assert_eq!(segments_to_char(0b0101), '─');
    assert_eq!(segments_to_char(0b1010), '│');
}

#[test]
fn crossing_lines_merge_their_segments() {
    let mut s = Surface::blank(5, 5);
    s.draw_h_line(1, 4, 2);
    assert_eq!(s.cell(1, 2).c, '╶');
    assert_eq!(s.cell(2, 2).c, '─');
    assert_eq!(s.cell(4, 2).c, '╴');
    s.draw_v_line(1, 4, 2);
    // where the lines cross, the segments join
    assert_eq!(s.cell(2, 2).c, '┼');
    assert_eq!(s.cell(2, 1).c, '╷');
}

#[test]
fn region_translates_and_clips() {
    let mut s = Surface::blank(6, 4);
    let whole = s.as_mut();
    let region = whole.region(Rect { x0: 2, x1: 6, y0: 1, y1: 4 });
    assert_eq!(region.width(), 4);
    assert_eq!(region.height(), 3);
    region.put(&mut s, 'r', 0, 0, Style::default());
    assert_eq!(s.cell(2, 1).c, 'r');
    // outside the region nothing is written
    region.put(&mut s, 'q', 4, 0, Style::default());
    region.put(&mut s, 'q', -1, 0, Style::default());
    assert_eq!(region.cell(&s, 0, 0).c, 'r');
}

#[test]
fn fill_paints_the_region_background() {
    let mut s = Surface::blank(4, 2);
    let whole = s.as_mut();
    let region = whole.region(Rect { x0: 1, x1: 3, y0: 0, y1: 2 });
    region.fill(&mut s, Color::green());
    assert_eq!(s.cell(1, 0).style.bg, Color::green());
    assert_eq!(s.cell(2, 1).style.bg, Color::green());
    assert_eq!(s.cell(0, 0).style.bg, Color::Default);
    assert_eq!(s.cell(3, 1).style.bg, Color::Default);
}

#[test]
fn clear_resets_the_region_to_blank() {
    let mut s = Surface::blank(4, 2);
    s.print("abcd", 0, 0, Style::bold());
    let whole = s.as_mut();
    let region = whole.region(Rect { x0: 1, x1: 3, y0: 0, y1: 1 });
    region.clear(&mut s);
    assert_eq!(s.cell(0, 0).c, 'a');
    assert_eq!(s.cell(1, 0).c, ' ');
    assert_eq!(s.cell(2, 0).c, ' ');
    assert_eq!(s.cell(3, 0).c, 'd');
}

#[test]
fn events_compare_and_clone_deeply() {
    let a = Event::Unsupported(vec![1, 2, 3]);
    let b = a.clone();
    assert_eq!(a, b);
    assert_ne!(a, Event::Unsupported(vec![1, 2]));
    assert_ne!(a, Event::Key(termcandy::events::Key::Esc));
}
