use termcandy::color::Color;
use termcandy::screen::Buffers;
use termcandy::style::Style;

#[test]
fn new_buffers_queue_the_hide_cursor_sequence() {
    let b = Buffers::new(4, 2);
    assert_eq!(b.writing().as_slice(), b"\x1b[?25l");
    assert_eq!(b.amount_written(), 0);
}

#[test]
fn damage_queues_a_move_to_the_origin() {
    let mut b = Buffers::new(4, 2);
    b.damage();
    assert_eq!(b.writing().as_slice(), b"\x1b[1;1H");
}

#[test]
fn move_cursor_emits_nothing_when_already_there() {
    let mut b = Buffers::new(4, 2);
    b.damage();
    let before = b.writing().len();
    b.move_cursor(0, 0);
    assert_eq!(b.writing().len(), before);
    b.move_cursor(2, 1);
    assert_eq!(&b.writing()[before..], b"\x1b[2;3H");
}

#[test]
fn set_style_emits_nothing_for_the_current_style() {
    let mut b = Buffers::new(4, 2);
    b.damage();
    let before = b.writing().len();
    b.set_style(Style::default());
    assert_eq!(b.writing().len(), before);
}

#[test]
fn set_style_resets_then_emits_the_new_style() {
    let mut b = Buffers::new(4, 2);
    b.damage();
    let before = b.writing().len();
    b.set_style(Style::fg(Color::red()));
    assert_eq!(&b.writing()[before..], b"\x1b[0m\x1b[31;1m");
}

fn drain(b: &mut Buffers) {
    let n = b.writing().len() - b.amount_written();
    b.record_written(n);
    assert!(b.finish_write());
}

#[test]
fn rendering_an_unchanged_frame_emits_no_bytes() {
    let mut b = Buffers::new(4, 2);
    b.swap_buffers();
    drain(&mut b);
    // same back buffer, no damage: the diff must queue nothing at all
    b.swap_buffers();
    assert_eq!(b.writing().len(), 0);
}

#[test]
fn a_changed_cell_is_re_emitted() {
    let mut b = Buffers::new(4, 2);
    b.swap_buffers();
    drain(&mut b);
    let style = Style::default();
    b.back_mut().put('X', 1, 0, style);
    b.swap_buffers();
    assert_eq!(b.front_ref().cell(1, 0).c, 'X');
    // cursor move to (1,0) and the character itself
    assert_eq!(b.writing().as_slice(), b"\x1b[1;2HX");
}

#[test]
fn wide_characters_keep_their_continuation_cell() {
    let mut b = Buffers::new(4, 2);
    b.swap_buffers();
    drain(&mut b);
    let style = Style::default();
    b.back_mut().put('世', 0, 0, style);
    assert_eq!(b.back_ref().cell(0, 0).c, '世');
    // the cell hidden under the wide character is a continuation cell
    assert_eq!(b.back_ref().cell(1, 0).c, '\0');
    b.swap_buffers();
    assert_eq!(b.front_ref().cell(0, 0).c, '世');
    assert_eq!(b.front_ref().cell(1, 0).c, '\0');
    // the cell after the continuation is untouched
    assert_eq!(b.front_ref().cell(2, 0).c, ' ');
    drain(&mut b);
    // rendering again with no further changes emits nothing: the
    // continuation cell is not diffed on its own
    b.swap_buffers();
    assert_eq!(b.writing().len(), 0);
}

#[test]
fn resize_blanks_and_damages() {
    let mut b = Buffers::new(4, 2);
    b.swap_buffers();
    drain(&mut b);
    b.resize(3, 3);
    assert_eq!(b.writing().as_slice(), b"\x1b[1;1H");
    assert_eq!(b.front_ref().width(), 3);
    assert_eq!(b.front_ref().height(), 3);
    // damaged: the next diff repaints every cell
    b.swap_buffers();
    assert!(b.writing().len() > 6);
}
