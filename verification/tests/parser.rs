use termcandy::cycle_buffer::CycleBuffer;
use termcandy::events::{Event, Key, MouseButton, MouseEvent};
use termcandy::parser::{parse_event, InputParser, Parsed, PollStep};

fn buf_with(bytes: &[u8]) -> CycleBuffer<1024> {
    let mut b: CycleBuffer<1024> = CycleBuffer::new();
    assert_eq!(b.fill_from(bytes), bytes.len());
    b
}

fn parse(bytes: &[u8]) -> Parsed {
    parse_event(&buf_with(bytes))
}

#[test]
fn plain_bytes_are_keys() {
    assert_eq!(parse(b"a"), Parsed::Event { event: Event::Key(Key::Char('a')), consumed: 1 });
    assert_eq!(parse(b"\r"), Parsed::Event { event: Event::Key(Key::Char('\n')), consumed: 1 });
    assert_eq!(parse(b"\n"), Parsed::Event { event: Event::Key(Key::Char('\n')), consumed: 1 });
    assert_eq!(parse(b"\t"), Parsed::Event { event: Event::Key(Key::Char('\t')), consumed: 1 });
    assert_eq!(parse(b"\x7f"), Parsed::Event { event: Event::Key(Key::Backspace), consumed: 1 });
    assert_eq!(parse(b"\x01"), Parsed::Event { event: Event::Key(Key::Ctrl('a')), consumed: 1 });
    assert_eq!(parse(b"\x1a"), Parsed::Event { event: Event::Key(Key::Ctrl('z')), consumed: 1 });
    assert_eq!(parse(b"\x1c"), Parsed::Event { event: Event::Key(Key::Ctrl('4')), consumed: 1 });
    assert_eq!(parse(b"\x00"), Parsed::Event { event: Event::Key(Key::Null), consumed: 1 });
}

#[test]
fn multibyte_characters_decode() {
    assert_eq!(
        parse("é".as_bytes()),
        Parsed::Event { event: Event::Key(Key::Char('é')), consumed: 2 }
    );
    assert_eq!(
        parse("€".as_bytes()),
        Parsed::Event { event: Event::Key(Key::Char('€')), consumed: 3 }
    );
    assert_eq!(
        parse("𐍈".as_bytes()),
        Parsed::Event { event: Event::Key(Key::Char('𐍈')), consumed: 4 }
    );
}

#[test]
fn truncated_utf8_needs_more_input() {
    assert_eq!(parse(&[0xC3]), Parsed::MoreInputNeeded);
    assert_eq!(parse(&[0xE2, 0x82]), Parsed::MoreInputNeeded);
}

#[test]
fn invalid_utf8_fails_over_four_bytes() {
    assert_eq!(parse(&[0x80, b'a', b'b', b'c']), Parsed::Failed { examined: 4 });
}

#[test]
fn alt_keys() {
    assert_eq!(parse(b"\x1ba"), Parsed::Event { event: Event::Key(Key::Alt('a')), consumed: 2 });
    assert_eq!(
        parse(b"\x1b\x1b"),
        Parsed::Event { event: Event::Key(Key::Alt('\x1b')), consumed: 2 }
    );
}

#[test]
fn cursor_and_editing_keys() {
    assert_eq!(parse(b"\x1b[A"), Parsed::Event { event: Event::Key(Key::Up), consumed: 3 });
    assert_eq!(parse(b"\x1b[B"), Parsed::Event { event: Event::Key(Key::Down), consumed: 3 });
    assert_eq!(parse(b"\x1b[C"), Parsed::Event { event: Event::Key(Key::Right), consumed: 3 });
    assert_eq!(parse(b"\x1b[D"), Parsed::Event { event: Event::Key(Key::Left), consumed: 3 });
    assert_eq!(parse(b"\x1b[H"), Parsed::Event { event: Event::Key(Key::Home), consumed: 3 });
    assert_eq!(parse(b"\x1b[F"), Parsed::Event { event: Event::Key(Key::End), consumed: 3 });
    assert_eq!(parse(b"\x1b[Z"), Parsed::Event { event: Event::Key(Key::BackTab), consumed: 3 });
    assert_eq!(parse(b"\x1b[3~"), Parsed::Event { event: Event::Key(Key::Delete), consumed: 4 });
    assert_eq!(parse(b"\x1b[2~"), Parsed::Event { event: Event::Key(Key::Insert), consumed: 4 });
    assert_eq!(parse(b"\x1b[5~"), Parsed::Event { event: Event::Key(Key::PageUp), consumed: 4 });
    assert_eq!(parse(b"\x1b[6~"), Parsed::Event { event: Event::Key(Key::PageDown), consumed: 4 });
    assert_eq!(parse(b"\x1b[1~"), Parsed::Event { event: Event::Key(Key::Home), consumed: 4 });
    assert_eq!(parse(b"\x1b[8~"), Parsed::Event { event: Event::Key(Key::End), consumed: 4 });
}

#[test]
fn function_keys() {
    assert_eq!(parse(b"\x1bOP"), Parsed::Event { event: Event::Key(Key::F(1)), consumed: 3 });
    assert_eq!(parse(b"\x1bOS"), Parsed::Event { event: Event::Key(Key::F(4)), consumed: 3 });
    assert_eq!(parse(b"\x1b[[A"), Parsed::Event { event: Event::Key(Key::F(1)), consumed: 4 });
    assert_eq!(parse(b"\x1b[[E"), Parsed::Event { event: Event::Key(Key::F(5)), consumed: 4 });
    assert_eq!(parse(b"\x1b[11~"), Parsed::Event { event: Event::Key(Key::F(1)), consumed: 5 });
    assert_eq!(parse(b"\x1b[15~"), Parsed::Event { event: Event::Key(Key::F(5)), consumed: 5 });
    assert_eq!(parse(b"\x1b[17~"), Parsed::Event { event: Event::Key(Key::F(6)), consumed: 5 });
    assert_eq!(parse(b"\x1b[24~"), Parsed::Event { event: Event::Key(Key::F(12)), consumed: 5 });
}

#[test]
fn modified_cursor_keys() {
    assert_eq!(
        parse(b"\x1b[1;2D"),
        Parsed::Event { event: Event::Key(Key::ShiftLeft), consumed: 6 }
    );
    assert_eq!(
        parse(b"\x1b[1;3A"),
        Parsed::Event { event: Event::Key(Key::AltUp), consumed: 6 }
    );
    assert_eq!(
        parse(b"\x1b[1;5C"),
        Parsed::Event { event: Event::Key(Key::CtrlRight), consumed: 6 }
    );
    assert_eq!(
        parse(b"\x1b[1;5H"),
        Parsed::Event { event: Event::Key(Key::CtrlHome), consumed: 6 }
    );
    assert_eq!(
        parse(b"\x1b[1;5F"),
        Parsed::Event { event: Event::Key(Key::CtrlEnd), consumed: 6 }
    );
}

#[test]
fn sgr_mouse_reports() {
    assert_eq!(
        parse(b"\x1b[<0;5;6M"),
        Parsed::Event {
            event: Event::Mouse(MouseEvent::Press(MouseButton::Left, 5, 6)),
            consumed: 9,
        }
    );
    assert_eq!(
        parse(b"\x1b[<0;5;6m"),
        Parsed::Event { event: Event::Mouse(MouseEvent::Release(5, 6)), consumed: 9 }
    );
    assert_eq!(
        parse(b"\x1b[<2;1;1M"),
        Parsed::Event {
            event: Event::Mouse(MouseEvent::Press(MouseButton::Right, 1, 1)),
            consumed: 9,
        }
    );
    assert_eq!(
        parse(b"\x1b[<64;3;4M"),
        Parsed::Event {
            event: Event::Mouse(MouseEvent::Press(MouseButton::WheelUp, 3, 4)),
            consumed: 10,
        }
    );
    assert_eq!(
        parse(b"\x1b[<32;7;8M"),
        Parsed::Event { event: Event::Mouse(MouseEvent::Hold(7, 8)), consumed: 10 }
    );
}

#[test]
fn x10_mouse_reports() {
    let mut bytes = b"\x1b[M".to_vec();
    bytes.push(32);
    bytes.push(32 + 5);
    bytes.push(32 + 6);
    assert_eq!(
        parse(&bytes),
        Parsed::Event {
            event: Event::Mouse(MouseEvent::Press(MouseButton::Left, 5, 6)),
            consumed: 6,
        }
    );
    let mut rel = b"\x1b[M".to_vec();
    rel.push(32 + 3);
    rel.push(32 + 1);
    rel.push(32 + 2);
    assert_eq!(
        parse(&rel),
        Parsed::Event { event: Event::Mouse(MouseEvent::Release(1, 2)), consumed: 6 }
    );
}

#[test]
fn rxvt_mouse_reports() {
    assert_eq!(
        parse(b"\x1b[32;10;20M"),
        Parsed::Event {
            event: Event::Mouse(MouseEvent::Press(MouseButton::Left, 10, 20)),
            consumed: 11,
        }
    );
    assert_eq!(
        parse(b"\x1b[64;1;2M"),
        Parsed::Event { event: Event::Mouse(MouseEvent::Hold(1, 2)), consumed: 9 }
    );
}

#[test]
fn unrecognized_sequences_fail_with_their_span() {
    assert_eq!(parse(b"\x1b[q"), Parsed::Failed { examined: 3 });
    assert_eq!(parse(b"\x1b[9~"), Parsed::Failed { examined: 4 });
    assert_eq!(parse(b"\x1b[<zz;1;1M"), Parsed::Failed { examined: 10 });
    assert_eq!(parse(b"\x1bOz"), Parsed::Failed { examined: 3 });
}

#[test]
fn incomplete_sequences_need_more_input() {
    assert_eq!(parse(b"\x1b"), Parsed::MoreInputNeeded);
    assert_eq!(parse(b"\x1b["), Parsed::MoreInputNeeded);
    assert_eq!(parse(b"\x1b[1;5"), Parsed::MoreInputNeeded);
    assert_eq!(parse(b"\x1b[<0;5;6"), Parsed::MoreInputNeeded);
    assert_eq!(parse(b"\x1bO"), Parsed::MoreInputNeeded);
}

#[test]
fn lone_escape_resolves_by_timeout() {
    let mut p = InputParser::new();
    assert_eq!(p.feed(&[0x1b]), 1);
    // first poll arms the disambiguation timer
    assert_eq!(p.poll_parse(false), PollStep::NotReady { arm_timer: true });
    // polling again before the timeout fires stays quiet
    assert_eq!(p.poll_parse(false), PollStep::NotReady { arm_timer: false });
    // the timeout fired with no further input: a lone Escape key press
    assert_eq!(p.poll_parse(true), PollStep::Ready(Event::Key(Key::Esc)));
    // nothing is left over
    assert_eq!(p.poll_parse(false), PollStep::NotReady { arm_timer: false });
}

#[test]
fn escape_sequence_beats_the_timeout() {
    let mut p = InputParser::new();
    p.feed(&[0x1b]);
    assert_eq!(p.poll_parse(false), PollStep::NotReady { arm_timer: true });
    // the rest of the sequence arrives before the timeout fires
    p.feed(b"[A");
    assert_eq!(p.poll_parse(false), PollStep::Ready(Event::Key(Key::Up)));
    // no spurious Escape key press follows
    assert_eq!(p.poll_parse(true), PollStep::NotReady { arm_timer: false });
}

#[test]
fn chunked_input_covers_every_byte_exactly_once() {
    let all: &[u8] = b"a\x1b[1;5Db\x1b[<0;3;4Mc";
    for chunk in 1..=all.len() {
        let mut p = InputParser::new();
        let mut events = Vec::new();
        let mut fed = 0;
        while fed < all.len() {
            let end = (fed + chunk).min(all.len());
            assert_eq!(p.feed(&all[fed..end]), end - fed);
            fed = end;
            loop {
                match p.poll_parse(false) {
                    PollStep::Ready(e) => events.push(e),
                    _ => break,
                }
            }
        }
        assert_eq!(
            events,
            vec![
                Event::Key(Key::Char('a')),
                Event::Key(Key::CtrlLeft),
                Event::Key(Key::Char('b')),
                Event::Mouse(MouseEvent::Press(MouseButton::Left, 3, 4)),
                Event::Key(Key::Char('c')),
            ],
        );
    }
}

#[test]
fn garbage_degrades_to_unsupported() {
    let mut p = InputParser::new();
    p.feed(&[0x80, b'a', b'b', b'c', b'd']);
    assert_eq!(
        p.poll_parse(false),
        PollStep::Ready(Event::Unsupported(vec![0x80, b'a', b'b', b'c']))
    );
    assert_eq!(p.poll_parse(false), PollStep::Ready(Event::Key(Key::Char('d'))));
}

#[test]
fn polling_an_empty_buffer_is_quiet() {
    let mut p = InputParser::new();
    assert_eq!(p.poll_parse(false), PollStep::NotReady { arm_timer: false });
    assert_eq!(p.poll_parse(true), PollStep::NotReady { arm_timer: false });
}

#[test]
fn two_events_in_one_buffer_come_out_in_order() {
    let mut p = InputParser::new();
    p.feed(b"ab");
    assert_eq!(p.poll_parse(false), PollStep::Ready(Event::Key(Key::Char('a'))));
    assert_eq!(p.poll_parse(false), PollStep::Ready(Event::Key(Key::Char('b'))));
    assert_eq!(p.poll_parse(false), PollStep::NotReady { arm_timer: false });
}
