use termcandy::broadcast::{EventWatcher, GlobalWatcherSet, RoundEvent, WatcherPoll};
use termcandy::events::{Event, EventFilter, Key, MouseButton, MouseEvent};
use termcandy::rect::Rect;

fn key(c: char) -> Event {
    Event::Key(Key::Char(c))
}

#[test]
fn every_watcher_observes_every_event_in_order() {
    let mut g = GlobalWatcherSet::new();
    let no_filters: Vec<EventFilter> = Vec::new();
    let mut w1 = EventWatcher::new(&mut g);
    let mut w2 = EventWatcher::new(&mut g);
    let mut seen1 = Vec::new();
    let mut seen2 = Vec::new();
    let events = vec![key('a'), key('b'), key('c')];
    for e in &events {
        assert!(g.all_polled());
        g.publish(RoundEvent::Event(e.clone()));
        // within a round, both watchers observe the same event
        let (r1, wake1) = w1.poll_next(&mut g, &no_filters);
        assert!(!wake1);
        let (r2, wake2) = w2.poll_next(&mut g, &no_filters);
        assert!(wake2);
        match (r1, r2) {
            (WatcherPoll::Event(a), WatcherPoll::Event(b)) => {
                assert_eq!(a, b);
                seen1.push(a);
                seen2.push(b);
            }
            _ => panic!("both watchers should observe the event"),
        }
    }
    assert_eq!(seen1, events);
    assert_eq!(seen2, events);
}

#[test]
fn a_watcher_observes_a_round_exactly_once() {
    let mut g = GlobalWatcherSet::new();
    let no_filters: Vec<EventFilter> = Vec::new();
    let mut w1 = EventWatcher::new(&mut g);
    let mut w2 = EventWatcher::new(&mut g);
    g.publish(RoundEvent::Event(key('x')));
    let (r, _) = w1.poll_next(&mut g, &no_filters);
    assert_eq!(r, WatcherPoll::Event(key('x')));
    // a second poll in the same round has nothing to observe
    let (r, wake) = w1.poll_next(&mut g, &no_filters);
    assert_eq!(r, WatcherPoll::NotReady);
    assert!(!wake);
    let (r, _) = w2.poll_next(&mut g, &no_filters);
    assert_eq!(r, WatcherPoll::Event(key('x')));
}

#[test]
fn a_late_watcher_observes_only_later_events() {
    let mut g = GlobalWatcherSet::new();
    let no_filters: Vec<EventFilter> = Vec::new();
    let mut w1 = EventWatcher::new(&mut g);
    g.publish(RoundEvent::Event(key('a')));
    let (r, _) = w1.poll_next(&mut g, &no_filters);
    assert_eq!(r, WatcherPoll::Event(key('a')));
    // the first round is over; a new watcher joins
    let mut w2 = EventWatcher::new(&mut g);
    // the newcomer is credited for the round it never saw start
    let (r, _) = w2.poll_next(&mut g, &no_filters);
    assert_eq!(r, WatcherPoll::NotReady);
    assert!(g.all_polled());
    g.publish(RoundEvent::Event(key('b')));
    let (r, _) = w1.poll_next(&mut g, &no_filters);
    assert_eq!(r, WatcherPoll::Event(key('b')));
    let (r, _) = w2.poll_next(&mut g, &no_filters);
    assert_eq!(r, WatcherPoll::Event(key('b')));
}

#[test]
fn dropping_the_last_unpolled_watcher_unblocks_the_producer() {
    let mut g = GlobalWatcherSet::new();
    let no_filters: Vec<EventFilter> = Vec::new();
    let mut a = EventWatcher::new(&mut g);
    let b = EventWatcher::new(&mut g);
    g.publish(RoundEvent::Event(key('x')));
    // watcher a observes the round; the producer still waits on b
    let (_, wake) = a.poll_next(&mut g, &no_filters);
    assert!(!wake);
    assert!(!g.all_polled());
    // dropping b makes the round unanimous: the producer must be woken
    let wake = b.drop_watcher(&mut g);
    assert!(wake);
    assert!(g.all_polled());
}

#[test]
fn dropping_a_polled_watcher_gives_its_count_back() {
    let mut g = GlobalWatcherSet::new();
    let no_filters: Vec<EventFilter> = Vec::new();
    let mut a = EventWatcher::new(&mut g);
    let _b = EventWatcher::new(&mut g);
    g.publish(RoundEvent::Event(key('x')));
    let (_, _) = a.poll_next(&mut g, &no_filters);
    let wake = a.drop_watcher(&mut g);
    assert!(!wake);
    assert!(!g.all_polled());
}

#[test]
fn stream_end_reaches_every_watcher() {
    let mut g = GlobalWatcherSet::new();
    let no_filters: Vec<EventFilter> = Vec::new();
    let mut w = EventWatcher::new(&mut g);
    g.publish(RoundEvent::End);
    let (r, _) = w.poll_next(&mut g, &no_filters);
    assert_eq!(r, WatcherPoll::End);
}

#[test]
fn a_mouse_filter_remaps_and_suppresses() {
    let mut g = GlobalWatcherSet::new();
    let filters = vec![EventFilter::MouseRegion(Rect { x0: 2, x1: 10, y0: 3, y1: 10 })];
    let mut w = EventWatcher::new(&mut g);
    g.publish(RoundEvent::Event(Event::Mouse(MouseEvent::Press(MouseButton::Left, 5, 6))));
    let (r, _) = w.poll_next(&mut g, &filters);
    assert_eq!(r, WatcherPoll::Event(Event::Mouse(MouseEvent::Press(MouseButton::Left, 3, 3))));
    g.publish(RoundEvent::Event(Event::Mouse(MouseEvent::Press(MouseButton::Left, 1, 1))));
    // outside the region: suppressed, and the watcher still counts as polled
    let (r, wake) = w.poll_next(&mut g, &filters);
    assert_eq!(r, WatcherPoll::NotReady);
    assert!(wake);
    // key events pass through untouched
    g.publish(RoundEvent::Event(key('k')));
    let (r, _) = w.poll_next(&mut g, &filters);
    assert_eq!(r, WatcherPoll::Event(key('k')));
}
