use termcandy::layout::VecJoin;
use termcandy::rect::Rect;

fn r(x0: i16, x1: i16) -> Rect {
    Rect { x0, x1, y0: 0, y1: 1 }
}

#[test]
fn push_pop_round_trip() {
    let mut v: VecJoin<u32> = VecJoin::new();
    assert_eq!(v.len(), 0);
    assert_eq!(v.pop(), None);
    v.push(r(0, 1), 10);
    v.push(r(1, 2), 20);
    assert_eq!(v.len(), 2);
    assert_eq!(v.pop(), Some((r(1, 2), 20)));
    assert_eq!(v.len(), 1);
}

#[test]
fn insert_and_remove_shift_the_rest() {
    let mut v: VecJoin<u32> = VecJoin::new();
    v.push(r(0, 1), 1);
    v.push(r(1, 2), 3);
    v.insert(1, r(2, 3), 2);
    assert_eq!(*v.widget(0), 1);
    assert_eq!(*v.widget(1), 2);
    assert_eq!(*v.widget(2), 3);
    let (rect, w) = v.remove(1);
    assert_eq!(rect, r(2, 3));
    assert_eq!(w, 2);
    assert_eq!(*v.widget(1), 3);
}

#[test]
fn swap_remove_moves_the_last_widget_in() {
    let mut v: VecJoin<u32> = VecJoin::new();
    v.push(r(0, 1), 1);
    v.push(r(1, 2), 2);
    v.push(r(2, 3), 3);
    let (_, w) = v.swap_remove(0);
    assert_eq!(w, 1);
    assert_eq!(*v.widget(0), 3);
    assert_eq!(v.len(), 2);
}

#[test]
fn layouts_are_adjustable_in_place() {
    let mut v: VecJoin<u32> = VecJoin::new();
    v.push(r(0, 4), 7);
    assert_eq!(*v.layout(0), r(0, 4));
    let rect = v.layout_mut(0);
    rect.x1 = 2;
    assert_eq!(*v.layout(0), r(0, 2));
    *v.widget_mut(0) = 9;
    assert_eq!(*v.widget(0), 9);
}
