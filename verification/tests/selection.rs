use todo_list::selection::Selection;

#[test]
fn a_new_selection_selects_nothing() {
    assert_eq!(Selection::new().selected(), None);
}

#[test]
fn advance_steps_forward_and_wraps() {
    let mut s = Selection::new();
    s.advance(3);
    assert_eq!(s.selected(), Some(0));
    s.advance(3);
    assert_eq!(s.selected(), Some(1));
    s.advance(3);
    assert_eq!(s.selected(), Some(2));
    s.advance(3);
    assert_eq!(s.selected(), Some(0));
}

#[test]
fn retreat_steps_back_and_wraps() {
    let mut s = Selection::new();
    s.retreat(3);
    assert_eq!(s.selected(), Some(0));
    s.retreat(3);
    assert_eq!(s.selected(), Some(2));
    s.retreat(3);
    assert_eq!(s.selected(), Some(1));
}

#[test]
fn steps_in_an_empty_list_change_nothing() {
    let mut s = Selection::new();
    s.advance(0);
    assert_eq!(s.selected(), None);
    s.retreat(0);
    assert_eq!(s.selected(), None);
    s.select(Some(4));
    s.advance(0);
    assert_eq!(s.selected(), Some(4));
}

#[test]
fn steps_from_a_position_past_the_end_come_back_into_the_list() {
    let mut s = Selection::new();
    s.select(Some(7));
    s.advance(3);
    assert_eq!(s.selected(), Some(2));
    s.select(Some(7));
    s.retreat(3);
    assert_eq!(s.selected(), Some(0));
}

#[test]
fn steps_from_the_largest_position_do_not_overflow() {
    let mut s = Selection::new();
    s.select(Some(usize::MAX));
    s.advance(usize::MAX);
    assert_eq!(s.selected(), Some(1));
    s.select(Some(usize::MAX));
    s.retreat(usize::MAX);
    assert_eq!(s.selected(), Some(usize::MAX - 1));
    s.select(Some(usize::MAX));
    s.advance(10);
    assert_eq!(s.selected(), Some((usize::MAX % 10 + 1) % 10));
}

#[test]
fn clamp_keeps_the_position_or_moves_to_the_last_entry() {
    let mut s = Selection::new();
    s.clamp(2, 2);
    assert_eq!(s.selected(), Some(1));
    s.clamp(0, 2);
    assert_eq!(s.selected(), Some(0));
    s.clamp(1, 2);
    assert_eq!(s.selected(), Some(1));
    s.clamp(0, 0);
    assert_eq!(s.selected(), None);
}
