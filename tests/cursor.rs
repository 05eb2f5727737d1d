use ember::editor::{Editor, Event, KeyCode, KeyEvent, KeyEventKind, Location, CONTROL};
use ember::terminal::Size;

fn editor(width: usize, height: usize, x: usize, y: usize) -> Editor {
    let mut e = Editor::new(Size { width, height }, None);
    e.location = Location { x, y };
    e
}

fn press(code: KeyCode) -> Event {
    Event::Key(KeyEvent { code, kind: KeyEventKind::Press, modifiers: 0 })
}

fn location_after(e: &mut Editor, code: KeyCode) -> Location {
    e.evaluate_event(press(code));
    e.location
}

#[test]
fn up_at_top_stays_at_zero() {
    let mut e = editor(80, 24, 3, 0);
    assert_eq!(location_after(&mut e, KeyCode::Up), Location { x: 3, y: 0 });
}

#[test]
fn left_at_first_column_stays_at_zero() {
    let mut e = editor(80, 24, 0, 5);
    assert_eq!(location_after(&mut e, KeyCode::Left), Location { x: 0, y: 5 });
}

#[test]
fn up_and_left_step_back_by_one() {
    let mut e = editor(80, 24, 7, 9);
    assert_eq!(location_after(&mut e, KeyCode::Up), Location { x: 7, y: 8 });
    assert_eq!(location_after(&mut e, KeyCode::Left), Location { x: 6, y: 8 });
}

#[test]
fn down_stops_one_past_height() {
    let mut e = editor(80, 24, 0, 23);
    assert_eq!(location_after(&mut e, KeyCode::Down).y, 24);
    assert_eq!(location_after(&mut e, KeyCode::Down).y, 25);
    assert_eq!(location_after(&mut e, KeyCode::Down).y, 25);
}

#[test]
fn right_stops_one_past_width() {
    let mut e = editor(10, 5, 9, 0);
    assert_eq!(location_after(&mut e, KeyCode::Right).x, 10);
    assert_eq!(location_after(&mut e, KeyCode::Right).x, 11);
    assert_eq!(location_after(&mut e, KeyCode::Right).x, 11);
}

#[test]
fn down_from_beyond_bound_is_pulled_back() {
    let mut e = editor(80, 24, 0, 100);
    assert_eq!(location_after(&mut e, KeyCode::Down).y, 25);
}

#[test]
fn page_up_and_home_go_to_zero() {
    let mut e = editor(80, 24, 40, 20);
    assert_eq!(location_after(&mut e, KeyCode::PageUp), Location { x: 40, y: 0 });
    assert_eq!(location_after(&mut e, KeyCode::Home), Location { x: 0, y: 0 });
}

#[test]
fn page_down_and_end_go_to_last_cell() {
    let mut e = editor(80, 24, 2, 3);
    assert_eq!(location_after(&mut e, KeyCode::PageDown), Location { x: 2, y: 23 });
    assert_eq!(location_after(&mut e, KeyCode::End), Location { x: 79, y: 23 });
}

#[test]
fn page_down_and_end_on_zero_size_give_zero() {
    let mut e = editor(0, 0, 4, 4);
    assert_eq!(location_after(&mut e, KeyCode::PageDown), Location { x: 4, y: 0 });
    assert_eq!(location_after(&mut e, KeyCode::End), Location { x: 0, y: 0 });
}

#[test]
fn navigation_ignores_modifiers() {
    let mut e = editor(80, 24, 5, 5);
    e.evaluate_event(Event::Key(KeyEvent {
        code: KeyCode::Up,
        kind: KeyEventKind::Press,
        modifiers: CONTROL,
    }));
    assert_eq!(e.location, Location { x: 5, y: 4 });
}

#[test]
fn release_and_repeat_are_ignored() {
    let mut e = editor(80, 24, 5, 5);
    for kind in [KeyEventKind::Release, KeyEventKind::Repeat] {
        e.evaluate_event(Event::Key(KeyEvent { code: KeyCode::Down, kind, modifiers: 0 }));
        e.evaluate_event(Event::Key(KeyEvent { code: KeyCode::Char('q'), kind, modifiers: CONTROL }));
    }
    assert_eq!(e.location, Location { x: 5, y: 5 });
    assert!(!e.should_quit);
}

#[test]
fn other_keys_and_events_are_ignored() {
    let mut e = editor(80, 24, 5, 5);
    e.evaluate_event(press(KeyCode::Char('x')));
    e.evaluate_event(press(KeyCode::Char('q')));
    e.evaluate_event(press(KeyCode::Other));
    e.evaluate_event(Event::Other);
    assert_eq!(e.location, Location { x: 5, y: 5 });
    assert_eq!(e.view.size, Size { width: 80, height: 24 });
    assert!(!e.should_quit);
}

#[test]
fn resize_records_new_size() {
    let mut e = editor(80, 24, 0, 0);
    e.evaluate_event(Event::Resize(120, 40));
    assert_eq!(e.view.size, Size { width: 120, height: 40 });
    assert_eq!(location_after(&mut e, KeyCode::PageDown).y, 39);
}

#[test]
fn control_q_quits_and_stays_quitting() {
    let mut e = editor(80, 24, 1, 1);
    e.evaluate_event(Event::Key(KeyEvent {
        code: KeyCode::Char('q'),
        kind: KeyEventKind::Press,
        modifiers: CONTROL,
    }));
    assert!(e.should_quit);
    e.evaluate_event(Event::Resize(10, 10));
    e.evaluate_event(press(KeyCode::Down));
    assert!(e.should_quit);
}
