use tui_loop::counter::{App, Event, Flow, KeyCode, KeyEvent, KeyEventKind};

fn press(code: KeyCode) -> Event {
    Event::Key(KeyEvent { code, kind: KeyEventKind::Press })
}

fn release(code: KeyCode) -> Event {
    Event::Key(KeyEvent { code, kind: KeyEventKind::Release })
}

fn repeat(code: KeyCode) -> Event {
    Event::Key(KeyEvent { code, kind: KeyEventKind::Repeat })
}

#[test]
fn starts_at_zero_and_running() {
    let app = App::default();
    assert_eq!(app.counter(), 0);
    assert!(!app.is_exiting());
}

#[test]
fn three_rights_count_three() {
    let mut app = App::default();
    let events = vec![press(KeyCode::Right), press(KeyCode::Right), press(KeyCode::Right)];
    let read = app.run(&events);
    assert_eq!(read, 3);
    assert_eq!(app.counter(), 3);
    assert!(!app.is_exiting());
}

#[test]
fn more_lefts_than_rights_saturate_at_zero() {
    let mut app = App::default();
    let events = vec![press(KeyCode::Right), press(KeyCode::Left), press(KeyCode::Left)];
    let read = app.run(&events);
    assert_eq!(read, 3);
    assert_eq!(app.counter(), 0);
    assert!(!app.is_exiting());
}

#[test]
fn quit_after_right_stops_the_loop() {
    let mut app = App::default();
    let events = vec![
        press(KeyCode::Right),
        press(KeyCode::Char('q')),
        press(KeyCode::Right),
        press(KeyCode::Right),
    ];
    let read = app.run(&events);
    assert_eq!(read, 2);
    assert_eq!(app.counter(), 1);
    assert!(app.is_exiting());
}

#[test]
fn release_before_any_press_changes_nothing() {
    let mut app = App::default();
    let flow = app.handle_event(release(KeyCode::Left));
    assert_eq!(flow, Flow::Continue);
    assert_eq!(app.counter(), 0);
    assert!(!app.is_exiting());
}

#[test]
fn release_and_repeat_of_bound_keys_change_nothing() {
    let mut app = App::default();
    app.handle_event(press(KeyCode::Right));
    for e in [
        release(KeyCode::Right),
        repeat(KeyCode::Right),
        release(KeyCode::Left),
        repeat(KeyCode::Left),
        release(KeyCode::Char('q')),
        repeat(KeyCode::Char('q')),
    ] {
        assert_eq!(app.handle_event(e), Flow::Continue);
        assert_eq!(app.counter(), 1);
        assert!(!app.is_exiting());
    }
}

#[test]
fn unbound_keys_change_nothing() {
    let mut app = App::default();
    app.handle_event(press(KeyCode::Right));
    app.handle_event(press(KeyCode::Right));
    for e in [
        press(KeyCode::Char('a')),
        press(KeyCode::Char('Q')),
        press(KeyCode::Other),
        Event::Resize(80, 24),
        Event::Other,
    ] {
        assert_eq!(app.handle_event(e), Flow::Continue);
        assert_eq!(app.counter(), 2);
        assert!(!app.is_exiting());
    }
}

#[test]
fn net_presses_give_the_value() {
    let mut app = App::default();
    let mut events = Vec::new();
    for _ in 0..10 {
        events.push(press(KeyCode::Right));
    }
    for _ in 0..4 {
        events.push(press(KeyCode::Left));
    }
    events.push(press(KeyCode::Right));
    assert_eq!(app.run(&events), 15);
    assert_eq!(app.counter(), 7);
}

#[test]
fn value_saturates_at_the_top() {
    let mut app = App::default();
    let events = vec![press(KeyCode::Right); 300];
    assert_eq!(app.run(&events), 300);
    assert_eq!(app.counter(), 255);
    app.handle_event(press(KeyCode::Left));
    assert_eq!(app.counter(), 254);
}

#[test]
fn quit_is_kept_and_later_events_are_not_read() {
    let mut app = App::default();
    assert_eq!(app.handle_event(press(KeyCode::Char('q'))), Flow::Quit);
    assert!(app.is_exiting());
    assert_eq!(app.handle_event(press(KeyCode::Right)), Flow::Quit);
    assert!(app.is_exiting());
    let events = vec![press(KeyCode::Right)];
    assert_eq!(app.run(&events), 0);
}

#[test]
fn run_on_no_events_reads_none() {
    let mut app = App::default();
    let events: Vec<Event> = Vec::new();
    assert_eq!(app.run(&events), 0);
    assert_eq!(app.counter(), 0);
    assert!(!app.is_exiting());
}

#[test]
fn handle_key_event_ignores_the_kind() {
    let mut app = App::default();
    app.handle_key_event(KeyEvent { code: KeyCode::Right, kind: KeyEventKind::Release });
    assert_eq!(app.counter(), 1);
    app.handle_key_event(KeyEvent { code: KeyCode::Char('q'), kind: KeyEventKind::Repeat });
    assert!(app.is_exiting());
}

#[test]
fn single_steps() {
    let mut app = App::default();
    app.decrement_counter();
    assert_eq!(app.counter(), 0);
    app.increment_counter();
    app.increment_counter();
    app.decrement_counter();
    assert_eq!(app.counter(), 1);
    app.exit();
    assert!(app.is_exiting());
    assert_eq!(app.counter(), 1);
}
