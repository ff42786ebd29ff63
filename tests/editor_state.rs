use tui_loop::editor::{encoded_or_error, App, CurrentScreen, CurrentlyEditing, EncodeError};

fn save(app: &mut App, key: &str, value: &str) {
    app.key_input = key.to_string();
    app.value_input = value.to_string();
    app.save_key_value();
}

#[test]
fn new_editor_is_empty() {
    let app = App::new();
    assert!(app.key_input.is_empty());
    assert!(app.value_input.is_empty());
    assert!(app.pairs.is_empty());
    assert_eq!(app.current_screen, CurrentScreen::Main);
    assert_eq!(app.currently_editing, None);
}

#[test]
fn save_adds_an_entry_and_clears_inputs() {
    let mut app = App::new();
    app.currently_editing = Some(CurrentlyEditing::Value);
    app.current_screen = CurrentScreen::Editing;
    save(&mut app, "name", "ratatui");
    assert_eq!(app.pairs, vec![("name".to_string(), "ratatui".to_string())]);
    assert!(app.key_input.is_empty());
    assert!(app.value_input.is_empty());
    assert_eq!(app.currently_editing, None);
    assert_eq!(app.current_screen, CurrentScreen::Editing);
}

#[test]
fn save_replaces_the_value_of_a_key() {
    let mut app = App::new();
    save(&mut app, "a", "1");
    save(&mut app, "b", "2");
    save(&mut app, "a", "3");
    assert_eq!(
        app.pairs,
        vec![("a".to_string(), "3".to_string()), ("b".to_string(), "2".to_string())]
    );
}

#[test]
fn toggle_cycles_key_and_value() {
    let mut app = App::new();
    app.toggle_editing();
    assert_eq!(app.currently_editing, Some(CurrentlyEditing::Key));
    app.toggle_editing();
    assert_eq!(app.currently_editing, Some(CurrentlyEditing::Value));
    app.toggle_editing();
    assert_eq!(app.currently_editing, Some(CurrentlyEditing::Key));
}

#[test]
fn json_text_of_entries() {
    let mut app = App::new();
    save(&mut app, "zeta", "last");
    save(&mut app, "alpha", "say \"hi\"");
    assert_eq!(app.json_text(), Ok("{\"alpha\":\"say \\\"hi\\\"\",\"zeta\":\"last\"}".to_string()));
}

#[test]
fn json_text_of_no_entries() {
    let app = App::new();
    assert_eq!(app.json_text(), Ok("{}".to_string()));
}

#[test]
fn failed_encoding_becomes_encode_error() {
    let err = serde_json::from_str::<u8>("x").unwrap_err();
    assert_eq!(encoded_or_error(Err(err)), Err(EncodeError));
    assert_eq!(encoded_or_error(Ok("{}".to_string())), Ok("{}".to_string()));
}
