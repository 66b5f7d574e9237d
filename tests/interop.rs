use rustide::interop::{Listen, RRequest, RResponse, RustideMessage, RustideState, Send};
use rustide::session::{FileList, Rustide};
use rustide::ui::{Chord, Chords, InputState, Key, Modifiers};

fn mods(ctrl: bool, command: bool, shift: bool, alt: bool) -> Modifiers {
    Modifiers { ctrl, command, shift, alt }
}

#[test]
fn message_kinds() {
    let req = RustideMessage::from(RRequest::ImAlive);
    let resp = RustideMessage::from(RResponse::Ack);
    assert!(req.is_request() && !req.is_response());
    assert!(resp.is_response() && !resp.is_request());
    assert!(matches!(req.as_request(), Some(RRequest::ImAlive)));
    assert!(req.as_response().is_none());
    assert!(matches!(resp.as_response(), Some(RResponse::Ack)));
    assert!(resp.as_request().is_none());
}

#[test]
fn endpoints_carry_messages() {
    let (s1, r1) = std::sync::mpsc::channel();
    let (s2, r2) = std::sync::mpsc::channel();
    let mut e1 = (s1, r2);
    let e2 = (s2, r1);
    assert_eq!(e1.send(RRequest::Debug("hi".to_string())), Some(()));
    match e2.listen() {
        Some(RustideMessage::Request(RRequest::Debug(s))) => assert_eq!(s, "hi"),
        _ => panic!("no debug message"),
    }
}

#[test]
fn front_end_applies_messages() {
    let (s, r) = std::sync::mpsc::channel();
    let mut app = Rustide::new((s, r));
    assert_eq!(app.state.name, "Arthur");
    assert_eq!(app.state.age, 42);
    assert!(app.show_explorer);
    app.handle_message(RustideMessage::Request(RRequest::Debug("x".to_string())));
    assert_eq!(app.debug_strs, vec!["x".to_string()]);
    let st = RustideState { name: "Kevin".to_string(), age: 22, files: vec!["a".to_string()], selection: 0 };
    app.handle_message(RustideMessage::Request(RRequest::State(st)));
    assert_eq!(app.state.name, "Kevin");
    assert_eq!(app.state.files, vec!["a".to_string()]);
    app.handle_message(RustideMessage::Request(RRequest::Kill));
    assert_eq!(app.debug_strs.len(), 1);
    app.link.0.send(RustideMessage::Request(RRequest::Debug("y".to_string()))).unwrap();
    app.listen();
    assert_eq!(app.debug_strs, vec!["x".to_string(), "y".to_string()]);
    app.listen();
    assert_eq!(app.debug_strs.len(), 2);
}

#[test]
fn explorer_toggles_on_its_chord() {
    let (s, r) = std::sync::mpsc::channel();
    let mut app = Rustide::new((s, r));
    let input = InputState { pressed: vec![Key { symbol: 'E' }], modifiers: mods(true, true, true, false) };
    app.handle_input(&input);
    assert!(!app.show_explorer);
    let with_alt = InputState { pressed: vec![Key { symbol: 'E' }], modifiers: mods(false, true, true, true) };
    app.handle_input(&with_alt);
    assert!(!app.show_explorer);
}

#[test]
fn chords_match_on_key_and_modifiers() {
    let input = InputState { pressed: vec![Key { symbol: 'A' }, Key { symbol: 'S' }], modifiers: mods(true, false, true, false) };
    assert!(!Chord::new().matches(&input));
    assert!(Chord::new().key(Key { symbol: 'S' }).matches(&input));
    assert!(Chord::new().key(Key { symbol: 'S' }).ctrl().shift().matches(&input));
    assert!(!Chord::new().key(Key { symbol: 'S' }).alt().matches(&input));
    assert!(!Chord::new().key(Key { symbol: 'S' }).command().matches(&input));
    assert!(!Chord::new().key(Key { symbol: 'Q' }).matches(&input));
    assert!(input.chord_pressed(Key { symbol: 'A' }, mods(true, false, true, false)));
    assert!(!input.chord_pressed(Key { symbol: 'A' }, mods(true, false, false, false)));
}

#[test]
fn file_list_keeps_its_entries() {
    let files = vec!["a.rs".to_string(), "b.rs".to_string()];
    let list = FileList::new(&files);
    assert_eq!(list.entry_names(), &files[..]);
}
