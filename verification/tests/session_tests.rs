use klata::session::KeyInput;
use klata::session::SessionState;
use klata::session::Typing;

fn start(doc: &str) -> SessionState {
    SessionState::Typing(Typing::new(doc).unwrap())
}

#[test]
fn escape_finishes_the_session() {
    let session = start("<klata_text><text>ab</text></klata_text>");
    let session = session.handle_key(KeyInput::Esc);
    assert!(session.terminate());
}

#[test]
fn typing_keeps_the_session_running() {
    let session = start("<klata_text><text>ab</text></klata_text>");
    let session = session.handle_key(KeyInput::Char('a'));
    assert!(!session.terminate());
    match session {
        SessionState::Typing(t) => assert_eq!(t.text_model().cursor(), 1),
        SessionState::Finished(_) => panic!("session finished unexpectedly"),
    }
}

#[test]
fn backspace_steps_the_session_back() {
    let session = start("<klata_text><text>ab</text></klata_text>");
    let session = session.handle_key(KeyInput::Char('a'));
    let session = session.handle_key(KeyInput::Backspace);
    match session {
        SessionState::Typing(t) => assert_eq!(t.text_model().cursor(), 0),
        SessionState::Finished(_) => panic!("session finished unexpectedly"),
    }
}

#[test]
fn other_keys_change_nothing() {
    let session = start("<klata_text><text>ab</text></klata_text>");
    let session = session.handle_key(KeyInput::Other);
    match session {
        SessionState::Typing(t) => assert_eq!(t.text_model().cursor(), 0),
        SessionState::Finished(_) => panic!("session finished unexpectedly"),
    }
}

#[test]
fn finished_session_stays_finished() {
    let session = start("<klata_text><text>ab</text></klata_text>");
    let session = session.handle_key(KeyInput::Esc);
    let session = session.handle_key(KeyInput::Char('a'));
    assert!(session.terminate());
}

#[test]
fn bad_document_starts_no_session() {
    assert!(Typing::new("<klata_text><text>\u{3b1}</text></klata_text>").is_err());
}
