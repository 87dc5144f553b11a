use rtun::forward::ParseError;
use rtun::input::{Action, InputBuffer, Key};

fn type_text(b: &mut InputBuffer, text: &str) {
    for c in text.chars() {
        assert!(matches!(b.on_key(Key::Char(c)), Action::Stay));
    }
}

#[test]
fn new_key_opens_an_empty_draft() {
    let mut b = InputBuffer::new();
    assert!(!b.is_editing());
    assert!(matches!(b.on_key(Key::Char('x')), Action::Stay));
    assert!(!b.is_editing());
    assert!(matches!(b.on_key(Key::Char('n')), Action::Stay));
    assert_eq!(b.draft().map(|s| s.as_str()), Some(""));
}

#[test]
fn enter_on_a_valid_draft_emits_the_spec() {
    let mut b = InputBuffer::new();
    b.on_key(Key::Char('n'));
    type_text(&mut b, "myhost 2222:22");
    match b.on_key(Key::Enter) {
        Action::Spawn(spec) => {
            assert_eq!(spec.host, "myhost");
            assert_eq!((spec.local_port, spec.remote_port), (2222, 22));
        }
        _ => panic!("expected a spec"),
    }
    assert!(!b.is_editing());
}

#[test]
fn escape_discards_the_draft() {
    let mut b = InputBuffer::new();
    b.on_key(Key::Char('n'));
    type_text(&mut b, "myhost 2222:22");
    assert!(matches!(b.on_key(Key::Esc), Action::Stay));
    assert!(!b.is_editing());
}

#[test]
fn malformed_draft_is_kept_with_its_error() {
    let mut b = InputBuffer::new();
    b.on_key(Key::Char('n'));
    type_text(&mut b, "badformat");
    match b.on_key(Key::Enter) {
        Action::Invalid(e) => assert_eq!(e, ParseError::BadSpacing),
        _ => panic!("expected an error"),
    }
    assert_eq!(b.draft().map(|s| s.as_str()), Some("badformat"));
}

#[test]
fn backspace_removes_the_last_character() {
    let mut b = InputBuffer::new();
    b.on_key(Key::Char('n'));
    b.on_key(Key::Backspace);
    assert_eq!(b.draft().map(|s| s.as_str()), Some(""));
    type_text(&mut b, "ab");
    b.on_key(Key::Backspace);
    assert_eq!(b.draft().map(|s| s.as_str()), Some("a"));
}

#[test]
fn escape_while_idle_quits() {
    let mut b = InputBuffer::new();
    assert!(matches!(b.on_key(Key::Esc), Action::Quit));
}
