use et::key_input::{key_bytes, KeyCode, KeyEvent, KeyEventKind};

fn key(code: KeyCode) -> KeyEvent {
    KeyEvent {
        code,
        control: false,
        alt: false,
        kind: KeyEventKind::Press,
    }
}

fn control(code: KeyCode) -> KeyEvent {
    KeyEvent {
        control: true,
        ..key(code)
    }
}

fn alt(code: KeyCode) -> KeyEvent {
    KeyEvent {
        alt: true,
        ..key(code)
    }
}

#[test]
fn plain_characters_and_control_bytes_match_a_unix_terminal() {
    assert_eq!(key_bytes(&key(KeyCode::Char('a'))), b"a");
    assert_eq!(key_bytes(&control(KeyCode::Char('c'))), vec![0x03]);
    assert_eq!(key_bytes(&control(KeyCode::Char('d'))), vec![0x04]);
    assert_eq!(key_bytes(&control(KeyCode::Char(' '))), vec![0x00]);
    assert_eq!(key_bytes(&key(KeyCode::Enter)), b"\r");
    assert_eq!(key_bytes(&key(KeyCode::Backspace)), vec![0x7f]);
}

#[test]
fn navigation_keys_become_ansi_sequences() {
    assert_eq!(key_bytes(&key(KeyCode::Up)), b"\x1b[A");
    assert_eq!(key_bytes(&key(KeyCode::Left)), b"\x1b[D");
    assert_eq!(key_bytes(&key(KeyCode::Delete)), b"\x1b[3~");
    assert_eq!(key_bytes(&key(KeyCode::F(1))), b"\x1bOP");
    assert_eq!(key_bytes(&key(KeyCode::F(5))), b"\x1b[15~");
}

#[test]
fn alt_prefixes_escape_and_release_events_are_ignored() {
    assert_eq!(key_bytes(&alt(KeyCode::Char('b'))), vec![0x1b, b'b']);
    let mut release = key(KeyCode::Char('a'));
    release.kind = KeyEventKind::Release;
    assert!(key_bytes(&release).is_empty());
}

#[test]
fn multibyte_characters_are_sent_as_utf8() {
    assert_eq!(key_bytes(&key(KeyCode::Char('한'))), "한".as_bytes());
}

#[test]
fn silent_keys_send_nothing() {
    assert!(key_bytes(&key(KeyCode::Silent)).is_empty());
    assert!(key_bytes(&key(KeyCode::F(30))).is_empty());
}
