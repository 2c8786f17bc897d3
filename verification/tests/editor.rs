use antiphon::tui::editor::encode_key;
use antiphon::tui::keys::{KeyCode, KeyPress};

#[test]
fn keys_encode_to_their_terminal_bytes() {
    let cases: &[(KeyPress, &[u8])] = &[
        (KeyPress::plain(KeyCode::Char('a')), b"a"),
        (KeyPress::plain(KeyCode::Char('Z')), b"Z"),
        (KeyPress::plain(KeyCode::Char('\u{fc}')), "\u{fc}".as_bytes()),
        (KeyPress::plain(KeyCode::Enter), b"\r"),
        (KeyPress::plain(KeyCode::Esc), b"\x1b"),
        (KeyPress::plain(KeyCode::Backspace), b"\x7f"),
        (KeyPress::plain(KeyCode::Tab), b"\t"),
        (KeyPress::plain(KeyCode::Up), b"\x1b[A"),
        (KeyPress::plain(KeyCode::Down), b"\x1b[B"),
        (KeyPress::plain(KeyCode::Right), b"\x1b[C"),
        (KeyPress::plain(KeyCode::Left), b"\x1b[D"),
        (KeyPress::plain(KeyCode::Home), b"\x1b[H"),
        (KeyPress::plain(KeyCode::End), b"\x1b[F"),
        (KeyPress::plain(KeyCode::Delete), b"\x1b[3~"),
        (KeyPress::plain(KeyCode::PageUp), b"\x1b[5~"),
        (KeyPress::plain(KeyCode::PageDown), b"\x1b[6~"),
        (KeyPress::ctrl(KeyCode::Char('c')), b"\x03"),
        (KeyPress::ctrl(KeyCode::Char('D')), b"\x04"),
        (KeyPress::alt(KeyCode::Char('x')), b"\x1bx"),
        (KeyPress::plain(KeyCode::F(1)), b""),
    ];
    for (key, expected) in cases {
        assert_eq!(encode_key(*key), *expected, "{key:?}");
    }
}

#[test]
fn every_width_of_utf8_encodes_as_std_does() {
    for c in ['\u{7f}', '\u{80}', '\u{7ff}', '\u{800}', '\u{20ac}', '\u{ffff}', '\u{10000}', '\u{1f600}', '\u{10ffff}'] {
        let mut buffer = [0u8; 4];
        assert_eq!(encode_key(KeyPress::plain(KeyCode::Char(c))), c.encode_utf8(&mut buffer).as_bytes(), "{c:?}");
    }
    assert_eq!(encode_key(KeyPress::ctrl(KeyCode::Char('\u{e9}'))), b"");
    assert_eq!(encode_key(KeyPress::alt(KeyCode::Other)), b"");
    assert_eq!(encode_key(KeyPress::alt(KeyCode::Up)), b"\x1b\x1b[A");
    assert_eq!(encode_key(KeyPress::plain(KeyCode::Insert)), b"\x1b[2~");
    assert_eq!(encode_key(KeyPress::plain(KeyCode::BackTab)), b"\x1b[Z");
}
