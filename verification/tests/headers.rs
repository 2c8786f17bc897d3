use antiphon::tui::headers::{HeaderFields, HeadersOutcome, FIELD_COUNT};
use antiphon::tui::keys::{KeyCode, KeyPress};
use HeadersOutcome::{Cancel, CycleFrom, Edited, OpenEditor};
use KeyCode::{BackTab, Char, Enter, Esc, Left, Right, Tab};

fn key(code: KeyCode) -> KeyPress {
    KeyPress::plain(code)
}

fn typed(fields: &mut HeaderFields, text: &str) {
    for ch in text.chars() {
        fields.feed(key(KeyCode::Char(ch)));
    }
}

#[test]
fn keys_drive_the_field_machine_per_table() {
    let cases: &[(usize, KeyCode, HeadersOutcome, usize)] = &[
        (0, Tab, Edited, 1),
        (1, Tab, Edited, 2),
        (4, Tab, Edited, 0),
        (0, BackTab, Edited, 4),
        (3, BackTab, Edited, 2),
        (0, Enter, Edited, 1),
        (3, Enter, Edited, 4),
        (4, Enter, OpenEditor, 4),
        (2, Esc, Cancel, 2),
        (4, Right, CycleFrom(1), 4),
        (4, Left, CycleFrom(-1), 4),
        (4, Char(' '), CycleFrom(1), 4),
        (4, Char('x'), Edited, 4),
    ];
    for (focus, code, expected, after) in cases {
        let mut fields = HeaderFields { focus: *focus, ..HeaderFields::default() };
        let outcome = fields.feed(key(*code));
        assert_eq!(outcome, *expected, "{focus} {code:?}");
        assert_eq!(fields.focus, *after, "{focus} {code:?}");
    }
}

#[test]
fn ctrl_e_opens_the_editor_from_any_field() {
    for focus in 0..FIELD_COUNT {
        let mut fields = HeaderFields { focus, ..HeaderFields::default() };
        let outcome = fields.feed(KeyPress::ctrl(KeyCode::Char('e')));
        assert_eq!(outcome, HeadersOutcome::OpenEditor, "{focus}");
    }
}

#[test]
fn line_editing_inserts_and_deletes_at_the_cursor() {
    let mut fields = HeaderFields::default();
    typed(&mut fields, "ab@example.com");
    assert_eq!(fields.to, "ab@example.com");
    for _ in 0.."example.com".len() {
        fields.feed(key(KeyCode::Left));
    }
    fields.feed(key(KeyCode::Backspace));
    typed(&mut fields, "+list@");
    fields.feed(key(KeyCode::End));
    assert_eq!(fields.to, "ab+list@example.com");
    fields.feed(key(KeyCode::Home));
    fields.feed(key(KeyCode::Delete));
    assert_eq!(fields.to, "b+list@example.com");
    fields.feed(key(KeyCode::Backspace));
    assert_eq!(fields.to, "b+list@example.com");
}

#[test]
fn switching_fields_parks_the_cursor_at_the_end() {
    let mut fields = HeaderFields::default();
    typed(&mut fields, "to@example.com");
    fields.feed(key(KeyCode::Tab));
    assert_eq!(fields.cursor, 0);
    typed(&mut fields, "cc@example.com");
    fields.feed(key(KeyCode::BackTab));
    assert_eq!(fields.cursor, "to@example.com".len());
    assert_eq!(fields.cc, "cc@example.com");
}

#[test]
fn multibyte_field_text_edits_by_characters() {
    let mut fields = HeaderFields { focus: 3, ..HeaderFields::default() };
    typed(&mut fields, "gr\u{fc}\u{df}e");
    fields.feed(key(KeyCode::Left));
    fields.feed(key(KeyCode::Backspace));
    assert_eq!(fields.subject, "gr\u{fc}e");
}

#[test]
fn replacing_a_field_parks_the_cursor_and_reads_back() {
    let mut fields = HeaderFields { focus: 1, ..HeaderFields::default() };
    assert!(fields.recipient_focused());
    fields.replace_field("x@example.com".to_string());
    assert_eq!(fields.field(), "x@example.com");
    assert_eq!(fields.cursor, 13);
    fields.focus = 4;
    assert_eq!(fields.field(), "");
    assert!(!fields.recipient_focused());
}

#[test]
fn replacing_on_from_leaves_every_text_field() {
    let mut fields = HeaderFields { focus: 4, subject: "keep".to_string(), ..HeaderFields::default() };
    fields.replace_field("x@example.com".to_string());
    assert_eq!(fields.subject, "keep");
    assert_eq!(fields.to, "");
    assert_eq!(fields.cursor, 13);
}
