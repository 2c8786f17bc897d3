use antiphon::tui::account_form_identity::{FormIdentity, IdentityEditor};
use antiphon::tui::account_form_identity_draw::{editor_text_rows, editor_title, list_text, row_label};

fn seeded() -> Vec<FormIdentity> {
    vec![FormIdentity::seed("Quin", "quin@example.com"), FormIdentity::seed("Side", "side@example.com")]
}

#[test]
fn the_list_draws_every_identity() {
    let shown = list_text(&seeded(), 0);
    assert_eq!(shown, vec!["\u{25b8} Quin <quin@example.com>", "  Side <side@example.com>"]);
    let joined = shown.join("\n");
    assert!(joined.contains("Quin"));
    assert!(joined.contains("Side"));
}

#[test]
fn the_editor_draws_every_field() {
    let editor = IdentityEditor {
        target: Some(0),
        origin: 0,
        draft: FormIdentity::seed("Quin", "quin@example.com"),
        focus: 0,
        cursor: 0,
    };
    assert_eq!(editor_title(&editor), " edit identity ");
    let shown = editor_text_rows(&editor).join("\n");
    assert!(shown.contains("from name"));
    assert!(shown.contains("from address"));
    assert!(shown.contains("auto-sign"));
    assert!(shown.contains("match patterns"));
    let rows = editor_text_rows(&editor);
    assert_eq!(rows[0], format!("{:<16}\u{258c}Quin", "from name"));
    assert_eq!(rows[1], format!("{:<16}quin@example.com", "from address"));
    assert_eq!(rows[3], format!("{:<16}off", "auto-sign"));
}

#[test]
fn a_label_drops_an_address_that_repeats_the_name() {
    assert_eq!(row_label(&FormIdentity::seed("", "  quin@example.com ")), "quin@example.com");
    assert_eq!(row_label(&FormIdentity::seed("Quin", "")), "Quin");
    assert_eq!(row_label(&FormIdentity::seed("", "")), "(unnamed)");
}
