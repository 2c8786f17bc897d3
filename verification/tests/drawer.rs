use antiphon::tui::attach::Attachment;
use antiphon::tui::drawer::{
    attachment_summary, drawer_step, expanded_text, is_image, rows_needed, DrawerStep,
};
use antiphon::tui::keys::KeyCode;

fn attachment(name: &str, content_type: &str, bytes: &[u8]) -> Attachment {
    Attachment {
        path: String::new(),
        filename: name.to_string(),
        content_type: content_type.to_string(),
        bytes: bytes.to_vec(),
    }
}

fn two() -> Vec<Attachment> {
    vec![attachment("report.pdf", "application/pdf", b"%PDF-1.7"), attachment("photo.jpg", "image/jpeg", b"jpg")]
}

#[test]
fn collapsed_drawer_summarises_above_the_statusline() {
    let names: Vec<String> = two().iter().map(|a| a.filename.clone()).collect();
    assert_eq!(attachment_summary(&names), "2 attachments: report.pdf, photo.jpg");
    assert_eq!(attachment_summary(&names[..1].to_vec()), "1 attachment: report.pdf");
    assert_eq!(rows_needed(2, false), 1);
    assert_eq!(rows_needed(0, true), 0);
    assert_eq!(rows_needed(20, true), 9);
    assert_eq!(rows_needed(2, true), 3);
}

#[test]
fn the_expanded_drawer_lists_and_selects() {
    let rows = expanded_text(&two(), 0, 60, 12);
    assert!(rows[0].starts_with("attachments"), "{rows:?}");
    assert_eq!(rows[0].chars().count(), 60);
    assert!(rows.iter().any(|row| row.starts_with("\u{25b8} report.pdf (application/pdf, 8 bytes)")));
    assert!(rows.iter().any(|row| row.starts_with("  photo.jpg")));
    assert_eq!(drawer_step(0, 2, KeyCode::Char('j')), DrawerStep::Select(1));
    assert_eq!(drawer_step(1, 2, KeyCode::Char('j')), DrawerStep::Select(1), "clamped at the end");
    assert_eq!(drawer_step(1, 2, KeyCode::Char('k')), DrawerStep::Select(0));
    assert_eq!(drawer_step(0, 2, KeyCode::Up), DrawerStep::Select(0));
    assert_eq!(drawer_step(0, 2, KeyCode::Esc), DrawerStep::Close);
    assert_eq!(drawer_step(0, 2, KeyCode::Char('s')), DrawerStep::Save);
    assert_eq!(drawer_step(0, 2, KeyCode::Char('v')), DrawerStep::View);
    assert_eq!(drawer_step(0, 2, KeyCode::Char('x')), DrawerStep::Stay);
}

#[test]
fn a_short_drawer_scrolls_to_keep_the_selection_in_view() {
    let many: Vec<Attachment> = (0..5).map(|i| attachment(&format!("f{i}.txt"), "text/plain", b"x")).collect();
    let rows = expanded_text(&many, 4, 20, 3);
    assert_eq!(rows.len(), 3);
    assert!(rows[1].starts_with("  f3.txt"));
    assert!(rows[2].starts_with("\u{25b8} f4.txt"));
}

#[test]
fn images_are_told_by_their_top_level_type() {
    assert!(is_image("image/png"));
    assert!(is_image("IMAGE/JPEG"));
    assert!(is_image("image"));
    assert!(!is_image("application/pdf"));
    assert!(!is_image("imagex/png"));
}
