use antiphon::tui::folder_alias::{
    alias_notice, begin_edit, persisted_alias_text, update_alias, AliasOutcome,
};
use antiphon::tui::folders::FolderRow;
use antiphon::tui::keys::KeyCode;

#[test]
fn saving_a_blank_alias_removes_a_present_mapping() {
    let file = "[account]\nname = \"work\"\n\n[folder_names]\n\"lists/aerc\" = \"aerc-list\"\n";
    let text = persisted_alias_text(file, "lists/aerc", "");
    assert!(!text.contains("aerc-list"));
    assert!(text.contains("[account]"), "the rest survives");
    let text = persisted_alias_text(&text, "lists/aerc", "aerc");
    assert!(text.contains("\"lists/aerc\" = \"aerc\""), "{text}");
}

#[test]
fn update_alias_replaces_rather_than_duplicates() {
    let mut aliases = vec![("work".to_string(), "archive".to_string(), "Old".to_string())];
    update_alias(&mut aliases, "work", "archive", "New");
    assert_eq!(aliases, vec![("work".to_string(), "archive".to_string(), "New".to_string())]);
    update_alias(&mut aliases, "work", "archive", "");
    assert!(aliases.is_empty());
}

#[test]
fn other_folders_keep_their_aliases_in_order() {
    let entry = |a: &str, f: &str, x: &str| (a.to_string(), f.to_string(), x.to_string());
    let mut aliases = vec![entry("work", "a", "A"), entry("home", "archive", "H"), entry("work", "archive", "Old")];
    update_alias(&mut aliases, "work", "archive", "New");
    assert_eq!(aliases, vec![entry("work", "a", "A"), entry("home", "archive", "H"), entry("work", "archive", "New")]);
}

#[test]
fn the_alias_buffer_edits_like_a_field() {
    let row = FolderRow {
        account: "work".to_string(),
        folder: "archive".to_string(),
        alias: "Old".to_string(),
        hidden: false,
        unsynced: false,
    };
    let mut edit = begin_edit(&row);
    assert_eq!(edit.cursor, 3);
    assert_eq!(edit.feed(KeyCode::Backspace), AliasOutcome::Edited);
    assert_eq!(edit.text, "Ol");
    edit.feed(KeyCode::Home);
    edit.feed(KeyCode::Char(' '));
    edit.feed(KeyCode::Left);
    edit.feed(KeyCode::Left);
    assert_eq!(edit.cursor, 0);
    edit.feed(KeyCode::Delete);
    assert_eq!(edit.text, "Ol");
    edit.feed(KeyCode::End);
    edit.feed(KeyCode::Right);
    assert_eq!(edit.cursor, 2);
    edit.feed(KeyCode::Char('d'));
    assert_eq!(edit.text, "Old");
    assert_eq!(edit.feed(KeyCode::Enter), AliasOutcome::Save);
    assert_eq!(edit.feed(KeyCode::Esc), AliasOutcome::Cancel);
    assert_eq!(edit.saved_alias(), "Old");
    assert_eq!(alias_notice("archive", "Old"), "archive: alias set to Old");
    assert_eq!(alias_notice("archive", ""), "archive: alias removed");
}
