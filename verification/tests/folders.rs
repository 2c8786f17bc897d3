use antiphon::tui::folders::{
    hide_notice, is_unsynced, may_unsync, ordered_names, reordered, rows, toggled,
    unsync_notice, AccountEntry, FolderRow,
};

fn account(name: &str, folders: &[&str]) -> AccountEntry {
    AccountEntry {
        name: name.to_string(),
        folders: folders.iter().map(|folder| (*folder).to_string()).collect(),
        ..AccountEntry::default()
    }
}

fn row(account: &str, folder: &str, alias: &str) -> FolderRow {
    FolderRow {
        account: account.to_string(),
        folder: folder.to_string(),
        alias: alias.to_string(),
        hidden: false,
        unsynced: false,
    }
}

fn strings(items: &[&str]) -> Vec<String> {
    items.iter().map(|s| s.to_string()).collect()
}

#[test]
fn rows_join_the_alias_by_account_and_folder() {
    let accounts = vec![account("work", &["archive", "lists/aerc"]), account("personal", &["archive"])];
    let aliases = vec![("work".to_string(), "lists/aerc".to_string(), "aerc-list".to_string())];
    let built = rows(&accounts, &aliases);
    assert_eq!(
        built,
        vec![
            row("work", "inbox", ""),
            row("work", "archive", ""),
            row("work", "lists/aerc", "aerc-list"),
            row("personal", "inbox", ""),
            row("personal", "archive", ""),
        ]
    );
}

#[test]
fn rows_follow_the_order_and_keep_hidden_folders() {
    let mut work = account("work", &["archive", "spam"]);
    work.order = vec!["spam".to_string()];
    work.hidden = vec!["spam".to_string()];
    let built = rows(&vec![work], &vec![]);
    let summary: Vec<(&str, bool)> = built.iter().map(|row| (row.folder.as_str(), row.hidden)).collect();
    assert_eq!(summary, [("spam", true), ("inbox", false), ("archive", false)],);
}

#[test]
fn an_alias_with_no_matching_folder_is_never_joined_in() {
    let accounts = vec![account("work", &["archive"])];
    let aliases = vec![("work".to_string(), "gone".to_string(), "stale".to_string())];
    let built = rows(&accounts, &aliases);
    assert!(built.iter().all(|row| row.alias.is_empty()));
}

#[test]
fn a_saved_order_places_the_inbox_too() {
    let mut work = account("work", &["archive", "lists/aerc", "spam"]);
    work.order = strings(&["archive", "inbox", "lists/aerc", "spam"]);
    assert_eq!(ordered_names(&work), ["archive", "inbox", "lists/aerc", "spam"]);
    work.order = strings(&["gone", "spam"]);
    assert_eq!(ordered_names(&work), ["spam", "inbox", "archive", "lists/aerc"]);
}

#[test]
fn unsynced_entries_match_exactly_or_by_prefix() {
    let mut work = account("work", &["calendar", "calendar/birthdays", "contacts"]);
    work.unsynced = strings(&["calendar*", "contacts"]);
    assert!(is_unsynced(&work, "calendar"));
    assert!(is_unsynced(&work, "calendar/birthdays"));
    assert!(is_unsynced(&work, "contacts"));
    assert!(!is_unsynced(&work, "contact"));
    assert!(!is_unsynced(&work, "archive"));
    let built = rows(&vec![work], &vec![]);
    assert!(built.iter().filter(|r| r.unsynced).count() == 3);
}

#[test]
fn toggling_marks_and_unmarks_a_folder() {
    let hidden = toggled(&strings(&["junk"]), "spam", false);
    assert_eq!(hidden, ["junk", "spam"]);
    assert_eq!(toggled(&hidden, "spam", true), ["junk"]);
    assert_eq!(toggled(&strings(&["spam", "x", "spam"]), "spam", true), ["x"]);
}

#[test]
fn moving_a_folder_swaps_it_with_its_neighbour_and_clamps() {
    let names = strings(&["inbox", "archive", "lists/aerc", "spam"]);
    assert_eq!(reordered(&names, 0, 1).unwrap(), ["archive", "inbox", "lists/aerc", "spam"]);
    assert_eq!(reordered(&names, 0, -1), None, "moving up from the top clamps");
    assert_eq!(reordered(&names, 3, 1), None);
    assert_eq!(reordered(&names, 3, -1).unwrap(), ["inbox", "archive", "spam", "lists/aerc"]);
}

#[test]
fn the_inbox_can_never_be_unsynced_and_notices_name_the_folder() {
    assert!(!may_unsync("inbox"));
    assert!(may_unsync("spam"));
    assert_eq!(hide_notice("spam", false), "spam hidden from the sidebar");
    assert_eq!(hide_notice("spam", true), "spam shown again");
    assert_eq!(unsync_notice("spam", false), "spam will no longer sync");
    assert_eq!(unsync_notice("spam", true), "spam syncing again");
}
