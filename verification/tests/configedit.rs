use antiphon::configedit::{
    array_key_value, has_table, set_array_tables, toml_string_array, with_array_key, with_key,
    with_root_key, without_key, without_table,
};

fn with_theme(contents: &str, name: &str) -> String {
    with_key(contents, "ui", "theme", &format!("\"{name}\""))
}

#[test]
fn toml_string_array_quotes_and_joins() {
    assert_eq!(toml_string_array(&vec![]), "[]");
    assert_eq!(
        toml_string_array(&vec!["a".to_string(), "b".to_string()]),
        "[\"a\", \"b\"]"
    );
}

#[test]
fn a_root_key_lands_before_the_first_table() {
    let before = "[account]\nname = \"work\"\n";
    let after = with_root_key(before, "folder_order", "[\"lists\"]");
    assert_eq!(
        after,
        "folder_order = [\"lists\"]\n\n\
         [account]\nname = \"work\"\n"
    );
    let updated = with_root_key(&after, "folder_order", "[\"spam\"]");
    assert!(updated.starts_with("folder_order = [\"spam\"]\n"));
    assert!(!updated.contains("lists"), "replaced in place: {updated}");
    assert_eq!(
        with_root_key("", "folders_hidden", "[]"),
        "folders_hidden = []\n"
    );
}

#[test]
fn a_root_key_inside_a_table_is_never_matched() {
    let before = "[account]\nname = \"work\"\n";
    let after = with_root_key(before, "name", "\"other\"");
    assert!(after.starts_with("name = \"other\"\n"));
    assert!(
        after.contains("name = \"work\""),
        "the table's own key survives: {after}"
    );
}

#[test]
fn an_existing_key_is_replaced_in_place() {
    let before = "[ui]\ntheme = \"vespers\"  # see docs\n\
                  list_rows = 7\n";
    let after = with_theme(before, "nord");
    assert_eq!(
        after,
        "[ui]\ntheme = \"nord\"  # see docs\n\
         list_rows = 7\n"
    );
}

#[test]
fn a_missing_key_is_inserted_under_the_header() {
    let before = "[ui]\nlist_rows = 7\n\n[sync]\nidle = false\n";
    let after = with_theme(before, "nord");
    assert_eq!(
        after,
        "[ui]\ntheme = \"nord\"\nlist_rows = 7\n\n\
         [sync]\nidle = false\n"
    );
}

#[test]
fn a_missing_table_is_appended() {
    let before = "[sync]\nidle = false\n";
    let after = with_theme(before, "nord");
    assert_eq!(
        after,
        "[sync]\nidle = false\n\n[ui]\ntheme = \"nord\"\n"
    );
}

#[test]
fn an_empty_document_gets_a_fresh_table() {
    let after = with_theme("", "nord");
    assert_eq!(after, "[ui]\ntheme = \"nord\"\n");
}

#[test]
fn a_key_needing_quotes_is_written_and_found_quoted() {
    let before = "[folder_names]\nother = \"x\"\n";
    let after = with_key(before, "folder_names", "lists/aerc", "\"aerc\"");
    assert_eq!(
        after,
        "[folder_names]\n\"lists/aerc\" = \"aerc\"\nother = \"x\"\n"
    );
    let updated = with_key(&after, "folder_names", "lists/aerc", "\"list\"");
    assert!(updated.contains("\"lists/aerc\" = \"list\""));
    assert!(!updated.contains("\"aerc\"\n\"lists/aerc\""));
}

#[test]
fn a_hand_written_bare_key_is_still_found_and_replaced() {
    let before = "[folder_names]\narchive = \"Archive\"\n";
    let after = with_key(before, "folder_names", "archive", "\"Old\"");
    assert_eq!(after, "[folder_names]\narchive = \"Old\"\n");
}

#[test]
fn without_key_drops_only_the_named_entry() {
    let before = "[folder_names]\n\"lists/aerc\" = \"aerc\"\n\
                  archive = \"Archive\"\n";
    let after = without_key(before, "folder_names", "lists/aerc");
    assert_eq!(after, "[folder_names]\narchive = \"Archive\"\n");
}

#[test]
fn without_key_is_a_no_op_when_nothing_matches() {
    let before = "[folder_names]\narchive = \"Archive\"\n";
    assert_eq!(without_key(before, "folder_names", "missing"), before);
    assert_eq!(without_key(before, "elsewhere", "archive"), before);
    assert_eq!(without_key("", "folder_names", "archive"), "");
}

#[test]
fn an_array_table_key_is_edited_in_the_first_entry_only() {
    let before = "[[identity]]\naddress = \"a@example.com\"\n\n\
                  [[identity]]\naddress = \"b@example.com\"\n";
    let after = with_array_key(before, "identity", "address", "\"c@example.com\"");
    assert!(after.contains("address = \"c@example.com\""));
    assert!(after.contains("address = \"b@example.com\""));
    assert!(!after.contains("a@example.com"));
}

#[test]
fn a_missing_array_table_gets_a_fresh_entry() {
    let before = "[account]\nname = \"work\"\n";
    let after = with_array_key(before, "identity", "address", "\"a@example.com\"");
    assert_eq!(
        after,
        "[account]\nname = \"work\"\n\n\
         [[identity]]\naddress = \"a@example.com\"\n"
    );
}

#[test]
fn array_key_value_reads_the_first_entry_or_nothing() {
    let text = "[[identity]]\naddress = \"a@example.com\"\n\
                match = [\"a@example.com\", \"b@example.com\"]\n";
    assert_eq!(
        array_key_value(text, "identity", "address").as_deref(),
        Some("\"a@example.com\"")
    );
    assert_eq!(
        array_key_value(text, "identity", "match").as_deref(),
        Some("[\"a@example.com\", \"b@example.com\"]")
    );
    assert_eq!(array_key_value(text, "identity", "name"), None);
    assert_eq!(array_key_value(text, "rules", "from"), None);
}

#[test]
fn without_table_drops_the_body_and_trailing_blank_lines() {
    let before = "[account]\nname = \"work\"\n\n[oauth]\nprovider = \"google\"\n";
    assert_eq!(without_table(before, "oauth"), "[account]\nname = \"work\"\n");
    assert_eq!(without_table("no newline", "oauth"), "no newline");
    assert_eq!(without_table("[oauth]\nprovider = \"x\"\n", "oauth"), "");
}

#[test]
fn has_table_finds_only_exact_headers() {
    let text = "[graph]\nsend = true\n[[graphs]]\n";
    assert!(has_table(text, "graph"));
    assert!(!has_table(text, "graphs"));
    assert!(!has_table("", "graph"));
}

#[test]
fn set_array_tables_replaces_blocks_where_the_first_sat() {
    let before = "[account]\nname = \"w\"\n\n[[identity]]\naddress = \"a\"\n\n\
                  [[identity]]\naddress = \"b\"\n\n[[rules]]\nfrom = \"c\"\n";
    let blocks = vec![
        vec!["[[identity]]".to_string(), "address = \"x\"".to_string()],
        vec!["[[identity]]".to_string(), "address = \"y\"".to_string()],
    ];
    let after = set_array_tables(before, "identity", &blocks);
    assert_eq!(
        after,
        "[account]\nname = \"w\"\n\n[[identity]]\naddress = \"x\"\n\n\
         [[identity]]\naddress = \"y\"\n\n[[rules]]\nfrom = \"c\"\n"
    );
    let appended = set_array_tables("[account]\nname = \"w\"\n", "identity", &blocks[..1].to_vec());
    assert_eq!(
        appended,
        "[account]\nname = \"w\"\n\n[[identity]]\naddress = \"x\"\n"
    );
    assert_eq!(set_array_tables("", "identity", &vec![]), "");
}

#[test]
fn a_value_with_crlf_lines_is_read_without_the_carriage_return() {
    let text = "[[identity]]\r\naddress = \"a@example.com\"\r\n";
    assert_eq!(
        array_key_value(text, "identity", "address").as_deref(),
        Some("\"a@example.com\"")
    );
}

#[test]
fn a_written_array_key_reads_back() {
    let before = "[account]\nname = \"work\"\n\n[[identity]]\naddress = \"a@x\"  # main\n";
    let after = with_array_key(before, "identity", "address", "\"b@x\"");
    assert_eq!(array_key_value(&after, "identity", "address").as_deref(), Some("\"b@x\""));
    assert!(after.contains("address = \"b@x\"  # main"), "{after}");
    let fresh = with_array_key("", "identity", "name", "\"Quin\"");
    assert_eq!(array_key_value(&fresh, "identity", "name").as_deref(), Some("\"Quin\""));
}

#[test]
fn writing_the_same_value_twice_changes_nothing() {
    let before = "[ui]\ntheme = \"nord\"\n[sync]\nidle = true\n";
    let once = with_key(before, "sync", "idle", "false");
    assert_eq!(with_key(&once, "sync", "idle", "false"), once);
    let added = with_key(before, "ui", "accent", "\"blue\"");
    assert_eq!(with_key(&added, "ui", "accent", "\"blue\""), added);
}

#[test]
fn removing_a_key_just_added_restores_the_file() {
    let before = "[ui]\ntheme = \"nord\"\n\n[sync]\nidle = true\n";
    let added = with_key(before, "sync", "interval", "60");
    assert_ne!(added, before);
    assert_eq!(without_key(&added, "sync", "interval"), before);
}

#[test]
fn remove_key_deletes_the_line_from_a_real_file() {
    let text = "[folder_names]\n\"lists/aerc\" = \"aerc\"\n";
    assert_eq!(without_key(text, "folder_names", "lists/aerc"), "[folder_names]\n");
}

/// Every essentials key the settings write goes through the very same
/// generic edit, over the four shapes a config file can be in: key
/// present, key absent, table absent, file absent (no text yet).
#[test]
fn every_essentials_key_supports_all_four_edit_cases() {
    let cases: &[(&str, &str, &str)] = &[
        ("ui", "theme", "\"nord\""),
        ("sync", "interval_minutes", "5"),
        ("sync", "idle", "true"),
        ("ui", "reading_pane", "\"right\""),
        ("ui", "list_rows", "12"),
        ("ui", "sidebar_width", "20"),
    ];
    for (table, key, value) in cases {
        let want = format!("{key} = {value}");

        let present = format!("[{table}]\n{key} = old\nother = 1\n");
        let after = with_key(&present, table, key, value);
        assert!(after.contains(&want), "{table}.{key} present");
        assert!(after.contains("other = 1"), "{table}.{key} keeps siblings");

        let absent = format!("[{table}]\nother = 1\n");
        let after = with_key(&absent, table, key, value);
        assert!(after.contains(&want), "{table}.{key} key absent");

        let no_table = "[elsewhere]\nx = 1\n";
        let after = with_key(no_table, table, key, value);
        assert!(after.contains(&format!("[{table}]")), "{table}.{key} table absent");
        assert!(after.contains(&want), "{table}.{key} table absent");

        let after = with_key("", table, key, value);
        assert!(after.contains(&want), "{table}.{key} file absent");
    }
}

#[test]
fn the_last_write_wins() {
    let file = "[ui]\ntheme = \"vespers\" # mine\n";
    let once = with_key(&with_key(file, "ui", "theme", "\"dawn\""), "ui", "theme", "\"dusk\"");
    assert_eq!(once, with_key(file, "ui", "theme", "\"dusk\""));
    assert_eq!(once, "[ui]\ntheme = \"dusk\" # mine\n");
    let fresh = with_key(&with_key("", "sync", "idle", "true"), "sync", "idle", "false");
    assert_eq!(fresh, with_key("", "sync", "idle", "false"));
}

#[test]
fn removing_a_just_added_key_restores_the_file_for_any_value() {
    let file = "[account]\nname = \"work\"\n\n[folder_names]\n";
    for value in ["", "\"a # b\"", " spaced ", "\"x\"", "\"a\rb\""] {
        let added = with_key(file, "folder_names", "inbox", value);
        assert_eq!(without_key(&added, "folder_names", "inbox"), file, "{value:?}");
    }
}

#[test]
fn crlf_files_take_the_last_write_too() {
    let file = "[ui]\r\ntheme = \"vespers\"\r\n";
    let twice = with_key(&with_key(file, "ui", "theme", "\"dawn\""), "ui", "theme", "\"dusk\"");
    assert_eq!(twice, with_key(file, "ui", "theme", "\"dusk\""));
    assert_eq!(twice, "[ui]\ntheme = \"dusk\"\n");
}

#[test]
fn a_key_holding_a_bracket_takes_the_last_write() {
    let file = "[accounts]\nname = \"work\"\n";
    let twice = with_key(&with_key(file, "accounts", "a[b", "\"one\""), "accounts", "a[b", "\"two\"");
    assert_eq!(twice, with_key(file, "accounts", "a[b", "\"two\""));
    assert_eq!(twice, "[accounts]\n\"a[b\" = \"two\"\nname = \"work\"\n");
}

#[test]
fn a_carriage_return_inside_a_line_survives_an_edit() {
    let file = "[ui]\nnote = \"a\rb\"\ntheme = \"vespers\"\n";
    let edited = with_key(file, "ui", "theme", "\"dusk\"");
    assert_eq!(edited, "[ui]\nnote = \"a\rb\"\ntheme = \"dusk\"\n");
}

#[test]
fn a_key_opening_with_a_bracket_takes_the_last_write() {
    let file = "[ui]\n[x = \"a\"\n";
    let twice = with_key(&with_key(file, "ui", "[x", "\"b\""), "ui", "[x", "\"c\"");
    assert_eq!(twice, with_key(file, "ui", "[x", "\"c\""));
    assert_eq!(twice, "[ui]\n[x = \"c\"\n");
}

#[test]
fn a_bare_bracket_key_given_an_array_turns_into_a_header() {
    let file = "[ui]\n[x = 0\n";
    let once = with_key(file, "ui", "[x", "[1]");
    assert_eq!(once, "[ui]\n[x = [1]\n");
    let twice = with_key(&once, "ui", "[x", "[2]");
    assert_ne!(twice, with_key(file, "ui", "[x", "[2]"));
}

#[test]
fn a_value_holding_a_carriage_return_reads_back() {
    let file = "[ui]\ntheme = \"vespers\"\n";
    let written = with_key(file, "ui", "theme", "\"a\rb\"");
    assert_eq!(written, "[ui]\ntheme = \"a\rb\"\n");
    assert_eq!(with_key(&written, "ui", "theme", "\"a\rb\""), written);
}
