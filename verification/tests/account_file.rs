use antiphon::account_file::{
    account_file_name, account_toml, edited_account_toml, identities_rewrite, quoted,
    quoted_array, render_identity, renamed_from, saved_text, source_name,
};
use antiphon::account_wizard::AccountAnswers;
use antiphon::config::{AccountFile, Identity};

fn answers() -> AccountAnswers {
    AccountAnswers {
        name: "work".to_string(),
        address: "quin@example.com".to_string(),
        from_name: "Quin at Work".to_string(),
        imap_host: "imap.example.com".to_string(),
        imap_user: "quin@example.com".to_string(),
        smtp_host: "smtp.example.com".to_string(),
        password_cmd: "pass show mail/work".to_string(),
    }
}

fn identity(address: &str, name: Option<&str>) -> Identity {
    Identity {
        address: address.to_string(),
        name: name.map(str::to_string),
        signature: None,
        matches: vec![address.to_string()],
        pgp_sign: false,
        pgp_key: None,
    }
}

fn hand_written_toml() -> &'static str {
    "folder_order = [\"INBOX\", \"lists\"]\n\
     folders_hidden = [\"Junk\"]\n\
     \n\
     [account]\n\
     name = \"work\"\n\
     \n\
     [imap]\n\
     host = \"imap.example.com\"\n\
     user = \"quin@example.com\"\n\
     password_cmd = \"pass show mail/work\"  # rotate soon\n\
     \n\
     [smtp]\n\
     host = \"smtp.example.com\"\n\
     \n\
     [[identity]]\n\
     address = \"quin@example.com\"\n\
     match = [\"quin@example.com\"]\n\
     \n\
     [[rules]]\n\
     from = \"ci@example.com\"\n\
     move_to = \"ci\"\n\
     \n\
     [oauth]\n\
     provider = \"microsoft\"\n"
}

#[test]
fn account_toml_carries_every_field() {
    let text = account_toml(&answers());
    assert!(text.contains("name = \"work\""));
    assert!(text.contains("host = \"imap.example.com\""));
    assert!(text.contains("host = \"smtp.example.com\""));
    assert!(text.contains("address = \"quin@example.com\""));
    assert!(text.contains("name = \"Quin at Work\""));
    assert!(text.contains("password_cmd = \"pass show mail/work\""));
}

#[test]
fn an_empty_from_name_is_left_out_of_a_fresh_identity() {
    let mut no_name = answers();
    no_name.from_name = String::new();
    let text = account_toml(&no_name);
    assert!(text.contains("address = \"quin@example.com\""));
    assert!(!text.contains("name = \"Quin"), "no identity name line without a from name: {text}");
}

#[test]
fn an_empty_password_command_is_left_out_entirely() {
    let mut oauth_answers = answers();
    oauth_answers.password_cmd = String::new();
    let text = account_toml(&oauth_answers);
    assert!(!text.contains("password_cmd"), "{text}");
    assert!(text.contains("[smtp]"));

    let edited = edited_account_toml(hand_written_toml(), &oauth_answers);
    assert!(
        edited.contains("password_cmd = \"pass show mail/work\"  # rotate soon"),
        "an existing command is not blanked: {edited}"
    );
}

#[test]
fn account_toml_is_the_whole_template() {
    assert_eq!(
        account_toml(&answers()),
        "[account]\nname = \"work\"\n\n[imap]\nhost = \"imap.example.com\"\nuser = \"quin@example.com\"\npassword_cmd = \"pass show mail/work\"\n\n[smtp]\nhost = \"smtp.example.com\"\n\n[[identity]]\naddress = \"quin@example.com\"\nname = \"Quin at Work\"\nmatch = [\"quin@example.com\"]\n"
    );
}

#[test]
fn an_edit_rewrites_known_keys_and_keeps_the_rest() {
    let mut changed = answers();
    changed.imap_host = "imap2.example.com".to_string();
    let text = edited_account_toml(hand_written_toml(), &changed);
    assert!(text.contains("host = \"imap2.example.com\""));
    assert!(text.contains("folder_order = [\"INBOX\", \"lists\"]"), "{text}");
    assert!(text.contains("folders_hidden = [\"Junk\"]"));
    assert!(text.contains("[[rules]]"));
    assert!(text.contains("move_to = \"ci\""));
    assert!(text.contains("provider = \"microsoft\""));
    assert!(text.contains("password_cmd = \"pass show mail/work\"  # rotate soon"), "{text}");
}

#[test]
fn a_rename_edit_rewrites_the_account_name() {
    let mut renamed = answers();
    renamed.name = "personal".to_string();
    let text = edited_account_toml(hand_written_toml(), &renamed);
    assert!(text.contains("name = \"personal\""));
    assert!(!text.contains("name = \"work\""));
    assert!(text.contains("[[rules]]"));
}

#[test]
fn quoted_escapes_what_a_toml_string_cannot_hold() {
    assert_eq!(quoted("plain"), "\"plain\"");
    assert_eq!(quoted("Quin\n--\nSent with \"Antiphon\""), "\"Quin\\n--\\nSent with \\\"Antiphon\\\"\"");
    assert_eq!(quoted("a\\b\tc\r"), "\"a\\\\b\\tc\\r\"");
    assert_eq!(quoted("\u{1}\u{7f}"), "\"\\u0001\\u007F\"");
}

#[test]
fn quoted_array_joins_with_commas() {
    assert_eq!(quoted_array(&vec![]), "[]");
    assert_eq!(
        quoted_array(&vec!["a@x".to_string(), "b@x".to_string()]),
        "[\"a@x\", \"b@x\"]"
    );
}

#[test]
fn render_identity_writes_only_what_is_set() {
    assert_eq!(
        render_identity(&identity("quin@example.com", Some("Quin"))),
        ["[[identity]]", "address = \"quin@example.com\"", "name = \"Quin\"", "match = [\"quin@example.com\"]"]
    );
    let full = Identity {
        address: "side@example.com".to_string(),
        name: Some(String::new()),
        signature: Some("Side\n--".to_string()),
        matches: Vec::new(),
        pgp_sign: true,
        pgp_key: Some("ABCD".to_string()),
    };
    assert_eq!(
        render_identity(&full),
        [
            "[[identity]]",
            "address = \"side@example.com\"",
            "signature = \"Side\\n--\"",
            "pgp_key = \"ABCD\"",
            "pgp_sign = true"
        ]
    );
}

#[test]
fn from_existing_reads_the_first_identity_and_smtp_host() {
    let account = AccountFile {
        name: "work".to_string(),
        imap_host: "imap.example.com".to_string(),
        imap_user: "quin".to_string(),
        imap_password_cmd: Some("pass show mail/work".to_string()),
        smtp_host: Some("smtp.example.com".to_string()),
        identities: vec![Identity {
            address: "quin@example.com".to_string(),
            name: Some("Quin at Work".to_string()),
            signature: None,
            matches: Vec::new(),
            pgp_sign: false,
            pgp_key: None,
        }],
    };
    let defaults = AccountAnswers::from_existing(&account);
    assert_eq!(defaults.address, "quin@example.com");
    assert_eq!(defaults.from_name, "Quin at Work");
    assert_eq!(defaults.imap_user, "quin");
    assert_eq!(defaults.smtp_host, "smtp.example.com");
    assert_eq!(defaults.password_cmd, "pass show mail/work");
}

#[test]
fn from_existing_leaves_missing_values_empty() {
    let account = AccountFile {
        name: "bare".to_string(),
        imap_host: "h".to_string(),
        imap_user: "u".to_string(),
        imap_password_cmd: None,
        smtp_host: None,
        identities: Vec::new(),
    };
    let defaults = AccountAnswers::from_existing(&account);
    assert_eq!(defaults.name, "bare");
    assert_eq!(defaults.address, "");
    assert_eq!(defaults.from_name, "");
    assert_eq!(defaults.smtp_host, "");
    assert_eq!(defaults.password_cmd, "");
}

#[test]
fn remove_renamed_only_acts_when_the_name_actually_changed() {
    assert_eq!(renamed_from(Some("work"), "work"), None, "unchanged name is a no-op");
    let old = renamed_from(Some("work"), "personal").expect("a changed name removes the old file");
    assert_eq!(account_file_name(&old), "work.toml");
    assert_eq!(renamed_from(None, "personal"), None, "no previous name is a no-op");
}

#[test]
fn a_rename_reads_the_old_file_and_writes_the_new_name() {
    assert_eq!(source_name(Some("work"), "personal"), "work");
    assert_eq!(source_name(None, "personal"), "personal");
    assert_eq!(account_file_name("personal"), "personal.toml");
    let mut renamed = answers();
    renamed.name = "personal".to_string();
    let text = saved_text(Some(hand_written_toml()), &renamed);
    assert!(text.contains("name = \"personal\""));
    assert!(text.contains("[[rules]]"));
    assert!(text.contains("folder_order = [\"INBOX\", \"lists\"]"));
}

#[test]
fn a_save_without_a_file_writes_the_template() {
    assert_eq!(saved_text(None, &answers()), account_toml(&answers()));
    let mut changed = answers();
    changed.imap_host = "imap2.example.com".to_string();
    let edited = saved_text(Some(&account_toml(&answers())), &changed);
    assert!(edited.contains("imap2.example.com"));
}

#[test]
fn identities_are_rewritten_only_when_they_change() {
    let text = hand_written_toml();
    let same = vec![Identity {
        address: "quin@example.com".to_string(),
        name: None,
        signature: None,
        matches: vec!["quin@example.com".to_string()],
        pgp_sign: false,
        pgp_key: None,
    }];
    let first = identities_rewrite(text, &same);
    let rewritten = match first {
        Some(t) => t,
        None => text.to_string(),
    };
    assert_eq!(identities_rewrite(&rewritten, &same), None, "a second pass changes nothing");
    let named = vec![identity("quin@example.com", Some("Quin"))];
    let changed = identities_rewrite(&rewritten, &named).expect("a new name rewrites the block");
    assert!(changed.contains("name = \"Quin\""));
    assert!(changed.contains("[[rules]]"));
}
