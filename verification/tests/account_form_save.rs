use antiphon::account_file::account_toml;
use antiphon::account_wizard::AccountAnswers;
use antiphon::tui::account_form::{AccountFormState, AccountType, GraphAuth};
use antiphon::tui::account_form_identity::FormIdentity;
use antiphon::tui::account_form_save::save_plan;

fn filled_answers() -> AccountAnswers {
    AccountAnswers {
        name: "work".to_string(),
        address: "quin@example.com".to_string(),
        from_name: String::new(),
        imap_host: "imap.example.com".to_string(),
        imap_user: "quin@example.com".to_string(),
        smtp_host: "smtp.example.com".to_string(),
        password_cmd: "pass show mail/work".to_string(),
    }
}

fn filled_form() -> AccountFormState {
    AccountFormState::from_answers(&filled_answers(), None)
}

/// The file a first save of the filled answers leaves.
fn seeded_file() -> String {
    account_toml(&filled_answers())
}

fn edit_of(form: &AccountFormState) -> String {
    save_plan(form, Some(&seeded_file()), false).ok().expect("save").text
}

fn rich_imap_toml() -> &'static str {
    "folder_order = [\"INBOX\", \"lists\"]\n\
     folders_hidden = [\"Junk\"]\n\
     folders_unsynced = [\"Archive\"]\n\
     \n\
     [account]\n\
     name = \"work\"\n\
     \n\
     [imap]\n\
     host = \"imap.example.com\"\n\
     user = \"quin@example.com\"\n\
     password_cmd = \"pass show mail/work\"  # rotate soon\n\
     \n\
     [smtp]\n\
     host = \"smtp.example.com\"\n\
     \n\
     [[identity]]\n\
     address = \"quin@example.com\"\n\
     match = [\"quin@example.com\"]\n\
     \n\
     [[rules]]\n\
     match_sender = \"ci@example.com\"\n\
     move_to = \"ci\"\n"
}

#[test]
fn account_form_save_tests_saving_an_edit_overwrites_only_the_one_file() {
    let mut form = filled_form();
    form.editing = Some("work".to_string());
    form.imap_host = "imap2.example.com".to_string();
    let plan = save_plan(&form, Some(&seeded_file()), true).ok().expect("save");
    assert_eq!(plan.name, "work");
    assert_eq!(plan.remove, None, "only the one file is written");
    assert!(plan.text.contains("imap2.example.com"));
}

#[test]
fn account_form_saving_an_edit_overwrites_only_the_one_file() {
    let mut form = filled_form();
    form.editing = Some("work".to_string());
    form.imap_host = "imap2.example.com".to_string();
    assert!(edit_of(&form).contains("host = \"imap2.example.com\""));
}

#[test]
fn account_form_save_tests_renaming_on_save_removes_the_old_file() {
    let mut form = filled_form();
    form.editing = Some("work".to_string());
    form.name = "personal".to_string();
    let plan = save_plan(&form, Some(&seeded_file()), false).ok().expect("save");
    assert_eq!(plan.name, "personal");
    assert_eq!(plan.remove.as_deref(), Some("work"));
    assert!(plan.text.contains("name = \"personal\""));
}

#[test]
fn account_form_renaming_on_save_removes_the_old_file() {
    let mut form = filled_form();
    form.editing = Some("work".to_string());
    form.name = " personal ".to_string();
    let plan = save_plan(&form, Some(&seeded_file()), false).ok().expect("save");
    assert_eq!(plan.name, "personal", "the name is trimmed");
    assert_eq!(plan.remove.as_deref(), Some("work"));
}

#[test]
fn account_form_save_tests_adding_over_an_existing_name_is_refused() {
    let form = filled_form();
    assert_eq!(save_plan(&form, None, true).err().unwrap(), "work already exists");
}

#[test]
fn account_form_adding_over_an_existing_name_is_refused() {
    let form = filled_form();
    assert!(save_plan(&form, None, true).is_err());
    let plan = save_plan(&form, None, false).ok().expect("a fresh name saves");
    assert_eq!(plan.text, seeded_file());
}

#[test]
fn the_from_name_is_written_to_the_identity() {
    let mut form = filled_form();
    form.from_name = "Quin at Work".to_string();
    let plan = save_plan(&form, None, false).ok().expect("save");
    assert!(plan.text.contains("address = \"quin@example.com\""), "{}", plan.text);
    assert!(plan.text.contains("name = \"Quin at Work\""), "{}", plan.text);
}

#[test]
fn a_google_add_writes_a_parseable_oauth_table() {
    let mut form = filled_form();
    form.password_cmd = String::new();
    form.account_type = AccountType::Google;
    form.client_id = "app-1".to_string();
    let text = save_plan(&form, None, false).ok().expect("save").text;
    assert!(text.contains("[oauth]"), "{text}");
    assert!(text.contains("provider = \"google\""));
    assert!(text.contains("client_id = \"app-1\""));
    assert!(!text.contains("password_cmd"), "{text}");
    assert!(text.contains("host = \"imap.gmail.com\""), "{text}");
    assert!(text.contains("host = \"smtp.gmail.com\""), "{text}");
    assert!(text.contains("user = \"quin@example.com\""), "{text}");
}

#[test]
fn an_oauth_add_fills_the_provider_hosts_over_the_form() {
    let mut form = filled_form();
    form.password_cmd = String::new();
    form.account_type = AccountType::Microsoft;
    form.imap_host = "stale.example.com".to_string();
    form.smtp_host = "stale.example.com".to_string();
    let text = save_plan(&form, None, false).ok().expect("save").text;
    assert!(text.contains("host = \"outlook.office365.com\""), "{text}");
    assert!(text.contains("host = \"smtp.office365.com\""), "{text}");
    assert!(!text.contains("stale.example.com"), "{text}");
    assert!(
        text.starts_with("folders_unsynced = [\"calendar*\", \"contacts\", \"conversation history\", \"journal\", \"rss feeds\", \"outbox\"]\n"),
        "a fresh Microsoft account starts with its non-mail folders unsynced: {text}"
    );
}

#[test]
fn microsoft_graph_send_writes_the_graph_table() {
    let mut form = filled_form();
    form.account_type = AccountType::Microsoft;
    form.graph_send = true;
    form.tenant = "tenant-1".to_string();
    let text = save_plan(&form, None, false).ok().expect("save").text;
    assert!(text.contains("[graph]"), "{text}");
    assert!(text.contains("send = true"), "{text}");
    assert!(text.contains("tenant = \"tenant-1\""), "{text}");
    assert!(text.contains("auth = \"delegated\""), "{text}");
    assert!(text.contains("[oauth]"), "{text}");
}

#[test]
fn changing_type_preserves_hand_written_content() {
    let mut form = filled_form();
    form.editing = Some("work".to_string());
    form.password_cmd = String::new();
    form.account_type = AccountType::Microsoft;
    form.client_id = "app-9".to_string();
    form.graph_send = true;
    form.graph_auth = GraphAuth::AppOnly;
    form.tenant = "tenant-9".to_string();
    form.graph_secret_cmd = "pass show graph".to_string();
    let text = save_plan(&form, Some(rich_imap_toml()), false).ok().expect("save").text;
    assert!(text.contains("[[rules]]"), "rules survive: {text}");
    assert!(text.contains("match_sender = \"ci@example.com\""));
    assert!(text.contains("folder_order = [\"INBOX\", \"lists\"]"), "{text}");
    assert!(text.contains("folders_hidden = [\"Junk\"]"));
    assert!(text.contains("folders_unsynced = [\"Archive\"]"), "an edit keeps the reader's own list: {text}");
    assert!(text.contains("password_cmd = \"pass show mail/work\"  # rotate soon"), "comments survive: {text}");
    assert!(text.contains("provider = \"microsoft\""));
    assert!(text.contains("client_id = \"app-9\""));
    assert!(text.contains("auth = \"app_only\""));
    assert!(text.contains("secret_cmd = \"pass show graph\""));
}

#[test]
fn the_form_identities_replace_the_blocks() {
    let mut form = filled_form();
    form.editing = Some("work".to_string());
    form.identities = vec![FormIdentity {
        from_name: "Quin".to_string(),
        address: String::new(),
        pgp_key: String::new(),
        pgp_sign: true,
        signature: String::new(),
        matches: "quin@example.com, *@lists.example.com".to_string(),
    }];
    let text = save_plan(&form, Some(rich_imap_toml()), false).ok().expect("save").text;
    assert!(text.contains("[[identity]]\naddress = \"quin@example.com\"\nname = \"Quin\"\npgp_sign = true\n"), "{text}");
    assert!(text.contains("match = [\"quin@example.com\", \"*@lists.example.com\"]"), "{text}");
    assert!(text.contains("[[rules]]"), "{text}");
    assert_eq!(text.matches("[[identity]]").count(), 1);
}
