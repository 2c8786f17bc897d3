use antiphon::account_wizard::AccountAnswers;
use antiphon::tui::account_form::{
    AccountFormState, AccountType, FormOutcome, GraphAuth, OauthProvider, FIELD_COUNT,
};
use antiphon::tui::account_form_conn::{
    command_failed_report, error_chain, imap_spec, login_report, oauth_spec, password_command,
    password_from_output, reach_report, spec_for_form, stopped_report, working_message,
    ProbeError, TestKind, Tone, IMAPS_PORT,
};
use antiphon::tui::account_form_save::{
    answers, optional_key, resolve_password_cmd, seeded_defaults, validate, with_oauth,
};
use antiphon::tui::keys::{KeyCode, KeyPress};

fn filled_answers() -> AccountAnswers {
    AccountAnswers {
        name: "work".to_string(),
        address: "quin@example.com".to_string(),
        from_name: String::new(),
        imap_host: "imap.example.com".to_string(),
        imap_user: "quin@example.com".to_string(),
        smtp_host: "smtp.example.com".to_string(),
        password_cmd: "pass show mail/work".to_string(),
    }
}

fn filled_form() -> AccountFormState {
    AccountFormState::from_answers(&filled_answers(), None)
}

fn labels(form: &AccountFormState) -> Vec<&'static str> {
    (0..form.field_count()).map(|index| form.field_label(index)).collect()
}

fn provider_row(form: &AccountFormState) -> usize {
    labels(form)
        .iter()
        .position(|label| label.starts_with("oauth provider"))
        .expect("provider row")
}

fn cycle_at_focus(form: &mut AccountFormState, code: KeyCode) {
    if !form.editable() {
        form.feed(KeyPress::plain(code));
    }
}

#[test]
fn account_form_the_field_table_round_trips_every_answer() {
    let answers = filled_answers();
    let form = AccountFormState::from_answers(&answers, None);
    for index in 0..FIELD_COUNT {
        let value = form.field_value(index);
        let belongs_to_an_answer = [
            answers.name.as_str(),
            answers.address.as_str(),
            answers.imap_host.as_str(),
            answers.imap_user.as_str(),
            answers.smtp_host.as_str(),
            answers.password_cmd.as_str(),
            "",
        ]
        .contains(&value);
        assert!(belongs_to_an_answer, "{index}: {value:?}");
    }
    let rebuilt = AccountAnswers {
        name: form.name.clone(),
        address: form.address.clone(),
        from_name: String::new(),
        imap_host: form.imap_host.clone(),
        imap_user: form.imap_user.clone(),
        smtp_host: form.smtp_host.clone(),
        password_cmd: form.password_cmd.clone(),
    };
    assert_eq!(rebuilt, answers);
}

#[test]
fn account_form_prefill_starts_focused_on_the_first_field_at_its_end() {
    let answers = filled_answers();
    let form = AccountFormState::from_answers(&answers, Some("work".to_string()));
    assert_eq!(form.editing.as_deref(), Some("work"));
    assert_eq!(form.focus, 0);
    assert_eq!(form.cursor, answers.address.chars().count());
    assert_eq!(form.address, answers.address);
    assert_eq!(form.password_cmd, answers.password_cmd);
    assert!(form.keychain_secret.is_empty());
}

#[test]
fn account_form_a_blank_password_command_fails_validation_off_macos() {
    let mut form = AccountFormState::from_answers(&filled_answers(), None);
    form.password_cmd = String::new();
    assert!(resolve_password_cmd(&form).is_err());
}

#[test]
fn account_form_tests_the_field_table_round_trips_every_answer() {
    let answers = filled_answers();
    let form = filled_form();
    for index in 0..form.field_count() {
        let value = form.field_value(index);
        let belongs = [
            answers.name.as_str(),
            answers.address.as_str(),
            answers.imap_host.as_str(),
            answers.imap_user.as_str(),
            answers.smtp_host.as_str(),
            answers.password_cmd.as_str(),
            "none",
            "",
        ]
        .contains(&value);
        assert!(belongs, "{index}: {value:?}");
    }
}

#[test]
fn account_form_tests_prefill_starts_focused_on_the_first_field_at_its_end() {
    let answers = filled_answers();
    let form = AccountFormState::from_answers(&answers, Some("work".to_string()));
    assert_eq!(form.editing.as_deref(), Some("work"));
    assert_eq!(form.focus, 0);
    assert_eq!(form.cursor, answers.address.chars().count());
    assert_eq!(form.address, answers.address);
    assert_eq!(form.password_cmd, answers.password_cmd);
    assert!(form.keychain_secret.is_empty());
    assert_eq!(form.provider(), None);
}

#[test]
fn a_provider_swaps_the_password_fields_for_oauth_ones() {
    let mut form = filled_form();
    assert!(labels(&form).contains(&"password command"));
    assert!(!labels(&form).contains(&"oauth client id"));

    form.account_type = AccountType::from_provider(OauthProvider::Google);
    let shown = labels(&form);
    assert!(!shown.contains(&"password command"));
    assert!(shown.contains(&"oauth client id"));
    assert!(!shown.iter().any(|label| label.contains("graph")));

    form.account_type = AccountType::from_provider(OauthProvider::Microsoft);
    let shown = labels(&form);
    assert!(shown.iter().any(|label| label.starts_with("graph send")));
    assert!(!shown.contains(&"graph tenant"), "tenant hides until graph send is on");
    form.graph_send = true;
    assert!(labels(&form).contains(&"graph tenant"));
}

#[test]
fn left_and_right_cycle_the_provider_row() {
    let mut form = filled_form();
    form.focus = provider_row(&form);
    cycle_at_focus(&mut form, KeyCode::Right);
    assert_eq!(form.provider(), Some(OauthProvider::Google));
    cycle_at_focus(&mut form, KeyCode::Right);
    assert_eq!(form.provider(), Some(OauthProvider::Microsoft));
    cycle_at_focus(&mut form, KeyCode::Right);
    assert_eq!(form.provider(), None);
    cycle_at_focus(&mut form, KeyCode::Left);
    assert_eq!(form.provider(), Some(OauthProvider::Microsoft));
}

#[test]
fn typing_on_a_cycle_row_changes_nothing() {
    let mut form = filled_form();
    let row = provider_row(&form);
    form.focus = row;
    assert!(!form.editable());
    assert_eq!(form.field_value(row), "none");
    assert_eq!(form.feed(KeyPress::plain(KeyCode::Char('x'))), FormOutcome::Edited);
    assert_eq!(form.provider(), None);
    assert_eq!(form.field_value(row), "none");
}

#[test]
fn account_form_save_tests_a_blank_password_command_fails_validation_off_macos() {
    let mut form = filled_form();
    form.password_cmd = String::new();
    assert!(resolve_password_cmd(&form).is_err());
}

#[test]
fn an_oauth_account_needs_no_password_at_all() {
    let mut form = filled_form();
    form.password_cmd = String::new();
    form.account_type = AccountType::Google;
    assert_eq!(resolve_password_cmd(&form), Ok(String::new()));
}

#[derive(Debug)]
struct Layered {
    message: &'static str,
    source: Option<Box<Layered>>,
}

impl std::fmt::Display for Layered {
    fn fmt(&self, out: &mut std::fmt::Formatter<'_>) -> std::fmt::Result {
        out.write_str(self.message)
    }
}

impl std::error::Error for Layered {
    fn source(&self) -> Option<&(dyn std::error::Error + 'static)> {
        self.source.as_ref().map(|inner| inner.as_ref() as &dyn std::error::Error)
    }
}

#[test]
fn error_chain_joins_the_whole_source_chain() {
    let error = Layered {
        message: "cannot resolve IMAP task",
        source: Some(Box::new(Layered { message: "AUTHENTICATIONFAILED", source: None })),
    };
    let mut messages = vec![error.to_string()];
    let mut source = std::error::Error::source(&error);
    while let Some(inner) = source {
        messages.push(inner.to_string());
        source = inner.source();
    }
    let joined = error_chain(&messages);
    assert!(joined.contains("cannot resolve IMAP task"));
    assert!(joined.contains("AUTHENTICATIONFAILED"));
    assert_eq!(joined, "cannot resolve IMAP task: AUTHENTICATIONFAILED");
}

#[test]
fn a_successful_login_reports_authenticated() {
    let report = login_report(Ok(()));
    assert_eq!(report.tone, Tone::Good);
    assert!(report.message.contains("signed in"));
}

#[test]
fn a_refused_login_reports_the_server_message() {
    let report = login_report(Err(ProbeError::Refused("AUTHENTICATIONFAILED".to_string())));
    assert_eq!(report.tone, Tone::Bad);
    assert!(report.message.contains("refused the credentials"));
    assert!(report.message.contains("AUTHENTICATIONFAILED"));
}

#[test]
fn an_unreachable_server_reports_the_error() {
    let report = login_report(Err(ProbeError::Unreachable("timed out".to_string())));
    assert_eq!(report.tone, Tone::Bad);
    assert!(report.message.contains("could not reach"));
    assert!(report.message.contains("timed out"));
}

#[test]
fn a_failed_password_command_never_connects() {
    let report = command_failed_report("no such command".to_string());
    assert_eq!(report.tone, Tone::Bad);
    assert_eq!(report.message, "no such command");
}

#[test]
fn an_oauth_account_reports_reachable_and_sign_in_needed() {
    let report = reach_report(Ok(()), false);
    assert_eq!(report.tone, Tone::Good);
    assert!(report.message.contains("sign in to finish"));
}

#[test]
fn an_oauth_account_with_a_grant_says_so() {
    let report = reach_report(Ok(()), true);
    assert_eq!(report.tone, Tone::Good);
    assert!(report.message.contains("already stored"));
}

#[test]
fn an_unreachable_oauth_server_reports_the_error() {
    let report = reach_report(Err(ProbeError::Unreachable("connection refused".to_string())), true);
    assert_eq!(report.tone, Tone::Bad);
    assert!(report.message.contains("could not reach"));
    assert_eq!(report.message, "could not reach the server: connection refused");
}

#[test]
fn the_test_spec_follows_the_account_type() {
    let form = filled_form();
    let spec = imap_spec(&form).ok().unwrap();
    assert_eq!(spec.host, "imap.example.com");
    assert_eq!(spec.port, IMAPS_PORT);
    assert_eq!(spec.user, "quin@example.com");
    assert_eq!(spec.kind, TestKind::Password { command: "pass show mail/work".to_string() });

    let mut blank = filled_form();
    blank.imap_host = "  ".to_string();
    assert_eq!(imap_spec(&blank).err().unwrap(), "give an imap host to test");
    let mut no_command = filled_form();
    no_command.password_cmd = String::new();
    assert_eq!(password_command(&no_command).err().unwrap(), "give a password command to test");

    let mut google = filled_form();
    google.account_type = AccountType::Google;
    let spec = oauth_spec(&google, true).ok().unwrap();
    assert_eq!(spec.host, "imap.gmail.com");
    assert_eq!(spec.kind, TestKind::Oauth { signed_in: true });
    assert_eq!(oauth_spec(&form, false).err().unwrap(), "choose an account type first");
    assert_eq!(working_message("imap.example.com"), "testing the connection to imap.example.com...");
}

#[test]
fn keychain_mode_reads_the_password_from_the_keychain() {
    let mut form = filled_form();
    form.keychain_available = true;
    form.keychain = true;
    assert_eq!(resolve_password_cmd(&form).err().unwrap(), "type the password to store in the Keychain");
    form.keychain_secret = "hunter2".to_string();
    assert_eq!(
        resolve_password_cmd(&form).ok().unwrap(),
        "security find-generic-password -w -s antiphon-mail-work"
    );
    assert!(labels(&form).contains(&"password (stored in Keychain)"));
}

#[test]
fn validation_names_the_first_missing_answer() {
    let mut form = filled_form();
    assert!(validate(&form).is_ok());
    form.smtp_host = " ".to_string();
    assert_eq!(validate(&form).err().unwrap(), "smtp host is required");
    form.account_type = AccountType::Microsoft;
    assert!(validate(&form).is_ok(), "an OAuth account has fixed servers");
    form.address = "no address".to_string();
    assert_eq!(validate(&form).err().unwrap(), "that does not look like an e-mail address");
    form.name = String::new();
    assert_eq!(validate(&form).err().unwrap(), "account name is required");
}

#[test]
fn an_oauth_form_answers_with_the_provider_hosts() {
    let mut form = filled_form();
    form.password_cmd = String::new();
    form.account_type = AccountType::Microsoft;
    form.imap_host = "stale.example.com".to_string();
    form.smtp_host = "stale.example.com".to_string();
    let a = answers(&form).ok().unwrap();
    assert_eq!(a.imap_host, "outlook.office365.com");
    assert_eq!(a.imap_user, "quin@example.com");
    assert_eq!(a.smtp_host, "smtp.office365.com");
    assert_eq!(a.password_cmd, "");
}

fn oauth_toml() -> &'static str {
    "[account]\n\
     name = \"work\"\n\
     \n\
     [imap]\n\
     host = \"imap.example.com\"\n\
     user = \"quin@example.com\"\n\
     \n\
     [oauth]\n\
     provider = \"microsoft\"\n\
     client_id = \"app-1\"\n\
     \n\
     [graph]\n\
     send = true\n\
     tenant = \"tenant-1\"\n\
     auth = \"app_only\"\n\
     secret_cmd = \"pass show graph\"  # rotate\n"
}

#[test]
fn choosing_none_drops_oauth_but_keeps_graph() {
    let text = with_oauth(oauth_toml(), &filled_form());
    assert!(!text.contains("[oauth]"), "{text}");
    assert!(!text.contains("provider ="), "{text}");
    assert!(text.contains("[graph]"), "graph survives: {text}");
    assert!(text.contains("secret_cmd = \"pass show graph\""));
}

#[test]
fn an_edit_keeps_the_graph_secret_command_and_comment() {
    let mut form = filled_form();
    form.account_type = AccountType::Microsoft;
    form.client_id = "app-2".to_string();
    form.graph_send = true;
    form.graph_auth = GraphAuth::AppOnly;
    form.graph_secret_cmd = "pass show graph".to_string();
    form.tenant = String::new();
    let text = with_oauth(oauth_toml(), &form);
    assert!(text.contains("client_id = \"app-2\""));
    assert!(!text.contains("tenant ="), "an emptied tenant is removed: {text}");
    assert!(text.contains("auth = \"app_only\""));
    assert!(text.contains("secret_cmd = \"pass show graph\"  # rotate"), "{text}");
}

#[test]
fn delegated_drops_the_graph_secret_command() {
    let mut form = filled_form();
    form.account_type = AccountType::Microsoft;
    form.graph_send = true;
    form.graph_auth = GraphAuth::Delegated;
    let text = with_oauth(oauth_toml(), &form);
    assert!(text.contains("auth = \"delegated\""), "{text}");
    assert!(!text.contains("secret_cmd"), "{text}");
}

#[test]
fn turning_graph_send_off_keeps_the_table() {
    let mut form = filled_form();
    form.account_type = AccountType::Microsoft;
    form.graph_send = false;
    let text = with_oauth(oauth_toml(), &form);
    assert!(text.contains("send = false"), "{text}");
    assert!(text.contains("secret_cmd = \"pass show graph\""));
}

#[test]
fn a_google_account_writes_only_the_oauth_table() {
    let mut form = filled_form();
    form.account_type = AccountType::Google;
    form.client_id = "app-1".to_string();
    let text = with_oauth("[account]\nname = \"work\"\n", &form);
    assert_eq!(
        text,
        "[account]\nname = \"work\"\n\n[oauth]\nclient_id = \"app-1\"\nprovider = \"google\"\n"
    );
}

#[test]
fn optional_keys_are_written_or_removed() {
    assert_eq!(optional_key("[t]\nk = \"a\"\n", "t", "k", ""), "[t]\n");
    assert_eq!(optional_key("[t]\n", "t", "k", "v"), "[t]\nk = \"v\"\n");
}

#[test]
fn a_fresh_microsoft_account_starts_with_non_mail_folders_unsynced() {
    let mut form = filled_form();
    form.account_type = AccountType::Microsoft;
    let text = seeded_defaults("[account]\n", &form, true);
    assert!(text.starts_with(
        "folders_unsynced = [\"calendar*\", \"contacts\", \"conversation history\", \"journal\", \"rss feeds\", \"outbox\"]\n"
    ), "{text}");
    assert_eq!(seeded_defaults("[account]\n", &form, false), "[account]\n");
    assert_eq!(seeded_defaults("[account]\n", &filled_form(), true), "[account]\n");
}

#[test]
fn keys_edit_step_and_save() {
    let mut form = filled_form();
    assert_eq!(form.feed(KeyPress::plain(KeyCode::Backspace)), FormOutcome::Edited);
    assert_eq!(form.address, "quin@example.co");
    assert_eq!(form.feed(KeyPress::plain(KeyCode::Char('m'))), FormOutcome::Edited);
    assert_eq!(form.address, "quin@example.com");
    form.feed(KeyPress::plain(KeyCode::Home));
    form.feed(KeyPress::plain(KeyCode::Delete));
    assert_eq!(form.address, "uin@example.com");
    form.feed(KeyPress::plain(KeyCode::Tab));
    assert_eq!(form.focus, 1);
    assert_eq!(form.cursor, 4);
    form.feed(KeyPress::plain(KeyCode::BackTab));
    form.feed(KeyPress::plain(KeyCode::BackTab));
    assert_eq!(form.focus, form.field_count() - 1, "focus wraps");
    assert_eq!(form.feed(KeyPress::plain(KeyCode::Enter)), FormOutcome::Save);
    assert_eq!(form.feed(KeyPress::ctrl(KeyCode::Char('s'))), FormOutcome::Save);
    assert_eq!(form.feed(KeyPress::plain(KeyCode::Esc)), FormOutcome::Close);
}

#[test]
fn graph_toggles_flip_with_space() {
    let mut form = filled_form();
    form.account_type = AccountType::Microsoft;
    let row = labels(&form).iter().position(|l| *l == "graph send").unwrap();
    form.focus = row;
    form.feed(KeyPress::plain(KeyCode::Char(' ')));
    assert!(form.graph_send);
    assert_eq!(form.field_value(row), "on");
    let auth = labels(&form).iter().position(|l| *l == "graph auth").unwrap();
    form.focus = auth;
    form.feed(KeyPress::plain(KeyCode::Right));
    assert_eq!(form.graph_auth, GraphAuth::AppOnly);
    assert!(labels(&form).contains(&"graph secret command"));
    assert!(form.field_masked(labels(&form).len() - 1) == false);
}

#[test]
fn the_form_type_picks_what_is_tested() {
    let form = filled_form();
    let spec = spec_for_form(&form, true).ok().unwrap();
    assert_eq!(spec.kind, TestKind::Password { command: "pass show mail/work".to_string() });
    let mut microsoft = filled_form();
    microsoft.account_type = AccountType::Microsoft;
    let spec = spec_for_form(&microsoft, false).ok().unwrap();
    assert_eq!(spec.host, "outlook.office365.com");
    assert_eq!(spec.kind, TestKind::Oauth { signed_in: false });
}

#[test]
fn a_password_command_output_loses_only_its_line_ends() {
    assert_eq!(password_from_output(true, b"hunter2\r\n").unwrap(), "hunter2");
    assert_eq!(password_from_output(true, b" spaced \n\n").unwrap(), " spaced ");
    assert_eq!(
        password_from_output(true, b"\n").unwrap_err(),
        "the password command produced nothing"
    );
    assert_eq!(
        password_from_output(false, b"hunter2\n").unwrap_err(),
        "the password command failed"
    );
    assert_eq!(password_from_output(true, &[0x68, 0xff, b'\n']).unwrap(), "h\u{fffd}");
    let stopped = stopped_report();
    assert_eq!(stopped.tone, Tone::Bad);
    assert_eq!(stopped.message, "the connection test stopped unexpectedly");
}

#[test]
fn a_test_reports_the_command_failure_or_the_probe() {
    let password = TestKind::Password { command: "pass show x".to_string() };
    let failed = antiphon::tui::account_form_conn::test_report(
        &password,
        Err("the password command failed".to_string()),
        Ok(()),
    );
    assert_eq!(failed.message, "the password command failed");
    assert_eq!(failed.tone, Tone::Bad);
    let signed = antiphon::tui::account_form_conn::test_report(&password, Ok(()), Ok(()));
    assert_eq!(signed.message, "reached the server and signed in");
    assert_eq!(signed.tone, Tone::Good);
    let oauth = antiphon::tui::account_form_conn::test_report(&TestKind::Oauth { signed_in: false }, Ok(()), Ok(()));
    assert_eq!(oauth.message, "reached the server; sign in to finish");
}
