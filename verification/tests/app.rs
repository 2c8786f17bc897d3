use antiphon::tui::app::DispatchStep;
use antiphon::tui::folders::AccountEntry;
use antiphon::tui::keys::KeyCode;
use antiphon::tui::mailops::folder_of;
use antiphon::config::{AccountFile, AccountsBar, Loaded};
use antiphon::tui::app::{
    Action, App, KeyRoute, MessageSummary, OpIntent, ReadingPane, View, ViewScope, HALF_PAGE_ROWS,
};
use antiphon::tui::attach::Attachment;
use antiphon::tui::complete::Contact;
use antiphon::tui::compose::{ComposeState, IdentityChoice};
use antiphon::tui::drafts::DraftFields;
use antiphon::tui::identity::ComposeIdentity;
use antiphon::tui::mailops::account_of;
use antiphon::tui::commands::{PatchCommand, PromptKind};
use antiphon::tui::crypto::PgpPlan;

fn message(index: usize) -> MessageSummary {
    MessageSummary {
        id: format!("m{index}"),
        thread_id: String::new(),
        subject: format!("Subject {index}"),
        from: "alba@example.com".to_string(),
        to: "me@example.com".to_string(),
        date_unix: 0,
        tags: vec!["unread".to_string()],
        unread: true,
        path: format!("store/maildir/work/cur/{index}.eml"),
        in_reply_to: None,
        references: Vec::new(),
    }
}

fn app_with_messages(count: usize) -> App {
    App::new(&no_config(), Vec::new(), (0..count).map(message).collect(), count as u32, vec!["me@example.com".to_string()])
}

#[test]
fn movement_clamps_at_both_ends() {
    let mut app = app_with_messages(3);
    app.apply(Action::MoveUp);
    assert_eq!(app.selected, 0);
    app.apply(Action::Bottom);
    assert_eq!(app.selected, 2);
    app.apply(Action::MoveDown);
    assert_eq!(app.selected, 2);
    app.apply(Action::HalfPageUp);
    assert_eq!(app.selected, 0);
}

#[test]
fn half_page_moves_by_the_constant() {
    let mut app = app_with_messages(30);
    app.apply(Action::HalfPageDown);
    assert_eq!(app.selected, HALF_PAGE_ROWS);
}

#[test]
fn reading_pane_cycles_through_all_three() {
    let mut app = app_with_messages(1);
    app.apply(Action::CycleReadingPane);
    assert_eq!(app.reading_pane, ReadingPane::Right);
    app.apply(Action::CycleReadingPane);
    assert_eq!(app.reading_pane, ReadingPane::Off);
    app.apply(Action::CycleReadingPane);
    assert_eq!(app.reading_pane, ReadingPane::Below);
}

#[test]
fn unhandled_actions_leave_a_notice_and_quit_quits() {
    let mut app = app_with_messages(1);
    app.apply(Action::OpenLink);
    assert!(app.notice.is_some());
    app.apply(Action::Quit);
    assert!(app.quit);
}

#[test]
fn empty_list_never_panics() {
    let mut app = app_with_messages(0);
    app.apply(Action::Bottom);
    app.apply(Action::MoveDown);
    assert_eq!(app.selected, 0);
    assert!(app.selected_message().is_none());
}

#[test]
fn keys_route_to_the_editor_view_before_the_keymap() {
    let mut app = app_with_messages(1);
    assert_eq!(app.key_route(), KeyRoute::Keymap);
    app.view = View::Editor;
    assert_eq!(app.key_route(), KeyRoute::Editor);
    app.view = View::List;
    app.apply(Action::Search);
    assert_eq!(app.key_route(), KeyRoute::Prompt);
}

#[test]
fn editor_view_swallows_actions_unchanged() {
    let mut app = app_with_messages(1);
    app.view = View::Editor;
    app.apply(Action::Quit);
    assert!(!app.quit);
    assert_eq!(app.view, View::Editor);
}

#[test]
fn prompt_edits_cancels_and_submits() {
    let mut app = app_with_messages(1);
    app.apply(Action::Search);
    for ch in "tag:unread".chars() {
        app.prompt_push(ch);
    }
    app.prompt_backspace();
    let prompt = app.prompt_submit().expect("open prompt");
    assert_eq!(prompt.kind, PromptKind::Search);
    assert_eq!(prompt.buffer, "tag:unrea");
    assert!(app.prompt.is_none());

    app.apply(Action::Command);
    app.prompt_cancel();
    assert!(app.prompt.is_none());
}

#[test]
fn unread_messages_are_counted() {
    let mut app = app_with_messages(3);
    assert_eq!(app.unread_count(), 3);
    app.messages[1].unread = false;
    assert_eq!(app.unread_count(), 2);
}

#[test]
fn pager_scrolls_clamped_and_returns_to_the_list() {
    let mut app = app_with_messages(1);
    app.open_pager("one\ntwo\nthree\n".to_string());
    assert_eq!(app.view, View::Pager);
    app.apply(Action::MoveUp);
    assert_eq!(app.pager_scroll, 0);
    app.apply(Action::HalfPageDown);
    assert_eq!(app.pager_scroll, 3);
    app.apply(Action::Top);
    assert_eq!(app.pager_scroll, 0);
    app.apply(Action::Quit);
    assert_eq!(app.view, View::List);
    assert!(!app.quit);
}

#[test]
fn opening_the_pager_marks_the_message_read() {
    let mut app = app_with_messages(1);
    app.open_pager(String::new());
    assert!(!app.messages[0].unread);
    assert_eq!(app.pending_ops.len(), 1);
    assert_eq!(
        app.pending_ops[0],
        OpIntent::Flag {
            account: "work".to_string(),
            message_id: "m0".to_string(),
            add: Vec::new(),
            remove: vec!["unread".to_string()],
        }
    );
    app.apply(Action::Quit);
    app.open_pager(String::new());
    assert_eq!(app.pending_ops.len(), 1, "a read message queues nothing more");
}

#[test]
fn the_account_is_the_directory_below_the_maildir() {
    assert_eq!(account_of("store/maildir/work/cur/x.eml"), "work");
    assert_eq!(account_of("/home/q/.local/share/antiphon/maildir/home/lists/cur/1"), "home");
    assert_eq!(account_of("elsewhere/x.eml"), "");
}

#[test]
fn pgp_toggles_shape_the_next_compose_plan() {
    let cases: &[(bool, &[&str], bool, bool)] = &[
        (false, &[], false, false),
        (true, &[], true, false),
        (true, &["nosign"], false, false),
        (false, &["sign"], true, false),
        (false, &["encrypt"], false, true),
        (false, &["sign", "encrypt"], true, true),
        (true, &["encrypt"], true, true),
        (true, &["encrypt", "noencrypt"], true, false),
        (false, &["encrypt", "nosign"], false, true),
        (false, &["sign", "nosign"], false, false),
    ];
    for (default_sign, commands, sign, encrypt) in cases {
        let mut app = app_with_messages(1);
        for command in *commands {
            app.run_command(command);
        }
        let plan = app.take_pgp_plan(*default_sign);
        let expected = PgpPlan { sign: *sign, encrypt: *encrypt };
        assert_eq!(plan, expected, "{commands:?}");
    }
}

#[test]
fn pgp_overrides_are_consumed_by_one_compose() {
    let mut app = app_with_messages(1);
    app.run_command("sign");
    app.run_command("encrypt");
    assert!(app.notice.as_deref().is_some_and(|n| n.contains("encryption on")));
    let armed = app.take_pgp_plan(false);
    assert_eq!(armed, PgpPlan { sign: true, encrypt: true });
    let next = app.take_pgp_plan(false);
    assert_eq!(next, PgpPlan::default());
    assert!(app.take_pgp_plan(true).sign);
}

#[test]
fn patch_commands_arm_pending_state() {
    let mut app = app_with_messages(1);
    app.run_command("save-patches");
    assert_eq!(app.notice.as_deref(), Some("usage: save-patches <path>"));
    assert!(app.pending_patches.is_none());
    app.run_command("save-patches /tmp/series.mbox");
    assert_eq!(app.pending_patches, Some(PatchCommand::Save("/tmp/series.mbox".into())));
    app.run_command("apply ../repo");
    assert_eq!(app.pending_patches, Some(PatchCommand::Apply("../repo".into())));
    app.run_command("template reply");
    assert_eq!(app.pending_template.as_deref(), Some("reply"));
}

#[test]
fn commands_quit_or_complain() {
    let mut app = app_with_messages(1);
    app.run_command("nonsense");
    assert!(app.notice.as_deref().is_some_and(|n| n.contains("nonsense")));
    app.run_command("  q ");
    assert!(app.quit);
}

#[test]
fn frames_shows_the_statistics() {
    let mut app = app_with_messages(1);
    app.frame_stats.record_micros(1500);
    app.run_command("frames");
    assert_eq!(
        app.notice.as_deref(),
        Some("frames: 1 drawn, last 1500 us, mean 1500 us, max 1500 us")
    );
}

fn test_state() -> ComposeState {
    let identity = ComposeIdentity {
        name: Some("Tester".to_string()),
        address: "tester@example.com".to_string(),
        signature: None,
        pgp_sign: false,
        pgp_key: None,
    };
    let choices = vec![IdentityChoice { account: "work".to_string(), identity }];
    ComposeState::new(choices, 0, DraftFields::default(), (None, None))
}

fn file(name: &str) -> Attachment {
    Attachment {
        path: name.to_string(),
        filename: name.to_string(),
        content_type: "text/plain".to_string(),
        bytes: Vec::new(),
    }
}

#[test]
fn compose_stages_route_and_abort_back_to_the_list() {
    let mut app = app_with_messages(1);
    app.start_compose(test_state());
    assert_eq!(app.view, View::Compose);
    assert_eq!(app.key_route(), KeyRoute::Compose);
    app.view = View::Review;
    assert_eq!(app.key_route(), KeyRoute::Review);
    app.apply(Action::Quit);
    assert_eq!(app.view, View::Review, "actions swallowed");
    app.abort_compose("compose aborted");
    assert_eq!(app.view, View::List);
    assert!(app.compose.is_none());
    assert_eq!(app.notice.as_deref(), Some("compose aborted"));
}

#[test]
fn results_replace_the_window_and_reset_selection() {
    let mut app = app_with_messages(5);
    app.apply(Action::Bottom);
    app.set_results(Vec::new(), 0, "tag:flagged".into());
    assert_eq!(app.selected, 0);
    assert_eq!(app.total_messages, 0);
    assert_eq!(app.current_query, "tag:flagged");
}

#[test]
fn a_fresh_compose_follows_the_scoped_account() {
    let mut app = app_with_messages(0);
    app.accounts = vec!["a".to_string(), "b".to_string()];
    assert_eq!(app.compose_account(), "a");
    app.scope = ViewScope::Account("b".into());
    assert_eq!(app.compose_account(), "b");
    app.scope = ViewScope::Unified;
    assert_eq!(app.compose_account(), "a");
    app.accounts.clear();
    assert_eq!(app.compose_account(), "");
}

#[test]
fn the_review_screen_selects_removes_and_toggles() {
    let mut app = app_with_messages(1);
    app.contacts = vec![Contact { address: "alba@example.com".to_string(), name: "Alba".to_string(), score: 3 }];
    let mut state = test_state();
    state.add_attachment(file("a.txt"));
    state.add_attachment(file("b.txt"));
    app.start_compose(state);
    assert_eq!(app.compose.as_ref().unwrap().contacts.len(), 1, "the address book rides along");
    app.view = View::Review;
    assert_eq!(app.compose.as_ref().unwrap().selected_attachment, 1);
    app.apply(Action::MoveDown);
    assert_eq!(app.compose.as_ref().unwrap().selected_attachment, 0, "the selection wraps");
    app.apply(Action::MoveUp);
    assert_eq!(app.compose.as_ref().unwrap().selected_attachment, 1);
    app.apply(Action::RemoveAttachment);
    let state = app.compose.as_ref().unwrap();
    assert_eq!(state.attachments.len(), 1);
    assert_eq!(state.attachments[0].filename, "a.txt");
    assert_eq!(state.selected_attachment, 0);
    app.apply(Action::ToggleSign);
    app.apply(Action::ToggleEncrypt);
    let state = app.compose.as_ref().unwrap();
    assert_eq!(state.sign_override, Some(true));
    assert_eq!(state.encrypt_override, Some(true));
    app.apply(Action::ToggleSign);
    assert_eq!(app.compose.as_ref().unwrap().sign_override, Some(false));
    assert_eq!(app.view, View::Review);
}

#[test]
fn t_pivots_to_the_thread_and_back_restores() {
    let mut app = app_with_messages(2);
    app.messages[0].thread_id = "th7".to_string();
    app.current_query = "tag:inbox".to_string();
    app.active_search = Some("inbox".to_string());

    app.apply(Action::ThreadView);
    assert_eq!(app.current_query, "thread:th7");
    assert_eq!(app.active_search.as_deref(), Some("thread"));
    assert!(app.take_requery());

    app.apply(Action::Back);
    assert_eq!(app.current_query, "tag:inbox");
    assert_eq!(app.active_search.as_deref(), Some("inbox"));
    assert!(app.take_requery());
    app.apply(Action::Back);
    assert!(!app.take_requery(), "back is idle with no thread");
    assert!(app.notice.is_none());
}

#[test]
fn a_threadless_message_never_pivots() {
    let mut app = app_with_messages(1);
    app.apply(Action::ThreadView);
    assert!(app.thread_return.is_none());
    assert!(!app.take_requery());
    assert_eq!(app.notice.as_deref(), Some("no thread for this message"));
}

#[test]
fn pivoting_again_keeps_the_first_listing_to_return_to() {
    let mut app = app_with_messages(2);
    app.messages[0].thread_id = "a".to_string();
    app.messages[1].thread_id = "b".to_string();
    app.current_query = "tag:inbox".to_string();
    app.apply(Action::ThreadView);
    app.selected = 1;
    app.apply(Action::ThreadView);
    assert_eq!(app.current_query, "thread:b");
    app.apply(Action::Back);
    assert_eq!(app.current_query, "tag:inbox");
    assert_eq!(app.active_search.as_deref(), Some("all"));
}

#[test]
fn a_compose_takes_the_armed_overrides_once() {
    let identity = |address: &str| ComposeIdentity {
        name: None,
        address: address.to_string(),
        signature: None,
        pgp_sign: false,
        pgp_key: None,
    };
    let configured = vec![
        IdentityChoice { account: "personal".to_string(), identity: identity("a@example.com") },
        IdentityChoice { account: "work".to_string(), identity: identity("b@example.com") },
    ];
    let mut app = App::new(&no_config(), Vec::new(), Vec::new(), 0, Vec::new());
    app.pending_sign = Some(true);
    let fields = DraftFields { subject: "Hi".to_string(), ..DraftFields::default() };
    let state = app.state_for(configured.clone(), "work", &identity("b@example.com"), fields);
    assert_eq!(state.chosen, 1);
    assert_eq!(state.sign_override, Some(true));
    assert_eq!(state.encrypt_override, None);
    assert_eq!(app.pending_sign, None, "consumed");
    let one_off = app.state_for(configured, "other", &identity("c@example.com"), DraftFields::default());
    assert_eq!(one_off.chosen, 0);
    assert_eq!(one_off.choices.len(), 3);
    assert_eq!(one_off.choices[0].identity.address, "c@example.com");
    assert_eq!(one_off.sign_override, None);
}

fn no_config() -> antiphon::config::Loaded {
    antiphon::config::Loaded {
        accounts: Vec::new(),
        reading_pane: antiphon::tui::app::ReadingPane::Below,
        accounts_bar: antiphon::config::AccountsBar::Sidebar,
        folder_aliases: Vec::new(),
    }
}

#[test]
fn a_new_client_takes_its_accounts_total_and_layout_from_the_configuration() {
    let account = |name: &str| AccountFile {
        name: name.to_string(),
        imap_host: String::new(),
        imap_user: String::new(),
        imap_password_cmd: None,
        smtp_host: None,
        identities: Vec::new(),
    };
    let mut loaded = Loaded {
        accounts: vec![account("work"), account("home")],
        reading_pane: ReadingPane::Right,
        accounts_bar: AccountsBar::Sidebar,
        folder_aliases: Vec::new(),
    };
    let app = App::new(&loaded, Vec::new(), Vec::new(), 42, Vec::new());
    assert_eq!(app.accounts, vec!["work".to_string(), "home".to_string()]);
    assert_eq!(app.total_messages, 42);
    assert_eq!(app.reading_pane, ReadingPane::Right);
    assert_eq!(app.scope, ViewScope::Unified);
    loaded.accounts_bar = AccountsBar::Tabs;
    let tabs = App::new(&loaded, Vec::new(), Vec::new(), 0, Vec::new());
    assert_eq!(tabs.scope, ViewScope::Account("work".to_string()));
}

fn picker_app() -> App {
    let mut config = no_config();
    config.folder_aliases = vec![("work".to_string(), "inbox/accounts".to_string(), "accounts".to_string())];
    let entry = |name: &str, folders: &[&str]| AccountEntry {
        name: name.to_string(),
        folders: folders.iter().map(|f| f.to_string()).collect(),
        ..AccountEntry::default()
    };
    let mut app = App::new(
        &config,
        vec![entry("work", &["inbox/accounts"]), entry("home", &["archive"])],
        (0..1).map(message).collect(),
        1,
        Vec::new(),
    );
    app.messages[0].path = "store/maildir/work/cur/one.eml".to_string();
    app
}

#[test]
fn the_picker_lists_the_accounts_other_folders_by_alias() {
    let mut app = picker_app();
    app.apply(Action::MoveTo);
    let picker = app.folder_picker.as_ref().unwrap();
    assert_eq!(
        picker.folders,
        [("inbox/accounts".to_string(), "accounts".to_string())],
        "the root is no target while the message sits in it"
    );
}

#[test]
fn entering_a_choice_moves_and_closes() {
    let mut app = picker_app();
    app.apply(Action::MoveTo);
    app.feed_picker(KeyCode::Enter);
    assert!(app.folder_picker.is_none());
    assert!(app.messages.is_empty());
    let Some(OpIntent::Move { to_folder, from_folder, .. }) = app.pending_ops.last() else {
        panic!("expected a move");
    };
    assert_eq!(to_folder, "inbox/accounts");
    assert_eq!(from_folder, "");
}

#[test]
fn esc_closes_without_moving() {
    let mut app = picker_app();
    app.apply(Action::MoveTo);
    app.feed_picker(KeyCode::Esc);
    assert!(app.folder_picker.is_none());
    assert_eq!(app.messages.len(), 1);
}

#[test]
fn a_message_in_a_folder_may_move_back_to_the_root() {
    let mut app = picker_app();
    app.messages[0].path = "store/maildir/work/inbox/accounts/new/one.eml".to_string();
    app.apply(Action::MoveTo);
    let picker = app.folder_picker.as_ref().unwrap();
    assert_eq!(picker.folders, [(String::new(), "inbox".to_string())]);
    let mut lonely = picker_app();
    lonely.messages[0].path = "store/maildir/solo/cur/one.eml".to_string();
    lonely.apply(Action::MoveTo);
    assert!(lonely.folder_picker.is_none());
    assert_eq!(lonely.notice.as_deref(), Some("no other folders on this account"));
}

#[test]
fn folding_a_flat_list_reports_it() {
    let mut flat = app_with_messages(2);
    flat.apply(Action::FoldToggle);
    assert_eq!(flat.notice.as_deref(), Some("open a thread first"));
}

#[test]
fn a_message_folder_is_read_off_its_path() {
    assert_eq!(folder_of("store/maildir/work/cur/1.eml"), "");
    assert_eq!(folder_of("store/maildir/home/lists/rust/new/2.eml"), "lists/rust");
    assert_eq!(account_of("store/maildir/home/lists/rust/new/2.eml"), "home");
}

#[test]
fn actions_route_before_the_views_see_them() {
    let step = antiphon::tui::app::dispatch_step;
    assert_eq!(step(View::List, Action::Compose, false, true), DispatchStep::FreshCompose);
    assert_eq!(step(View::Pager, Action::Compose, false, true), DispatchStep::Apply);
    assert_eq!(step(View::Pager, Action::Other, true, true), DispatchStep::Reply);
    assert_eq!(step(View::Pager, Action::Help, false, true), DispatchStep::Help);
    assert_eq!(step(View::Pager, Action::ToggleHtml, false, true), DispatchStep::TogglePagerHtml);
    assert_eq!(step(View::List, Action::ToggleHtml, false, true), DispatchStep::TogglePreviewHtml);
    assert_eq!(step(View::Review, Action::ToggleHtml, false, true), DispatchStep::Nothing);
    assert_eq!(step(View::List, Action::Open, false, true), DispatchStep::OpenSelected);
    assert_eq!(step(View::List, Action::Open, false, false), DispatchStep::Nothing);
    assert_eq!(step(View::List, Action::MoveDown, false, true), DispatchStep::Apply);
}
