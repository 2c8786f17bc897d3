use antiphon::tui::app::{App, MessageSummary, OpIntent};
use antiphon::tui::bulk::{
    examples_of, op_message_id, parse_bulk, parse_move, queued_notice, subject_or_placeholder,
    untouched, warning_line, Bulk, BulkAction, BulkConfirm, BULK_WARN_THRESHOLD, EXAMPLE_LIMIT,
};
use antiphon::tui::commands::PromptKind;

fn app_with_messages(count: usize) -> App {
    App::new(&no_config(), Vec::new(), (0..count).map(|i| summary(&format!("m{i}"), &format!("Subject {i}"))).collect(), count as u32, Vec::new())
}

fn summary(id: &str, subject: &str) -> MessageSummary {
    MessageSummary {
        id: id.to_string(),
        thread_id: String::new(),
        subject: subject.to_string(),
        from: String::new(),
        to: String::new(),
        date_unix: 0,
        tags: Vec::new(),
        unread: false,
        path: String::new(),
        in_reply_to: None,
        references: Vec::new(),
    }
}

#[test]
fn destructive_and_large_sets_warn() {
    let delete = warning_line(&BulkAction::Delete, 3).unwrap();
    assert!(delete.contains("cannot be undone"));
    assert!(warning_line(&BulkAction::Trash, BULK_WARN_THRESHOLD).is_none());
    let loud = warning_line(&BulkAction::Trash, BULK_WARN_THRESHOLD + 1).unwrap();
    assert!(loud.contains("far beyond"));
    assert_eq!(loud, "This affects 101 messages, far beyond the visible list.");
    assert_eq!(delete, "Permanently deletes 3 messages. This cannot be undone.");
}

#[test]
fn the_four_commands_arm_their_actions() {
    let cases: &[(&str, BulkAction)] = &[
        ("trash-all", BulkAction::Trash),
        ("archive-all", BulkAction::Archive),
        ("delete-all", BulkAction::Delete),
        ("move-all lists/rust", BulkAction::Move("lists/rust".into())),
    ];
    for (command, action) in cases {
        let mut app = app_with_messages(1);
        app.run_command(command);
        assert_eq!(app.bulk, Some(Bulk::Armed(action.clone())), "{command}");
    }
    assert_eq!(parse_bulk("trash-all"), Some(Ok(BulkAction::Trash)));
    assert_eq!(parse_bulk("archive-all"), Some(Ok(BulkAction::Archive)));
    assert_eq!(parse_bulk("delete-all"), Some(Ok(BulkAction::Delete)));
    assert_eq!(parse_bulk("move-all lists/rust"), Some(Ok(BulkAction::Move("lists/rust".to_string()))));
    assert_eq!(parse_bulk("sync"), None);
}

#[test]
fn move_all_without_a_folder_arms_nothing() {
    let mut app = app_with_messages(1);
    app.run_command("move-all");
    assert!(app.bulk.is_none());
    assert_eq!(app.notice.as_deref(), Some("usage: move-all <folder>"));
    assert_eq!(parse_bulk("move-all"), Some(Err("usage: move-all <folder>".to_string())));
    assert_eq!(parse_move("   "), None);
}

#[test]
fn a_blank_subject_shows_a_placeholder() {
    assert_eq!(subject_or_placeholder("  "), "(no subject)");
    assert_eq!(subject_or_placeholder(" Hi "), "Hi");
}

#[test]
fn the_sample_is_capped() {
    let summaries: Vec<MessageSummary> =
        (0..25).map(|index| summary(&format!("m{index}"), &format!("Subject {index}"))).collect();
    let examples = examples_of(&summaries);
    assert_eq!(examples.len(), EXAMPLE_LIMIT);
    assert_eq!(examples[0], "Subject 0");
    assert_eq!(examples_of(&vec![summary("a", "")]), ["(no subject)"]);
}

#[test]
fn titles_and_notices_name_the_action_and_count() {
    assert_eq!(BulkAction::Trash.title(25), " trash 25 messages ");
    assert_eq!(BulkAction::Move("ci".to_string()).title(2), " move 2 messages to ci ");
    assert_eq!(BulkAction::Delete.title(1), " delete 1 messages permanently ");
    assert_eq!(BulkAction::Archive.verb(), "archive");
    assert!(BulkAction::Delete.is_destructive());
    assert!(!BulkAction::Trash.is_destructive());
    assert_eq!(queued_notice(&BulkAction::Delete, 2), "queued permanent delete for 2 messages");
}

#[test]
fn confirming_drops_the_touched_rows() {
    let messages = vec![summary("m0", "a"), summary("m1", "b"), summary("m2", "c")];
    let intents = vec![
        OpIntent::Delete { account: "work".to_string(), message_id: "m0".to_string() },
        OpIntent::Delete { account: "work".to_string(), message_id: "m1".to_string() },
    ];
    assert_eq!(op_message_id(&intents[1]), "m1");
    let left = untouched(messages, &intents);
    let ids: Vec<&str> = left.iter().map(|m| m.id.as_str()).collect();
    assert_eq!(ids, ["m2"], "the touched rows leave the view");
}

fn delete(id: &str) -> OpIntent {
    OpIntent::Delete { account: "work".to_string(), message_id: id.to_string() }
}

#[test]
fn open_confirm_shows_the_count_and_a_capped_sample() {
    let mut app = app_with_messages(1);
    let summaries: Vec<MessageSummary> =
        (0..25).map(|index| summary(&format!("m{index}"), &format!("Subject {index}"))).collect();
    let intents: Vec<OpIntent> = (0..25).map(|index| delete(&format!("m{index}"))).collect();
    app.open_confirm(BulkAction::Trash, summaries, intents);
    let Some(Bulk::Confirm(confirm)) = &app.bulk else {
        panic!("expected a confirm");
    };
    assert_eq!(confirm.count, 25);
    assert_eq!(confirm.examples.len(), EXAMPLE_LIMIT);
    assert_eq!(confirm.examples[0], "Subject 0");
    assert_eq!(confirm.intents.len(), 25);
    assert_eq!(app.prompt.as_ref().map(|p| p.kind), Some(PromptKind::ConfirmBulk));
}

#[test]
fn open_confirm_on_no_matches_queues_nothing() {
    let mut app = app_with_messages(1);
    app.open_confirm(BulkAction::Trash, Vec::new(), Vec::new());
    assert!(app.bulk.is_none());
    assert!(app.prompt.is_none());
    assert_eq!(app.notice.as_deref(), Some("nothing matches this search"));
}

#[test]
fn confirming_queues_the_ops_and_drops_the_rows() {
    let mut app = app_with_messages(3);
    app.total_messages = 3;
    app.bulk = Some(Bulk::Confirm(BulkConfirm {
        action: BulkAction::Delete,
        count: 2,
        examples: Vec::new(),
        intents: vec![delete("m0"), delete("m1")],
    }));
    let queued = app.queue_confirmed();
    assert_eq!(queued, 2);
    assert_eq!(app.pending_ops.len(), 2);
    let ids: Vec<&str> = app.messages.iter().map(|m| m.id.as_str()).collect();
    assert_eq!(ids, ["m2"], "the touched rows leave the view");
    assert_eq!(app.total_messages, 1);
    assert!(app.bulk.is_none());
    assert_eq!(app.notice.as_deref(), Some("queued permanent delete for 2 messages"));
}

#[test]
fn cancelling_queues_nothing() {
    let mut app = app_with_messages(2);
    app.bulk = Some(Bulk::Confirm(BulkConfirm {
        action: BulkAction::Trash,
        count: 2,
        examples: Vec::new(),
        intents: vec![delete("m0")],
    }));
    app.cancel_bulk();
    assert!(app.bulk.is_none());
    assert!(app.pending_ops.is_empty());
    assert_eq!(app.messages.len(), 2, "nothing removed");
    assert_eq!(app.notice.as_deref(), Some("cancelled; nothing queued"));
}

#[test]
fn an_armed_action_is_taken_once_and_a_stale_queue_does_nothing() {
    let mut app = app_with_messages(2);
    app.run_command("archive-all");
    assert_eq!(app.take_armed(), Some(BulkAction::Archive));
    assert_eq!(app.take_armed(), None);
    app.selected = 1;
    app.run_command("trash-all");
    assert_eq!(app.queue_confirmed(), 0, "only a confirmation queues");
    assert!(app.bulk.is_none());
    assert_eq!(app.messages.len(), 2);
}

#[test]
fn the_selection_follows_the_rows_that_remain() {
    let mut app = app_with_messages(3);
    app.selected = 2;
    app.total_messages = 1;
    app.bulk = Some(Bulk::Confirm(BulkConfirm {
        action: BulkAction::Trash,
        count: 2,
        examples: Vec::new(),
        intents: vec![delete("m1"), delete("m2")],
    }));
    app.queue_confirmed();
    assert_eq!(app.selected, 0);
    assert_eq!(app.total_messages, 0, "the total never underflows");
}

#[test]
fn the_modal_draws_the_count_and_sample_over_the_list() {
    let summaries: Vec<MessageSummary> =
        (0..25).map(|index| summary(&format!("m{index}"), &format!("Subject {index}"))).collect();
    let confirm = BulkConfirm {
        action: BulkAction::Trash,
        count: summaries.len(),
        examples: examples_of(&summaries),
        intents: Vec::new(),
    };
    let text = confirm.modal_text().join("\n");
    assert!(BulkAction::Trash.title(confirm.count).contains("trash 25 messages"));
    assert!(text.contains("Subject 0"), "a sample subject shows");
    assert!(text.contains("and 15 more"), "the remainder is noted");
}

#[test]
fn a_delete_modal_leads_with_its_warning_and_a_blank_line() {
    let confirm = BulkConfirm {
        action: BulkAction::Delete,
        count: 2,
        examples: vec!["One".to_string(), "Two".to_string()],
        intents: Vec::new(),
    };
    assert_eq!(
        confirm.modal_text(),
        vec![
            "Permanently deletes 2 messages. This cannot be undone.".to_string(),
            String::new(),
            " One".to_string(),
            " Two".to_string(),
        ]
    );
}

fn no_config() -> antiphon::config::Loaded {
    antiphon::config::Loaded {
        accounts: Vec::new(),
        reading_pane: antiphon::tui::app::ReadingPane::Below,
        accounts_bar: antiphon::config::AccountsBar::Sidebar,
        folder_aliases: Vec::new(),
    }
}
