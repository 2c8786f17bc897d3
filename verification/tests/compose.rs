use antiphon::tui::attach::Attachment;
use antiphon::tui::compose_assembly::envelope;
use antiphon::tui::compose::{
    choices_for, resume_identity, resumed_compose, ComposeState, IdentityChoice,
};
use antiphon::tui::crypto::PgpPlan;
use antiphon::tui::drafts::{DraftFields, SavedDraft};
use antiphon::tui::headers::HeadersOutcome;
use antiphon::tui::identity::ComposeIdentity;
use antiphon::tui::keys::{KeyCode, KeyPress};

fn tester_identity() -> ComposeIdentity {
    ComposeIdentity {
        name: Some("Tester".to_string()),
        address: "tester@example.com".to_string(),
        signature: None,
        pgp_sign: false,
        pgp_key: None,
    }
}

fn second_identity() -> ComposeIdentity {
    ComposeIdentity {
        name: None,
        address: "quin@example.org".to_string(),
        signature: None,
        pgp_sign: true,
        pgp_key: Some("ABCD".to_string()),
    }
}

fn configured() -> Vec<IdentityChoice> {
    vec![
        IdentityChoice { account: "personal".to_string(), identity: tester_identity() },
        IdentityChoice { account: "work".to_string(), identity: second_identity() },
    ]
}

fn test_state() -> ComposeState {
    ComposeState::new(configured(), 0, DraftFields::default(), (None, None))
}

fn file(name: &str) -> Attachment {
    Attachment {
        path: name.to_string(),
        filename: name.to_string(),
        content_type: "text/plain".to_string(),
        bytes: Vec::new(),
    }
}

#[test]
fn from_cycles_through_identities_and_wraps() {
    let mut state = test_state();
    assert_eq!(state.account(), "personal");
    assert_eq!(state.sender_line(), "Tester <tester@example.com>");
    state.cycle_from(1);
    assert_eq!(state.account(), "work");
    assert_eq!(state.sender_line(), "quin@example.org");
    state.cycle_from(1);
    assert_eq!(state.account(), "personal");
    state.cycle_from(-1);
    assert_eq!(state.account(), "work");
}

#[test]
fn the_plan_follows_the_identity_until_overridden() {
    let mut state = test_state();
    assert_eq!(state.plan(), PgpPlan::default());
    state.cycle_from(1);
    assert!(state.plan().sign);
    assert_eq!(state.crypto().key.as_deref(), Some("ABCD"));
    state.sign_override = Some(false);
    state.encrypt_override = Some(true);
    assert!(!state.plan().sign);
    assert!(state.plan().encrypt);
    state.cycle_from(-1);
    assert!(state.plan().encrypt, "overrides survive cycling");
}

#[test]
fn attachment_selection_clamps_wraps_and_removes() {
    let mut state = test_state();
    state.select_attachment(1);
    state.remove_selected_attachment();
    assert!(state.attachments.is_empty(), "empty list is safe");

    state.add_attachment(file("a.txt"));
    state.add_attachment(file("b.txt"));
    state.add_attachment(file("c.txt"));
    assert_eq!(state.selected_attachment, 2, "newest selected");
    state.select_attachment(1);
    assert_eq!(state.selected_attachment, 0, "wraps forward");
    state.select_attachment(-1);
    assert_eq!(state.selected_attachment, 2, "wraps back");
    state.remove_selected_attachment();
    assert_eq!(state.attachments.len(), 2);
    assert_eq!(state.selected_attachment, 1, "clamped to last");
    state.select_attachment(-1);
    state.remove_selected_attachment();
    assert_eq!(state.attachments[0].filename, "b.txt");
}

#[test]
fn the_from_row_cycles_identities_from_the_keyboard() {
    let mut state = test_state();
    state.step_focus(-1);
    assert!(state.at_last_field());
    assert_eq!(state.edit(KeyPress::plain(KeyCode::Right)), HeadersOutcome::CycleFrom(1));
    assert_eq!(state.account(), "work");
    assert_eq!(state.edit(KeyPress::plain(KeyCode::Left)), HeadersOutcome::CycleFrom(-1));
    assert_eq!(state.account(), "personal");
    state.step_focus(1);
    state.edit(KeyPress::plain(KeyCode::Char('a')));
    assert_eq!(state.fields.to, "a");
    assert_eq!(state.account(), "personal");
    state.close_completion();
    assert!(state.completion.is_none());
}

#[test]
fn a_resumed_identity_is_selected_or_added_first() {
    let (choices, chosen) = choices_for(configured(), "work", &second_identity());
    assert_eq!(choices.len(), 2);
    assert_eq!(chosen, 1);
    let gone = ComposeIdentity { address: "old@example.net".to_string(), ..tester_identity() };
    let (choices, chosen) = choices_for(configured(), "personal", &gone);
    assert_eq!(chosen, 0);
    assert_eq!(choices.len(), 3);
    assert_eq!(choices[0].identity, gone);
    assert_eq!(choices[0].account, "personal");
    assert_eq!(choices[1].account, "personal");
}

fn saved(account: &str, from: &str, sign: Option<bool>) -> SavedDraft {
    SavedDraft {
        from_name: Some("Old Name".to_string()),
        from: from.to_string(),
        account: account.to_string(),
        fields: DraftFields {
            to: "alba@example.com".to_string(),
            subject: "draft".to_string(),
            body: "half written\n".to_string(),
            ..DraftFields::default()
        },
        sign,
        encrypt: Some(true),
        attachments: vec!["notes.txt".to_string()],
    }
}

#[test]
fn a_resumed_draft_selects_its_configured_identity() {
    let draft = saved("work", "quin@example.org", Some(false));
    assert_eq!(resume_identity(&configured(), &draft), second_identity());
    let state = resumed_compose(configured(), draft);
    assert_eq!(state.choices.len(), 2);
    assert_eq!(state.chosen, 1);
    assert_eq!(state.account(), "work");
    assert_eq!(state.sign_override, Some(false), "the saved plan wins");
    assert_eq!(state.encrypt_override, Some(true));
    assert_eq!(state.body, "half written\n");
    assert!(state.attachments.is_empty(), "attachments are loaded by the caller");
}

#[test]
fn a_draft_from_an_unconfigured_address_cycles_as_a_one_off() {
    let draft = saved("work", "gone@example.org", None);
    let state = resumed_compose(configured(), draft);
    assert_eq!(state.choices.len(), 3);
    assert_eq!(state.chosen, 0);
    assert_eq!(state.account(), "work");
    assert_eq!(state.sender_line(), "Old Name <gone@example.org>");
    assert_eq!(state.choices[1].identity, tester_identity());
    let wrong_account = saved("personal", "quin@example.org", None);
    assert_eq!(resumed_compose(configured(), wrong_account).choices.len(), 3);
}

#[test]
fn the_fields_render_with_focus_and_cursor() {
    let mut state = test_state();
    state.fields.to = "alba@example.com".to_string();
    state.fields.cursor = state.fields.to.chars().count();
    let rows = state.field_texts(true);
    assert_eq!(rows.len(), 5);
    assert!(rows[0].starts_with("To:       alba@example.com\u{258c}"), "{:?}", rows[0]);
    assert!(rows[1].starts_with("Cc:"), "{:?}", rows[1]);
    assert!(rows[2].starts_with("Bcc:"), "{:?}", rows[2]);
    assert!(rows[3].starts_with("Subject:"), "{:?}", rows[3]);
    assert!(rows[4].starts_with("From:     Tester <tester@example.com>"), "{:?}", rows[4]);
}

#[test]
fn the_summary_rows_carry_no_cursor_and_the_cursor_splits_a_value() {
    let mut state = test_state();
    state.fields.to = "alba@example.com".to_string();
    state.fields.cursor = 4;
    let summary = state.field_texts(false);
    assert_eq!(summary[0], "To:       alba@example.com");
    assert_eq!(summary[3], "Subject:  ");
    let rows = state.field_texts(true);
    assert_eq!(rows[0], "To:       alba\u{258c}@example.com");
    assert_eq!(rows[1], "Cc:       ");
}

fn entries(values: &[&str]) -> Vec<String> {
    values.iter().map(|v| v.to_string()).collect()
}

#[test]
fn outgoing_requires_recipients_and_a_full_from() {
    let mut state = test_state();
    assert_eq!(state.outgoing(Vec::new(), Vec::new(), Vec::new()).unwrap_err(), "no recipients in To");
    state.fields.to = "alba@example.com".to_string();
    assert!(state.outgoing(entries(&["alba@example.com"]), Vec::new(), Vec::new()).is_ok());
    state.choices[0].identity.address = "not-an-address".into();
    assert_eq!(
        state.outgoing(entries(&["alba@example.com"]), Vec::new(), Vec::new()).unwrap_err(),
        "From needs a full address"
    );
}

#[test]
fn the_envelope_reduces_every_recipient_to_a_bare_address() {
    let mut state = test_state();
    state.fields.subject = "  quiet  ".to_string();
    state.body = "Body here.\n".to_string();
    let outgoing = state
        .outgoing(
            entries(&["Mara <mara@example.com>", "quin@example.com"]),
            entries(&["cc@example.com"]),
            entries(&["hidden@example.com"]),
        )
        .unwrap();
    assert_eq!(outgoing.to, ["Mara <mara@example.com>", "quin@example.com"], "headers keep the display name");
    assert_eq!(outgoing.subject, "quiet");
    assert_eq!(outgoing.from, "tester@example.com");
    assert_eq!(outgoing.from_name.as_deref(), Some("Tester"));
    let envelope = envelope("personal", &outgoing);
    assert_eq!(
        envelope.recipients,
        ["mara@example.com", "quin@example.com", "cc@example.com", "hidden@example.com"]
    );
    assert_eq!(envelope.from, "tester@example.com");
    assert_eq!(envelope.account, "personal");
}

#[test]
fn a_read_receipt_flag_reaches_outgoing() {
    let mut state = test_state();
    assert!(!state.draft_outgoing(Vec::new(), Vec::new(), Vec::new()).read_receipt, "off default");
    state.read_receipt = true;
    let outgoing = state.outgoing(entries(&["alba@example.com"]), Vec::new(), Vec::new()).unwrap();
    assert!(outgoing.read_receipt);
}
