use antiphon::tui::compose_assembly::bare_address;
use antiphon::tui::attach::Attachment;
use antiphon::tui::compose::{ComposeState, IdentityChoice};
use antiphon::tui::drafts::{id_list, parse, render, single_id, DraftFields};
use antiphon::tui::identity::ComposeIdentity;

fn test_state() -> ComposeState {
    let identity = ComposeIdentity {
        name: Some("Tester".to_string()),
        address: "tester@example.com".to_string(),
        signature: None,
        pgp_sign: false,
        pgp_key: None,
    };
    let choices = vec![IdentityChoice { account: "personal".to_string(), identity }];
    ComposeState::new(choices, 0, DraftFields::default(), (None, None))
}

fn saved_state() -> ComposeState {
    let mut state = test_state();
    state.fields.to = "alba@example.com, bo@example.com".into();
    state.fields.bcc = "hidden@example.com".into();
    state.fields.subject = "Rehearsal".into();
    state.in_reply_to = Some("id-1@example.com".into());
    state.references = vec!["id-0@example.com".into()];
    state.encrypt_override = Some(true);
    state.body = "Body line.\n\nSecond.\n".into();
    state
}

#[test]
fn broken_drafts_fail_naming_the_problem() {
    assert_eq!(parse("no headers").err().unwrap(), "draft has no blank line after the headers");
    assert!(parse("From: a@b.c\nnonsense\n\nhi").err().unwrap().contains("malformed draft line"));
    assert_eq!(parse("From: a@b.c\nX-Odd: yes\n\nhi").err().unwrap(), "unknown draft header: x-odd");
    assert_eq!(parse("To: a@b.c\n\nhi").err().unwrap(), "draft has no From address");
}

#[test]
fn a_saved_draft_reads_back_every_header() {
    let text = "From: \"Tester\" <tester@example.com>\n\
                Account: personal\n\
                To: alba@example.com, bo@example.com\n\
                Cc: \n\
                Bcc: hidden@example.com\n\
                Subject: Rehearsal\n\
                In-Reply-To: <id-1@example.com>\n\
                References: <id-0@example.com> <id-1@example.com>\n\
                Sign: off\n\
                Encrypt: on\n\
                Attachment: /tmp/a.txt\n\
                \n\
                Body line.\n\nSecond.\n";
    let draft = parse(text).ok().unwrap();
    assert_eq!(draft.from, "tester@example.com");
    assert_eq!(draft.from_name.as_deref(), Some("Tester"));
    assert_eq!(draft.account, "personal");
    assert_eq!(draft.fields.to, "alba@example.com, bo@example.com");
    assert_eq!(draft.fields.cc, "");
    assert_eq!(draft.fields.bcc, "hidden@example.com");
    assert_eq!(draft.fields.subject, "Rehearsal");
    assert_eq!(draft.fields.in_reply_to.as_deref(), Some("id-1@example.com"));
    assert_eq!(draft.fields.references, ["id-0@example.com", "id-1@example.com"]);
    assert_eq!(draft.sign, Some(false));
    assert_eq!(draft.encrypt, Some(true));
    assert_eq!(draft.attachments, ["/tmp/a.txt"]);
    assert_eq!(draft.fields.body, "Body line.\n\nSecond.\n");
}

#[test]
fn header_keys_are_case_insensitive_and_a_bare_from_has_no_name() {
    let draft = parse("FROM: quin@example.org\nsubject:  spaced  \n\n").ok().unwrap();
    assert_eq!(draft.from, "quin@example.org");
    assert_eq!(draft.from_name, None);
    assert_eq!(draft.fields.subject, "spaced");
    assert_eq!(draft.fields.body, "");
}

#[test]
fn message_ids_lose_their_brackets() {
    assert_eq!(single_id(" <a@b> ").as_deref(), Some("a@b"));
    assert_eq!(single_id("<>"), None);
    assert_eq!(id_list("<a@b>  <> c@d\t<e@f>"), ["a@b", "c@d", "e@f"]);
}

#[test]
fn bare_addresses_come_from_the_brackets() {
    assert_eq!(bare_address("Mara <mara@example.com>"), "mara@example.com");
    assert_eq!(bare_address("  plain@example.com "), "plain@example.com");
    assert_eq!(bare_address("broken <open"), "broken <open");
}

#[test]
fn drafts_round_trip_fields_plan_and_body() {
    let state = saved_state();
    let draft = parse(&render(&state)).ok().unwrap();
    assert_eq!(draft.from, "tester@example.com");
    assert_eq!(draft.from_name.as_deref(), Some("Tester"));
    assert_eq!(draft.account, "personal");
    assert_eq!(draft.fields.to, "alba@example.com, bo@example.com");
    assert_eq!(draft.fields.bcc, "hidden@example.com");
    assert_eq!(draft.fields.subject, "Rehearsal");
    assert_eq!(draft.fields.in_reply_to.as_deref(), Some("id-1@example.com"));
    assert_eq!(draft.fields.references, ["id-0@example.com"]);
    assert_eq!(draft.sign, Some(false));
    assert_eq!(draft.encrypt, Some(true));
    assert_eq!(draft.fields.body, "Body line.\n\nSecond.\n");
}

#[test]
fn attachments_survive_save_and_restore_by_path() {
    let mut state = saved_state();
    state.add_attachment(Attachment {
        path: "/tmp/notes.txt".to_string(),
        filename: "notes.txt".to_string(),
        content_type: "text/plain".to_string(),
        bytes: b"kept bytes".to_vec(),
    });
    let draft = parse(&render(&state)).ok().unwrap();
    assert_eq!(draft.attachments, ["/tmp/notes.txt"]);
}

#[test]
fn the_saved_text_lists_every_header_in_order() {
    let text = render(&saved_state());
    assert_eq!(
        text,
        "From: Tester <tester@example.com>\n\
         Account: personal\n\
         To: alba@example.com, bo@example.com\n\
         Cc: \n\
         Bcc: hidden@example.com\n\
         Subject: Rehearsal\n\
         In-Reply-To: <id-1@example.com>\n\
         References: <id-0@example.com>\n\
         Sign: off\n\
         Encrypt: on\n\
         \n\
         Body line.\n\nSecond.\n"
    );
}
