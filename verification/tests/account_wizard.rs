use antiphon::account_wizard::{AccountAnswers, AccountPrompt, Question};
use antiphon::setup::required_answer;

fn existing() -> AccountAnswers {
    AccountAnswers {
        name: "work".to_string(),
        address: "quin@example.com".to_string(),
        from_name: "Quin at Work".to_string(),
        imap_host: "imap.example.com".to_string(),
        imap_user: "quin".to_string(),
        smtp_host: "smtp.example.com".to_string(),
        password_cmd: "pass show mail/work".to_string(),
    }
}

fn ask(prompt: &AccountPrompt) -> (String, String) {
    prompt.question().expect("a question is pending")
}

#[test]
fn a_fresh_setup_suggests_hosts_from_the_address() {
    let mut prompt = AccountPrompt::new(None, false);
    assert_eq!(ask(&prompt), ("e-mail address".to_string(), String::new()));
    assert_eq!(prompt.answer("\n"), Some("e-mail address is required".to_string()));
    assert_eq!(
        prompt.answer("quin example.com"),
        Some("that does not look like an e-mail address".to_string())
    );
    assert_eq!(prompt.next, Some(Question::Address));
    assert_eq!(prompt.answer("  quin@example.com \n"), None);
    assert_eq!(ask(&prompt), ("account name".to_string(), "personal".to_string()));
    assert_eq!(prompt.answer(""), None);
    assert_eq!(ask(&prompt), ("imap host".to_string(), "imap.example.com".to_string()));
    assert_eq!(prompt.answer(""), None);
    assert_eq!(ask(&prompt), ("imap user".to_string(), "quin@example.com".to_string()));
    assert_eq!(prompt.answer("quin"), None);
    assert_eq!(ask(&prompt), ("smtp host".to_string(), "smtp.example.com".to_string()));
    assert_eq!(prompt.answer("mail.example.com"), None);
    assert!(prompt.question().is_none());
    let answers = prompt.finished().expect("all answered");
    assert_eq!(answers.name, "personal");
    assert_eq!(answers.address, "quin@example.com");
    assert_eq!(answers.from_name, "");
    assert_eq!(answers.imap_host, "imap.example.com");
    assert_eq!(answers.imap_user, "quin");
    assert_eq!(answers.smtp_host, "mail.example.com");
    assert_eq!(answers.password_cmd, "");
}

#[test]
fn editing_keeps_every_answer_enter_leaves() {
    let mut prompt = AccountPrompt::new(Some(existing()), true);
    assert_eq!(
        ask(&prompt),
        ("e-mail address".to_string(), "quin@example.com".to_string())
    );
    for _ in 0..6 {
        assert!(prompt.finished().is_none());
        assert_eq!(prompt.answer(""), None);
    }
    let answers = prompt.finished().expect("all answered");
    let mut expected = existing();
    expected.password_cmd = String::new();
    assert_eq!(answers, expected);
}

#[test]
fn the_from_name_is_asked_only_when_wanted() {
    let mut prompt = AccountPrompt::new(Some(existing()), true);
    prompt.answer("");
    prompt.answer("");
    assert_eq!(
        ask(&prompt),
        ("from name (optional)".to_string(), "Quin at Work".to_string())
    );
    let mut setup = AccountPrompt::new(None, false);
    setup.answer("a@b.c");
    setup.answer("");
    assert_eq!(ask(&setup).0, "imap host");
}

#[test]
fn an_edited_address_is_still_checked() {
    let mut prompt = AccountPrompt::new(Some(existing()), true);
    assert_eq!(
        prompt.answer("not an address"),
        Some("that does not look like an e-mail address".to_string())
    );
    assert_eq!(prompt.answer("new@example.org"), None);
    assert_eq!(ask(&prompt).1, "work", "the edit keeps its own name default");
}

#[test]
fn a_required_answer_must_be_given() {
    assert_eq!(
        required_answer("command that prints the vault passphrase", "  \n").unwrap_err(),
        "command that prints the vault passphrase is required"
    );
    assert_eq!(
        required_answer("command", " pass show antiphon/vault \n").unwrap(),
        "pass show antiphon/vault"
    );
}
