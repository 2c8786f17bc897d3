use antiphon::config::{AccountFile, Identity};
use antiphon::tui::identity::{account_identities, choices, identity_for, ComposeIdentity};

fn file(identities: Vec<Identity>, user: &str) -> AccountFile {
    AccountFile {
        name: "work".to_string(),
        imap_host: "imap.example.com".to_string(),
        imap_user: user.to_string(),
        imap_password_cmd: None,
        smtp_host: Some("smtp.example.com".to_string()),
        identities,
    }
}

fn configured(address: &str, name: Option<&str>, sign: bool) -> Identity {
    Identity {
        address: address.to_string(),
        name: name.map(str::to_string),
        signature: Some("work".to_string()),
        matches: vec![address.to_string()],
        pgp_sign: sign,
        pgp_key: None,
    }
}

fn bare(address: &str) -> ComposeIdentity {
    ComposeIdentity { name: None, address: address.to_string(), signature: None, pgp_sign: false, pgp_key: None }
}

#[test]
fn configured_identities_carry_their_signature_text() {
    let account = file(
        vec![configured("quin@example.com", Some("Quin"), true), configured("q@example.org", None, false)],
        "quin",
    );
    let identities = account_identities(&account, &vec![Some("-- \nQuin\n".to_string())]);
    assert_eq!(identities.len(), 2);
    assert_eq!(identities[0].name.as_deref(), Some("Quin"));
    assert_eq!(identities[0].signature.as_deref(), Some("-- \nQuin\n"));
    assert!(identities[0].pgp_sign);
    assert_eq!(identities[1].address, "q@example.org");
    assert_eq!(identities[1].signature, None, "no text was found for the second");
}

#[test]
fn without_identities_the_imap_user_sends_when_it_is_an_address() {
    assert_eq!(account_identities(&file(Vec::new(), "quin@example.com"), &Vec::new()), vec![bare("quin@example.com")]);
    assert!(account_identities(&file(Vec::new(), "quin"), &Vec::new()).is_empty());
}

#[test]
fn choices_follow_account_order_and_a_fresh_compose_takes_its_account() {
    let accounts = vec![
        ("personal".to_string(), vec![bare("me@home.org")]),
        ("empty".to_string(), Vec::new()),
        ("work".to_string(), vec![bare("quin@example.com"), bare("q@example.org")]),
    ];
    let all = choices(&accounts);
    let listed: Vec<(&str, &str)> = all.iter().map(|c| (c.account.as_str(), c.identity.address.as_str())).collect();
    assert_eq!(
        listed,
        [("personal", "me@home.org"), ("work", "quin@example.com"), ("work", "q@example.org")]
    );
    assert_eq!(identity_for(&all, "work"), Some(1));
    assert_eq!(identity_for(&all, "empty"), Some(0), "an account without identities borrows the first");
    assert_eq!(identity_for(&Vec::new(), "work"), None);
}
