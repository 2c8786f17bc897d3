use antiphon::setup::{
    answer_or_default, config_toml, mail_domain, setup_account_toml, suggested_host,
    validate_address,
};

#[test]
fn addresses_need_an_at_and_no_whitespace() {
    assert!(validate_address("quin@example.com").is_ok());
    assert!(validate_address("@").is_ok());
    let refused = validate_address("quin example.com").err().unwrap();
    assert_eq!(refused, "that does not look like an e-mail address");
    assert!(validate_address("quin @example.com").is_err());
    assert!(validate_address("").is_err());
}

#[test]
fn enter_keeps_the_default() {
    assert_eq!(answer_or_default("\n", "personal"), "personal");
    assert_eq!(answer_or_default("  work \n", "personal"), "work");
}

#[test]
fn hosts_are_suggested_from_the_domain() {
    assert_eq!(mail_domain("quin@example.com"), "example.com");
    assert_eq!(mail_domain("odd@name@host.org"), "host.org");
    assert_eq!(mail_domain("nodomain"), "nodomain");
    assert_eq!(suggested_host("imap", "quin@example.com"), "imap.example.com");
    assert_eq!(suggested_host("smtp", "quin@example.com"), "smtp.example.com");
}

#[test]
fn the_config_names_the_vault_passphrase_command() {
    assert_eq!(
        config_toml("pass show antiphon/vault"),
        "[vault]\nbackend = \"auto\"\npassphrase_cmd = \"pass show antiphon/vault\"\n"
    );
}

#[test]
fn the_setup_account_always_carries_its_password_command() {
    assert_eq!(
        setup_account_toml("personal", "q@x.org", "imap.x.org", "q@x.org", "smtp.x.org", "pass mail"),
        "[account]\nname = \"personal\"\n\n[imap]\nhost = \"imap.x.org\"\nuser = \"q@x.org\"\npassword_cmd = \"pass mail\"\n\n[smtp]\nhost = \"smtp.x.org\"\n\n[[identity]]\naddress = \"q@x.org\"\nmatch = [\"q@x.org\"]\n"
    );
}
