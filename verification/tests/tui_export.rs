use antiphon::tui::export::export_recipients;

#[test]
fn an_unknown_account_is_named_in_the_notice() {
    let error = export_recipients(&Vec::new(), "absent", &vec!["age1x".to_string()]).unwrap_err();
    assert_eq!(error, "no account named absent");
}

#[test]
fn missing_recipients_point_at_the_config_key() {
    let accounts = vec!["work".to_string()];
    let error = export_recipients(&accounts, "work", &Vec::new()).unwrap_err();
    assert_eq!(error, "set [export] recipients in config.toml first");
}

#[test]
fn a_configured_recipient_is_parsed_and_a_bad_one_named() {
    let accounts = vec!["work".to_string()];
    let identity = age::x25519::Identity::generate();
    let good = identity.to_public().to_string();
    let keys = export_recipients(&accounts, "work", &vec![good.clone()]).unwrap();
    assert_eq!(keys.len(), 1);
    let error = export_recipients(&accounts, "work", &vec![good, "nonsense".to_string()]).unwrap_err();
    assert!(error.starts_with("bad age recipient \"nonsense\": "), "{error}");
}
