use antiphon::tui::account_form::{AccountFormState, AccountType};
use antiphon::tui::account_form_discover::{
    request, settle, DiscoverError, Discovered, DiscoveredServer,
};

fn form_with_address(address: &str) -> AccountFormState {
    let mut form = AccountFormState::empty();
    form.address = address.to_string();
    form
}

fn server(host: &str, username: &str) -> DiscoveredServer {
    DiscoveredServer { host: host.to_string(), username: username.to_string() }
}

fn found() -> Discovered {
    Discovered {
        imap: Some(server("imap.example.com", "ada@example.com")),
        smtp: Some(server("smtp.example.com", "ada@example.com")),
    }
}

#[test]
fn discovery_fills_the_imap_and_smtp_rows() {
    let mut form = form_with_address("ada@example.com");
    let address = request(&mut form).expect("a lookup is asked for");
    assert_eq!(address, "ada@example.com");
    form.error = Some("stale".to_string());
    settle(&mut form, &address, Ok(Some(found())));
    assert_eq!(form.imap_host, "imap.example.com");
    assert_eq!(form.imap_user, "ada@example.com");
    assert_eq!(form.smtp_host, "smtp.example.com");
    assert_eq!(form.error, None);
}

#[test]
fn a_miss_reports_where_it_looked() {
    let mut form = form_with_address("ada@example.com");
    let address = request(&mut form).unwrap();
    settle(&mut form, &address, Ok(None));
    assert!(form.imap_host.is_empty());
    let error = form.error.as_deref().unwrap_or_default();
    assert!(error.contains("example.com"), "{error:?}");
    assert_eq!(error, "no settings found for example.com; fill them in");
}

#[test]
fn an_addressless_form_is_told_to_fill_the_address() {
    let mut form = form_with_address("nobody");
    assert_eq!(request(&mut form), None);
    assert!(form.imap_host.is_empty());
    assert!(form.error.as_deref().unwrap().contains("e-mail address"));
}

#[test]
fn an_oauth_account_is_declined_since_its_servers_are_fixed() {
    let mut form = form_with_address("ada@example.com");
    form.account_type = AccountType::Google;
    assert_eq!(request(&mut form), None);
    assert!(form.imap_host.is_empty());
    assert!(form.error.as_deref().unwrap().contains("fixed servers"));
}

#[test]
fn the_address_is_trimmed_and_a_failed_lookup_asks_for_a_full_one() {
    let mut form = form_with_address("  ada@example.com ");
    assert_eq!(request(&mut form).as_deref(), Some("ada@example.com"));
    assert_eq!(form.error, None);
    settle(&mut form, "ada@example.com", Err(DiscoverError));
    assert_eq!(form.error.as_deref(), Some("enter a full e-mail address first"));
}

#[test]
fn a_partial_answer_fills_only_what_it_found() {
    let mut form = form_with_address("ada@example.com");
    form.smtp_host = "smtp.kept.example".to_string();
    settle(&mut form, "ada@example.com", Ok(Some(Discovered { imap: Some(server("imap.x", "ada")), smtp: None })));
    assert_eq!(form.imap_host, "imap.x");
    assert_eq!(form.imap_user, "ada");
    assert_eq!(form.smtp_host, "smtp.kept.example");
}
