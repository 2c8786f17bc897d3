use antiphon::config::Identity;
use antiphon::tui::account_form::AccountFormState;
use antiphon::tui::account_form_identity::{
    descriptor, non_empty, parse_matches, summary, FormIdentity, IdentityUi,
};
use antiphon::tui::keys::{KeyCode, KeyPress};

fn key(code: KeyCode) -> KeyPress {
    KeyPress::plain(code)
}

fn form_with_identity() -> AccountFormState {
    let mut form = AccountFormState::empty();
    form.address = "quin@example.com".to_string();
    form.identities = vec![FormIdentity::seed("Quin", "quin@example.com")];
    form.identity_ui = Some(IdentityUi::List { selected: 0 });
    form
}

#[test]
fn adding_appends_an_identity_defaulting_its_address() {
    let mut form = form_with_identity();
    form.list_key(KeyCode::Char('a'));
    assert!(matches!(form.identity_ui, Some(IdentityUi::Edit(_))));
    form.editor_key(key(KeyCode::Char('X')));
    form.commit_identity();
    assert_eq!(form.identities.len(), 2);
    assert_eq!(form.identities[1].from_name, "X");
    assert_eq!(form.identities[1].address, "quin@example.com");
    assert!(matches!(form.identity_ui, Some(IdentityUi::List { selected: 1 })));
}

#[test]
fn editing_updates_the_selected_identity_in_place() {
    let mut form = form_with_identity();
    form.list_key(KeyCode::Char('e'));
    for ch in " Two".chars() {
        form.editor_key(key(KeyCode::Char(ch)));
    }
    form.commit_identity();
    assert_eq!(form.identities.len(), 1);
    assert_eq!(form.identities[0].from_name, "Quin Two");
}

#[test]
fn removing_drops_the_selected_identity() {
    let mut form = form_with_identity();
    form.identities.push(FormIdentity::seed("Side", "side@example.com"));
    form.list_key(KeyCode::Down);
    form.list_key(KeyCode::Char('d'));
    assert_eq!(form.identities.len(), 1);
    assert_eq!(form.identities[0].from_name, "Quin");
    assert!(matches!(form.identity_ui, Some(IdentityUi::List { selected: 0 })));
}

#[test]
fn the_last_identity_cannot_be_removed() {
    let mut form = form_with_identity();
    form.list_key(KeyCode::Char('d'));
    assert_eq!(form.identities.len(), 1);
}

#[test]
fn the_auto_sign_toggle_flips_with_space() {
    let mut form = form_with_identity();
    form.list_key(KeyCode::Char('e'));
    for _ in 0..3 {
        form.editor_key(key(KeyCode::Tab));
    }
    form.editor_key(key(KeyCode::Char(' ')));
    form.commit_identity();
    assert!(form.identities[0].pgp_sign);
}

#[test]
fn esc_backs_out_of_the_editor_then_the_list() {
    let mut form = form_with_identity();
    form.list_key(KeyCode::Char('e'));
    form.editor_key(key(KeyCode::Esc));
    assert!(matches!(form.identity_ui, Some(IdentityUi::List { .. })));
    form.list_key(KeyCode::Esc);
    assert!(form.identity_ui.is_none());
}

#[test]
fn to_config_parses_comma_separated_matches() {
    let mut identity = FormIdentity::seed("Quin", "quin@example.com");
    identity.matches = "a@example.com, b@example.com".to_string();
    let config = identity.to_config("acct@example.com");
    assert_eq!(config.address, "quin@example.com");
    assert_eq!(config.matches, vec!["a@example.com".to_string(), "b@example.com".to_string()]);
}

#[test]
fn to_config_defaults_an_empty_address_and_match() {
    let config = FormIdentity::blank().to_config("acct@example.com");
    assert_eq!(config.address, "acct@example.com");
    assert_eq!(config.matches, vec!["acct@example.com".to_string()]);
    assert!(config.name.is_none());
    assert!(!config.pgp_sign);
}

#[test]
fn from_config_round_trips_every_field() {
    let config = Identity {
        address: "quin@example.com".to_string(),
        name: Some("Quin".to_string()),
        signature: Some("~/.sig".to_string()),
        matches: vec!["a@example.com".to_string(), "b@example.com".to_string()],
        pgp_sign: true,
        pgp_key: Some("0xAB".to_string()),
    };
    let form = FormIdentity::from_config(&config);
    assert_eq!(form.from_name, "Quin");
    assert_eq!(form.signature, "~/.sig");
    assert_eq!(form.matches, "a@example.com, b@example.com");
    assert!(form.pgp_sign);
    assert_eq!(form.pgp_key, "0xAB");
}

#[test]
fn labels_fall_back_from_name_to_address_to_a_placeholder() {
    assert_eq!(descriptor(&FormIdentity::seed(" Quin ", "q@x")), "Quin");
    assert_eq!(descriptor(&FormIdentity::seed("", "q@x")), "q@x");
    assert_eq!(descriptor(&FormIdentity::blank()), "(unnamed)");
    assert_eq!(summary(&vec![FormIdentity::seed("Quin", "q@x")]), "1 identity: Quin");
    assert_eq!(
        summary(&vec![FormIdentity::seed("Quin", "q@x"), FormIdentity::blank()]),
        "2 identities: Quin, (unnamed)"
    );
    assert_eq!(non_empty("  "), None);
    assert_eq!(parse_matches(" , a@x,, b@x ,", "z@x"), ["a@x", "b@x"]);
    assert_eq!(parse_matches(" , ", "z@x"), ["z@x"]);
}

#[test]
fn the_editor_steps_and_commits_from_its_last_row() {
    let mut form = form_with_identity();
    form.list_key(KeyCode::Enter);
    form.editor_key(key(KeyCode::BackTab));
    form.editor_key(key(KeyCode::Char('m')));
    form.editor_key(key(KeyCode::Enter));
    assert!(matches!(form.identity_ui, Some(IdentityUi::List { selected: 0 })));
    assert_eq!(form.identities[0].matches, "m");
    form.list_key(KeyCode::Char('e'));
    form.editor_key(KeyPress::ctrl(KeyCode::Char('s')));
    assert!(matches!(form.identity_ui, Some(IdentityUi::List { selected: 0 })));
}

#[test]
fn the_default_identity_is_blank() {
    let identity = antiphon::tui::account_form_identity::FormIdentity::default();
    assert_eq!(identity, antiphon::tui::account_form_identity::FormIdentity::blank());
}
