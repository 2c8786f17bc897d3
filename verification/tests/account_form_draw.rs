use antiphon::tui::account_form::{AccountFormState, AccountType};
use antiphon::tui::account_form_draw::{field_hint, form_text, form_title, shown_value, wrapped};

#[test]
fn wrapping_is_greedy_and_keeps_every_word() {
    assert_eq!(
        wrapped("account name is required", 12),
        vec!["account name", "is required"]
    );
    assert_eq!(wrapped("  spaced   out  words ", 80), vec!["spaced out words"]);
    assert_eq!(wrapped("", 10), Vec::<String>::new());
    assert_eq!(wrapped("   ", 10), Vec::<String>::new());
}

#[test]
fn a_word_longer_than_the_width_takes_a_row_of_its_own() {
    assert_eq!(
        wrapped("a verylongwordindeed b", 5),
        vec!["a", "verylongwordindeed", "b"]
    );
    assert_eq!(wrapped("ab cd", 5), vec!["ab cd"]);
    assert_eq!(wrapped("ab cde", 5), vec!["ab", "cde"]);
}

#[test]
fn a_keychain_secret_is_shown_as_bullets() {
    let mut form = AccountFormState::empty();
    form.keychain_available = true;
    form.keychain_secret = "hunter2".to_string();
    let index = (0..form.field_count())
        .find(|&i| form.field_label(i) == "password (stored in Keychain)")
        .unwrap();
    assert!(form.field_masked(index));
    assert_eq!(shown_value(&form, index), "\u{2022}".repeat(7));
    assert_eq!(shown_value(&form, 0), "");
}

#[test]
fn an_error_line_is_drawn_when_present() {
    let mut form = AccountFormState::empty();
    form.error = Some("account name is required".to_string());
    let text = form_text(&form, 70);
    assert!(text.iter().any(|row| row.contains("account name is required")));
    assert_eq!(text[text.len() - 2], "");
    assert_eq!(form_title(&form), " add account ");
}

#[test]
fn the_form_rows_carry_labels_cursor_and_hints() {
    let mut form = AccountFormState::empty();
    form.address = "quin@example.com".to_string();
    form.cursor = 4;
    let text = form_text(&form, 70);
    assert_eq!(text.len(), form.field_count());
    assert_eq!(text[0], format!("{:<24}quin\u{258c}@example.com", "e-mail address"));
    assert_eq!(text[1], format!("{:<24}", "account name"));
    form.account_type = AccountType::Microsoft;
    let rows = form.shown_rows().len();
    let client = (0..rows).find(|&i| form.field_label(i) == "oauth client id").unwrap();
    assert_eq!(field_hint(&form, client).as_deref(), Some("blank for Thunderbird's"));
    form.client_id = "abc".to_string();
    assert_eq!(field_hint(&form, client), None);
    form.editing = Some("work".to_string());
    assert_eq!(form_title(&form), " edit account ");
}
