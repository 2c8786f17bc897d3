use antiphon::export::{archive_file_name, archive_name, parse_recipients, ExportError, ExportSummary};
use antiphon::exportcmd::{
    check_passphrase, check_repeat, destination, key_mode, selected_accounts, Destination, KeyMode,
};

fn keys(list: &[&str]) -> Vec<String> {
    list.iter().map(|key| (*key).to_string()).collect()
}

#[test]
fn key_mode_demands_exactly_one_choice() {
    let recipient = keys(&["age1example"]);
    assert_eq!(key_mode(&recipient, false), Ok(KeyMode::Recipients));
    assert_eq!(key_mode(&vec![], true), Ok(KeyMode::Passphrase));
    let neither = key_mode(&vec![], false).unwrap_err();
    assert!(neither.contains("choose how to encrypt"));
    let both = key_mode(&recipient, true).unwrap_err();
    assert!(both.contains("not both"));
}

#[test]
fn recipients_parse_or_name_the_broken_key() {
    let identity = age::x25519::Identity::generate();
    let good = identity.to_public().to_string();
    let parsed = parse_recipients(&vec![format!("  {good}  ")]).expect("whitespace is trimmed");
    assert_eq!(parsed.len(), 1);
    let error = parse_recipients(&vec![good.clone(), "not-a-key".to_string()]).unwrap_err();
    assert!(matches!(&error, ExportError::BadRecipient { key, .. } if key == "not-a-key"));
    assert!(error.message().starts_with("bad age recipient \"not-a-key\": "), "{}", error.message());
}

#[test]
fn archive_names_carry_account_and_utc_date() {
    let date = chrono::Utc::now().format("%Y-%m-%d").to_string();
    assert_eq!(archive_file_name("work"), Some(format!("work-{date}.tar.gz.age")));
    assert_eq!(archive_name("work", "2026-01-02"), "work-2026-01-02.tar.gz.age");
}

#[test]
fn a_summary_line_names_counts_and_destination() {
    let summary = ExportSummary {
        account: "work".to_string(),
        files: 12,
        bytes: 3456,
        destination: "/tmp/work.tar.gz.age".to_string(),
    };
    assert_eq!(summary.line(), "exported work: 12 files, 3456 bytes to /tmp/work.tar.gz.age");
}

#[test]
fn error_messages_name_what_failed() {
    let missing = ExportError::MissingMaildir { account: "absent".into(), path: "/m/absent".into() };
    assert_eq!(missing.message(), "account absent has no maildir at /m/absent");
    let output = ExportError::Output { path: "/no-such-dir/x".into(), message: "denied".into() };
    assert_eq!(output.message(), "cannot write /no-such-dir/x: denied");
    assert_eq!(ExportError::Encrypt("boom".into()).message(), "encryption failed: boom");
}

#[test]
fn accounts_are_all_or_the_one_named() {
    let names = keys(&["work", "home"]);
    assert_eq!(selected_accounts(&names, None), Ok(names.clone()));
    assert_eq!(selected_accounts(&names, Some("home")), Ok(keys(&["home"])));
    assert_eq!(
        selected_accounts(&names, Some("absent")).unwrap_err(),
        "no account named absent; configured accounts: work, home"
    );
    assert!(selected_accounts(&vec![], None).unwrap_err().starts_with("no accounts configured"));
}

#[test]
fn a_single_account_may_target_a_file() {
    let dir = tempfile::tempdir().unwrap();
    let file = dir.path().join("work.tar.gz.age");
    assert_eq!(destination("work", true, file.is_dir()), Some(Destination::File));
}

#[test]
fn directories_get_dated_archive_names() {
    let dir = tempfile::tempdir().unwrap();
    let out = dir.path().join("exports");
    let dest = destination("work", false, out.is_dir());
    assert_eq!(
        dest,
        Some(Destination::InDirectory(archive_file_name("work").unwrap())),
        "archives are named per account and date"
    );
    let into_existing = destination("work", true, dir.path().is_dir());
    assert_eq!(into_existing, dest, "existing dir wins");
}

#[test]
fn a_passphrase_must_be_given_and_repeated_exactly() {
    assert_eq!(
        check_passphrase("").unwrap_err(),
        "the passphrase must not be empty"
    );
    assert_eq!(check_passphrase("correct horse"), Ok(()));
    assert_eq!(check_repeat("correct horse", "correct horse"), Ok(()));
    assert_eq!(
        check_repeat("correct horse", "correct  horse").unwrap_err(),
        "the passphrases do not match"
    );
}

#[test]
fn the_archive_name_carries_a_full_date() {
    let name = archive_file_name("work").unwrap();
    let date = name.strip_prefix("work-").unwrap().strip_suffix(".tar.gz.age").unwrap();
    let chars: Vec<char> = date.chars().collect();
    assert_eq!(chars.len(), 10, "{date}");
    for (i, c) in chars.iter().enumerate() {
        if i == 4 || i == 7 {
            assert_eq!(*c, '-');
        } else {
            assert!(c.is_ascii_digit(), "{date}");
        }
    }
}
