use antiphon::sendmail::{
    address_of, envelope_sender, failure_line, from_header, no_account_message, parse_args,
    sender_in, EX_USAGE,
};

fn strings(items: &[&str]) -> Vec<String> {
    items.iter().map(|s| s.to_string()).collect()
}

#[test]
fn classic_flags_parse_and_unknowns_are_skipped() {
    let args = strings(&[
        "-i",
        "-f",
        "env@example.com",
        "-oi",
        "-oem",
        "a@example.com",
        "b@example.com",
    ]);
    let parsed = parse_args(&args).ok().unwrap();
    assert_eq!(parsed.envelope_from.as_deref(), Some("env@example.com"));
    assert_eq!(parsed.recipients, ["a@example.com", "b@example.com"]);
    assert_eq!(parsed.ignored, ["-oem"]);
}

#[test]
fn no_recipients_is_a_usage_error() {
    let args = vec!["-i".to_string()];
    assert!(parse_args(&args).is_err());
}

#[test]
fn from_header_extraction_handles_both_shapes() {
    let cases: [(&[u8], Option<&str>); 3] = [
        (b"From: Alice <alice@example.com>\nTo: b\n\nbody", Some("alice@example.com")),
        (b"From: bob@example.com\n\nbody", Some("bob@example.com")),
        (b"To: nobody\n\nFrom: not-a-header", None),
    ];
    for (raw, expected) in cases {
        assert_eq!(from_header(raw).as_deref(), expected, "{raw:?}");
    }
}

#[test]
fn a_flag_without_its_value_names_itself() {
    let err = parse_args(&strings(&["a@example.com", "-f"])).err().unwrap();
    assert_eq!(err, "-f needs a value");
    let err = parse_args(&strings(&["-F"])).err().unwrap();
    assert_eq!(err, "-F needs a value");
}

#[test]
fn the_full_name_flag_is_consumed_and_dropped() {
    let parsed = parse_args(&strings(&["-F", "Alice", "-t", "--", "x@example.com"]))
        .ok()
        .unwrap();
    assert_eq!(parsed.envelope_from, None);
    assert_eq!(parsed.recipients, ["x@example.com"]);
    assert!(parsed.ignored.is_empty());
}

#[test]
fn no_recipients_error_names_the_problem() {
    let err = parse_args(&strings(&["-f", "me@example.com"])).err().unwrap();
    assert_eq!(err, "no recipients given");
}

#[test]
fn addresses_come_from_angle_brackets_or_the_at_word() {
    assert_eq!(address_of(" Alice < alice@example.com > ").as_deref(), Some("alice@example.com"));
    assert_eq!(address_of(" bob@example.com, carol@example.com").as_deref(), Some("bob@example.com"));
    assert_eq!(address_of(";dave@example.com;").as_deref(), Some("dave@example.com"));
    assert_eq!(address_of("> wrong way <").as_deref(), None);
    assert_eq!(address_of("no address here").as_deref(), None);
}

#[test]
fn the_header_name_is_matched_in_any_case() {
    assert_eq!(sender_in("FROM: erin@example.com\n").as_deref(), Some("erin@example.com"));
    assert_eq!(sender_in("Subject: x\nfrom:<frank@example.com>\n\n").as_deref(), Some("frank@example.com"));
    assert_eq!(sender_in("").as_deref(), None);
}

#[test]
fn invalid_bytes_still_decode_around_the_header() {
    let raw: &[u8] = b"X-Junk: \xff\xfe\nFrom: gail@example.com\n\nbody";
    assert_eq!(from_header(raw).as_deref(), Some("gail@example.com"));
}

#[test]
fn the_envelope_flag_beats_the_from_header() {
    let flagged = parse_args(&strings(&["-f", "env@example.com", "to@example.com"])).unwrap();
    let raw = b"From: Quin <quin@example.com>\r\n\r\nbody\r\n";
    assert_eq!(envelope_sender(&flagged, raw).unwrap(), "env@example.com");
    let bare = parse_args(&strings(&["to@example.com"])).unwrap();
    assert_eq!(envelope_sender(&bare, raw).unwrap(), "quin@example.com");
    let headless = b"Subject: hi\n\nFrom: late@example.com\n";
    assert_eq!(
        envelope_sender(&bare, headless).unwrap_err(),
        (EX_USAGE, "no -f and no From header in the message".to_string())
    );
}

#[test]
fn failures_are_prefixed_with_the_command() {
    assert_eq!(
        failure_line(&no_account_message("x@example.com")),
        "antiphon sendmail: no account identity matches x@example.com"
    );
}

fn stages_ok() -> (Result<(), String>, Result<(), String>, Result<String, (u8, String)>, Option<String>) {
    (Ok(()), Ok(()), Ok("me@example.com".to_string()), Some("work".to_string()))
}

fn recipients() -> Vec<String> {
    vec!["them@example.com".to_string(), "other@example.com".to_string()]
}

#[test]
fn the_queued_envelope_carries_the_account_sender_and_recipients() {
    let (stdin, config, sender, account) = stages_ok();
    let plan = antiphon::sendmail::submission(parse_args(&recipients()), &stdin, &config, &sender, &account);
    let envelope = plan.as_ref().unwrap();
    assert_eq!(envelope.account, "work");
    assert_eq!(envelope.from, "me@example.com");
    assert_eq!(envelope.recipients, recipients());
    assert_eq!(envelope.send_after, None);
}

#[test]
fn a_submission_exits_zero_only_once_queued() {
    let (stdin, config, sender, account) = stages_ok();
    let plan = antiphon::sendmail::submission(parse_args(&recipients()), &stdin, &config, &sender, &account);
    let exit = |daemon: Result<(), String>, store: bool, queued: Result<(), String>| {
        antiphon::sendmail::submission_exit(&plan, &daemon, store, &queued)
    };
    assert_eq!(exit(Ok(()), true, Ok(())), (0, None));
    assert_eq!(exit(Err("daemon down".to_string()), true, Ok(())), (75, Some("daemon down".to_string())));
    assert_eq!(exit(Ok(()), false, Ok(())), (75, Some("the store is unavailable (vault sealed?)".to_string())));
    assert_eq!(exit(Ok(()), true, Err("disk full".to_string())), (75, Some("disk full".to_string())));
}

#[test]
fn each_failing_stage_has_its_sysexits_code() {
    let (stdin, config, sender, account) = stages_ok();
    let q: Result<(), String> = Ok(());
    let run = |parsed, stdin: &Result<(), String>, config: &Result<(), String>, sender: &Result<String, (u8, String)>, account: &Option<String>| {
        let plan = antiphon::sendmail::submission(parsed, stdin, config, sender, account);
        antiphon::sendmail::submission_exit(&plan, &q, true, &q)
    };
    assert_eq!(run(parse_args(&Vec::new()), &stdin, &config, &sender, &account), (64, Some("no recipients given".to_string())));
    assert_eq!(
        run(parse_args(&recipients()), &Err("closed".to_string()), &config, &sender, &account),
        (75, Some("reading stdin: closed".to_string()))
    );
    assert_eq!(
        run(parse_args(&recipients()), &stdin, &Err("bad toml".to_string()), &sender, &account),
        (78, Some("bad toml".to_string()))
    );
    let no_sender: Result<String, (u8, String)> = Err((64, "no -f and no From header in the message".to_string()));
    assert_eq!(run(parse_args(&recipients()), &stdin, &config, &no_sender, &account).0, 64);
    assert_eq!(
        run(parse_args(&recipients()), &stdin, &config, &sender, &None),
        (67, Some("no account identity matches me@example.com".to_string()))
    );
}

#[test]
fn the_first_sending_account_that_answers_for_the_sender_is_chosen() {
    let account = |name: &str, smtp: bool| antiphon::config::AccountFile {
        name: name.to_string(),
        imap_host: String::new(),
        imap_user: String::new(),
        imap_password_cmd: None,
        smtp_host: if smtp { Some("smtp.example.com".to_string()) } else { None },
        identities: Vec::new(),
    };
    let accounts = vec![account("read-only", false), account("work", true), account("home", true)];
    assert_eq!(
        antiphon::sendmail::account_for(&accounts, &vec![true, true, true]).as_deref(),
        Some("work")
    );
    assert_eq!(
        antiphon::sendmail::account_for(&accounts, &vec![true, false, true]).as_deref(),
        Some("home")
    );
    assert_eq!(antiphon::sendmail::account_for(&accounts, &vec![true, false, false]), None);
}
