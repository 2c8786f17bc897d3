use antiphon::doctor::{
    accounts_check, accounts_outcome, colour_allowed, directory_outcome, env_outcome, exit_code,
    first_line, name_width, paint, parse_outcome, render_line, tool_outcome, Outcome, ToolRun,
};

fn ok_line(colour: bool) -> String {
    render_line("gpg", &Outcome::ok("gpg (GnuPG) 2.4"), 8, colour)
}

#[test]
fn coloured_lines_wrap_the_status_in_ansi_codes() {
    assert_eq!(ok_line(true), "\x1b[32mok\x1b[0m    gpg       gpg (GnuPG) 2.4");
}

#[test]
fn plain_lines_carry_no_escape_codes() {
    assert_eq!(ok_line(false), "ok    gpg       gpg (GnuPG) 2.4");
}

#[test]
fn failures_render_in_red_and_align_with_ok() {
    let outcome = Outcome::fail("$EDITOR is not set");
    assert_eq!(
        render_line("editor", &outcome, 8, true),
        "\x1b[31mFAIL\x1b[0m  editor    $EDITOR is not set"
    );
}

#[test]
fn no_colour_disables_colour_only_when_non_empty() {
    assert!(colour_allowed(None));
    assert!(colour_allowed(Some("")));
    assert!(!colour_allowed(Some("1")));
}

#[test]
fn first_line_takes_the_head_of_version_output() {
    let output = "notmuch 0.38.3\nCopyright blurb\n";
    assert_eq!(first_line(output), "notmuch 0.38.3");
    assert_eq!(first_line(""), "");
    assert_eq!(first_line("bare\n"), "bare");
}

#[test]
fn exit_code_is_zero_only_when_every_check_passes() {
    assert_eq!(exit_code(&vec![true, true, true]), 0);
    assert_eq!(exit_code(&vec![true, false, true]), 1);
    assert_eq!(exit_code(&vec![]), 0);
}

#[test]
fn first_line_trims_and_handles_carriage_returns() {
    assert_eq!(first_line("  gpg 2.4  \r\nmore"), "gpg 2.4");
    assert_eq!(first_line("\n\nlater"), "");
}

#[test]
fn long_names_are_not_truncated() {
    let outcome = Outcome::ok("fine");
    assert_eq!(
        render_line("config directory", &outcome, 4, false),
        "ok    config directory  fine"
    );
}

#[test]
fn paint_leaves_text_bare_without_colour() {
    assert_eq!(paint("ok", true, false), "ok");
    assert_eq!(paint("FAIL", false, true), "\x1b[31mFAIL\x1b[0m");
}

#[test]
fn accounts_outcome_counts_and_lists_names() {
    let none = accounts_outcome(&vec![]);
    assert!(none.passed);
    assert_eq!(none.detail, "none configured yet");
    let some = accounts_outcome(&vec!["work".to_string(), "home".to_string()]);
    assert!(some.passed);
    assert_eq!(some.detail, "2 found: work, home");
}

#[test]
fn name_width_is_the_widest_check_name() {
    let names = vec!["config directory", "config parses", "accounts", "notmuch", "gpg", "editor"];
    assert_eq!(name_width(&names), 16);
    assert_eq!(name_width(&vec![]), 0);
}

#[test]
fn the_config_directory_must_resolve_and_exist() {
    assert_eq!(
        directory_outcome(None, false),
        Outcome::fail("cannot resolve the home directory")
    );
    assert_eq!(
        directory_outcome(Some("/home/q/.config/antiphon"), false),
        Outcome::fail("/home/q/.config/antiphon does not exist")
    );
    assert_eq!(
        directory_outcome(Some("/home/q/.config/antiphon"), true),
        Outcome::ok("/home/q/.config/antiphon")
    );
}

#[test]
fn the_parse_check_reports_the_loader() {
    assert_eq!(parse_outcome(None), Outcome::fail("no configuration directory"));
    assert_eq!(
        parse_outcome(Some(Err("accounts/work.toml: bad key".to_string()))),
        Outcome::fail("accounts/work.toml: bad key")
    );
    assert_eq!(
        parse_outcome(Some(Ok(()))),
        Outcome::ok("config.toml and accounts are valid")
    );
}

#[test]
fn accounts_wait_for_the_configuration() {
    assert_eq!(
        accounts_check(None),
        Outcome::fail("unavailable until the configuration parses")
    );
    let names = vec!["work".to_string(), "home".to_string()];
    assert_eq!(accounts_check(Some(&names)), Outcome::ok("2 found: work, home"));
    assert_eq!(accounts_check(Some(&Vec::new())), Outcome::ok("none configured yet"));
}

#[test]
fn a_tool_reports_its_first_version_line() {
    assert_eq!(
        tool_outcome("notmuch", &ToolRun::NotFound),
        Outcome::fail("notmuch not found on PATH")
    );
    assert_eq!(
        tool_outcome("gpg", &ToolRun::Failed),
        Outcome::fail("gpg --version failed")
    );
    let out = b"gpg (GnuPG) 2.4.5\nlibgcrypt 1.10.3\n".to_vec();
    assert_eq!(
        tool_outcome("gpg", &ToolRun::Succeeded(out)),
        Outcome::ok("gpg (GnuPG) 2.4.5")
    );
    let broken = vec![b'v', 0xff, b'1', b'\n'];
    assert_eq!(
        tool_outcome("x", &ToolRun::Succeeded(broken)),
        Outcome::ok("v\u{fffd}1"),
        "invalid bytes read as the replacement character"
    );
}

#[test]
fn the_editor_must_be_set_and_non_empty() {
    assert_eq!(env_outcome("EDITOR", Some("vim")), Outcome::ok("vim"));
    assert_eq!(env_outcome("EDITOR", Some("")), Outcome::fail("$EDITOR is not set"));
    assert_eq!(env_outcome("EDITOR", None), Outcome::fail("$EDITOR is not set"));
}
