use antiphon::tui::app::App;
use antiphon::tui::cells::{
    date_time_parts, from_text, is_flagged, sender_name, status_text, truncate,
};

fn tags(names: &[&str]) -> Vec<String> {
    names.iter().map(|name| name.to_string()).collect()
}

#[test]
fn status_letters_follow_the_stored_tags() {
    assert_eq!(status_text(&tags(&["replied", "attachment"])), "R A");
    assert_eq!(status_text(&tags(&["passed"])), " F ");
    assert_eq!(status_text(&tags(&[])), "   ");
    assert_eq!(status_text(&tags(&["replied", "passed", "attachment"])), "RFA");
}

#[test]
fn only_the_flagged_tag_flags() {
    assert!(is_flagged(&tags(&["inbox", "flagged"])));
    assert!(!is_flagged(&tags(&["inbox", "flag"])));
}

#[test]
fn the_date_splits_at_its_last_space() {
    assert_eq!(
        date_time_parts("2026-07-24 21:00"),
        ("2026-07-24".to_string(), " 21:00".to_string())
    );
    assert_eq!(
        date_time_parts("Fri 24 Jul 21:00"),
        ("Fri 24 Jul".to_string(), " 21:00".to_string())
    );
    assert_eq!(
        date_time_parts("2026-07-24"),
        ("2026-07-24".to_string(), String::new())
    );
}

#[test]
fn long_text_ends_in_an_ellipsis_within_its_column() {
    assert_eq!(truncate("hello", 5), "hello");
    assert_eq!(truncate("hello world", 5), "hell\u{2026}");
    assert_eq!(truncate("hello", 0), "");
    assert_eq!(truncate("", 0), "");
    assert_eq!(truncate("héllo", 2), "h\u{2026}");
    assert_eq!(truncate("ab", 1), "\u{2026}");
}

#[test]
fn the_sender_name_drops_the_address_and_quotes() {
    assert_eq!(sender_name("\"Alba Ruiz\" <alba@example.com>"), "Alba Ruiz");
    assert_eq!(sender_name("Alba <alba@example.com>"), "Alba");
    assert_eq!(sender_name("  <alba@example.com> "), "<alba@example.com>");
    assert_eq!(sender_name("alba@example.com"), "alba@example.com");
    assert_eq!(sender_name("\"\" <x@y>"), "\"\" <x@y>");
}

#[test]
fn own_mail_shows_its_recipient() {
    assert_eq!(
        from_text(true, "Me <me@example.com>", "Alba <alba@example.com>"),
        "\u{2192} Alba"
    );
    assert_eq!(
        from_text(false, "Alba <alba@example.com>", "Me <me@example.com>"),
        "Alba"
    );
}

#[test]
fn own_mail_is_recognised_case_blind() {
    let app = App::new(&no_config(), Vec::new(), Vec::new(), 0, vec!["me@example.com".to_string()]);
    assert!(app.is_own("Me <ME@Example.com>"));
    assert!(!app.is_own("Alba <alba@example.com>"));
    let nobody = App::new(&no_config(), Vec::new(), Vec::new(), 0, Vec::new());
    assert!(!nobody.is_own("me@example.com"));
}

#[test]
fn the_subject_cell_carries_the_unread_and_flag_marks() {
    let flagged = vec!["flagged".to_string()];
    assert_eq!(antiphon::tui::cells::subject_text(true, &flagged, "Hello", 10), "\u{25c6} \u{2691} Hello");
    assert_eq!(antiphon::tui::cells::subject_text(false, &Vec::new(), "Hello there", 6), "    Hello\u{2026}");
}

fn no_config() -> antiphon::config::Loaded {
    antiphon::config::Loaded {
        accounts: Vec::new(),
        reading_pane: antiphon::tui::app::ReadingPane::Below,
        accounts_bar: antiphon::config::AccountsBar::Sidebar,
        folder_aliases: Vec::new(),
    }
}
