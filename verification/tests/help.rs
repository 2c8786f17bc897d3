use antiphon::tui::help::{help_lines, help_scroll};

fn binding(key: &str, action: &str, context: &str) -> (String, String, String) {
    (key.to_string(), action.to_string(), context.to_string())
}

#[test]
fn the_cheatsheet_groups_bindings_under_context_headings() {
    let bindings = vec![
        binding("j", "move-down", "global"),
        binding("k", "move-up", "global"),
        binding("ctrl-s", "compose-submit", "compose"),
        binding("enter", "prompt-submit", "prompt"),
    ];
    let lines = help_lines(&bindings);
    assert_eq!(
        lines,
        vec![
            " global".to_string(),
            format!("  {:<11}move-down", "j"),
            format!("  {:<11}move-up", "k"),
            String::new(),
            " compose".to_string(),
            format!("  {:<11}compose-submit", "ctrl-s"),
            String::new(),
            " prompt".to_string(),
            format!("  {:<11}prompt-submit", "enter"),
        ]
    );
}

#[test]
fn the_scroll_keeps_the_last_line_in_view() {
    assert_eq!(help_scroll(u16::MAX, 40, 44), 18);
    assert_eq!(help_scroll(3, 40, 44), 3);
    assert_eq!(help_scroll(5, 10, 44), 0);
    assert_eq!(help_scroll(5, 10, 1), 5);
}
