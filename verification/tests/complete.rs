use antiphon::tui::complete::{accept, suggest, Completion, Contact};

fn contact(address: &str, name: &str, score: u32) -> Contact {
    Contact { address: address.to_string(), name: name.to_string(), score }
}

fn book() -> Vec<Contact> {
    vec![
        contact("alba@example.com", "Alba Voss", 9),
        contact("mara@example.org", "", 5),
        contact("albert@example.net", "Albert Ng", 2),
    ]
}

#[test]
fn fragments_match_address_and_name_in_rank_order() {
    let hits = suggest(&book(), "alb");
    assert_eq!(
        hits,
        ["Alba Voss <alba@example.com>", "Albert Ng <albert@example.net>"]
    );
    assert_eq!(suggest(&book(), "voss").len(), 1);
    assert_eq!(suggest(&book(), "a"), Vec::<String>::new());
    assert_eq!(suggest(&book(), ""), Vec::<String>::new());
}

#[test]
fn the_fragment_is_the_entry_after_the_last_comma() {
    let hits = suggest(&book(), "alba@example.com, mar");
    assert_eq!(hits, ["mara@example.org"]);
}

#[test]
fn at_most_five_suggestions_show() {
    let many: Vec<Contact> = (0..8).map(|i| contact(&format!("x{i}@example.com"), "", 1)).collect();
    assert_eq!(suggest(&many, "example").len(), 5);
}

#[test]
fn accepting_replaces_only_the_fragment() {
    assert_eq!(
        accept("alb", "Alba Voss <alba@example.com>"),
        "Alba Voss <alba@example.com>"
    );
    assert_eq!(
        accept("one@example.com, mar", "mara@example.org"),
        "one@example.com, mara@example.org"
    );
}

#[test]
fn selection_steps_wrap_both_ways() {
    let mut completion = Completion {
        items: vec!["a".into(), "b".into(), "c".into()],
        selected: 0,
    };
    completion.step(-1);
    assert_eq!(completion.chosen(), Some("c"));
    completion.step(1);
    assert_eq!(completion.chosen(), Some("a"));
    Completion::default().step(1);
}

#[test]
fn a_selection_past_i32_is_read_as_the_list_reads_it() {
    let mut completion = antiphon::tui::complete::Completion {
        items: vec!["a".to_string(), "b".to_string(), "c".to_string()],
        selected: 4_294_967_297,
    };
    completion.step(1);
    assert_eq!(completion.selected, 2);
    completion.step(-5);
    assert_eq!(completion.selected, 0);
}
