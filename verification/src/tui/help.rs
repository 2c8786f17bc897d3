//! The key cheatsheet: the live keymap's bindings grouped under their
//! context headings, and how far the modal may scroll.
use vstd::prelude::*;

use crate::text::{append_str, chars_of, lemma_texts_of_push, str_eq, string_of, texts_of};
use crate::tui::account_form_draw::{pad_to, padded_to};

verus! {

broadcast use vstd::string::group_string_axioms;

/// The most rows the cheatsheet modal takes.
pub const HELP_MAX_ROWS: u16 = 24;

/// The cheatsheet's lines after `bindings` `(key, action, context)`,
/// with the context the last heading named: a binding whose context
/// differs opens a heading (a blank line before it unless it is the
/// first line), then every binding shows its key in a column of eleven
/// and its action.
pub open spec fn help_state(bindings: Seq<(String, String, String)>) -> (Seq<Seq<char>>, Seq<char>)
    decreases bindings.len(),
{
    if bindings.len() == 0 {
        (seq![], Seq::empty())
    } else {
        let (lines, current) = help_state(bindings.drop_last());
        let (key, action, context) = bindings.last();
        let headed = if context@ != current {
            (if lines.len() > 0 { lines.push(Seq::empty()) } else { lines }).push(" "@ + context@)
        } else {
            lines
        };
        (headed.push("  "@ + padded_to(key@, 11) + action@), context@)
    }
}

pub open spec fn help_lines_of(bindings: Seq<(String, String, String)>) -> Seq<Seq<char>> {
    help_state(bindings).0
}

pub fn help_lines(bindings: &Vec<(String, String, String)>) -> (r: Vec<String>)
    ensures
        texts_of(r@) == help_lines_of(bindings@),
{
    let mut out: Vec<String> = Vec::new();
    let mut current = String::new();
    let mut i: usize = 0;
    while i < bindings.len()
        invariant
            i <= bindings@.len(),
            (texts_of(out@), current@) == help_state(bindings@.take(i as int)),
        decreases bindings@.len() - i,
    {
        let (key, action, context) = (&bindings[i].0, &bindings[i].1, &bindings[i].2);
        assert(bindings@.take(i + 1).drop_last() =~= bindings@.take(i as int));
        assert(bindings@.take(i + 1).last() == bindings@[i as int]);
        if !str_eq(context.as_str(), current.as_str()) {
            current = context.clone();
            if out.len() > 0 {
                let blank = String::new();
                proof {
                    lemma_texts_of_push(out@, blank);
                }
                out.push(blank);
            }
            let mut heading = chars_of(" ");
            append_str(&mut heading, context.as_str());
            let heading = string_of(&heading);
            proof {
                reveal_strlit(" ");
                lemma_texts_of_push(out@, heading);
            }
            out.push(heading);
        }
        let mut line = chars_of("  ");
        let padded = pad_to(key.as_str(), 11);
        let mut tail = padded;
        line.append(&mut tail);
        append_str(&mut line, action.as_str());
        let row = string_of(&line);
        proof {
            reveal_strlit("  ");
            lemma_texts_of_push(out@, row);
        }
        out.push(row);
        i = i + 1;
    }
    assert(bindings@.take(bindings@.len() as int) =~= bindings@);
    out
}

/// The modal's height in an area `area_height` rows high.
pub open spec fn help_height(area_height: u16) -> int {
    let room = if area_height >= 2 { area_height - 2 } else { 0 };
    if room < HELP_MAX_ROWS { room } else { HELP_MAX_ROWS as int }
}

/// The scroll the modal shows: the one asked for, held so the last
/// line stays in view inside the border (the line count read as the
/// modal reads it, in 16 bits).
pub open spec fn help_scroll_of(scroll: u16, lines: usize, area_height: u16) -> int {
    let inner = if help_height(area_height) >= 2 { help_height(area_height) - 2 } else { 0 };
    let n = (lines as u16) as int;
    let ceiling = if n >= inner { n - inner } else { 0 };
    if scroll < ceiling { scroll as int } else { ceiling }
}

pub fn help_scroll(scroll: u16, lines: usize, area_height: u16) -> (r: u16)
    ensures
        r as int == help_scroll_of(scroll, lines, area_height),
{
    let room: u16 = if area_height >= 2 {
        area_height - 2
    } else {
        0
    };
    let height: u16 = if room < HELP_MAX_ROWS {
        room
    } else {
        HELP_MAX_ROWS
    };
    let inner: u16 = if height >= 2 {
        height - 2
    } else {
        0
    };
    let n: u16 = lines as u16;
    let ceiling: u16 = if n >= inner {
        n - inner
    } else {
        0
    };
    if scroll < ceiling {
        scroll
    } else {
        ceiling
    }
}

} // verus!
