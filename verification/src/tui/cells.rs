//! The text of the message list's cells: the status letters, the date
//! split into its date and time parts, the correspondent, and any text
//! cut to its column with a visible ellipsis. Colours and weights are
//! the drawing's concern.
use vstd::prelude::*;

use crate::text::{
    append_str, chars_of, first_index, is_char, last_index_in, last_index_of, slice_chars,
    string_of, texts_of, copy_chars, lemma_first_index_is, trim, trim_chars, trimmed, trimmed_chars, find_char_from,
};
use crate::tui::folders::contains_name;

verus! {

broadcast use vstd::string::group_string_axioms;

/// The character that ends a cut cell.
pub open spec fn ellipsis() -> char {
    '\u{2026}'
}

/// The prefix that marks mail the reader sent, shown before its
/// recipient.
pub open spec fn own_mail_prefix() -> Seq<char> {
    "\u{2192} "@
}

/// The status column: `R` when replied, `F` when forwarded, `A` when
/// it has an attachment, each a space otherwise.
pub open spec fn status_text_of(tags: Seq<Seq<char>>) -> Seq<char> {
    seq![
        if tags.contains("replied"@) { 'R' } else { ' ' },
        if tags.contains("passed"@) { 'F' } else { ' ' },
        if tags.contains("attachment"@) { 'A' } else { ' ' },
    ]
}

pub fn status_text(tags: &Vec<String>) -> (r: String)
    ensures
        r@ == status_text_of(texts_of(tags@)),
{
    let mut out: Vec<char> = Vec::new();
    out.push(if contains_name(tags, "replied") { 'R' } else { ' ' });
    out.push(if contains_name(tags, "passed") { 'F' } else { ' ' });
    out.push(if contains_name(tags, "attachment") { 'A' } else { ' ' });
    assert(out@ =~= status_text_of(texts_of(tags@)));
    string_of(&out)
}

/// Whether the message carries the `flagged` tag.
pub fn is_flagged(tags: &Vec<String>) -> (r: bool)
    ensures
        r == texts_of(tags@).contains("flagged"@),
{
    contains_name(tags, "flagged")
}

/// A rendered date split at its last space: the date part, and the
/// time part with its leading space; a single token is all date.
pub open spec fn date_time_of(rendered: Seq<char>) -> (Seq<char>, Seq<char>) {
    match last_index_of(rendered, ' ') {
        Some(i) => (rendered.take(i), rendered.skip(i)),
        None => (rendered, Seq::empty()),
    }
}

pub fn date_time_parts(rendered: &str) -> (r: (String, String))
    ensures
        (r.0@, r.1@) == date_time_of(rendered@),
{
    let v = chars_of(rendered);
    match last_index_in(&v, ' ') {
        Some(i) => {
            let date = slice_chars(&v, 0, i);
            let time = slice_chars(&v, i, v.len());
            (string_of(&date), string_of(&time))
        },
        None => (rendered.to_owned(), String::new()),
    }
}

/// Cell text never crosses its column: text longer than `width`
/// characters keeps `width - 1` of them and ends in an ellipsis.
pub open spec fn truncated(text: Seq<char>, width: nat) -> Seq<char> {
    if text.len() <= width {
        text
    } else if width == 0 {
        Seq::empty()
    } else {
        text.take(width - 1).push(ellipsis())
    }
}

pub fn truncate(text: &str, width: u16) -> (r: String)
    ensures
        r@ == truncated(text@, width as nat),
{
    let v = chars_of(text);
    let w = width as usize;
    if v.len() <= w {
        return text.to_owned();
    }
    if w == 0 {
        return String::new();
    }
    let mut kept = slice_chars(&v, 0, w - 1);
    kept.push('\u{2026}');
    string_of(&kept)
}

/// The part of an address field before its first `<`.
pub open spec fn before_angle(field: Seq<char>) -> Seq<char> {
    match first_index(field, is_char('<')) {
        Some(i) => field.take(i),
        None => field,
    }
}

/// The display name of a `From`-style field: the trimmed, unquoted
/// part before the angle brackets, or the whole trimmed field when
/// that is empty.
pub open spec fn sender_name_of(from: Seq<char>) -> Seq<char> {
    let name = trim_chars(trim(before_angle(from)), seq!['"']);
    if name.len() == 0 {
        trim(from)
    } else {
        name
    }
}

pub fn sender_name(from: &str) -> (r: String)
    ensures
        r@ == sender_name_of(from@),
{
    let v = chars_of(from);
    let head = match find_char_from(&v, '<', 0) {
        Some(i) => {
            proof {
                assert forall|j: int| 0 <= j < i implies !(is_char('<'))(#[trigger] v@[j]) by {}
                lemma_first_index_is(v@, is_char('<'), i as int);
            }
            slice_chars(&v, 0, i)
        },
        None => {
            proof {
                assert forall|j: int| 0 <= j < v@.len() implies !(is_char('<'))(#[trigger] v@[j]) by {}
                lemma_first_index_is(v@, is_char('<'), v@.len() as int);
            }
            copy_chars(&v)
        },
    };
    assert(head@ == before_angle(from@));
    let quote: Vec<char> = vec!['"'];
    assert(quote@ =~= seq!['"']);
    let name = trimmed_chars(&trimmed(&head), &quote);
    if name.len() == 0 {
        string_of(&trimmed(&v))
    } else {
        string_of(&name)
    }
}

/// The correspondent column: for the reader's own mail, who it went
/// to after the own-mail arrow; otherwise who sent it.
pub open spec fn from_text_of(own: bool, from: Seq<char>, to: Seq<char>) -> Seq<char> {
    if own {
        own_mail_prefix() + sender_name_of(to)
    } else {
        sender_name_of(from)
    }
}

pub fn from_text(own: bool, from: &str, to: &str) -> (r: String)
    ensures
        r@ == from_text_of(own, from@, to@),
{
    if own {
        let mut out = chars_of("\u{2192} ");
        let name = sender_name(to);
        append_str(&mut out, name.as_str());
        string_of(&out)
    } else {
        sender_name(from)
    }
}

/// The subject cell: the unread mark (a diamond, or two spaces), the
/// flag mark (a flag, or two spaces), then the subject cut to `width`,
/// the columns left after the marks.
pub open spec fn subject_text_of(unread: bool, tags: Seq<Seq<char>>, subject: Seq<char>, width: nat) -> Seq<char> {
    (if unread { "\u{25c6} "@ } else { "  "@ }) + (if tags.contains("flagged"@) { "\u{2691} "@ } else { "  "@ })
        + truncated(subject, width)
}

pub fn subject_text(unread: bool, tags: &Vec<String>, subject: &str, width: u16) -> (r: String)
    ensures
        r@ == subject_text_of(unread, texts_of(tags@), subject@, width as nat),
{
    let mut out = if unread {
        chars_of("\u{25c6} ")
    } else {
        chars_of("  ")
    };
    if is_flagged(tags) {
        append_str(&mut out, "\u{2691} ");
    } else {
        append_str(&mut out, "  ");
    }
    let cut = truncate(subject, width);
    append_str(&mut out, cut.as_str());
    proof {
        reveal_strlit("\u{25c6} ");
        reveal_strlit("\u{2691} ");
        reveal_strlit("  ");
    }
    string_of(&out)
}

} // verus!
