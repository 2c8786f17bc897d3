//! The pager's attachment drawer: how many rows it takes, its
//! collapsed summary, the window of the list shown expanded, and what
//! its keys ask for. Saving and viewing write files and are the event
//! loop's to carry out.
use vstd::prelude::*;

use crate::text::{
    append_str, ascii_lowercase, ascii_lowercased, chars_eq, chars_of, copy_chars, decimal, find_char_from, first_index, is_char,
    join_with, join_with_of, lemma_first_index_is, lemma_texts_of_push, lines_view, push_decimal, slice_chars,
    string_of, texts_of,
};
use crate::tui::account_form_draw::{padded_to, pad_to};
use crate::tui::attach::{attachment_label, Attachment};
use crate::tui::keys::KeyCode;

verus! {

broadcast use vstd::string::group_string_axioms;

/// The most attachments the expanded drawer lists at once.
pub const LIST_ROWS_MAX: u16 = 8;

/// Rows the drawer takes at the pager's bottom for `count` attachments:
/// none without any, one summary line collapsed, a header and a capped
/// list expanded.
pub open spec fn rows_needed_of(count: usize, open: bool) -> u16 {
    let n = count as u16;
    if n == 0 {
        0
    } else if !open {
        1
    } else {
        (1 + if n < LIST_ROWS_MAX { n } else { LIST_ROWS_MAX }) as u16
    }
}

pub fn rows_needed(count: usize, open: bool) -> (r: u16)
    ensures
        r == rows_needed_of(count, open),
{
    let n = count as u16;
    if n == 0 {
        return 0;
    }
    if !open {
        return 1;
    }
    1 + if n < LIST_ROWS_MAX {
        n
    } else {
        LIST_ROWS_MAX
    }
}

/// The collapsed drawer's line: the count, the noun, and the file
/// names comma-separated.
pub open spec fn summary_of(names: Seq<Seq<char>>) -> Seq<char> {
    decimal(names.len()) + (if names.len() == 1 { " attachment: "@ } else { " attachments: "@ }) + join_with(
        names,
        ", "@,
    )
}

pub fn attachment_summary(names: &Vec<String>) -> (r: String)
    ensures
        r@ == summary_of(texts_of(names@)),
{
    let mut out: Vec<char> = Vec::new();
    push_decimal(&mut out, names.len() as u128);
    if names.len() == 1 {
        append_str(&mut out, " attachment: ");
    } else {
        append_str(&mut out, " attachments: ");
    }
    let mut parts: Vec<Vec<char>> = Vec::new();
    let mut i: usize = 0;
    while i < names.len()
        invariant
            i <= names@.len(),
            lines_view(parts@) == texts_of(names@).take(i as int),
        decreases names@.len() - i,
    {
        let part = chars_of(names[i].as_str());
        let ghost before = parts@;
        parts.push(part);
        assert(lines_view(parts@) =~= lines_view(before).push(part@));
        assert(texts_of(names@).take(i + 1) =~= texts_of(names@).take(i as int).push(names@[i as int]@));
        i = i + 1;
    }
    assert(texts_of(names@).take(names@.len() as int) =~= texts_of(names@));
    let joined = join_with_of(&parts, &chars_of(", "));
    let mut tail = joined;
    out.append(&mut tail);
    proof {
        reveal_strlit(" attachment: ");
        reveal_strlit(" attachments: ");
        reveal_strlit(", ");
    }
    string_of(&out)
}

/// The first attachment listed when `visible` rows show the list and
/// `selected` must be among them.
pub open spec fn first_shown_of(selected: int, visible: int) -> int {
    if selected + 1 > visible {
        selected + 1 - visible
    } else {
        0
    }
}

/// The header of the expanded drawer.
pub open spec fn drawer_hint() -> Seq<char> {
    "attachments \u{b7} j/k select \u{b7} s save \u{b7} v view \u{b7} esc close"@
}

/// The marker before the selected attachment.
pub open spec fn marker(selected: bool) -> Seq<char> {
    if selected {
        "\u{25b8} "@
    } else {
        "  "@
    }
}

/// One listed attachment: the marker, then its name, type and size.
pub open spec fn attachment_row_of(a: Attachment, selected: bool) -> Seq<char> {
    marker(selected) + attachment_label(a.filename@, a.content_type@, a.bytes@.len())
}

/// The expanded drawer in an area `width` wide and `height` high: the
/// header padded to the width, then the window of the list that keeps
/// the selection in view.
pub open spec fn expanded_of(attachments: Seq<Attachment>, selected: int, width: int, height: int) -> Seq<Seq<char>> {
    let visible = if height > 1 { height - 1 } else { 0 };
    let first = first_shown_of(selected, visible);
    let last = if first + visible < attachments.len() { first + visible } else { attachments.len() as int };
    let count = if last > first { last - first } else { 0 };
    seq![padded_to(drawer_hint(), width)] + Seq::new(
        count as nat,
        |k: int| attachment_row_of(attachments[first + k], first + k == selected),
    )
}

pub fn expanded_text(attachments: &Vec<Attachment>, selected: usize, width: u16, height: u16) -> (r: Vec<String>)
    requires
        selected < usize::MAX,
    ensures
        texts_of(r@) == expanded_of(attachments@, selected as int, width as int, height as int),
{
    let mut out: Vec<String> = Vec::new();
    let header = string_of(&pad_to(
        "attachments \u{b7} j/k select \u{b7} s save \u{b7} v view \u{b7} esc close",
        width as usize,
    ));
    proof {
        reveal_strlit("attachments \u{b7} j/k select \u{b7} s save \u{b7} v view \u{b7} esc close");
        lemma_texts_of_push(out@, header);
    }
    out.push(header);
    let visible: usize = if height > 1 {
        (height - 1) as usize
    } else {
        0
    };
    let first: usize = if selected + 1 > visible {
        selected + 1 - visible
    } else {
        0
    };
    let last: usize = if first < attachments.len() && visible < attachments.len() - first {
        first + visible
    } else {
        attachments.len()
    };
    let ghost want = expanded_of(attachments@, selected as int, width as int, height as int);
    let mut i: usize = first;
    while i < last
        invariant
            first <= i <= last || (i == first && last <= first),
            last <= attachments@.len(),
            last <= first || i <= last,
            want == expanded_of(attachments@, selected as int, width as int, height as int),
            visible as int == (if height > 1 { height - 1 } else { 0 }),
            first as int == first_shown_of(selected as int, visible as int),
            last as int == (if first + visible < attachments@.len() { first + visible } else { attachments@.len() as int }),
            texts_of(out@) == want.take(1 + i - first),
        decreases last - i,
    {
        let mut line = if i == selected {
            chars_of("\u{25b8} ")
        } else {
            chars_of("  ")
        };
        let label = attachments[i].label();
        append_str(&mut line, label.as_str());
        let row = string_of(&line);
        proof {
            reveal_strlit("\u{25b8} ");
            reveal_strlit("  ");
            lemma_texts_of_push(out@, row);
            assert(want[1 + i - first] == row@);
            assert(want.take(1 + i + 1 - first) =~= want.take(1 + i - first).push(row@));
        }
        out.push(row);
        i = i + 1;
    }
    proof {
        assert(want.len() == 1 + if last > first { last - first } else { 0 });
        assert(want.take(want.len() as int) =~= want);
    }
    out
}

/// What a key asks of the expanded drawer.
#[derive(Clone, Copy, Debug, PartialEq, Eq, Structural)]
pub enum DrawerStep {
    /// Esc collapses it.
    Close,
    /// j/k and the arrows move the selection, held to the list.
    Select(usize),
    /// s asks where to save the selected attachment.
    Save,
    /// v opens the selected attachment.
    View,
    /// Anything else is swallowed.
    Stay,
}

pub open spec fn drawer_step_of(selected: int, count: int, code: KeyCode) -> DrawerStep {
    let last = if count > 0 { count - 1 } else { 0 };
    match code {
        KeyCode::Esc => DrawerStep::Close,
        KeyCode::Char('j') | KeyCode::Down => DrawerStep::Select(
            (if selected + 1 < last { selected + 1 } else { last }) as usize,
        ),
        KeyCode::Char('k') | KeyCode::Up => DrawerStep::Select((if selected > 0 { selected - 1 } else { 0 }) as usize),
        KeyCode::Char('s') => DrawerStep::Save,
        KeyCode::Char('v') => DrawerStep::View,
        _ => DrawerStep::Stay,
    }
}

pub fn drawer_step(selected: usize, count: usize, code: KeyCode) -> (r: DrawerStep)
    requires
        selected < usize::MAX,
    ensures
        r == drawer_step_of(selected as int, count as int, code),
{
    let last = if count > 0 {
        count - 1
    } else {
        0
    };
    match code {
        KeyCode::Esc => DrawerStep::Close,
        KeyCode::Char('j') | KeyCode::Down => DrawerStep::Select(
            if selected + 1 < last {
                selected + 1
            } else {
                last
            },
        ),
        KeyCode::Char('k') | KeyCode::Up => DrawerStep::Select(
            if selected > 0 {
                selected - 1
            } else {
                0
            },
        ),
        KeyCode::Char('s') => DrawerStep::Save,
        KeyCode::Char('v') => DrawerStep::View,
        _ => DrawerStep::Stay,
    }
}

/// Whether a content type is an image: its top-level type, before any
/// `/`, is `image` in any ASCII case.
pub open spec fn is_image_of(content_type: Seq<char>) -> bool {
    let top = match first_index(content_type, is_char('/')) {
        Some(i) => content_type.take(i),
        None => content_type,
    };
    ascii_lowercase(top) == "image"@
}

pub fn is_image(content_type: &str) -> (r: bool)
    ensures
        r == is_image_of(content_type@),
{
    let v = chars_of(content_type);
    assert(v@.skip(0) =~= v@);
    let found = find_char_from(&v, '/', 0);
    let top = match found {
        Some(i) => slice_chars(&v, 0, i),
        None => copy_chars(&v),
    };
    let lower = ascii_lowercased(&top);
    proof {
        reveal_strlit("image");
        match found {
            Some(i) => {
                lemma_first_index_is(content_type@, is_char('/'), i as int);
                assert(top@ =~= content_type@.take(i as int));
            },
            None => {
                lemma_first_index_is(content_type@, is_char('/'), content_type@.len() as int);
            },
        }
    }
    chars_eq(&lower, &chars_of("image"))
}

} // verus!
