//! The text of the identity sub-editor over the account form: the
//! identity list, or the per-identity field editor.
use vstd::prelude::*;

use crate::text::{append_str, chars_of, lemma_texts_of_push, str_eq, string_of, texts_of, trim, trimmed};
use crate::tui::account_form::{on_off, on_off_spec};
use crate::tui::account_form_draw::padded_to;
use crate::tui::account_form_identity::{
    descriptor, descriptor_of, editor_text, editor_text_of, editor_value, FormIdentity, IdentityEditor,
    EDITOR_FIELDS, SIGN_ROW,
};
use crate::tui::headers::{with_cursor, with_cursor_of};

verus! {

broadcast use vstd::string::group_string_axioms;

/// An identity's list entry: its descriptor, then its address in angle
/// brackets unless the address is empty or is the descriptor itself.
pub open spec fn row_label_of(identity: FormIdentity) -> Seq<char> {
    let name = descriptor_of(identity);
    let address = trim(identity.address@);
    if address.len() == 0 || name == address {
        name
    } else {
        name + " <"@ + address + ">"@
    }
}

pub fn row_label(identity: &FormIdentity) -> (r: String)
    ensures
        r@ == row_label_of(*identity),
{
    let name = descriptor(identity);
    let address = string_of(&trimmed(&chars_of(identity.address.as_str())));
    if address.unicode_len() == 0 || str_eq(name.as_str(), address.as_str()) {
        return name;
    }
    let mut out = chars_of(name.as_str());
    append_str(&mut out, " <");
    append_str(&mut out, address.as_str());
    append_str(&mut out, ">");
    proof {
        reveal_strlit(" <");
        reveal_strlit(">");
        assert(out@ =~= row_label_of(*identity));
    }
    string_of(&out)
}

/// The marker before the selected entry of the list.
pub open spec fn list_marker(active: bool) -> Seq<char> {
    if active {
        "\u{25b8} "@
    } else {
        "  "@
    }
}

/// The identity list: each entry behind the selection marker or two
/// spaces.
pub open spec fn list_text_of(identities: Seq<FormIdentity>, selected: int) -> Seq<Seq<char>> {
    Seq::new(identities.len(), |i: int| list_marker(i == selected) + row_label_of(identities[i]))
}

pub fn list_text(identities: &Vec<FormIdentity>, selected: usize) -> (r: Vec<String>)
    ensures
        texts_of(r@) == list_text_of(identities@, selected as int),
{
    let mut out: Vec<String> = Vec::new();
    let mut i: usize = 0;
    while i < identities.len()
        invariant
            i <= identities@.len(),
            texts_of(out@) == list_text_of(identities@, selected as int).take(i as int),
        decreases identities@.len() - i,
    {
        let mut line = if i == selected {
            chars_of("\u{25b8} ")
        } else {
            chars_of("  ")
        };
        let label = row_label(&identities[i]);
        append_str(&mut line, label.as_str());
        let row = string_of(&line);
        proof {
            reveal_strlit("\u{25b8} ");
            reveal_strlit("  ");
            lemma_texts_of_push(out@, row);
            assert(list_text_of(identities@, selected as int).take(i + 1) =~= list_text_of(
                identities@,
                selected as int,
            ).take(i as int).push(row@));
        }
        out.push(row);
        i = i + 1;
    }
    assert(list_text_of(identities@, selected as int).take(identities@.len() as int) =~= list_text_of(
        identities@,
        selected as int,
    ));
    out
}

/// The label of editor row `row`.
pub open spec fn editor_label_of(row: int) -> Seq<char> {
    if row == 0 {
        "from name"@
    } else if row == 1 {
        "from address"@
    } else if row == 2 {
        "pgp key"@
    } else if row == 3 {
        "auto-sign"@
    } else if row == 4 {
        "signature"@
    } else {
        "match patterns"@
    }
}

fn editor_label(row: usize) -> (r: &'static str)
    ensures
        r@ == editor_label_of(row as int),
{
    if row == 0 {
        "from name"
    } else if row == 1 {
        "from address"
    } else if row == 2 {
        "pgp key"
    } else if row == 3 {
        "auto-sign"
    } else if row == 4 {
        "signature"
    } else {
        "match patterns"
    }
}

/// Editor row `row` as text: the label in a column of 16, then the
/// value, with the cursor on the focused text row; the auto-sign
/// toggle shows its setting.
pub open spec fn editor_row_of(e: IdentityEditor, row: int) -> Seq<char> {
    padded_to(editor_label_of(row), 16) + if row == SIGN_ROW {
        on_off_spec(e.draft.pgp_sign)
    } else if row == e.focus {
        with_cursor_of(editor_text(e.draft, row), e.cursor as int)
    } else {
        editor_text(e.draft, row)
    }
}

/// The editor's rows, one per field.
pub fn editor_text_rows(e: &IdentityEditor) -> (r: Vec<String>)
    ensures
        texts_of(r@) == Seq::new(EDITOR_FIELDS as nat, |k: int| editor_row_of(*e, k)),
{
    let mut out: Vec<String> = Vec::new();
    let mut i: usize = 0;
    while i < EDITOR_FIELDS
        invariant
            i <= EDITOR_FIELDS,
            texts_of(out@) == Seq::new(i as nat, |k: int| editor_row_of(*e, k)),
        decreases EDITOR_FIELDS - i,
    {
        let mut line = crate::tui::account_form_draw::pad_to(editor_label(i), 16);
        if i == SIGN_ROW {
            append_str(&mut line, on_off(e.draft.pgp_sign));
        } else if i == e.focus {
            let shown = with_cursor(editor_text_of(&e.draft, i), e.cursor);
            append_str(&mut line, shown.as_str());
        } else {
            append_str(&mut line, editor_text_of(&e.draft, i));
        }
        let row = string_of(&line);
        proof {
            lemma_texts_of_push(out@, row);
            assert(row@ =~= editor_row_of(*e, i as int));
            assert(texts_of(out@.push(row)) =~= Seq::new((i + 1) as nat, |k: int| editor_row_of(*e, k)));
        }
        out.push(row);
        i = i + 1;
    }
    out
}

/// The editor's title: whether it edits a listed identity or adds one.
pub fn editor_title(e: &IdentityEditor) -> (r: &'static str)
    ensures
        r@ == (if e.target is Some { " edit identity "@ } else { " add identity "@ }),
{
    if e.target.is_some() {
        " edit identity "
    } else {
        " add identity "
    }
}

} // verus!
