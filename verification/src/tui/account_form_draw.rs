//! The text of the account form's modal: an error sentence wrapped to
//! the modal's width, and a secret shown as a row of bullets.
use vstd::prelude::*;

use crate::text::{
    append_chars, append_str, chars_of, is_ws, join_with, lemma_texts_of_push, lines_view, string_of, texts_of, words, words_from, words_of,
};
use crate::tui::account_form::{label_spec, AccountFormState, Field, OauthProvider};
use crate::tui::headers::{with_cursor, with_cursor_of};
use crate::tui::drafts_laws::lemma_words_of_join;

verus! {

broadcast use vstd::string::group_string_axioms;

/// The groups of words a greedy wrap to `width` has closed, and the
/// group it is still filling: a word joins the open group unless the
/// group, a space and the word would run past `width`.
pub open spec fn wrap_state(ws: Seq<Seq<char>>, width: int) -> (Seq<Seq<Seq<char>>>, Seq<Seq<char>>)
    decreases ws.len(),
{
    if ws.len() == 0 {
        (seq![], seq![])
    } else {
        let (groups, open) = wrap_state(ws.drop_last(), width);
        let w = ws.last();
        if open.len() > 0 && join_with(open, seq![' ']).len() + 1 + w.len() > width {
            (groups.push(open), seq![w])
        } else {
            (groups, open.push(w))
        }
    }
}

/// The word groups of a greedy wrap, one per row.
pub open spec fn wrap_groups(ws: Seq<Seq<char>>, width: int) -> Seq<Seq<Seq<char>>> {
    let (groups, open) = wrap_state(ws, width);
    if open.len() > 0 {
        groups.push(open)
    } else {
        groups
    }
}

/// The rows of `text` wrapped greedily to `width`: its words, a single
/// space apart within a row.
pub open spec fn wrap_rows(text: Seq<char>, width: int) -> Seq<Seq<char>> {
    wrap_groups(words(text), width).map_values(|g: Seq<Seq<char>>| join_with(g, seq![' ']))
}

/// A row that fits `width`, or holds a single word.
pub open spec fn fits_or_single(group: Seq<Seq<char>>, width: int) -> bool {
    join_with(group, seq![' ']).len() <= width || group.len() == 1
}

/// Every word is non-empty and holds no whitespace.
pub open spec fn solid_words(ws: Seq<Seq<char>>) -> bool {
    &&& forall|k: int| 0 <= k < ws.len() ==> #[trigger] ws[k].len() > 0
    &&& forall|k: int, i: int| 0 <= k < ws.len() && 0 <= i < ws[k].len() ==> !is_ws(#[trigger] ws[k][i])
}

proof fn lemma_words_solid(s: Seq<char>, word: Seq<char>)
    requires
        forall|i: int| 0 <= i < word.len() ==> !is_ws(#[trigger] word[i]),
    ensures
        solid_words(words_from(s, word)),
    decreases s.len(),
{
    if s.len() == 0 {
    } else if is_ws(s[0]) {
        lemma_words_solid(s.drop_first(), seq![]);
        let first: Seq<Seq<char>> = if word.len() == 0 { seq![] } else { seq![word] };
        let rest = words_from(s.drop_first(), seq![]);
        let all = first + rest;
        assert forall|k: int| 0 <= k < all.len() implies #[trigger] all[k].len() > 0 by {
            if k >= first.len() {
                assert(all[k] == rest[k - first.len()]);
            }
        }
        assert forall|k: int, i: int| 0 <= k < all.len() && 0 <= i < all[k].len() implies !is_ws(#[trigger] all[k][i]) by {
            if k >= first.len() {
                assert(all[k] == rest[k - first.len()]);
            }
        }
    } else {
        let next = word.push(s[0]);
        assert forall|i: int| 0 <= i < next.len() implies !is_ws(#[trigger] next[i]) by {
            if i < word.len() {
                assert(next[i] == word[i]);
            }
        }
        lemma_words_solid(s.drop_first(), next);
    }
}

/// `join_with(g.push(w))` adds a space and `w` to a non-empty group.
proof fn lemma_join_push(g: Seq<Seq<char>>, w: Seq<char>)
    ensures
        join_with(g.push(w), seq![' ']) == if g.len() == 0 {
            w
        } else {
            join_with(g, seq![' ']) + seq![' '] + w
        },
{
    assert(g.push(w).drop_last() =~= g);
    if g.len() == 0 {
        assert(g.push(w)[0] == w);
    }
}

/// What the greedy wrap keeps true after each word: the groups and the
/// open group hold the words read so far, in order; no group is empty;
/// each fits or holds one word; and no group could have taken the next
/// group's first word.
pub open spec fn wrap_invariant(ws: Seq<Seq<char>>, groups: Seq<Seq<Seq<char>>>, open: Seq<Seq<char>>, width: int) -> bool {
    &&& groups.flatten() + open == ws
    &&& forall|i: int| 0 <= i < groups.len() ==> #[trigger] groups[i].len() > 0
    &&& forall|i: int| 0 <= i < groups.len() ==> fits_or_single(#[trigger] groups[i], width)
    &&& forall|i: int| 0 <= i < groups.len() - 1 ==>
        join_with(#[trigger] groups[i], seq![' ']).len() + 1 + groups[i + 1][0].len() > width
    &&& groups.len() > 0 ==> open.len() > 0
    &&& open.len() > 0 ==> fits_or_single(open, width)
    &&& groups.len() > 0 ==> join_with(groups.last(), seq![' ']).len() + 1 + open[0].len() > width
}

proof fn lemma_wrap_state(ws: Seq<Seq<char>>, width: int)
    ensures
        wrap_invariant(ws, wrap_state(ws, width).0, wrap_state(ws, width).1, width),
    decreases ws.len(),
{
    if ws.len() == 0 {
        assert(Seq::<Seq<Seq<char>>>::empty().flatten() =~= Seq::<Seq<char>>::empty());
        assert(Seq::<Seq<char>>::empty() + Seq::<Seq<char>>::empty() =~= ws);
    } else {
        let prev = ws.drop_last();
        lemma_wrap_state(prev, width);
        let (groups, open) = wrap_state(prev, width);
        let w = ws.last();
        lemma_join_push(open, w);
        if open.len() > 0 && join_with(open, seq![' ']).len() + 1 + w.len() > width {
            let g2 = groups.push(open);
            vstd::seq_lib::lemma_flatten_concat(groups, seq![open]);
            assert(seq![open].flatten() =~= open) by {
                assert(seq![open].drop_first() =~= Seq::<Seq<Seq<char>>>::empty());
                assert(Seq::<Seq<Seq<char>>>::empty().flatten() =~= Seq::<Seq<char>>::empty());
            }
            assert(groups + seq![open] =~= g2);
            assert(g2.flatten() + seq![w] =~= ws);
            assert(g2.last() == open);
            assert(seq![w][0] == w);
            assert(join_with(seq![w], seq![' ']) == w);
            assert forall|i: int| 0 <= i < g2.len() - 1 implies join_with(#[trigger] g2[i], seq![' ']).len() + 1
                + g2[i + 1][0].len() > width by {
                if i < groups.len() - 1 {
                    assert(g2[i] == groups[i] && g2[i + 1] == groups[i + 1]);
                } else {
                    assert(g2[i] == groups.last());
                    assert(g2[i + 1] == open);
                }
            }
            assert forall|i: int| 0 <= i < g2.len() implies #[trigger] g2[i].len() > 0 by {
                if i < groups.len() {
                    assert(g2[i] == groups[i]);
                }
            }
            assert forall|i: int| 0 <= i < g2.len() implies fits_or_single(#[trigger] g2[i], width) by {
                if i < groups.len() {
                    assert(g2[i] == groups[i]);
                }
            }
        } else {
            let o2 = open.push(w);
            assert(ws =~= prev.push(w));
            assert(groups.flatten() + o2 =~= (groups.flatten() + open).push(w));
            assert(o2[0] == if open.len() == 0 { w } else { open[0] });
        }
    }
}

/// The greedy wrap as rows of text: each row holds its group's words;
/// together the rows hold the text's words in order; a row runs past
/// `width` only when it holds a single word; and no row could have
/// taken the next row's first word without running past `width`.
pub proof fn law_wrap_is_greedy(text: Seq<char>, width: int)
    ensures
        ({
            let rows = wrap_rows(text, width);
            &&& rows.map_values(|r: Seq<char>| words(r)).flatten() == words(text)
            &&& forall|i: int| 0 <= i < rows.len() ==> words(#[trigger] rows[i]).len() > 0
            &&& forall|i: int| 0 <= i < rows.len() ==> rows[i].len() <= width || words(#[trigger] rows[i]).len() == 1
            &&& forall|i: int| 0 <= i < rows.len() - 1 ==>
                (#[trigger] rows[i]).len() + 1 + words(rows[i + 1])[0].len() > width
        }),
{
    let ws = words(text);
    lemma_words_solid(text, seq![]);
    lemma_wrap_state(ws, width);
    let (groups, open) = wrap_state(ws, width);
    let all = wrap_groups(ws, width);
    let rows = wrap_rows(text, width);
    if open.len() > 0 {
        vstd::seq_lib::lemma_flatten_concat(groups, seq![open]);
        assert(seq![open].flatten() =~= open) by {
            assert(seq![open].drop_first() =~= Seq::<Seq<Seq<char>>>::empty());
            assert(Seq::<Seq<Seq<char>>>::empty().flatten() =~= Seq::<Seq<char>>::empty());
        }
        assert(groups + seq![open] =~= all);
    } else {
        assert(groups.flatten() + open =~= groups.flatten());
    }
    assert(all.flatten() == ws);
    assert forall|i: int| 0 <= i < all.len() implies #[trigger] all[i].len() > 0 && fits_or_single(all[i], width) by {
        if i < groups.len() {
            assert(all[i] == groups[i]);
        }
    }
    assert forall|i: int| 0 <= i < all.len() - 1 implies join_with(#[trigger] all[i], seq![' ']).len() + 1
        + all[i + 1][0].len() > width by {
        if i < groups.len() - 1 {
            assert(all[i] == groups[i] && all[i + 1] == groups[i + 1]);
        } else {
            assert(all[i] == groups.last());
            assert(all[i + 1] == open);
        }
    }
    // each word of the text sits in exactly one group, so the groups
    // inherit the words' shape
    assert forall|i: int| 0 <= i < all.len() implies solid_words(#[trigger] all[i]) by {
        lemma_group_solid(all, ws, i);
    }
    assert forall|i: int| 0 <= i < all.len() implies words(#[trigger] rows[i]) == all[i] by {
        assert(rows[i] == join_with(all[i], seq![' ']));
        lemma_words_of_join(all[i]);
    }
    assert(rows.map_values(|r: Seq<char>| words(r)) =~= all);
    assert forall|i: int| 0 <= i < rows.len() implies rows[i].len() <= width || words(#[trigger] rows[i]).len() == 1 by {
        assert(words(rows[i]) == all[i]);
    }
    assert forall|i: int| 0 <= i < rows.len() - 1 implies (#[trigger] rows[i]).len() + 1 + words(rows[i + 1])[0].len()
        > width by {
        assert(words(rows[i + 1]) == all[i + 1]);
        assert(rows[i] == join_with(all[i], seq![' ']));
    }
}

/// A group of a sequence whose flattening is solid words is itself
/// solid.
proof fn lemma_group_solid(all: Seq<Seq<Seq<char>>>, ws: Seq<Seq<char>>, i: int)
    requires
        all.flatten() == ws,
        solid_words(ws),
        0 <= i < all.len(),
    ensures
        solid_words(all[i]),
    decreases all.len(),
{
    let rest = all.drop_first();
    assert(all.flatten() == all[0] + rest.flatten());
    let first = all[0];
    if i == 0 {
        assert forall|k: int| 0 <= k < first.len() implies #[trigger] first[k].len() > 0 by {
            assert(first[k] == ws[k]);
        }
        assert forall|k: int, j: int| 0 <= k < first.len() && 0 <= j < first[k].len() implies !is_ws(
            #[trigger] first[k][j],
        ) by {
            assert(first[k] == ws[k]);
        }
    } else {
        let tail = rest.flatten();
        assert(tail =~= ws.skip(first.len() as int));
        assert forall|k: int| 0 <= k < tail.len() implies #[trigger] tail[k].len() > 0 by {
            assert(tail[k] == ws[k + first.len()]);
        }
        assert forall|k: int, j: int| 0 <= k < tail.len() && 0 <= j < tail[k].len() implies !is_ws(
            #[trigger] tail[k][j],
        ) by {
            assert(tail[k] == ws[k + first.len()]);
        }
        lemma_group_solid(rest, tail, i - 1);
        assert(rest[i - 1] == all[i]);
    }
}

/// `text` wrapped greedily to `width`, for the error under the form.
pub fn wrapped(text: &str, width: usize) -> (r: Vec<String>)
    ensures
        texts_of(r@) == wrap_rows(text@, width as int),
{
    let ws = words_of(&chars_of(text));
    let ghost all = lines_view(ws@);
    proof {
        lemma_words_solid(text@, seq![]);
    }
    let mut rows: Vec<String> = Vec::new();
    let mut row: Vec<char> = Vec::new();
    let ghost mut groups: Seq<Seq<Seq<char>>> = seq![];
    let ghost mut open: Seq<Seq<char>> = seq![];
    let mut i: usize = 0;
    while i < ws.len()
        invariant
            i <= ws.len(),
            all == lines_view(ws@),
            all == words(text@),
            solid_words(all),
            (groups, open) == wrap_state(all.take(i as int), width as int),
            row@ == join_with(open, seq![' ']),
            (row@.len() == 0) == (open.len() == 0),
            texts_of(rows@) == groups.map_values(|g: Seq<Seq<char>>| join_with(g, seq![' '])),
        decreases ws.len() - i,
    {
        let word = &ws[i];
        let ghost w = all[i as int];
        assert(word@ == w);
        assert(all.take(i + 1).drop_last() =~= all.take(i as int));
        assert(all.take(i + 1).last() == w);
        let over = row.len() > 0 && (row.len() >= width || word.len() >= width - row.len());
        if over {
            let done = string_of(&row);
            let ghost before = rows@;
            rows.push(done);
            row = Vec::new();
            proof {
                lemma_texts_of_push(before, done);
                assert(texts_of(rows@) =~= groups.push(open).map_values(|g: Seq<Seq<char>>| join_with(g, seq![' '])));
                groups = groups.push(open);
                open = seq![];
            }
        }
        if row.len() > 0 {
            row.push(' ');
        }
        append_chars(&mut row, word);
        proof {
            lemma_join_push(open, w);
            open = open.push(w);
            assert(w.len() > 0);
        }
        i = i + 1;
    }
    if row.len() > 0 {
        let last = string_of(&row);
        let ghost before = rows@;
        rows.push(last);
        proof {
            lemma_texts_of_push(before, last);
            assert(texts_of(rows@) =~= groups.push(open).map_values(|g: Seq<Seq<char>>| join_with(g, seq![' '])));
        }
    }
    assert(all.take(ws.len() as int) =~= all);
    proof {
        assert(texts_of(rows@) =~= wrap_rows(text@, width as int));
    }
    rows
}

/// The bullet a masked character is shown as.
pub open spec fn bullet() -> char {
    '\u{2022}'
}

/// What row `index` of the form shows: a masked secret as one bullet
/// per character, anything else as it stands.
pub open spec fn shown_value_of(form: AccountFormState, index: int) -> Seq<char> {
    let value = form.value(form.rows()[index]);
    if form.rows()[index] == crate::tui::account_form::Field::KeychainSecret {
        Seq::new(value.len(), |i: int| bullet())
    } else {
        value
    }
}

pub fn shown_value(form: &AccountFormState, index: usize) -> (r: String)
    requires
        index < form.rows().len(),
    ensures
        r@ == shown_value_of(*form, index as int),
{
    let value = form.field_value(index);
    if form.field_masked(index) {
        let n = chars_of(value).len();
        let mut out: Vec<char> = Vec::new();
        let mut i: usize = 0;
        while i < n
            invariant
                i <= n,
                out@ == Seq::new(i as nat, |k: int| bullet()),
            decreases n - i,
        {
            out.push('\u{2022}');
            assert(out@ =~= Seq::new((i + 1) as nat, |k: int| bullet()));
            i = i + 1;
        }
        string_of(&out)
    } else {
        value.to_string()
    }
}

/// The hint after an empty password command while the Keychain row
/// below can hold the password instead.
pub open spec fn password_hint() -> Seq<char> {
    "empty = use the Keychain field below"@
}

/// The hint after an empty Microsoft client id.
pub open spec fn client_id_ms_hint() -> Seq<char> {
    "blank for Thunderbird's"@
}

/// The muted hint shown after row `index`, if any.
pub open spec fn field_hint_of(form: AccountFormState, index: int) -> Option<Seq<char>> {
    let f = form.rows()[index];
    if f == Field::PasswordCmd && form.keychain_available && form.value(f).len() == 0 {
        Some(password_hint())
    } else if f == Field::ClientId && form.account_type.provider_spec() == Some(OauthProvider::Microsoft)
        && form.value(f).len() == 0 {
        Some(client_id_ms_hint())
    } else {
        None
    }
}

pub fn field_hint(form: &AccountFormState, index: usize) -> (r: Option<String>)
    requires
        index < form.rows().len(),
    ensures
        r matches Some(h) ==> field_hint_of(*form, index as int) == Some(h@),
        r is None ==> field_hint_of(*form, index as int) is None,
{
    let rows = form.shown_rows();
    let f = rows[index];
    let empty = chars_of(form.field_value(index)).len() == 0;
    proof {
        reveal_strlit("empty = use the Keychain field below");
        reveal_strlit("blank for Thunderbird's");
    }
    if f == Field::PasswordCmd && form.keychain_available && empty {
        Some("empty = use the Keychain field below".to_string())
    } else if f == Field::ClientId && matches!(form.provider(), Some(OauthProvider::Microsoft)) && empty {
        Some("blank for Thunderbird's".to_string())
    } else {
        None
    }
}

/// `label` padded with spaces to `cols` characters.
pub open spec fn padded_to(label: Seq<char>, cols: int) -> Seq<char> {
    label + Seq::new(if label.len() < cols { (cols - label.len()) as nat } else { 0 }, |i: int| ' ')
}

pub(crate) fn pad_to(label: &str, cols: usize) -> (r: Vec<char>)
    ensures
        r@ == padded_to(label@, cols as int),
{
    let mut out = chars_of(label);
    let n = out.len();
    let mut i: usize = n;
    while i < cols
        invariant
            n == label@.len(),
            n <= i <= cols || (i == n && n >= cols),
            out@ == label@ + Seq::new((i - n) as nat, |k: int| ' '),
        decreases cols - i,
    {
        out.push(' ');
        assert(label@ + Seq::new((i + 1 - n) as nat, |k: int| ' ') =~= (label@ + Seq::new((i - n) as nat, |k: int|
            ' ')).push(' '));
        i = i + 1;
    }
    assert(out@ =~= padded_to(label@, cols as int));
    out
}

/// Row `index` of the form as text: its label in a column of 24, the
/// shown value (with the cursor on the focused row), then the hint in
/// brackets.
pub open spec fn form_row_of(form: AccountFormState, index: int) -> Seq<char> {
    let shown = shown_value_of(form, index);
    padded_to(label_spec(form.rows()[index]), 24) + (if index == form.focus {
        with_cursor_of(shown, form.cursor as int)
    } else {
        shown
    }) + match field_hint_of(form, index) {
        Some(h) => " ("@ + h + ")"@,
        None => Seq::empty(),
    }
}

/// The form's text: a row per field, then, under a blank line, the
/// error wrapped to `width` when there is one with any words in it.
pub open spec fn form_text_of(form: AccountFormState, width: int) -> Seq<Seq<char>> {
    let rows = Seq::new(form.rows().len(), |i: int| form_row_of(form, i));
    match form.error {
        Some(e) => if wrap_rows(e@, width).len() > 0 {
            rows + seq![Seq::<char>::empty()] + wrap_rows(e@, width)
        } else {
            rows
        },
        None => rows,
    }
}

/// The modal's title: whether the form adds an account or edits one.
pub fn form_title(form: &AccountFormState) -> (r: &'static str)
    ensures
        r@ == (if form.editing is Some { " edit account "@ } else { " add account "@ }),
{
    if form.editing.is_some() {
        " edit account "
    } else {
        " add account "
    }
}

/// The text of the form's modal, `width` characters inside its border.
pub fn form_text(form: &AccountFormState, width: usize) -> (r: Vec<String>)
    ensures
        texts_of(r@) == form_text_of(*form, width as int),
{
    let n = form.field_count();
    let mut out: Vec<String> = Vec::new();
    let mut i: usize = 0;
    while i < n
        invariant
            i <= n,
            n == form.rows().len(),
            texts_of(out@) == Seq::new(i as nat, |k: int| form_row_of(*form, k)),
        decreases n - i,
    {
        let label = form.field_label(i);
        let shown = shown_value(form, i);
        let mut line = pad_to(label, 24);
        if i == form.focus {
            let marked = with_cursor(shown.as_str(), form.cursor);
            append_str(&mut line, marked.as_str());
        } else {
            append_str(&mut line, shown.as_str());
        }
        match field_hint(form, i) {
            Some(h) => {
                append_str(&mut line, " (");
                append_str(&mut line, h.as_str());
                append_str(&mut line, ")");
            },
            None => {},
        }
        let ghost before = out@;
        let row = string_of(&line);
        out.push(row);
        proof {
            reveal_strlit(" (");
            reveal_strlit(")");
            lemma_texts_of_push(before, row);
            assert(row@ =~= form_row_of(*form, i as int));
            assert(texts_of(out@) =~= Seq::new((i + 1) as nat, |k: int| form_row_of(*form, k)));
        }
        i = i + 1;
    }
    match &form.error {
        Some(e) => {
            let lines = wrapped(e.as_str(), width);
            if lines.len() > 0 {
                let ghost before = out@;
                let blank = String::new();
                out.push(blank);
                proof {
                    lemma_texts_of_push(before, blank);
                }
                let mut j: usize = 0;
                while j < lines.len()
                    invariant
                        j <= lines.len(),
                        texts_of(out@) == Seq::new(n as nat, |k: int| form_row_of(*form, k)) + seq![
                            Seq::<char>::empty(),
                        ] + texts_of(lines@).take(j as int),
                    decreases lines.len() - j,
                {
                    let ghost b = out@;
                    let l = lines[j].clone();
                    out.push(l);
                    proof {
                        lemma_texts_of_push(b, l);
                        assert(texts_of(lines@).take(j + 1) =~= texts_of(lines@).take(j as int).push(lines@[j as int]@));
                        assert(texts_of(out@) =~= Seq::new(n as nat, |k: int| form_row_of(*form, k)) + seq![
                            Seq::<char>::empty(),
                        ] + texts_of(lines@).take(j + 1));
                    }
                    j = j + 1;
                }
                assert(texts_of(lines@).take(lines.len() as int) =~= texts_of(lines@));
            }
        },
        None => {},
    }
    out
}

} // verus!
