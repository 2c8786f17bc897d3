//! Surgical TOML edits: rewrite exactly one key in a config file,
//! leaving every other line (comments included) intact. Everything
//! the settings view and the `:theme` command persist goes through
//! here; the file I/O around these text edits lives with the caller.
use vstd::prelude::*;

use crate::text::{
    append_chars, append_str, chars_eq, chars_of, copy_chars, find_char_from, first_index,
    first_index_or, is_char, join_with, join_with_of, is_whitespace, is_ws, join_lines, join_lines_of, leading_ws,
    leading_ws_len, lemma_first_index, lemma_first_index_is, lemma_lines_view_push, lemma_leading_ws,
    lemma_trimmed_end_len, lines_view, slice_chars, split_lines, split_lines_of, string_of, trim,
    trim_start, trimmed, trimmed_end_len, trimmed_end_of,
};

verus! {

broadcast use vstd::string::group_string_axioms;

// ---------------------------------------------------------------
// Model
// ---------------------------------------------------------------

/// `[table]`
pub open spec fn header_of(table: Seq<char>) -> Seq<char> {
    seq!['['] + table + seq![']']
}

/// `[[table]]`
pub open spec fn array_header_of(table: Seq<char>) -> Seq<char> {
    seq!['[', '['] + table + seq![']', ']']
}

/// A line that opens a table: trimmed, it starts with `[` and ends
/// with `]`.
pub open spec fn is_table_header(line: Seq<char>) -> bool {
    let t = trim(line);
    t.len() > 0 && t[0] == '[' && t[t.len() - 1] == ']'
}

pub open spec fn header_fn() -> spec_fn(Seq<char>) -> bool {
    |line: Seq<char>| is_table_header(line)
}

pub open spec fn trims_to(header: Seq<char>) -> spec_fn(Seq<char>) -> bool {
    |line: Seq<char>| trim(line) == header
}

/// The exclusive end of the section whose header sits at `start`:
/// the next table header, or the end of the file.
pub open spec fn section_end(lines: Seq<Seq<char>>, start: int) -> int {
    match first_index(lines.skip(start + 1), header_fn()) {
        Some(offset) => start + 1 + offset,
        None => lines.len() as int,
    }
}

/// The header's line and the exclusive end of its body.
pub open spec fn table_range(lines: Seq<Seq<char>>, header: Seq<char>) -> Option<(int, int)> {
    match first_index(lines, trims_to(header)) {
        Some(start) => Some((start, section_end(lines, start))),
        None => None,
    }
}

pub open spec fn is_bare_key_char(c: char) -> bool {
    ('a' <= c && c <= 'z') || ('A' <= c && c <= 'Z') || ('0' <= c && c <= '9') || c == '-' || c
        == '_'
}

/// Bare unless `key` holds a character a bare TOML key cannot carry.
pub open spec fn toml_key(key: Seq<char>) -> Seq<char> {
    if forall|i: int| 0 <= i < key.len() ==> is_bare_key_char(#[trigger] key[i]) {
        key
    } else {
        seq!['"'] + key + seq!['"']
    }
}

/// `key = value`
pub open spec fn key_line(key: Seq<char>, value: Seq<char>) -> Seq<char> {
    toml_key(key) + seq![' ', '=', ' '] + value
}

pub open spec fn eq_or_ws_fn() -> spec_fn(char) -> bool {
    |c: char| c == '=' || is_ws(c)
}

/// The key token starting `line` (quoted or bare) and everything
/// after it.
pub open spec fn split_key(line: Seq<char>) -> (Seq<char>, Seq<char>) {
    let bare_end = first_index_or(line, eq_or_ws_fn(), line.len() as int);
    let bare = (line.take(bare_end), line.skip(bare_end));
    if line.len() > 0 && line[0] == '"' {
        let body = line.drop_first();
        match first_index(body, is_char('"')) {
            Some(end) => (body.take(end), body.skip(end + 1)),
            None => bare,
        }
    } else {
        bare
    }
}

/// A line assigning `key`, whether it spells the key bare or quoted.
pub open spec fn is_key_line(line: Seq<char>, key: Seq<char>) -> bool {
    let (found, rest) = split_key(trim_start(line));
    let after = trim_start(rest);
    found == key && after.len() > 0 && after[0] == '='
}

pub open spec fn key_line_fn(key: Seq<char>) -> spec_fn(Seq<char>) -> bool {
    |line: Seq<char>| is_key_line(line, key)
}

/// The first line assigning `key` in the body `start + 1 .. end`.
pub open spec fn key_line_in(lines: Seq<Seq<char>>, key: Seq<char>, start: int, end: int) -> Option<
    int,
> {
    match first_index(lines.subrange(start + 1, end), key_line_fn(key)) {
        Some(offset) => Some(start + 1 + offset),
        None => None,
    }
}

/// The raw value between `=` and a trailing comment (or the end of
/// the line), trimmed of the whitespace around it.
pub open spec fn value_span(line: Seq<char>) -> Option<(int, int)> {
    match first_index(line, is_char('=')) {
        None => None,
        Some(eq) => {
            let rest = line.skip(eq + 1);
            let start = eq + 1 + leading_ws(rest);
            let comment = first_index_or(rest, is_char('#'), rest.len() as int);
            let end = eq + 1 + trimmed_end_len(rest.take(comment));
            Some((start, if end < start { start } else { end }))
        },
    }
}

/// Replaces only the value after `=`, so the key's spelling,
/// indentation and any trailing comment survive.
pub open spec fn replace_value(line: Seq<char>, value: Seq<char>) -> Seq<char> {
    match value_span(line) {
        Some((start, end)) => line.take(start) + value + line.skip(end),
        None => line,
    }
}

/// The lines after setting `key` under the table opened by `header`.
pub open spec fn edited_lines(
    lines: Seq<Seq<char>>,
    header: Seq<char>,
    key: Seq<char>,
    value: Seq<char>,
) -> Seq<Seq<char>> {
    match table_range(lines, header) {
        Some((start, end)) => match key_line_in(lines, key, start, end) {
            Some(i) => lines.update(i, replace_value(lines[i], value)),
            None => lines.insert(start + 1, key_line(key, value)),
        },
        None => {
            let base = if lines.len() > 0 && lines.last().len() > 0 {
                lines.push(seq![])
            } else {
                lines
            };
            base.push(header).push(key_line(key, value))
        },
    }
}

/// The raw value of `key` in the table opened by `header`.
pub open spec fn key_value_in(lines: Seq<Seq<char>>, header: Seq<char>, key: Seq<char>) -> Option<
    Seq<char>,
> {
    match table_range(lines, header) {
        Some((start, end)) => match key_line_in(lines, key, start, end) {
            Some(i) => match value_span(lines[i]) {
                Some((s, e)) => Some(lines[i].subrange(s, e)),
                None => None,
            },
            None => None,
        },
        None => None,
    }
}

/// The text after setting `key` under `[table]` to `value`.
pub open spec fn toml_with_key(
    contents: Seq<char>,
    table: Seq<char>,
    key: Seq<char>,
    value: Seq<char>,
) -> Seq<char> {
    join_lines(edited_lines(split_lines(contents), header_of(table), key, value))
}

/// The text after setting `key` in the first `[[table]]` entry.
pub open spec fn toml_with_array_key(
    contents: Seq<char>,
    table: Seq<char>,
    key: Seq<char>,
    value: Seq<char>,
) -> Seq<char> {
    join_lines(edited_lines(split_lines(contents), array_header_of(table), key, value))
}

/// The raw value of `key` under `[table]`.
pub open spec fn toml_key_value(contents: Seq<char>, table: Seq<char>, key: Seq<char>) -> Option<
    Seq<char>,
> {
    key_value_in(split_lines(contents), header_of(table), key)
}

/// The raw value of `key` in the first `[[table]]` entry.
pub open spec fn toml_array_key_value(contents: Seq<char>, table: Seq<char>, key: Seq<char>) -> Option<
    Seq<char>,
> {
    key_value_in(split_lines(contents), array_header_of(table), key)
}


/// The lines after setting a root `key` (before any table header).
pub open spec fn rooted_lines(lines: Seq<Seq<char>>, key: Seq<char>, value: Seq<char>) -> Seq<
    Seq<char>,
> {
    let end = first_index_or(lines, header_fn(), lines.len() as int);
    match first_index(lines.take(end), key_line_fn(key)) {
        Some(i) => lines.update(i, replace_value(lines[i], value)),
        None => {
            let inserted = lines.insert(0, key_line(key, value));
            if inserted.len() > 1 && is_table_header(inserted[1]) {
                inserted.insert(1, seq![])
            } else {
                inserted
            }
        },
    }
}

/// The text after setting `key` at the top of the file, before any
/// table header.
pub open spec fn toml_with_root_key(contents: Seq<char>, key: Seq<char>, value: Seq<char>) -> Seq<
    char,
> {
    join_lines(rooted_lines(split_lines(contents), key, value))
}

/// The lines without the first line setting `key` under `header`.
pub open spec fn removed_key_lines(lines: Seq<Seq<char>>, header: Seq<char>, key: Seq<char>) -> Seq<
    Seq<char>,
> {
    match table_range(lines, header) {
        Some((start, end)) => match key_line_in(lines, key, start, end) {
            Some(i) => lines.remove(i),
            None => lines,
        },
        None => lines,
    }
}

/// The text with `key` dropped from `[table]`.
pub open spec fn toml_without_key(contents: Seq<char>, table: Seq<char>, key: Seq<char>) -> Seq<
    char,
> {
    join_lines(removed_key_lines(split_lines(contents), header_of(table), key))
}

/// `lines` without its trailing empty lines.
pub open spec fn drop_trailing_empty(lines: Seq<Seq<char>>) -> Seq<Seq<char>>
    decreases lines.len(),
{
    if lines.len() > 0 && lines.last().len() == 0 {
        drop_trailing_empty(lines.drop_last())
    } else {
        lines
    }
}

/// The text with `[table]` and its whole body dropped; without such
/// a table the text is returned as it stands.
pub open spec fn toml_without_table(contents: Seq<char>, table: Seq<char>) -> Seq<char> {
    let lines = split_lines(contents);
    match table_range(lines, header_of(table)) {
        Some((start, end)) => join_lines(
            drop_trailing_empty(lines.take(start) + lines.skip(end)),
        ),
        None => contents,
    }
}

/// Whether the text has a `[table]` header.
pub open spec fn toml_has_table(contents: Seq<char>, table: Seq<char>) -> bool {
    table_range(split_lines(contents), header_of(table)) is Some
}

/// The lines from `i` on with every block opened by `header` removed.
pub open spec fn without_blocks(lines: Seq<Seq<char>>, header: Seq<char>, i: int) -> Seq<Seq<char>>
    decreases lines.len() - i,
{
    if i < 0 || i >= lines.len() {
        seq![]
    } else if trim(lines[i]) != header {
        seq![lines[i]] + without_blocks(lines, header, i + 1)
    } else {
        let end = section_end(lines, i);
        if i < end <= lines.len() {
            without_blocks(lines, header, end)
        } else {
            seq![]
        }
    }
}

/// The blocks' lines, consecutive blocks separated by one empty line.
pub open spec fn flatten_blocks(blocks: Seq<Seq<Seq<char>>>) -> Seq<Seq<char>>
    decreases blocks.len(),
{
    if blocks.len() == 0 {
        seq![]
    } else {
        let before = flatten_blocks(blocks.drop_last());
        if before.len() == 0 {
            blocks.last()
        } else {
            before + seq![seq![]] + blocks.last()
        }
    }
}

/// `rendered` spliced in at `at`, kept apart from its neighbours by
/// single empty lines.
pub open spec fn splice_at(lines: Seq<Seq<char>>, at: int, rendered: Seq<Seq<char>>) -> Seq<
    Seq<char>,
> {
    if rendered.len() == 0 {
        lines
    } else {
        let after: Seq<Seq<char>> = if at < lines.len() && lines[at].len() > 0 {
            seq![seq![]]
        } else {
            seq![]
        };
        let before: Seq<Seq<char>> = if at > 0 && lines[at - 1].len() > 0 {
            seq![seq![]]
        } else {
            seq![]
        };
        lines.take(at) + before + rendered + after + lines.skip(at)
    }
}

/// The text with every `[[table]]` block replaced by `blocks`, placed
/// where the first one sat or else at the end.
pub open spec fn toml_set_array_tables(
    contents: Seq<char>,
    table: Seq<char>,
    blocks: Seq<Seq<Seq<char>>>,
) -> Seq<char> {
    let lines = split_lines(contents);
    let header = array_header_of(table);
    let kept = without_blocks(lines, header, 0);
    let at = first_index_or(lines, trims_to(header), kept.len() as int);
    join_lines(splice_at(kept, at, flatten_blocks(blocks)))
}

/// `"value"`
pub open spec fn quoted(value: Seq<char>) -> Seq<char> {
    seq!['"'] + value + seq!['"']
}

/// A TOML array of strings: `["a", "b"]`.
pub open spec fn toml_string_array_of(values: Seq<Seq<char>>) -> Seq<char> {
    seq!['['] + join_with(values.map_values(|v: Seq<char>| quoted(v)), seq![',', ' ']) + seq![']']
}

// ---------------------------------------------------------------
// Line-level executable pieces
// ---------------------------------------------------------------

fn is_table_header_line(line: &Vec<char>) -> (r: bool)
    ensures
        r == is_table_header(line@),
{
    let t = trimmed(line);
    t.len() > 0 && t[0] == '[' && t[t.len() - 1] == ']'
}

fn line_trims_to(line: &Vec<char>, header: &Vec<char>) -> (r: bool)
    ensures
        r == (trim(line@) == header@),
{
    let t = trimmed(line);
    chars_eq(&t, header)
}

fn section_end_of(lines: &Vec<Vec<char>>, start: usize) -> (end: usize)
    requires
        start < lines.len(),
    ensures
        end == section_end(lines_view(lines@), start as int),
        start < end <= lines.len(),
{
    let ghost lv = lines_view(lines@);
    let mut i: usize = start + 1;
    while i < lines.len() && !is_table_header_line(&lines[i])
        invariant
            start < i <= lines.len(),
            lv == lines_view(lines@),
            forall|j: int| start < j < i ==> !(header_fn())(#[trigger] lv[j]),
        decreases lines.len() - i,
    {
        i = i + 1;
    }
    proof {
        let s = lv.skip(start + 1);
        assert forall|j: int| 0 <= j < i - start - 1 implies !(header_fn())(#[trigger] s[j]) by {
            assert(s[j] == lv[start + 1 + j]);
        }
        if i < lines.len() {
            assert(s[i - start - 1] == lv[i as int]);
        }
        lemma_first_index_is(s, header_fn(), i - start - 1);
    }
    i
}

fn table_range_of(lines: &Vec<Vec<char>>, header: &Vec<char>) -> (r: Option<(usize, usize)>)
    ensures
        r is None <==> table_range(lines_view(lines@), header@) is None,
        r matches Some((s, e)) ==> table_range(lines_view(lines@), header@) == Some((s as int, e as int))
            && s < e <= lines.len(),
{
    let ghost lv = lines_view(lines@);
    let mut i: usize = 0;
    while i < lines.len() && !line_trims_to(&lines[i], header)
        invariant
            i <= lines.len(),
            lv == lines_view(lines@),
            forall|j: int| 0 <= j < i ==> !(trims_to(header@))(#[trigger] lv[j]),
        decreases lines.len() - i,
    {
        i = i + 1;
    }
    proof {
        lemma_first_index_is(lv, trims_to(header@), i as int);
    }
    if i < lines.len() {
        let end = section_end_of(lines, i);
        Some((i, end))
    } else {
        None
    }
}

fn is_bare_key(key: &Vec<char>) -> (r: bool)
    ensures
        r == forall|i: int| 0 <= i < key@.len() ==> is_bare_key_char(#[trigger] key@[i]),
{
    let mut i: usize = 0;
    while i < key.len()
        invariant
            i <= key.len(),
            forall|j: int| 0 <= j < i ==> is_bare_key_char(#[trigger] key@[j]),
        decreases key.len() - i,
    {
        let c = key[i];
        if !(('a' <= c && c <= 'z') || ('A' <= c && c <= 'Z') || ('0' <= c && c <= '9') || c
            == '-' || c == '_') {
            assert(!is_bare_key_char(key@[i as int]));
            return false;
        }
        i = i + 1;
    }
    true
}

fn toml_key_of(key: &Vec<char>) -> (r: Vec<char>)
    ensures
        r@ == toml_key(key@),
{
    if is_bare_key(key) {
        copy_chars(key)
    } else {
        let mut r: Vec<char> = Vec::new();
        r.push('"');
        append_chars(&mut r, key);
        r.push('"');
        assert(r@ =~= seq!['"'] + key@ + seq!['"']);
        r
    }
}

fn key_line_of(key: &Vec<char>, value: &Vec<char>) -> (r: Vec<char>)
    ensures
        r@ == key_line(key@, value@),
{
    let mut r = toml_key_of(key);
    r.push(' ');
    r.push('=');
    r.push(' ');
    append_chars(&mut r, value);
    assert(r@ =~= toml_key(key@) + seq![' ', '=', ' '] + value@);
    r
}

/// The first position at or after `from` holding `=` or whitespace.
fn bare_key_end(v: &Vec<char>) -> (r: usize)
    ensures
        r == first_index_or(v@, eq_or_ws_fn(), v@.len() as int),
        r <= v.len(),
{
    let mut i: usize = 0;
    while i < v.len() && !(v[i] == '=' || is_whitespace(v[i]))
        invariant
            i <= v.len(),
            forall|j: int| 0 <= j < i ==> !(eq_or_ws_fn())(#[trigger] v@[j]),
        decreases v.len() - i,
    {
        i = i + 1;
    }
    proof {
        lemma_first_index_is(v@, eq_or_ws_fn(), i as int);
    }
    i
}

fn split_key_of(line: &Vec<char>) -> (r: (Vec<char>, Vec<char>))
    ensures
        (r.0@, r.1@) == split_key(line@),
{
    if line.len() > 0 && line[0] == '"' {
        let found = find_char_from(line, '"', 1);
        proof {
            assert(line@.skip(1) =~= line@.drop_first());
        }
        match found {
            Some(close) => {
                proof {
                    let body = line@.drop_first();
                    assert forall|j: int| 0 <= j < close - 1 implies !(is_char('"'))(#[trigger] body[j]) by {
                        assert(body[j] == line@[j + 1]);
                    }
                    assert(body[close - 1] == line@[close as int]);
                    lemma_first_index_is(body, is_char('"'), close - 1);
                }
                let key = slice_chars(line, 1, close);
                let rest = slice_chars(line, close + 1, line.len());
                assert(key@ =~= line@.drop_first().take(close - 1));
                assert(rest@ =~= line@.drop_first().skip(close - 1 + 1));
                return (key, rest);
            },
            None => {
                proof {
                    let body = line@.drop_first();
                    assert forall|j: int| 0 <= j < body.len() implies !(is_char('"'))(#[trigger] body[j]) by {
                        assert(body[j] == line@[j + 1]);
                    }
                    lemma_first_index_is(body, is_char('"'), body.len() as int);
                }
            },
        }
    }
    let end = bare_key_end(line);
    let key = slice_chars(line, 0, end);
    let rest = slice_chars(line, end, line.len());
    assert(key@ =~= line@.take(end as int));
    assert(rest@ =~= line@.skip(end as int));
    (key, rest)
}

fn is_key_line_of(line: &Vec<char>, key: &Vec<char>) -> (r: bool)
    ensures
        r == is_key_line(line@, key@),
{
    let lead = leading_ws_len(line);
    proof {
        lemma_leading_ws(line@);
    }
    let start = slice_chars(line, lead, line.len());
    assert(start@ == trim_start(line@));
    let (found, rest) = split_key_of(&start);
    if !chars_eq(&found, key) {
        return false;
    }
    let skip = leading_ws_len(&rest);
    proof {
        lemma_leading_ws(rest@);
    }
    skip < rest.len() && rest[skip] == '='
}

fn key_line_in_of(lines: &Vec<Vec<char>>, key: &Vec<char>, start: usize, end: usize) -> (r: Option<
    usize,
>)
    requires
        start < end <= lines.len(),
    ensures
        r is None <==> key_line_in(lines_view(lines@), key@, start as int, end as int) is None,
        r matches Some(i) ==> key_line_in(lines_view(lines@), key@, start as int, end as int) == Some(i as int)
            && start < i < end,
{
    let ghost lv = lines_view(lines@);
    let mut i: usize = start + 1;
    while i < end && !is_key_line_of(&lines[i], key)
        invariant
            start < i <= end <= lines.len(),
            lv == lines_view(lines@),
            forall|j: int| start < j < i ==> !(key_line_fn(key@))(#[trigger] lv[j]),
        decreases end - i,
    {
        i = i + 1;
    }
    proof {
        let s = lv.subrange(start + 1, end as int);
        assert forall|j: int| 0 <= j < i - start - 1 implies !(key_line_fn(key@))(#[trigger] s[j]) by {
            assert(s[j] == lv[start + 1 + j]);
        }
        if i < end {
            assert(s[i - start - 1] == lv[i as int]);
        }
        lemma_first_index_is(s, key_line_fn(key@), i - start - 1);
    }
    if i < end {
        Some(i)
    } else {
        None
    }
}

fn value_span_of(line: &Vec<char>) -> (r: Option<(usize, usize)>)
    ensures
        r is None <==> value_span(line@) is None,
        r matches Some((s, e)) ==> value_span(line@) == Some((s as int, e as int)) && s <= e <= line.len(),
{
    let found = find_char_from(line, '=', 0);
    assert(line@.skip(0) =~= line@);
    match found {
        None => {
            proof {
                lemma_first_index_is(line@, is_char('='), line@.len() as int);
            }
            None
        },
        Some(eq) => {
            proof {
                lemma_first_index_is(line@, is_char('='), eq as int);
            }
            let rest = slice_chars(line, eq + 1, line.len());
            assert(rest@ =~= line@.skip(eq + 1));
            let lead = leading_ws_len(&rest);
            proof {
                lemma_leading_ws(rest@);
            }
            let start = eq + 1 + lead;
            let hash = find_char_from(&rest, '#', 0);
            assert(rest@.skip(0) =~= rest@);
            let comment = match hash {
                Some(h) => h,
                None => rest.len(),
            };
            proof {
                lemma_first_index(rest@, is_char('#'));
            }
            let kept = trimmed_end_of(&rest, comment);
            proof {
                lemma_trimmed_end_len(rest@.take(comment as int));
                assert(comment <= rest.len());
            }
            let end = eq + 1 + kept;
            if end < start {
                Some((start, start))
            } else {
                Some((start, end))
            }
        },
    }
}

fn replace_value_of(line: &Vec<char>, value: &Vec<char>) -> (r: Vec<char>)
    ensures
        r@ == replace_value(line@, value@),
{
    match value_span_of(line) {
        Some((start, end)) => {
            let mut r = slice_chars(line, 0, start);
            append_chars(&mut r, value);
            let tail = slice_chars(line, end, line.len());
            append_chars(&mut r, &tail);
            assert(r@ =~= line@.take(start as int) + value@ + line@.skip(end as int));
            r
        },
        None => copy_chars(line),
    }
}

/// Sets `key` under the table opened by `header`, line by line.
fn edited_of(lines: Vec<Vec<char>>, header: &Vec<char>, key: &Vec<char>, value: &Vec<char>) -> (r:
    Vec<Vec<char>>)
    ensures
        lines_view(r@) == edited_lines(lines_view(lines@), header@, key@, value@),
{
    let ghost lv = lines_view(lines@);
    let mut lines = lines;
    match table_range_of(&lines, header) {
        Some((start, end)) => {
            match key_line_in_of(&lines, key, start, end) {
                Some(i) => {
                    let replaced = replace_value_of(&lines[i], value);
                    lines.set(i, replaced);
                    assert(lines_view(lines@) =~= lv.update(i as int, replace_value(lv[i as int], value@)));
                },
                None => {
                    let line = key_line_of(key, value);
                    lines.insert(start + 1, line);
                    assert(lines_view(lines@) =~= lv.insert(start + 1, key_line(key@, value@)));
                },
            }
        },
        None => {
            let ghost base = if lv.len() > 0 && lv.last().len() > 0 {
                lv.push(seq![])
            } else {
                lv
            };
            if lines.len() > 0 && lines[lines.len() - 1].len() > 0 {
                lines.push(Vec::new());
            }
            assert(lines_view(lines@) =~= base);
            lines.push(copy_chars(header));
            lines.push(key_line_of(key, value));
            assert(lines_view(lines@) =~= base.push(header@).push(key_line(key@, value@)));
        },
    }
    lines
}


fn first_header(lines: &Vec<Vec<char>>) -> (end: usize)
    ensures
        end == first_index_or(lines_view(lines@), header_fn(), lines.len() as int),
        end <= lines.len(),
{
    let ghost lv = lines_view(lines@);
    let mut i: usize = 0;
    while i < lines.len() && !is_table_header_line(&lines[i])
        invariant
            i <= lines.len(),
            lv == lines_view(lines@),
            forall|j: int| 0 <= j < i ==> !(header_fn())(#[trigger] lv[j]),
        decreases lines.len() - i,
    {
        i = i + 1;
    }
    proof {
        lemma_first_index_is(lv, header_fn(), i as int);
    }
    i
}

fn first_key_line(lines: &Vec<Vec<char>>, key: &Vec<char>, end: usize) -> (r: Option<usize>)
    requires
        end <= lines.len(),
    ensures
        r is None <==> first_index(lines_view(lines@).take(end as int), key_line_fn(key@)) is None,
        r matches Some(i) ==> first_index(lines_view(lines@).take(end as int), key_line_fn(key@))
            == Some(i as int) && i < end,
{
    let ghost lv = lines_view(lines@);
    let mut i: usize = 0;
    while i < end && !is_key_line_of(&lines[i], key)
        invariant
            i <= end <= lines.len(),
            lv == lines_view(lines@),
            forall|j: int| 0 <= j < i ==> !(key_line_fn(key@))(#[trigger] lv[j]),
        decreases end - i,
    {
        i = i + 1;
    }
    proof {
        let t = lv.take(end as int);
        assert forall|j: int| 0 <= j < i implies !(key_line_fn(key@))(#[trigger] t[j]) by {
            assert(t[j] == lv[j]);
        }
        if i < end {
            assert(t[i as int] == lv[i as int]);
        }
        lemma_first_index_is(t, key_line_fn(key@), i as int);
    }
    if i < end {
        Some(i)
    } else {
        None
    }
}

fn rooted_of(lines: Vec<Vec<char>>, key: &Vec<char>, value: &Vec<char>) -> (r: Vec<Vec<char>>)
    ensures
        lines_view(r@) == rooted_lines(lines_view(lines@), key@, value@),
{
    let ghost lv = lines_view(lines@);
    let mut lines = lines;
    let end = first_header(&lines);
    match first_key_line(&lines, key, end) {
        Some(i) => {
            assert(lv.take(end as int)[i as int] == lv[i as int]);
            let replaced = replace_value_of(&lines[i], value);
            lines.set(i, replaced);
            assert(lines_view(lines@) =~= lv.update(i as int, replace_value(lv[i as int], value@)));
        },
        None => {
            lines.insert(0, key_line_of(key, value));
            let ghost inserted = lv.insert(0, key_line(key@, value@));
            assert(lines_view(lines@) =~= inserted);
            if lines.len() > 1 && is_table_header_line(&lines[1]) {
                lines.insert(1, Vec::new());
                assert(lines_view(lines@) =~= inserted.insert(1, seq![]));
            }
        },
    }
    lines
}

fn without_blocks_of(lines: &Vec<Vec<char>>, header: &Vec<char>) -> (r: (Vec<Vec<char>>, usize))
    ensures
        lines_view(r.0@) == without_blocks(lines_view(lines@), header@, 0),
        r.1 as int == first_index_or(lines_view(lines@), trims_to(header@), r.0@.len() as int),
        r.1 <= r.0@.len(),
{
    let ghost lv = lines_view(lines@);
    let mut kept: Vec<Vec<char>> = Vec::new();
    let mut anchor: Option<usize> = None;
    let mut i: usize = 0;
    assert(lines_view(kept@) + without_blocks(lv, header@, 0) =~= without_blocks(lv, header@, 0));
    while i < lines.len()
        invariant
            i <= lines.len(),
            lv == lines_view(lines@),
            lines_view(kept@) + without_blocks(lv, header@, i as int) == without_blocks(
                lv,
                header@,
                0,
            ),
            anchor is None ==> (forall|j: int| 0 <= j < i ==> !(trims_to(header@))(#[trigger] lv[j]))
                && lines_view(kept@) == lv.take(i as int),
            anchor matches Some(a) ==> first_index(lv, trims_to(header@)) == Some(a as int) && a
                <= kept@.len(),
        decreases lines.len() - i,
    {
        let ghost before = lines_view(kept@);
        if !line_trims_to(&lines[i], header) {
            kept.push(copy_chars(&lines[i]));
            assert(lines_view(kept@) =~= before.push(lv[i as int]));
            assert(without_blocks(lv, header@, i as int) == seq![lv[i as int]] + without_blocks(
                lv,
                header@,
                i + 1,
            ));
            assert(lines_view(kept@) + without_blocks(lv, header@, i + 1) =~= before
                + without_blocks(lv, header@, i as int));
            if anchor.is_none() {
                assert(lv.take(i + 1) =~= lv.take(i as int).push(lv[i as int]));
            }
            i = i + 1;
        } else {
            if anchor.is_none() {
                proof {
                    lemma_first_index_is(lv, trims_to(header@), i as int);
                }
                anchor = Some(i);
            }
            let end = section_end_of(lines, i);
            assert(without_blocks(lv, header@, i as int) == without_blocks(lv, header@, end as int));
            i = end;
        }
    }
    assert(without_blocks(lv, header@, i as int) == Seq::<Seq<char>>::empty());
    assert(lines_view(kept@) + without_blocks(lv, header@, i as int) =~= lines_view(kept@));
    match anchor {
        Some(a) => (kept, a),
        None => {
            proof {
                lemma_first_index_is(lv, trims_to(header@), lv.len() as int);
            }
            let n = kept.len();
            (kept, n)
        },
    }
}

/// The spec view of blocks of `String` lines.
pub open spec fn blocks_view(blocks: Seq<Vec<String>>) -> Seq<Seq<Seq<char>>> {
    Seq::new(blocks.len(), |i: int| Seq::new(blocks[i]@.len(), |j: int| blocks[i]@[j]@))
}

fn block_lines(block: &Vec<String>) -> (r: Vec<Vec<char>>)
    ensures
        lines_view(r@) == Seq::new(block@.len(), |j: int| block@[j]@),
{
    let mut r: Vec<Vec<char>> = Vec::new();
    let mut i: usize = 0;
    while i < block.len()
        invariant
            i <= block.len(),
            lines_view(r@) == Seq::new(i as nat, |j: int| block@[j]@),
        decreases block.len() - i,
    {
        let ghost old_r = r@;
        let item = chars_of(block[i].as_str());
        r.push(item);
        proof {
            lemma_lines_view_push(old_r, item);
        }
        assert(lines_view(r@) =~= Seq::new((i + 1) as nat, |j: int| block@[j]@));
        i = i + 1;
    }
    r
}

fn flatten_blocks_of(blocks: &Vec<Vec<String>>) -> (r: Vec<Vec<char>>)
    ensures
        lines_view(r@) == flatten_blocks(blocks_view(blocks@)),
{
    let ghost bv = blocks_view(blocks@);
    let mut r: Vec<Vec<char>> = Vec::new();
    let mut k: usize = 0;
    assert(bv.take(0) =~= Seq::<Seq<Seq<char>>>::empty());
    while k < blocks.len()
        invariant
            k <= blocks.len(),
            bv == blocks_view(blocks@),
            lines_view(r@) == flatten_blocks(bv.take(k as int)),
        decreases blocks.len() - k,
    {
        let ghost before = lines_view(r@);
        let block = block_lines(&blocks[k]);
        assert(lines_view(block@) == bv[k as int]);
        let ghost t = bv.take(k + 1);
        assert(t.drop_last() =~= bv.take(k as int));
        assert(t.last() == bv[k as int]);
        let was_empty = r.len() == 0;
        if !was_empty {
            r.push(Vec::new());
        }
        let mut j: usize = 0;
        let ghost mid = lines_view(r@);
        while j < block.len()
            invariant
                j <= block.len(),
                lines_view(r@) == mid + lines_view(block@).take(j as int),
            decreases block.len() - j,
        {
            let ghost old_r = r@;
            let item = copy_chars(&block[j]);
            r.push(item);
            proof {
                lemma_lines_view_push(old_r, item);
                assert(lines_view(block@)[j as int] == block@[j as int]@);
            }
            assert(lines_view(block@).take(j + 1) =~= lines_view(block@).take(j as int).push(
                block@[j as int]@,
            ));
            assert(lines_view(r@) =~= mid + lines_view(block@).take(j + 1));
            j = j + 1;
        }
        assert(lines_view(block@).take(block.len() as int) =~= lines_view(block@));
        if was_empty {
            assert(mid =~= Seq::<Seq<char>>::empty());
            assert(lines_view(r@) =~= bv[k as int]);
        } else {
            assert(mid =~= before + seq![seq![]]);
        }
        k = k + 1;
    }
    assert(bv.take(blocks.len() as int) =~= bv);
    r
}

fn splice_at_of(lines: Vec<Vec<char>>, at: usize, rendered: Vec<Vec<char>>) -> (r: Vec<Vec<char>>)
    requires
        at <= lines.len(),
    ensures
        lines_view(r@) == splice_at(lines_view(lines@), at as int, lines_view(rendered@)),
{
    if rendered.len() == 0 {
        return lines;
    }
    let ghost lv = lines_view(lines@);
    let ghost rv = lines_view(rendered@);
    let mut r: Vec<Vec<char>> = Vec::new();
    let mut i: usize = 0;
    while i < at
        invariant
            i <= at <= lines.len(),
            lv == lines_view(lines@),
            lines_view(r@) == lv.take(i as int),
        decreases at - i,
    {
        let ghost old_r = r@;
        let item = copy_chars(&lines[i]);
        r.push(item);
        proof {
            lemma_lines_view_push(old_r, item);
            assert(lv[i as int] == lines@[i as int]@);
        }
        assert(lines_view(r@) =~= lv.take(i + 1));
        i = i + 1;
    }
    let ghost before: Seq<Seq<char>> = if at > 0 && lv[at - 1].len() > 0 {
        seq![seq![]]
    } else {
        seq![]
    };
    let ghost after: Seq<Seq<char>> = if at < lv.len() && lv[at as int].len() > 0 {
        seq![seq![]]
    } else {
        seq![]
    };
    if at > 0 && lines[at - 1].len() > 0 {
        r.push(Vec::new());
    }
    assert(lines_view(r@) =~= lv.take(at as int) + before);
    let mut j: usize = 0;
    let ghost mid = lines_view(r@);
    while j < rendered.len()
        invariant
            j <= rendered.len(),
            rv == lines_view(rendered@),
            lines_view(r@) == mid + rv.take(j as int),
        decreases rendered.len() - j,
    {
        let ghost old_r = r@;
        let item = copy_chars(&rendered[j]);
        r.push(item);
        proof {
            lemma_lines_view_push(old_r, item);
            assert(rv[j as int] == rendered@[j as int]@);
        }
        assert(lines_view(r@) =~= mid + rv.take(j + 1));
        j = j + 1;
    }
    assert(rv.take(rendered.len() as int) =~= rv);
    if at < lines.len() && lines[at].len() > 0 {
        r.push(Vec::new());
    }
    assert(lines_view(r@) =~= lv.take(at as int) + before + rv + after);
    let ghost head = lines_view(r@);
    let mut k: usize = at;
    while k < lines.len()
        invariant
            at <= k <= lines.len(),
            lv == lines_view(lines@),
            lines_view(r@) == head + lv.subrange(at as int, k as int),
        decreases lines.len() - k,
    {
        let ghost old_r = r@;
        let item = copy_chars(&lines[k]);
        r.push(item);
        proof {
            lemma_lines_view_push(old_r, item);
            assert(lv[k as int] == lines@[k as int]@);
        }
        assert(lines_view(r@) =~= head + lv.subrange(at as int, k + 1));
        k = k + 1;
    }
    assert(lv.subrange(at as int, lines.len() as int) =~= lv.skip(at as int));
    r
}

fn header_chars(table: &str) -> (r: Vec<char>)
    ensures
        r@ == header_of(table@),
{
    let mut r: Vec<char> = Vec::new();
    r.push('[');
    append_str(&mut r, table);
    r.push(']');
    assert(r@ =~= header_of(table@));
    r
}

fn array_header_chars(table: &str) -> (r: Vec<char>)
    ensures
        r@ == array_header_of(table@),
{
    let mut r: Vec<char> = Vec::new();
    r.push('[');
    r.push('[');
    append_str(&mut r, table);
    r.push(']');
    r.push(']');
    assert(r@ =~= array_header_of(table@));
    r
}

fn lines_of(contents: &str) -> (r: Vec<Vec<char>>)
    ensures
        lines_view(r@) == split_lines(contents@),
{
    let chars = chars_of(contents);
    split_lines_of(&chars)
}

fn rendered(lines: &Vec<Vec<char>>) -> (r: String)
    ensures
        r@ == join_lines(lines_view(lines@)),
{
    let chars = join_lines_of(lines);
    string_of(&chars)
}

fn value_in(lines: &Vec<Vec<char>>, header: &Vec<char>, key: &Vec<char>) -> (r: Option<String>)
    ensures
        match key_value_in(lines_view(lines@), header@, key@) {
            Some(v) => r matches Some(s) && s@ == v,
            None => r is None,
        },
{
    let ghost lv = lines_view(lines@);
    match table_range_of(lines, header) {
        Some((start, end)) => match key_line_in_of(lines, key, start, end) {
            Some(i) => {
                let line = &lines[i];
                assert(lv[i as int] == line@);
                match value_span_of(line) {
                    Some((s, e)) => {
                        let raw = slice_chars(line, s, e);
                        let r = Some(string_of(&raw));
                        assert(key_value_in(lv, header@, key@) == Some(lv[i as int].subrange(s as int, e as int)));
                        r
                    },
                    None => None,
                }
            },
            None => None,
        },
        None => None,
    }
}

// ---------------------------------------------------------------
// Public edits
// ---------------------------------------------------------------

/// Rewrites `key` under `[table]` to `value` (already TOML-formatted:
/// quoted for a string, bare for a number or bool), leaving every
/// other line untouched; a missing table is appended.
pub fn with_key(contents: &str, table: &str, key: &str, value: &str) -> (r: String)
    ensures
        r@ == toml_with_key(contents@, table@, key@, value@),
{
    let lines = lines_of(contents);
    let header = header_chars(table);
    let key = chars_of(key);
    let value = chars_of(value);
    let edited = edited_of(lines, &header, &key, &value);
    rendered(&edited)
}

/// Rewrites `key` in the first `[[table]]` entry to `value`; with no
/// entry yet, a fresh one is appended.
pub fn with_array_key(contents: &str, table: &str, key: &str, value: &str) -> (r: String)
    ensures
        r@ == toml_with_array_key(contents@, table@, key@, value@),
{
    let lines = lines_of(contents);
    let header = array_header_chars(table);
    let key = chars_of(key);
    let value = chars_of(value);
    let edited = edited_of(lines, &header, &key, &value);
    rendered(&edited)
}

/// The raw (still TOML-formatted) value of `key` in the first
/// `[[table]]` entry, if that entry sets it.
pub fn array_key_value(contents: &str, table: &str, key: &str) -> (r: Option<String>)
    ensures
        match toml_array_key_value(contents@, table@, key@) {
            Some(v) => r matches Some(s) && s@ == v,
            None => r is None,
        },
{
    let lines = lines_of(contents);
    let header = array_header_chars(table);
    let key = chars_of(key);
    value_in(&lines, &header, &key)
}


/// The sibling of `with_key` for keys that live at the top of the
/// file, before any table header (an account file's `folder_order`,
/// say).
pub fn with_root_key(contents: &str, key: &str, value: &str) -> (r: String)
    ensures
        r@ == toml_with_root_key(contents@, key@, value@),
{
    let lines = lines_of(contents);
    let key = chars_of(key);
    let value = chars_of(value);
    let edited = rooted_of(lines, &key, &value);
    rendered(&edited)
}

/// Drops `key` from `[table]`; a missing table or key is a no-op, so
/// removal is idempotent.
pub fn without_key(contents: &str, table: &str, key: &str) -> (r: String)
    ensures
        r@ == toml_without_key(contents@, table@, key@),
{
    let mut lines = lines_of(contents);
    let ghost lv = lines_view(lines@);
    let header = header_chars(table);
    let key = chars_of(key);
    match table_range_of(&lines, &header) {
        Some((start, end)) => match key_line_in_of(&lines, &key, start, end) {
            Some(i) => {
                lines.remove(i);
                assert(lines_view(lines@) =~= lv.remove(i as int));
            },
            None => {},
        },
        None => {},
    }
    rendered(&lines)
}

/// Drops `[table]` and its whole body; a missing table is a no-op.
/// Reserved for tables the caller fully owns, since hand-written keys
/// inside go with it.
pub fn without_table(contents: &str, table: &str) -> (r: String)
    ensures
        r@ == toml_without_table(contents@, table@),
{
    let lines = lines_of(contents);
    let ghost lv = lines_view(lines@);
    let header = header_chars(table);
    match table_range_of(&lines, &header) {
        None => contents.to_owned(),
        Some((start, end)) => {
            let mut kept: Vec<Vec<char>> = Vec::new();
            let mut i: usize = 0;
            while i < lines.len()
                invariant
                    start < end <= lines.len(),
                    i <= lines.len(),
                    lv == lines_view(lines@),
                    lines_view(kept@) == (if i <= start {
                        lv.take(i as int)
                    } else if i <= end {
                        lv.take(start as int)
                    } else {
                        lv.take(start as int) + lv.subrange(end as int, i as int)
                    }),
                decreases lines.len() - i,
            {
                let ghost old_kept = kept@;
                if i < start || i >= end {
                    let item = copy_chars(&lines[i]);
                    kept.push(item);
                    proof {
                        lemma_lines_view_push(old_kept, item);
                        assert(lv[i as int] == lines@[i as int]@);
                    }
                }
                proof {
                    if i < start {
                        assert(lines_view(kept@) =~= lv.take(i + 1));
                    } else if i < end {
                    } else if i == end {
                        assert(lines_view(kept@) =~= lv.take(start as int) + lv.subrange(
                            end as int,
                            i + 1,
                        ));
                    } else {
                        assert(lines_view(kept@) =~= lv.take(start as int) + lv.subrange(
                            end as int,
                            i + 1,
                        ));
                    }
                }
                i = i + 1;
            }
            proof {
                assert(lv.subrange(end as int, lines.len() as int) =~= lv.skip(end as int));
                if end == lines.len() {
                    assert(lv.skip(end as int) =~= Seq::<Seq<char>>::empty());
                }
                assert(lines_view(kept@) =~= lv.take(start as int) + lv.skip(end as int));
            }
            while kept.len() > 0 && kept[kept.len() - 1].len() == 0
                invariant
                    drop_trailing_empty(lines_view(kept@)) == drop_trailing_empty(
                        lv.take(start as int) + lv.skip(end as int),
                    ),
                decreases kept.len(),
            {
                let ghost before = lines_view(kept@);
                kept.pop();
                assert(lines_view(kept@) =~= before.drop_last());
            }
            rendered(&kept)
        },
    }
}

/// Whether the text has a `[table]` header.
pub fn has_table(contents: &str, table: &str) -> (r: bool)
    ensures
        r == toml_has_table(contents@, table@),
{
    let lines = lines_of(contents);
    let header = header_chars(table);
    table_range_of(&lines, &header).is_some()
}

/// Rewrites every `[[table]]` block to `blocks`: the existing ones are
/// removed and the replacements spliced in where the first sat (or,
/// when there were none, at the end of the file), separated by single
/// blank lines. Reserved for an array of tables the caller fully owns
/// (an account's identities), since each block is regenerated
/// wholesale.
pub fn set_array_tables(contents: &str, table: &str, blocks: &Vec<Vec<String>>) -> (r: String)
    ensures
        r@ == toml_set_array_tables(contents@, table@, blocks_view(blocks@)),
{
    let lines = lines_of(contents);
    let header = array_header_chars(table);
    let (kept, at) = without_blocks_of(&lines, &header);
    let flat = flatten_blocks_of(blocks);
    let spliced = splice_at_of(kept, at, flat);
    rendered(&spliced)
}

/// A TOML array of strings, ready to hand to `with_key`.
pub fn toml_string_array(values: &Vec<String>) -> (r: String)
    ensures
        r@ == toml_string_array_of(values@.map_values(|v: String| v@)),
{
    let ghost vv = values@.map_values(|v: String| v@);
    let mut items: Vec<Vec<char>> = Vec::new();
    let mut i: usize = 0;
    while i < values.len()
        invariant
            i <= values.len(),
            vv == values@.map_values(|v: String| v@),
            lines_view(items@) == vv.map_values(|v: Seq<char>| quoted(v)).take(i as int),
        decreases values.len() - i,
    {
        let mut item: Vec<char> = Vec::new();
        item.push('"');
        append_str(&mut item, values[i].as_str());
        item.push('"');
        let ghost old_items = items@;
        assert(item@ =~= quoted(vv[i as int]));
        items.push(item);
        proof {
            lemma_lines_view_push(old_items, item);
        }
        assert(lines_view(items@) =~= vv.map_values(|v: Seq<char>| quoted(v)).take(i + 1));
        i = i + 1;
    }
    assert(vv.map_values(|v: Seq<char>| quoted(v)).take(values.len() as int) =~= vv.map_values(
        |v: Seq<char>| quoted(v),
    ));
    let mut sep: Vec<char> = Vec::new();
    sep.push(',');
    sep.push(' ');
    assert(sep@ =~= seq![',', ' ']);
    let joined = join_with_of(&items, &sep);
    let mut out: Vec<char> = Vec::new();
    out.push('[');
    append_chars(&mut out, &joined);
    out.push(']');
    assert(out@ =~= toml_string_array_of(vv));
    string_of(&out)
}

} // verus!
