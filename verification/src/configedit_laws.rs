//! What the surgical TOML edits promise across calls: a key written
//! under a table reads back as the value written.
use vstd::prelude::*;

use crate::configedit::{
    array_header_of, edited_lines, header_fn, header_of, is_key_line, is_table_header,
    key_line, key_line_fn, key_line_in, key_value_in, replace_value, section_end, split_key,
    table_range, toml_array_key_value, toml_key, toml_key_value, toml_with_array_key,
    toml_with_key, trims_to, value_span, eq_or_ws_fn,
};
use crate::text::{
    clean_line, clean_lines, first_index, first_index_or, is_char, is_ws, join_lines,
    leading_ws, lemma_first_index, lemma_first_index_is, lemma_leading_ws,
    lemma_split_join, lemma_trimmed_end_len, split_lines, trim, trim_start, trimmed_end_len,
};

verus! {

broadcast use vstd::string::group_string_axioms;

/// Text that stays on one line.
pub open spec fn one_line(s: Seq<char>) -> bool {
    !s.contains('\n') && !s.contains('\r')
}

/// A key whose assignment line is found again: on one line and without
/// a quote, which would end its quoted spelling early.
pub open spec fn findable_key(key: Seq<char>) -> bool {
    one_line(key) && !key.contains('"')
}

/// A key the edits can write and read back: findable, and without the
/// `=` that would let its spelling be mistaken for the value.
pub open spec fn writable_key(key: Seq<char>) -> bool {
    findable_key(key) && !key.contains('=')
}

/// A key and value whose assignment line, spelled bare, cannot pass
/// for a table header: not a key opening with `[` and a value closing
/// with `]`.
pub open spec fn bracket_safe(key: Seq<char>, value: Seq<char>) -> bool {
    !(key.len() > 0 && key[0] == '[' && value.len() > 0 && value.last() == ']')
}

/// A value that reads back as written: without a line break,
/// non-empty, without a `#` that would start a comment, and without
/// surrounding whitespace the reader trims.
pub open spec fn writable_value(value: Seq<char>) -> bool {
    &&& !value.contains('\n')
    &&& value.len() > 0
    &&& !value.contains('#')
    &&& !is_ws(value[0])
    &&& !is_ws(value.last())
}

/// The position of the first `=` of a line.
pub open spec fn eq_pos(line: Seq<char>) -> int {
    first_index_or(line, is_char('='), line.len() as int)
}

/// Where the comment of an assignment line starts, or its end.
pub open spec fn comment_pos(line: Seq<char>) -> int {
    let eq = eq_pos(line);
    let rest = line.skip(eq + 1);
    eq + 1 + first_index_or(rest, is_char('#'), rest.len() as int)
}

/// The shape of an assignment line's value span: whitespace between
/// `=` and the value, whitespace between the value and the comment.
proof fn lemma_value_span_shape(line: Seq<char>)
    requires
        value_span(line) is Some,
    ensures
        ({
            let (start, end) = value_span(line)->0;
            let eq = eq_pos(line);
            let c = comment_pos(line);
            &&& first_index(line, is_char('=')) == Some(eq)
            &&& 0 <= eq < start <= end <= c <= line.len()
            &&& line[eq] == '='
            &&& forall|j: int| 0 <= j < eq ==> line[j] != '='
            &&& forall|j: int| eq < j < start ==> is_ws(#[trigger] line[j])
            &&& forall|j: int| end <= j < c ==> is_ws(#[trigger] line[j])
            &&& forall|j: int| eq < j < c ==> #[trigger] line[j] != '#'
            &&& (c < line.len() ==> line[c] == '#')
            &&& (start < c ==> !is_ws(line[start]))
        }),
{
    lemma_first_index(line, is_char('='));
    let eq = first_index(line, is_char('='))->0;
    let rest = line.skip(eq + 1);
    lemma_first_index(rest, is_char('#'));
    lemma_leading_ws(rest);
    let comment = first_index_or(rest, is_char('#'), rest.len() as int);
    let head = rest.take(comment);
    lemma_trimmed_end_len(head);
    let lead = leading_ws(rest);
    let t = trimmed_end_len(head);
    assert forall|j: int| eq < j < line.len() implies line[j] == rest[j - eq - 1] by {}
    // The first '#' is not whitespace, so the leading run stops at or
    // before it.
    if comment < rest.len() {
        assert(rest[comment] == '#');
        assert(!is_ws('#'));
        if lead > comment {
            assert(is_ws(rest[comment]));
        }
    }
    assert(lead <= comment);
    if t > 0 {
        assert(!is_ws(head[t - 1]));
        if t <= lead {
            assert(is_ws(rest[t - 1]));
        }
    }
    assert forall|j: int| eq + 1 + (if t < lead { lead } else { t }) <= j < eq + 1 + comment implies is_ws(#[trigger] line[j]) by {
        assert(line[j] == rest[j - eq - 1]);
        let k = j - eq - 1;
        if t < lead {
            assert(t == 0);
            assert(k < comment);
            assert(head[k] == rest[k]);
        } else {
            assert(head[k] == rest[k]);
        }
    }
    assert forall|j: int| eq < j < eq + 1 + comment implies #[trigger] line[j] != '#' by {
        assert(line[j] == rest[j - eq - 1]);
        assert(!(is_char('#'))(rest[j - eq - 1]));
    }
    if eq + 1 + lead < eq + 1 + comment {
        assert(line[eq + 1 + lead] == rest[lead]);
    }
}

/// A value written over an assignment's value reads back exactly,
/// between the same `=` and the same comment.
proof fn lemma_replaced_value(line: Seq<char>, value: Seq<char>)
    requires
        value_span(line) is Some,
        writable_value(value),
    ensures
        ({
            let (start, end) = value_span(line)->0;
            let n = replace_value(line, value);
            &&& n == line.take(start) + value + line.skip(end)
            &&& value_span(n) == Some((start, start + value.len()))
            &&& n.subrange(start, start + value.len()) == value
            &&& eq_pos(n) == eq_pos(line)
        }),
{
    lemma_value_span_shape(line);
    let (start, end) = value_span(line)->0;
    let eq = eq_pos(line);
    let c = comment_pos(line);
    let n = line.take(start) + value + line.skip(end);
    let vl = value.len() as int;
    assert(replace_value(line, value) == n);
    assert forall|j: int| 0 <= j < start implies #[trigger] n[j] == line[j] by {}
    assert forall|j: int| 0 <= j < vl implies #[trigger] n[start + j] == value[j] by {}
    assert forall|j: int| end <= j < line.len() implies #[trigger] n[start + vl + (j - end)] == line[j] by {}
    // The first '=' is where it was.
    assert forall|j: int| 0 <= j < eq implies !(is_char('='))(#[trigger] n[j]) by {
        assert(n[j] == line[j]);
    }
    assert(n[eq] == '=');
    lemma_first_index_is(n, is_char('='), eq);
    assert(eq_pos(n) == eq);
    let rest = n.skip(eq + 1);
    let lead = start - eq - 1;
    // Leading whitespace runs up to the value.
    assert forall|k: int| 0 <= k < lead implies !(not_ws())(#[trigger] rest[k]) by {
        assert(rest[k] == n[eq + 1 + k]);
        assert(n[eq + 1 + k] == line[eq + 1 + k]);
    }
    assert(rest[lead] == value[0]);
    lemma_first_index_is(rest, not_ws(), lead);
    assert(leading_ws(rest) == lead) by {
        assert(not_ws() == crate::text::not_ws_fn());
    }
    // The comment starts where it did, shifted by the new value.
    let cn = lead + vl + (c - end);
    assert(rest.len() == lead + vl + (line.len() - end));
    assert forall|k: int| 0 <= k < cn implies !(is_char('#'))(#[trigger] rest[k]) by {
        assert(rest[k] == n[eq + 1 + k]);
        if k < lead {
            assert(n[eq + 1 + k] == line[eq + 1 + k]);
        } else if k < lead + vl {
            assert(n[eq + 1 + k] == value[k - lead]);
            if value[k - lead] == '#' {
                assert(value.contains('#'));
            }
        } else {
            let j = end + (k - lead - vl);
            assert(n[start + vl + (j - end)] == line[j]);
            assert(is_ws(line[j]));
        }
    }
    if c < line.len() {
        assert(rest[cn] == n[start + vl + (c - end)]);
        assert(rest[cn] == '#');
    }
    lemma_first_index_is(rest, is_char('#'), cn);
    let head = rest.take(cn);
    assert forall|k: int| lead + vl <= k < head.len() implies is_ws(#[trigger] head[k]) by {
        let j = end + (k - lead - vl);
        assert(head[k] == rest[k]);
        assert(rest[k] == n[start + vl + (j - end)]);
    }
    assert(head[lead + vl - 1] == value[vl - 1]);
    crate::text::lemma_trimmed_end_len_is(head, lead + vl);
    assert(n.subrange(start, start + vl) =~= value);
}

pub open spec fn not_ws() -> spec_fn(char) -> bool {
    |c: char| !is_ws(c)
}

/// A line that assigns a writable key has its key before its first
/// `=`; any line agreeing with it up to that `=` assigns the same key
/// and is no table header (for a key opening with `[`, given that).
proof fn lemma_key_line_prefix(line: Seq<char>, m: Seq<char>, key: Seq<char>)
    requires
        is_key_line(line, key),
        writable_key(key),
        key.len() > 0 && key[0] == '[' ==> !is_table_header(m),
        first_index(line, is_char('=')) is Some,
        ({
            let eq = first_index(line, is_char('='))->0;
            eq < m.len() && m.take(eq + 1) == line.take(eq + 1)
        }),
    ensures
        is_key_line(m, key),
        !is_table_header(m),
{
    lemma_first_index(line, is_char('='));
    let eq = first_index(line, is_char('='))->0;
    lemma_leading_ws(line);
    let lw = leading_ws(line);
    assert(line[eq] == '=');
    assert(!is_ws('='));
    if lw > eq {
        assert(is_ws(line[eq]));
    }
    assert(lw <= eq);
    assert forall|j: int| 0 <= j <= eq implies #[trigger] m[j] == line[j] by {
        assert(m.take(eq + 1)[j] == line.take(eq + 1)[j]);
    }
    // The same leading whitespace.
    assert forall|j: int| 0 <= j < lw implies !(crate::text::not_ws_fn())(#[trigger] m[j]) by {
        assert(m[j] == line[j]);
    }
    assert(m[lw] == line[lw]);
    lemma_first_index_is(m, crate::text::not_ws_fn(), lw);
    lemma_leading_ws(m);
    let x = line.skip(lw);
    let xm = m.skip(lw);
    let q = eq - lw;
    assert forall|j: int| 0 <= j <= q implies #[trigger] xm[j] == x[j] by {
        assert(xm[j] == m[lw + j]);
        assert(x[j] == line[lw + j]);
    }
    assert(x[q] == '=');
    assert forall|j: int| 0 <= j < q implies #[trigger] x[j] != '=' by {
        assert(x[j] == line[lw + j]);
        lemma_first_index(line, is_char('='));
    }
    let (found, rest) = split_key(x);
    let after = trim_start(rest);
    assert(found == key && after.len() > 0 && after[0] == '=');
    // The first '=' or whitespace of x comes no later than q.
    lemma_first_index(x, eq_or_ws_fn());
    lemma_first_index(xm, eq_or_ws_fn());
    let bare_end = first_index_or(x, eq_or_ws_fn(), x.len() as int);
    assert((eq_or_ws_fn())(x[q]));
    assert(bare_end <= q);
    assert forall|j: int| 0 <= j < bare_end implies !(eq_or_ws_fn())(#[trigger] xm[j]) by {
        assert(xm[j] == x[j]);
    }
    assert(xm[bare_end] == x[bare_end]);
    lemma_first_index_is(xm, eq_or_ws_fn(), bare_end);
    if x[0] == '"' {
        let body = x.drop_first();
        let bodym = xm.drop_first();
        lemma_first_index(body, is_char('"'));
        if first_index(body, is_char('"')) is None {
            // The bare reading would put the quote into the key.
            assert(found == x.take(bare_end));
            if bare_end > 0 {
                assert(found[0] == '"');
                assert(key.contains('"'));
            } else {
                assert(x[0] == '"');
                assert((eq_or_ws_fn())(x[0]) == ('"' == '=' || is_ws('"')));
            }
        }
        let e = first_index(body, is_char('"'))->0;
        assert(found == body.take(e));
        assert(body[q - 1] == '=');
        if e >= q - 1 {
            assert(found[q - 1] == '=');
            assert(key.contains('='));
        }
        assert(e < q - 1);
        assert forall|j: int| 0 <= j < e implies !(is_char('"'))(#[trigger] bodym[j]) by {
            assert(bodym[j] == xm[j + 1]);
            assert(body[j] == x[j + 1]);
        }
        assert(bodym[e] == xm[e + 1]);
        assert(bodym[e] == body[e]);
        lemma_first_index_is(bodym, is_char('"'), e);
        let restm = bodym.skip(e + 1);
        assert(rest == body.skip(e + 1));
        // The whitespace after the closing quote runs to the '='.
        lemma_leading_ws(rest);
        let p = leading_ws(rest);
        assert(rest[p] == '=');
        assert(rest[p] == x[e + 2 + p]);
        if e + 2 + p < q {
            assert(x[e + 2 + p] != '=');
        }
        if e + 2 + p > q {
            assert(rest[q - e - 2] == x[q]);
            assert(is_ws(rest[q - e - 2]));
        }
        assert(e + 2 + p == q);
        assert forall|j: int| 0 <= j < p implies !(crate::text::not_ws_fn())(#[trigger] restm[j]) by {
            assert(restm[j] == xm[e + 2 + j]);
            assert(rest[j] == x[e + 2 + j]);
        }
        assert(restm[p] == xm[q]);
        lemma_first_index_is(restm, crate::text::not_ws_fn(), p);
        lemma_leading_ws(restm);
        assert(trim_start(restm)[0] == '=');
        assert(bodym.take(e) =~= body.take(e)) by {
            assert forall|j: int| 0 <= j < e implies bodym[j] == body[j] by {
                assert(bodym[j] == xm[j + 1]);
            }
        }
        assert(xm.len() > 0 && xm[0] == '"');
        assert(split_key(xm) == (bodym.take(e), bodym.skip(e + 1)));
    } else {
        assert(found == x.take(bare_end));
        assert(rest == x.skip(bare_end));
        lemma_leading_ws(rest);
        let p = leading_ws(rest);
        assert(rest[p] == x[bare_end + p]);
        if bare_end + p < q {
            assert(x[bare_end + p] != '=');
        }
        if bare_end + p > q {
            assert(rest[q - bare_end] == x[q]);
            assert(is_ws(rest[q - bare_end]));
        }
        assert(bare_end + p == q);
        let restm = xm.skip(bare_end);
        assert forall|j: int| 0 <= j < p implies !(crate::text::not_ws_fn())(#[trigger] restm[j]) by {
            assert(restm[j] == xm[bare_end + j]);
            assert(rest[j] == x[bare_end + j]);
        }
        assert(restm[p] == xm[q]);
        lemma_first_index_is(restm, crate::text::not_ws_fn(), p);
        lemma_leading_ws(restm);
        assert(xm.take(bare_end) =~= x.take(bare_end)) by {
            assert forall|j: int| 0 <= j < bare_end implies xm[j] == x[j] by {}
        }
        assert(xm[0] == x[0]);
    }
    // Not a header: the first visible character is the key's own or a
    // quote.
    let t = trim_start(m);
    assert(t == xm);
    lemma_trimmed_end_len(t);
    assert(t[q] == '=');
    if trimmed_end_len(t) <= q {
        assert(is_ws(t[q]));
    }
    let tt = trim(m);
    assert(tt == t.take(trimmed_end_len(t)));
    assert(tt[0] == xm[0]);
    if xm[0] == '[' {
        if x[0] == '"' {
        } else {
            assert(found == x.take(bare_end));
            if bare_end > 0 {
                assert(found[0] == '[');
                assert(key[0] == '[');
            } else {
                assert((eq_or_ws_fn())(x[0]));
            }
        }
    }
}

/// The trimmed text of a line runs from its first visible character to
/// its last one.
proof fn lemma_trim_ends(x: Seq<char>, k: int)
    requires
        0 <= k < x.len(),
        !is_ws(x[k]),
        forall|j: int| k < j < x.len() ==> is_ws(#[trigger] x[j]),
    ensures
        leading_ws(x) <= k,
        trim(x).len() > 0,
        trim(x)[0] == x[leading_ws(x)],
        trim(x)[trim(x).len() - 1] == x[k],
{
    lemma_leading_ws(x);
    let lw = leading_ws(x);
    if lw > k {
        assert(is_ws(x[k]));
    }
    let t = x.skip(lw);
    let n = k - lw + 1;
    assert forall|j: int| n <= j < t.len() implies is_ws(#[trigger] t[j]) by {
        assert(t[j] == x[lw + j]);
    }
    assert(t[n - 1] == x[k]);
    crate::text::lemma_trimmed_end_len_is(t, n);
    assert(trim(x) == t.take(n));
}

/// Rewriting the value of a line that is no table header leaves no
/// table header, as long as the new value does not close with `]`.
proof fn lemma_rewrite_not_header(line: Seq<char>, value: Seq<char>)
    requires
        value_span(line) is Some,
        writable_value(value),
        !is_table_header(line),
        value.last() != ']',
    ensures
        !is_table_header(replace_value(line, value)),
{
    lemma_value_span_shape(line);
    lemma_replaced_value(line, value);
    let (vs, ve) = value_span(line)->0;
    let eq = eq_pos(line);
    let n = replace_value(line, value);
    let vl = value.len() as int;
    assert(n == line.take(vs) + value + line.skip(ve));
    assert(n.len() == vs + vl + line.len() - ve);
    assert forall|j: int| 0 <= j < vs implies #[trigger] n[j] == line[j] by {}
    assert forall|j: int| vs + vl <= j < n.len() implies #[trigger] n[j] == line[j - vs - vl + ve] by {}
    // Both lines show their first visible character at the same place.
    lemma_leading_ws(line);
    lemma_leading_ws(n);
    let lw = leading_ws(line);
    let ln = leading_ws(n);
    assert(!is_ws('='));
    if lw > eq {
        assert(is_ws(line[eq]));
    }
    if ln > eq {
        assert(n[eq] == line[eq]);
        assert(is_ws(n[eq]));
    }
    if ln < lw {
        assert(n[ln] == line[ln]);
    }
    if lw < ln {
        assert(n[lw] == line[lw]);
    }
    assert(ln == lw);
    crate::text::lemma_trimmed_end_len(line);
    let te = trimmed_end_len(line);
    if te > ve {
        let k = te - 1;
        lemma_trim_ends(line, k);
        let kn = k - ve + vs + vl;
        assert(n[kn] == line[k]);
        assert forall|j: int| kn < j < n.len() implies is_ws(#[trigger] n[j]) by {
            assert(n[j] == line[j - vs - vl + ve]);
        }
        lemma_trim_ends(n, kn);
        assert(n[lw] == line[lw]);
    } else {
        let kn = vs + vl - 1;
        assert(n[kn] == value[vl - 1]);
        assert forall|j: int| kn < j < n.len() implies is_ws(#[trigger] n[j]) by {
            assert(n[j] == line[j - vs - vl + ve]);
        }
        lemma_trim_ends(n, kn);
    }
}

/// A freshly written `key = value` line assigns the key, is no table
/// header, and reads back the value.
proof fn lemma_fresh_key_line(key: Seq<char>, value: Seq<char>)
    requires
        writable_key(key),
        writable_value(value),
    ensures
        is_key_line(key_line(key, value), key),
        !is_table_header(key_line(key, value)),
        ({
            let kl = key_line(key, value);
            let tk = toml_key(key);
            let n = tk.len() as int;
            &&& value_span(kl) == Some((n + 3, n + 3 + value.len()))
            &&& kl.subrange(n + 3, n + 3 + value.len()) == value
        }),
        clean_line(key_line(key, value)),
{
    lemma_key_line_shape(key, value);
    let tk = toml_key(key);
    let kl = key_line(key, value);
    let bare = forall|i: int| 0 <= i < key.len() ==> crate::configedit::is_bare_key_char(#[trigger] key[i]);
    let n = tk.len() as int;
    let vl = value.len() as int;
    assert(kl =~= tk + seq![' ', '=', ' '] + value);
    assert(kl[n] == ' ' && kl[n + 1] == '=' && kl[n + 2] == ' ');
    assert forall|j: int| 0 <= j < vl implies #[trigger] kl[n + 3 + j] == value[j] by {}
    // No '=' before the one written.
    assert forall|j: int| 0 <= j < n implies #[trigger] tk[j] != '=' && tk[j] != '\n' && tk[j] != '\r' by {
        if bare {
            assert(crate::configedit::is_bare_key_char(key[j]));
            assert(tk[j] == key[j]);
        } else if 0 < j < n - 1 {
            assert(tk[j] == key[j - 1]);
            if key[j - 1] == '=' {
                assert(key.contains('='));
            }
            if key[j - 1] == '\n' {
                assert(key.contains('\n'));
            }
            if key[j - 1] == '\r' {
                assert(key.contains('\r'));
            }
        }
    }
    assert forall|j: int| 0 <= j <= n implies !(is_char('='))(#[trigger] kl[j]) by {
        if j < n {
            assert(kl[j] == tk[j]);
        }
    }
    lemma_first_index_is(kl, is_char('='), n + 1);
    // The value span: one space, the value, no comment.
    let rest = kl.skip(n + 2);
    assert(rest =~= seq![' '] + value);
    assert(is_ws(' '));
    assert(rest[1] == value[0]);
    lemma_first_index_is(rest, crate::text::not_ws_fn(), 1);
    assert forall|k: int| 0 <= k < rest.len() implies !(is_char('#'))(#[trigger] rest[k]) by {
        if k > 0 {
            assert(rest[k] == value[k - 1]);
            if value[k - 1] == '#' {
                assert(value.contains('#'));
            }
        }
    }
    lemma_first_index_is(rest, is_char('#'), rest.len() as int);
    assert(rest.take(rest.len() as int) =~= rest);
    assert(rest[vl] == value[vl - 1]);
    crate::text::lemma_trimmed_end_len_is(rest, vl + 1);
    assert(value_span(kl) == Some((n + 3, n + 3 + vl)));
    assert(kl.subrange(n + 3, n + 3 + vl) =~= value);
}

/// A fresh assignment line of a findable key, with any value without a
/// line break, assigns the key and is no table header; it stays on one
/// line, or clean, as the value does.
proof fn lemma_key_line_shape(key: Seq<char>, value: Seq<char>)
    requires
        findable_key(key),
        !value.contains('\n'),
    ensures
        is_key_line(key_line(key, value), key),
        !is_table_header(key_line(key, value)),
        one_line(value) ==> one_line(key_line(key, value)),
        clean_line(value) ==> clean_line(key_line(key, value)),
{
    let tk = toml_key(key);
    let kl = key_line(key, value);
    let bare = forall|i: int| 0 <= i < key.len() ==> crate::configedit::is_bare_key_char(#[trigger] key[i]);
    let n = tk.len() as int;
    let vl = value.len() as int;
    assert(kl =~= tk + seq![' ', '=', ' '] + value);
    assert(kl[n] == ' ' && kl[n + 1] == '=' && kl[n + 2] == ' ');
    assert forall|j: int| 0 <= j < vl implies #[trigger] kl[n + 3 + j] == value[j] by {}
    assert forall|j: int| 0 <= j < n implies #[trigger] tk[j] != '\n' && tk[j] != '\r' by {
        if bare {
            assert(crate::configedit::is_bare_key_char(key[j]));
            assert(tk[j] == key[j]);
        } else if 0 < j < n - 1 {
            assert(tk[j] == key[j - 1]);
            if key[j - 1] == '\n' {
                assert(key.contains('\n'));
            }
            if key[j - 1] == '\r' {
                assert(key.contains('\r'));
            }
        }
    }
    // One line.
    assert(!kl.contains('\n')) by {
        if kl.contains('\n') {
            let j = choose|j: int| 0 <= j < kl.len() && kl[j] == '\n';
            if j >= n + 3 {
                assert(value[j - n - 3] == '\n');
                assert(value.contains('\n'));
            } else if j < n {
                assert(kl[j] == tk[j]);
            }
        }
    }
    assert(one_line(value) ==> !kl.contains('\r')) by {
        if one_line(value) && kl.contains('\r') {
            let j = choose|j: int| 0 <= j < kl.len() && kl[j] == '\r';
            if j >= n + 3 {
                assert(value[j - n - 3] == '\r');
                assert(value.contains('\r'));
            } else if j < n {
                assert(kl[j] == tk[j]);
            }
        }
    }
    if vl > 0 {
        assert(kl.last() == value.last());
    } else {
        assert(kl.last() == ' ');
    }
    // It assigns the key: the line agrees up to its '=' with a line
    // made of the key alone.
    if bare && key.len() == 0 {
        assert(tk.len() == 0);
        assert(is_ws(kl[0]));
        assert(kl[1] == '=');
        lemma_first_index_is(kl, crate::text::not_ws_fn(), 1);
        let x = trim_start(kl);
        assert(x =~= kl.skip(1));
        assert(x[0] == '=');
        assert((eq_or_ws_fn())(x[0]));
        lemma_first_index_is(x, eq_or_ws_fn(), 0);
        assert(split_key(x) == (x.take(0), x.skip(0)));
        assert(x.take(0) =~= key);
        assert(x.skip(0) =~= x);
        lemma_first_index_is(x, crate::text::not_ws_fn(), 0);
        let tt = trim(kl);
        crate::text::lemma_trimmed_end_len(x);
        if trimmed_end_len(x) == 0 {
            assert(is_ws(x[0]));
        }
        assert(tt[0] == x[0]);
    } else if bare {
        assert(crate::configedit::is_bare_key_char(key[0]));
        assert(kl[0] == key[0]);
        assert(!is_ws(kl[0]));
        lemma_first_index_is(kl, crate::text::not_ws_fn(), 0);
        let x = trim_start(kl);
        assert(x =~= kl);
        assert forall|j: int| 0 <= j < n implies !(eq_or_ws_fn())(#[trigger] x[j]) by {
            assert(crate::configedit::is_bare_key_char(key[j]));
            assert(x[j] == key[j]);
        }
        assert((eq_or_ws_fn())(x[n]));
        lemma_first_index_is(x, eq_or_ws_fn(), n);
        assert(x.take(n) =~= key);
        let rest2 = x.skip(n);
        assert(rest2[0] == ' ' && rest2[1] == '=');
        lemma_first_index_is(rest2, crate::text::not_ws_fn(), 1);
        let tt = trim(kl);
        crate::text::lemma_trimmed_end_len(x);
        if trimmed_end_len(x) == 0 {
            assert(is_ws(x[0]));
        }
        assert(tt[0] == key[0]);
    } else {
        assert(tk =~= seq!['"'] + key + seq!['"']);
        assert(kl[0] == '"');
        assert(!is_ws('"'));
        lemma_first_index_is(kl, crate::text::not_ws_fn(), 0);
        let x = trim_start(kl);
        assert(x =~= kl);
        let body = x.drop_first();
        let kn = key.len() as int;
        assert forall|j: int| 0 <= j < kn implies !(is_char('"'))(#[trigger] body[j]) by {
            assert(body[j] == key[j]);
            if key[j] == '"' {
                assert(key.contains('"'));
            }
        }
        assert(body[kn] == '"');
        lemma_first_index_is(body, is_char('"'), kn);
        assert(body.take(kn) =~= key);
        let rest2 = body.skip(kn + 1);
        assert(rest2[0] == ' ' && rest2[1] == '=');
        lemma_first_index_is(rest2, crate::text::not_ws_fn(), 1);
        let tt = trim(kl);
        crate::text::lemma_trimmed_end_len(x);
        if trimmed_end_len(x) == 0 {
            assert(is_ws(x[0]));
        }
        assert(tt[0] == '"');
    }
}

/// A line assigning a key holds an `=`.
proof fn lemma_key_line_has_eq(line: Seq<char>, key: Seq<char>)
    requires
        is_key_line(line, key),
    ensures
        first_index(line, is_char('=')) is Some,
{
    lemma_leading_ws(line);
    let lw = leading_ws(line);
    let x = line.skip(lw);
    let (found, rest) = split_key(x);
    let bare_end = first_index_or(x, eq_or_ws_fn(), x.len() as int);
    lemma_first_index(x, eq_or_ws_fn());
    let off: int = if x.len() > 0 && x[0] == '"' && first_index(x.drop_first(), is_char('"')) is Some {
        first_index(x.drop_first(), is_char('"'))->0 + 2
    } else {
        bare_end
    };
    if x.len() > 0 && x[0] == '"' && first_index(x.drop_first(), is_char('"')) is Some {
        lemma_first_index(x.drop_first(), is_char('"'));
        assert(rest =~= x.skip(off));
    } else {
        assert(rest =~= x.skip(off));
    }
    lemma_leading_ws(rest);
    let p = leading_ws(rest);
    let after = trim_start(rest);
    assert(after[0] == '=');
    assert(after[0] == rest[p]);
    assert(rest[p] == line[lw + off + p]);
    lemma_first_index(line, is_char('='));
    if first_index(line, is_char('=')) is None {
        assert(!(is_char('='))(line[lw + off + p]));
    }
}

/// Lines that agree everywhere but at `i` agree on the first index of
/// any predicate the line at `i` fails in both.
proof fn lemma_first_index_update(a: Seq<Seq<char>>, b: Seq<Seq<char>>, p: spec_fn(Seq<char>) -> bool, i: int)
    requires
        a.len() == b.len(),
        0 <= i < a.len(),
        forall|j: int| 0 <= j < a.len() && j != i ==> #[trigger] a[j] == b[j],
        !p(a[i]),
        !p(b[i]),
    ensures
        first_index(a, p) == first_index(b, p),
{
    lemma_first_index(a, p);
    match first_index(a, p) {
        Some(k) => {
            assert forall|j: int| 0 <= j < k implies !p(#[trigger] b[j]) by {
                if j != i {
                    assert(a[j] == b[j]);
                    assert(!p(a[j]));
                }
            }
            assert(b[k] == a[k]);
            lemma_first_index_is(b, p, k);
        },
        None => {
            assert forall|j: int| 0 <= j < b.len() implies !p(#[trigger] b[j]) by {
                if j != i {
                    assert(a[j] == b[j]);
                    assert(!p(a[j]));
                }
            }
            lemma_first_index_is(b, p, b.len() as int);
        },
    }
}

/// A header the edits can open a table with and find again.
pub open spec fn findable_header(header: Seq<char>) -> bool {
    header.len() > 0 && trim(header) == header && one_line(header)
}

/// Reading a key back from the lines an edit produced gives the value
/// written, whether the edit replaced an existing assignment, inserted
/// one under an existing header, or appended a fresh table.
/// Where an edit of `key` leaves the key's line: the table's header
/// line and the end of its section, and the line itself, whichever
/// value is written.
pub open spec fn write_site(lines: Seq<Seq<char>>, header: Seq<char>, key: Seq<char>) -> (int, int, int) {
    match table_range(lines, header) {
        Some((s, e)) => match key_line_in(lines, key, s, e) {
            Some(i) => (s, e, i),
            None => (s, e + 1, s + 1),
        },
        None => {
            let b = if lines.len() > 0 && lines.last().len() > 0 {
                lines.len() + 1int
            } else {
                lines.len() as int
            };
            (b, b + 2, b + 1)
        },
    }
}

/// The line an edit writes at its site: the old assignment with its
/// value replaced, or a fresh `key = value` line.
pub open spec fn written_line(lines: Seq<Seq<char>>, header: Seq<char>, key: Seq<char>, value: Seq<char>) -> Seq<char> {
    match table_range(lines, header) {
        Some((s, e)) => match key_line_in(lines, key, s, e) {
            Some(i) => replace_value(lines[i], value),
            None => key_line(key, value),
        },
        None => key_line(key, value),
    }
}

#[verifier::rlimit(50)]
proof fn lemma_read_after_write_lines(lines: Seq<Seq<char>>, header: Seq<char>, key: Seq<char>, value: Seq<char>)
    requires
        findable_header(header),
        writable_key(key),
        writable_value(value),
        bracket_safe(key, value),
    ensures
        key_value_in(edited_lines(lines, header, key, value), header, key) == Some(value),
        ({
            let out = edited_lines(lines, header, key, value);
            let (s, e, i) = write_site(lines, header, key);
            &&& table_range(out, header) == Some((s, e))
            &&& key_line_in(out, key, s, e) == Some(i)
            &&& 0 <= i < out.len()
            &&& out[i] == written_line(lines, header, key, value)
        }),
{
    let out = edited_lines(lines, header, key, value);
    let kl = key_line(key, value);
    lemma_fresh_key_line(key, value);
    lemma_first_index(lines, trims_to(header));
    match table_range(lines, header) {
        Some((start, end)) => {
            let s = start;
            let e = end;
            assert(first_index(lines, trims_to(header)) == Some(s));
            let tail = lines.skip(s + 1);
            lemma_first_index(tail, header_fn());
            let body = lines.subrange(s + 1, e);
            lemma_first_index(body, key_line_fn(key));
            match key_line_in(lines, key, s, e) {
                Some(i) => {
                    let old_line = lines[i];
                    assert(old_line == body[i - s - 1]);
                    assert(is_key_line(old_line, key));
                    lemma_key_line_has_eq(old_line, key);
                    lemma_first_index(old_line, is_char('='));
                    assert(value_span(old_line) is Some);
                    lemma_value_span_shape(old_line);
                    lemma_replaced_value(old_line, value);
                    let n = replace_value(old_line, value);
                    let eq = first_index(old_line, is_char('='))->0;
                    let (vs, ve) = value_span(old_line)->0;
                    assert(n.take(eq + 1) =~= old_line.take(eq + 1)) by {
                        assert forall|j: int| 0 <= j < eq + 1 implies n[j] == old_line[j] by {}
                    }
                    if is_table_header(old_line) {
                        match first_index(tail, header_fn()) {
                            Some(off) => {
                                assert(e == s + 1 + off);
                                assert(i - s - 1 < off);
                                assert(!(header_fn())(tail[i - s - 1]));
                            },
                            None => {},
                        }
                    }
                    if key.len() > 0 && key[0] == '[' {
                        lemma_rewrite_not_header(old_line, value);
                    }
                    lemma_key_line_prefix(old_line, n, key);
                    assert(out == lines.update(i, n));
                    // The header is found where it was.
                    assert forall|j: int| 0 <= j <= s implies #[trigger] out[j] == lines[j] by {}
                    assert forall|j: int| 0 <= j < s implies !(trims_to(header))(#[trigger] out[j]) by {}
                    lemma_first_index_is(out, trims_to(header), s);
                    // The section ends where it did.
                    let otail = out.skip(s + 1);
                    assert forall|j: int| 0 <= j < otail.len() && j != i - s - 1 implies #[trigger] otail[j] == tail[j] by {}
                    assert(otail[i - s - 1] == n);
                    assert(tail[i - s - 1] == old_line);
                    if is_table_header(old_line) {
                        match first_index(tail, header_fn()) {
                            Some(off) => {
                                assert(e == s + 1 + off);
                                assert(i - s - 1 < off);
                                assert(!(header_fn())(tail[i - s - 1]));
                            },
                            None => {},
                        }
                    }
                    lemma_first_index_update(tail, otail, header_fn(), i - s - 1);
                    assert(section_end(out, s) == e);
                    assert(table_range(out, header) == Some((s, e)));
                    // The first assignment of the key is still line i.
                    let obody = out.subrange(s + 1, e);
                    assert forall|j: int| 0 <= j < i - s - 1 implies !(key_line_fn(key))(#[trigger] obody[j]) by {
                        assert(obody[j] == body[j]);
                    }
                    assert(obody[i - s - 1] == n);
                    lemma_first_index_is(obody, key_line_fn(key), i - s - 1);
                    assert(key_line_in(out, key, s, e) == Some(i));
                    assert(out[i] == n);
                },
                None => {
                    assert(out == lines.insert(s + 1, kl));
                    assert forall|j: int| 0 <= j <= s implies #[trigger] out[j] == lines[j] by {}
                    assert forall|j: int| 0 <= j < s implies !(trims_to(header))(#[trigger] out[j]) by {}
                    lemma_first_index_is(out, trims_to(header), s);
                    let otail = out.skip(s + 1);
                    assert(otail =~= seq![kl] + tail);
                    assert(!(header_fn())(otail[0]));
                    match first_index(tail, header_fn()) {
                        Some(off) => {
                            assert forall|j: int| 0 <= j < off + 1 implies !(header_fn())(#[trigger] otail[j]) by {
                                if j > 0 {
                                    assert(otail[j] == tail[j - 1]);
                                }
                            }
                            assert(otail[off + 1] == tail[off]);
                            lemma_first_index_is(otail, header_fn(), off + 1);
                        },
                        None => {
                            assert forall|j: int| 0 <= j < otail.len() implies !(header_fn())(#[trigger] otail[j]) by {
                                if j > 0 {
                                    assert(otail[j] == tail[j - 1]);
                                }
                            }
                            lemma_first_index_is(otail, header_fn(), otail.len() as int);
                        },
                    }
                    assert(section_end(out, s) == e + 1);
                    let obody = out.subrange(s + 1, e + 1);
                    assert(obody[0] == kl);
                    lemma_first_index_is(obody, key_line_fn(key), 0);
                    assert(key_line_in(out, key, s, e + 1) == Some(s + 1));
                    assert(out[s + 1] == kl);
                    assert(kl.subrange(toml_key(key).len() as int + 3, toml_key(key).len() as int + 3 + value.len()) == value);
                },
            }
        },
        None => {
            let base = if lines.len() > 0 && lines.last().len() > 0 {
                lines.push(seq![])
            } else {
                lines
            };
            let b = base.len() as int;
            assert(out == base.push(header).push(kl));
            assert forall|j: int| 0 <= j < b implies !(trims_to(header))(#[trigger] out[j]) by {
                assert(out[j] == base[j]);
                if j < lines.len() {
                    assert(base[j] == lines[j]);
                } else {
                    assert(base[j] =~= Seq::<char>::empty());
                    assert(trim(Seq::<char>::empty()) =~= Seq::<char>::empty()) by {
                        lemma_leading_ws(Seq::<char>::empty());
                        crate::text::lemma_trimmed_end_len(Seq::<char>::empty());
                    }
                }
            }
            assert(out[b] == header);
            lemma_first_index_is(out, trims_to(header), b);
            let otail = out.skip(b + 1);
            assert(otail =~= seq![kl]);
            lemma_first_index_is(otail, header_fn(), 1);
            assert(section_end(out, b) == b + 2);
            let obody = out.subrange(b + 1, b + 2);
            assert(obody =~= seq![kl]);
            lemma_first_index_is(obody, key_line_fn(key), 0);
            assert(key_line_in(out, key, b, b + 2) == Some(b + 1));
            assert(out[b + 1] == kl);
            assert(kl.subrange(toml_key(key).len() as int + 3, toml_key(key).len() as int + 3 + value.len()) == value);
        },
    }
}

/// Lines holding no carriage return at all.
pub open spec fn cr_free_lines(lines: Seq<Seq<char>>) -> bool {
    forall|i: int| 0 <= i < lines.len() ==> !(#[trigger] lines[i]).contains('\r')
}

/// The lines an edit produces stay clean when the lines, the header,
/// the key and the value are, and an empty value is written over lines
/// without carriage returns (a return before the rewritten value would
/// otherwise end the line).
proof fn lemma_edited_clean(lines: Seq<Seq<char>>, header: Seq<char>, key: Seq<char>, value: Seq<char>)
    requires
        clean_lines(lines),
        one_line(header),
        findable_key(key),
        clean_line(value),
        value.len() > 0 || cr_free_lines(lines),
    ensures
        clean_lines(edited_lines(lines, header, key, value)),
{
    let out = edited_lines(lines, header, key, value);
    lemma_key_line_shape(key, value);
    let kl = key_line(key, value);
    assert(clean_line(kl));
    assert(clean_line(header));
    match table_range(lines, header) {
        Some((start, end)) => match key_line_in(lines, key, start, end) {
            Some(i) => {
                let old_line = lines[i];
                assert(0 <= i < lines.len()) by {
                    lemma_first_index(lines.subrange(start + 1, end), key_line_fn(key));
                    lemma_first_index(lines, trims_to(header));
                    lemma_first_index(lines.skip(start + 1), header_fn());
                }
                assert(clean_line(old_line));
                let n = replace_value(old_line, value);
                assert(clean_line(n)) by {
                    match value_span(old_line) {
                        Some((vs, ve)) => {
                            lemma_value_span_shape(old_line);
                            assert(n =~= old_line.take(vs) + value + old_line.skip(ve));
                            if n.contains('\n') {
                                let j = choose|j: int| 0 <= j < n.len() && n[j] == '\n';
                                if j < vs {
                                    assert(old_line[j] == '\n');
                                } else if j < vs + value.len() {
                                    assert(value[j - vs] == '\n');
                                } else {
                                    assert(old_line[ve + (j - vs - value.len())] == '\n');
                                }
                            }
                            if n.len() > 0 && n.last() == '\r' {
                                if ve < old_line.len() {
                                    assert(n.last() == old_line.last());
                                } else if value.len() > 0 {
                                    assert(n.last() == value.last());
                                    assert(value.contains('\r'));
                                } else {
                                    assert(n.last() == old_line[vs - 1]);
                                    assert(old_line.contains('\r'));
                                    assert(!lines[i].contains('\r'));
                                }
                            }
                        },
                        None => {},
                    }
                }
                assert forall|j: int| 0 <= j < out.len() implies clean_line(#[trigger] out[j]) by {
                    if j != i {
                        assert(out[j] == lines[j]);
                    }
                }
            },
            None => {
                assert forall|j: int| 0 <= j < out.len() implies clean_line(#[trigger] out[j]) by {
                    lemma_first_index(lines, trims_to(header));
                    if j < start + 1 {
                        assert(out[j] == lines[j]);
                    } else if j > start + 1 {
                        assert(out[j] == lines[j - 1]);
                    }
                }
            },
        },
        None => {
            let base = if lines.len() > 0 && lines.last().len() > 0 {
                lines.push(seq![])
            } else {
                lines
            };
            assert(clean_line(Seq::<char>::empty()));
            assert forall|j: int| 0 <= j < out.len() implies clean_line(#[trigger] out[j]) by {
                if j < lines.len() {
                    assert(out[j] == lines[j]);
                }
            }
        },
    }
}

/// A bracketed header is its own trim.
proof fn lemma_header_findable(header: Seq<char>, table: Seq<char>)
    requires
        header == crate::configedit::header_of(table) || header == array_header_of(table),
        one_line(table),
    ensures
        findable_header(header),
{
    let h = header;
    assert(h[0] == '[');
    assert(h[h.len() - 1] == ']');
    assert(!is_ws('[') && !is_ws(']'));
    lemma_first_index_is(h, crate::text::not_ws_fn(), 0);
    assert(trim_start(h) =~= h);
    crate::text::lemma_trimmed_end_len_is(h, h.len() as int);
    assert(h.take(h.len() as int) =~= h);
    assert(!h.contains('\n')) by {
        if h.contains('\n') {
            let j = choose|j: int| 0 <= j < h.len() && h[j] == '\n';
            if h == crate::configedit::header_of(table) {
                assert(table[j - 1] == '\n');
            } else {
                assert(table[j - 2] == '\n');
            }
        }
    }
    assert(!h.contains('\r')) by {
        if h.contains('\r') {
            let j = choose|j: int| 0 <= j < h.len() && h[j] == '\r';
            if h == crate::configedit::header_of(table) {
                assert(table[j - 1] == '\r');
            } else {
                assert(table[j - 2] == '\r');
            }
        }
    }
}

/// A surgical edit: setting `key` under `[table]` gives back the
/// file's own lines with only the key's line changed (its value
/// rewritten in place), or, with no such line, a fresh `key = value`
/// line right under the header, or, with no such table, the header and
/// that line appended after a blank line; every line ends in a line
/// break. This holds as long as the file's lines, once split, end in
/// no carriage return (a CRLF ending counts as the line break), the
/// table and key stay on one line, the key holding no quote, the value
/// holds no line break and does not end in a carriage return, and an
/// empty value goes into a file whose lines hold no carriage return at
/// all.
pub proof fn law_edit_touches_one_line(contents: Seq<char>, table: Seq<char>, key: Seq<char>, value: Seq<char>)
    requires
        clean_lines(split_lines(contents)),
        one_line(table),
        findable_key(key),
        clean_line(value),
        value.len() > 0 || cr_free_lines(split_lines(contents)),
    ensures
        split_lines(toml_with_key(contents, table, key, value)) == edited_lines(
            split_lines(contents),
            crate::configedit::header_of(table),
            key,
            value,
        ),
        split_lines(toml_with_array_key(contents, table, key, value)) == edited_lines(
            split_lines(contents),
            array_header_of(table),
            key,
            value,
        ),
        toml_with_key(contents, table, key, value).len() > 0,
        toml_with_key(contents, table, key, value).last() == '\n',
{
    let lines = split_lines(contents);
    let header = crate::configedit::header_of(table);
    let aheader = array_header_of(table);
    lemma_header_findable(header, table);
    lemma_header_findable(aheader, table);
    lemma_edited_clean(lines, header, key, value);
    lemma_edited_clean(lines, aheader, key, value);
    lemma_split_join(edited_lines(lines, header, key, value));
    lemma_split_join(edited_lines(lines, aheader, key, value));
    // Every line, the last included, is followed by a line break.
    lemma_first_index(lines, trims_to(header));
    let out = edited_lines(lines, header, key, value);
    match table_range(lines, header) {
        Some((start, end)) => {
            assert(0 <= start < lines.len());
            match key_line_in(lines, key, start, end) {
                Some(i) => {
                    lemma_first_index(lines.subrange(start + 1, end), key_line_fn(key));
                    lemma_first_index(lines.skip(start + 1), header_fn());
                    assert(out.len() == lines.len());
                },
                None => assert(out.len() == lines.len() + 1),
            }
        },
        None => {},
    }
    assert(out.len() > 0);
    assert(join_lines(out) == join_lines(out.drop_last()) + out.last() + seq!['\n']);
}

/// Read after write: once `key` is set under `[table]`, reading it
/// back gives the value written, whatever the file held before, as long
/// as the file's lines, once split, end in no carriage return (a CRLF
/// ending counts as the line break), the table and key stay on one
/// line, the key holds no quote or `=`, the value is non-empty, without
/// a line break, `#` or surrounding whitespace, and they are not a
/// key opening with `[` and a value closing with `]` (a bare spelling of
/// that pair would read as a table header).
pub proof fn law_key_reads_back(contents: Seq<char>, table: Seq<char>, key: Seq<char>, value: Seq<char>)
    requires
        clean_lines(split_lines(contents)),
        one_line(table),
        writable_key(key),
        writable_value(value),
        bracket_safe(key, value),
    ensures
        toml_key_value(toml_with_key(contents, table, key, value), table, key) == Some(value),
{
    let header = crate::configedit::header_of(table);
    let lines = split_lines(contents);
    lemma_header_findable(header, table);
    lemma_edited_clean(lines, header, key, value);
    let out = edited_lines(lines, header, key, value);
    lemma_split_join(out);
    lemma_read_after_write_lines(lines, header, key, value);
}

/// Read after write for the first `[[table]]` entry: once `key` is set
/// there, reading it back gives the value written, on the same inputs.
pub proof fn law_array_key_reads_back(contents: Seq<char>, table: Seq<char>, key: Seq<char>, value: Seq<char>)
    requires
        clean_lines(split_lines(contents)),
        one_line(table),
        writable_key(key),
        writable_value(value),
        bracket_safe(key, value),
    ensures
        toml_array_key_value(toml_with_array_key(contents, table, key, value), table, key) == Some(value),
{
    let header = array_header_of(table);
    let lines = split_lines(contents);
    lemma_header_findable(header, table);
    lemma_edited_clean(lines, header, key, value);
    let out = edited_lines(lines, header, key, value);
    lemma_split_join(out);
    lemma_read_after_write_lines(lines, header, key, value);
}

/// Writing the value a key already reads leaves the lines as they are.
proof fn lemma_write_of_read(lines: Seq<Seq<char>>, header: Seq<char>, key: Seq<char>, value: Seq<char>)
    requires
        key_value_in(lines, header, key) == Some(value),
    ensures
        edited_lines(lines, header, key, value) == lines,
{
    let (s, e) = table_range(lines, header)->0;
    let i = key_line_in(lines, key, s, e)->0;
    let line = lines[i];
    let (a, b) = value_span(line)->0;
    assert(line.subrange(a, b) == value);
    lemma_first_index(lines, trims_to(header));
    lemma_first_index(lines.subrange(s + 1, e), key_line_fn(key));
    lemma_first_index(lines.skip(s + 1), header_fn());
    lemma_key_line_has_eq(lines.subrange(s + 1, e)[i - s - 1], key);
    lemma_value_span_shape(line);
    assert(line.take(a) + value + line.skip(b) =~= line);
    assert(lines.update(i, line) =~= lines);
}

/// Writing is idempotent: setting `key` under `[table]` to the value it
/// was just set to changes nothing, on the inputs where a write reads
/// back.
pub proof fn law_write_idempotent(contents: Seq<char>, table: Seq<char>, key: Seq<char>, value: Seq<char>)
    requires
        clean_lines(split_lines(contents)),
        one_line(table),
        writable_key(key),
        writable_value(value),
        bracket_safe(key, value),
    ensures
        toml_with_key(toml_with_key(contents, table, key, value), table, key, value) == toml_with_key(
            contents,
            table,
            key,
            value,
        ),
{
    let header = crate::configedit::header_of(table);
    let lines = split_lines(contents);
    lemma_header_findable(header, table);
    lemma_edited_clean(lines, header, key, value);
    let out = edited_lines(lines, header, key, value);
    lemma_split_join(out);
    lemma_read_after_write_lines(lines, header, key, value);
    lemma_write_of_read(out, header, key, value);
}

/// The table and assignment an insertion under an existing header
/// leaves: the section grows by the new line, which is its first
/// assignment of the key.
proof fn lemma_inserted_line(lines: Seq<Seq<char>>, header: Seq<char>, key: Seq<char>, value: Seq<char>)
    requires
        findable_header(header),
        findable_key(key),
        clean_line(value),
        table_range(lines, header) is Some,
        ({
            let (s, e) = table_range(lines, header)->0;
            key_line_in(lines, key, s, e) is None
        }),
    ensures
        ({
            let (s, e) = table_range(lines, header)->0;
            let out = edited_lines(lines, header, key, value);
            &&& out == lines.insert(s + 1, key_line(key, value))
            &&& table_range(out, header) == Some((s, e + 1))
            &&& key_line_in(out, key, s, e + 1) == Some(s + 1)
            &&& 0 <= s < lines.len()
        }),
{
    let (s, e) = table_range(lines, header)->0;
    let kl = key_line(key, value);
    lemma_key_line_shape(key, value);
    lemma_first_index(lines, trims_to(header));
    let tail = lines.skip(s + 1);
    lemma_first_index(tail, header_fn());
    let out = lines.insert(s + 1, kl);
    assert(edited_lines(lines, header, key, value) == out);
    assert forall|j: int| 0 <= j <= s implies #[trigger] out[j] == lines[j] by {}
    assert forall|j: int| 0 <= j < s implies !(trims_to(header))(#[trigger] out[j]) by {}
    lemma_first_index_is(out, trims_to(header), s);
    let otail = out.skip(s + 1);
    assert(otail =~= seq![kl] + tail);
    assert(!(header_fn())(otail[0]));
    match first_index(tail, header_fn()) {
        Some(off) => {
            assert forall|j: int| 0 <= j < off + 1 implies !(header_fn())(#[trigger] otail[j]) by {
                if j > 0 {
                    assert(otail[j] == tail[j - 1]);
                }
            }
            assert(otail[off + 1] == tail[off]);
            lemma_first_index_is(otail, header_fn(), off + 1);
        },
        None => {
            assert forall|j: int| 0 <= j < otail.len() implies !(header_fn())(#[trigger] otail[j]) by {
                if j > 0 {
                    assert(otail[j] == tail[j - 1]);
                }
            }
            lemma_first_index_is(otail, header_fn(), otail.len() as int);
        },
    }
    let obody = out.subrange(s + 1, e + 1);
    assert(obody[0] == kl);
    lemma_first_index_is(obody, key_line_fn(key), 0);
}

/// Removing a key just added under an existing table gives back the
/// file as it was (normalised to one newline per line), whatever value
/// without a line break or a closing carriage return was added (empty,
/// with `#`, with surrounding spaces or with a carriage return inside
/// too): when the file's lines, once split, end in no carriage return
/// (CRLF endings included), the table exists and had no such key, and the
/// key, quoted where it must be, stays on one line without a quote of
/// its own (`=` and `[` allowed).
pub proof fn law_remove_undoes_add(contents: Seq<char>, table: Seq<char>, key: Seq<char>, value: Seq<char>)
    requires
        clean_lines(split_lines(contents)),
        one_line(table),
        findable_key(key),
        clean_line(value),
        crate::configedit::toml_has_table(contents, table),
        toml_key_value(contents, table, key) is None,
    ensures
        crate::configedit::toml_without_key(toml_with_key(contents, table, key, value), table, key)
            == join_lines(split_lines(contents)),
{
    let header = crate::configedit::header_of(table);
    let lines = split_lines(contents);
    lemma_header_findable(header, table);
    let (s, e) = table_range(lines, header)->0;
    // The table holds no assignment of the key: one would carry a value.
    if key_line_in(lines, key, s, e) is Some {
        let i = key_line_in(lines, key, s, e)->0;
        lemma_first_index(lines.subrange(s + 1, e), key_line_fn(key));
        lemma_first_index(lines, trims_to(header));
        lemma_first_index(lines.skip(s + 1), header_fn());
        lemma_key_line_has_eq(lines.subrange(s + 1, e)[i - s - 1], key);
        assert(lines[i] == lines.subrange(s + 1, e)[i - s - 1]);
        lemma_first_index(lines[i], is_char('='));
        assert(value_span(lines[i]) is Some);
    }
    lemma_inserted_line(lines, header, key, value);
    lemma_key_line_shape(key, value);
    let out = edited_lines(lines, header, key, value);
    assert forall|j: int| 0 <= j < out.len() implies clean_line(#[trigger] out[j]) by {
        if j < s + 1 {
            assert(out[j] == lines[j]);
        } else if j > s + 1 {
            assert(out[j] == lines[j - 1]);
        } else {
            assert(out[j] == key_line(key, value));
        }
    }
    lemma_split_join(out);
    assert(crate::configedit::removed_key_lines(out, header, key) == out.remove(s + 1));
    assert(out.remove(s + 1) =~= lines);
}

/// Two edits of one key differ only in the line at the site.
proof fn lemma_edits_differ_at_site(lines: Seq<Seq<char>>, header: Seq<char>, key: Seq<char>, v1: Seq<char>, v2: Seq<char>)
    requires
        findable_header(header),
        writable_key(key),
        writable_value(v1),
        bracket_safe(key, v1),
    ensures
        edited_lines(lines, header, key, v2) == edited_lines(lines, header, key, v1).update(
            write_site(lines, header, key).2,
            written_line(lines, header, key, v2),
        ),
{
    lemma_read_after_write_lines(lines, header, key, v1);
    let o1 = edited_lines(lines, header, key, v1);
    let o2 = edited_lines(lines, header, key, v2);
    let i = write_site(lines, header, key).2;
    let w2 = written_line(lines, header, key, v2);
    lemma_first_index(lines, trims_to(header));
    match table_range(lines, header) {
        Some((s, e)) => match key_line_in(lines, key, s, e) {
            Some(k) => {
                lemma_first_index(lines.subrange(s + 1, e), key_line_fn(key));
                lemma_first_index(lines.skip(s + 1), header_fn());
                assert(0 <= k < lines.len());
                assert(o2 =~= o1.update(i, w2));
            },
            None => {
                assert(o2 =~= o1.update(i, w2));
            },
        },
        None => {
            assert(o2 =~= o1.update(i, w2));
        },
    }
}

/// Replacing the value of the line an edit wrote gives the line a
/// second edit would have written.
proof fn lemma_rewrite_written(lines: Seq<Seq<char>>, header: Seq<char>, key: Seq<char>, v1: Seq<char>, v2: Seq<char>)
    requires
        findable_header(header),
        writable_key(key),
        writable_value(v1),
    ensures
        replace_value(written_line(lines, header, key, v1), v2) == written_line(lines, header, key, v2),
{
    lemma_fresh_key_line(key, v1);
    match table_range(lines, header) {
        Some((s, e)) => match key_line_in(lines, key, s, e) {
            Some(i) => {
                let old_line = lines[i];
                lemma_first_index(lines, trims_to(header));
                lemma_first_index(lines.subrange(s + 1, e), key_line_fn(key));
                lemma_first_index(lines.skip(s + 1), header_fn());
                assert(old_line == lines.subrange(s + 1, e)[i - s - 1]);
                lemma_key_line_has_eq(old_line, key);
                lemma_first_index(old_line, is_char('='));
                assert(value_span(old_line) is Some);
                lemma_replaced_value(old_line, v1);
                lemma_value_span_shape(old_line);
                let (a, b) = value_span(old_line)->0;
                let n1 = replace_value(old_line, v1);
                assert(n1.take(a) =~= old_line.take(a));
                assert(n1.skip(a + v1.len()) =~= old_line.skip(b));
            },
            None => {
                let tk = toml_key(key);
                let kl = key_line(key, v1);
                assert(kl.take(tk.len() + 3int) =~= tk + seq![' ', '=', ' ']);
                assert(kl.skip(tk.len() + 3int + v1.len()) =~= Seq::<char>::empty());
                assert(key_line(key, v2) =~= kl.take(tk.len() + 3int) + v2 + kl.skip(tk.len() + 3int + v1.len()));
            },
        },
        None => {
            let tk = toml_key(key);
            let kl = key_line(key, v1);
            assert(kl.take(tk.len() + 3int) =~= tk + seq![' ', '=', ' ']);
            assert(kl.skip(tk.len() + 3int + v1.len()) =~= Seq::<char>::empty());
            assert(key_line(key, v2) =~= kl.take(tk.len() + 3int) + v2 + kl.skip(tk.len() + 3int + v1.len()));
        },
    }
}

/// Last write wins: setting `key` under `[table]` to `v1` and then to
/// `v2` gives the file setting it to `v2` alone, whatever `v2` is, on
/// the inputs where the first write reads back.
pub proof fn law_last_write_wins(contents: Seq<char>, table: Seq<char>, key: Seq<char>, v1: Seq<char>, v2: Seq<char>)
    requires
        clean_lines(split_lines(contents)),
        one_line(table),
        writable_key(key),
        writable_value(v1),
        bracket_safe(key, v1),
    ensures
        toml_with_key(toml_with_key(contents, table, key, v1), table, key, v2) == toml_with_key(
            contents,
            table,
            key,
            v2,
        ),
{
    let header = crate::configedit::header_of(table);
    let lines = split_lines(contents);
    lemma_header_findable(header, table);
    lemma_edited_clean(lines, header, key, v1);
    let out = edited_lines(lines, header, key, v1);
    lemma_split_join(out);
    lemma_read_after_write_lines(lines, header, key, v1);
    let (s, e, i) = write_site(lines, header, key);
    lemma_rewrite_written(lines, header, key, v1, v2);
    assert(edited_lines(out, header, key, v2) == out.update(i, replace_value(out[i], v2)));
    lemma_edits_differ_at_site(lines, header, key, v1, v2);
}

// ---------------------------------------------------------------
// Edits of one key leave every other key's value alone
// ---------------------------------------------------------------

/// A header that reads as a table header: `[`, then `]` last.
pub open spec fn header_shaped(header: Seq<char>) -> bool {
    header.len() > 0 && header[0] == '[' && header[header.len() - 1] == ']'
}

/// Inserting a line that does not match leaves the first match where
/// it was, one further along if it came at or after the insertion.
proof fn lemma_first_index_insert(a: Seq<Seq<char>>, j: int, x: Seq<char>, p: spec_fn(Seq<char>) -> bool)
    requires
        0 <= j <= a.len(),
        !p(x),
    ensures
        first_index(a.insert(j, x), p) == (match first_index(a, p) {
            Some(k) => Some(if k < j { k } else { k + 1 }),
            None => None::<int>,
        }),
{
    let b = a.insert(j, x);
    lemma_first_index(a, p);
    assert forall|m: int| 0 <= m < j implies #[trigger] b[m] == a[m] by {}
    assert forall|m: int| j < m < b.len() implies #[trigger] b[m] == a[m - 1] by {}
    match first_index(a, p) {
        Some(k) => {
            let kb = if k < j { k } else { k + 1 };
            assert forall|m: int| 0 <= m < kb implies !p(#[trigger] b[m]) by {
                if m < j {
                    assert(b[m] == a[m]);
                } else if m > j {
                    assert(b[m] == a[m - 1]);
                }
            }
            assert(b[kb] == a[k]);
            lemma_first_index_is(b, p, kb);
        },
        None => {
            assert forall|m: int| 0 <= m < b.len() implies !p(#[trigger] b[m]) by {
                if m < j {
                    assert(b[m] == a[m]);
                } else if m > j {
                    assert(b[m] == a[m - 1]);
                }
            }
            lemma_first_index_is(b, p, b.len() as int);
        },
    }
}

/// Where a table sits: its header line is the first that trims to the
/// header, and its body runs to the next table header or the end.
proof fn lemma_table_range(lines: Seq<Seq<char>>, header: Seq<char>)
    ensures
        match table_range(lines, header) {
            Some((s, e)) => {
                &&& 0 <= s < e <= lines.len()
                &&& trim(lines[s]) == header
                &&& forall|x: int| 0 <= x < s ==> trim(#[trigger] lines[x]) != header
                &&& forall|x: int| s < x < e ==> !is_table_header(#[trigger] lines[x])
                &&& e < lines.len() ==> is_table_header(lines[e])
            },
            None => forall|x: int| 0 <= x < lines.len() ==> trim(#[trigger] lines[x]) != header,
        },
{
    lemma_first_index(lines, trims_to(header));
    match first_index(lines, trims_to(header)) {
        Some(s) => {
            assert forall|x: int| 0 <= x < s implies trim(#[trigger] lines[x]) != header by {
                assert(!(trims_to(header))(lines[x]));
            }
            let t = lines.skip(s + 1);
            lemma_first_index(t, header_fn());
            let e = section_end(lines, s);
            assert forall|x: int| s < x < e implies !is_table_header(#[trigger] lines[x]) by {
                assert(lines[x] == t[x - s - 1]);
                assert(!(header_fn())(t[x - s - 1]));
            }
            if e < lines.len() {
                assert(lines[e] == t[e - s - 1]);
            }
        },
        None => {
            assert forall|x: int| 0 <= x < lines.len() implies trim(#[trigger] lines[x]) != header by {
                assert(!(trims_to(header))(lines[x]));
            }
        },
    }
}

/// Where a key's line sits in a body: the first assigning line.
proof fn lemma_key_line_in(lines: Seq<Seq<char>>, key: Seq<char>, s: int, e: int)
    requires
        0 <= s < e <= lines.len(),
    ensures
        match key_line_in(lines, key, s, e) {
            Some(i) => s < i < e && is_key_line(lines[i], key) && forall|y: int| s < y < i ==> !is_key_line(#[trigger] lines[y], key),
            None => forall|y: int| s < y < e ==> !is_key_line(#[trigger] lines[y], key),
        },
{
    let body = lines.subrange(s + 1, e);
    lemma_first_index(body, key_line_fn(key));
    match first_index(body, key_line_fn(key)) {
        Some(o) => {
            assert(lines[s + 1 + o] == body[o]);
            assert forall|y: int| s < y < s + 1 + o implies !is_key_line(#[trigger] lines[y], key) by {
                assert(lines[y] == body[y - s - 1]);
                assert(!(key_line_fn(key))(body[y - s - 1]));
            }
        },
        None => {
            assert forall|y: int| s < y < e implies !is_key_line(#[trigger] lines[y], key) by {
                assert(lines[y] == body[y - s - 1]);
                assert(!(key_line_fn(key))(body[y - s - 1]));
            }
        },
    }
}

/// Changing one line that is no table header and does not trim to the
/// header, before and after, leaves the key's value alone when the line
/// assigns the key neither before nor after, or lies outside the table.
proof fn lemma_read_update(a: Seq<Seq<char>>, b: Seq<Seq<char>>, i: int, header: Seq<char>, key: Seq<char>)
    requires
        a.len() == b.len(),
        0 <= i < a.len(),
        forall|j: int| 0 <= j < a.len() && j != i ==> #[trigger] a[j] == b[j],
        trim(a[i]) != header,
        trim(b[i]) != header,
        !is_table_header(a[i]),
        !is_table_header(b[i]),
        (!is_key_line(a[i], key) && !is_key_line(b[i], key)) || table_range(a, header) is None || (table_range(
            a,
            header,
        ) matches Some((s, e)) && !(s < i < e)),
    ensures
        key_value_in(b, header, key) == key_value_in(a, header, key),
{
    lemma_first_index_update(a, b, trims_to(header), i);
    lemma_table_range(a, header);
    match table_range(a, header) {
        None => {},
        Some((s, e)) => {
            assert(s != i);
            let ta = a.skip(s + 1);
            let tb = b.skip(s + 1);
            if i > s {
                assert forall|j: int| 0 <= j < ta.len() && j != i - s - 1 implies #[trigger] ta[j] == tb[j] by {
                    assert(ta[j] == a[s + 1 + j]);
                    assert(tb[j] == b[s + 1 + j]);
                }
                assert(ta[i - s - 1] == a[i]);
                assert(tb[i - s - 1] == b[i]);
                lemma_first_index_update(ta, tb, header_fn(), i - s - 1);
            } else {
                assert(ta =~= tb) by {
                    assert forall|j: int| 0 <= j < ta.len() implies ta[j] == tb[j] by {
                        assert(a[s + 1 + j] == b[s + 1 + j]);
                    }
                }
            }
            assert(section_end(b, s) == e);
            assert(table_range(b, header) == Some((s, e)));
            let ba = a.subrange(s + 1, e);
            let bb = b.subrange(s + 1, e);
            if s < i < e {
                assert forall|j: int| 0 <= j < ba.len() && j != i - s - 1 implies #[trigger] ba[j] == bb[j] by {
                    assert(ba[j] == a[s + 1 + j]);
                    assert(bb[j] == b[s + 1 + j]);
                }
                assert(ba[i - s - 1] == a[i]);
                assert(bb[i - s - 1] == b[i]);
                lemma_first_index_update(ba, bb, key_line_fn(key), i - s - 1);
            } else {
                assert(ba =~= bb) by {
                    assert forall|j: int| 0 <= j < ba.len() implies ba[j] == bb[j] by {
                        assert(a[s + 1 + j] == b[s + 1 + j]);
                    }
                }
            }
            assert(key_line_in(b, key, s, e) == key_line_in(a, key, s, e));
            lemma_key_line_in(a, key, s, e);
            match key_line_in(a, key, s, e) {
                Some(k) => {
                    assert(k != i);
                    assert(b[k] == a[k]);
                },
                None => {},
            }
        },
    }
}

/// Inserting a line that is no table header and does not trim to the
/// header leaves the key's value alone when the line does not assign
/// the key, or goes in outside the table's body.
proof fn lemma_read_insert(a: Seq<Seq<char>>, j: int, x: Seq<char>, header: Seq<char>, key: Seq<char>)
    requires
        0 <= j <= a.len(),
        trim(x) != header,
        !is_table_header(x),
        !is_key_line(x, key) || table_range(a, header) is None || (table_range(a, header) matches Some((s, e)) && (
        j <= s || j > e)),
    ensures
        key_value_in(a.insert(j, x), header, key) == key_value_in(a, header, key),
{
    let b = a.insert(j, x);
    lemma_first_index_insert(a, j, x, trims_to(header));
    lemma_table_range(a, header);
    assert forall|m: int| 0 <= m < j implies #[trigger] b[m] == a[m] by {}
    assert forall|m: int| j < m < b.len() implies #[trigger] b[m] == a[m - 1] by {}
    match first_index(a, trims_to(header)) {
        None => {},
        Some(s) => {
            let e = section_end(a, s);
            let ta = a.skip(s + 1);
            lemma_first_index(ta, header_fn());
            lemma_key_line_in(a, key, s, e);
            if j <= s {
                let sb = s + 1;
                assert(b.skip(sb + 1) =~= ta);
                assert(section_end(b, sb) == e + 1);
                assert(table_range(b, header) == Some((sb, e + 1)));
                assert(b.subrange(sb + 1, e + 1) =~= a.subrange(s + 1, e));
                match key_line_in(a, key, s, e) {
                    Some(k) => {
                        assert(key_line_in(b, key, sb, e + 1) == Some(k + 1));
                        assert(b[k + 1] == a[k]);
                    },
                    None => {
                        assert(key_line_in(b, key, sb, e + 1) is None);
                    },
                }
            } else {
                assert(b.skip(s + 1) =~= ta.insert(j - s - 1, x));
                lemma_first_index_insert(ta, j - s - 1, x, header_fn());
                assert(table_range(b, header) == Some((s, section_end(b, s))));
                if j <= e {
                    assert(section_end(b, s) == e + 1);
                    assert(!is_key_line(x, key));
                    let ba = a.subrange(s + 1, e);
                    assert(b.subrange(s + 1, e + 1) =~= ba.insert(j - s - 1, x));
                    lemma_first_index_insert(ba, j - s - 1, x, key_line_fn(key));
                    match key_line_in(a, key, s, e) {
                        Some(k) => {
                            if k < j {
                                assert(key_line_in(b, key, s, e + 1) == Some(k));
                                assert(b[k] == a[k]);
                            } else {
                                assert(key_line_in(b, key, s, e + 1) == Some(k + 1));
                                assert(b[k + 1] == a[k]);
                            }
                        },
                        None => {
                            assert(key_line_in(b, key, s, e + 1) is None);
                        },
                    }
                } else {
                    assert(section_end(b, s) == e);
                    assert(b.subrange(s + 1, e) =~= a.subrange(s + 1, e));
                    lemma_key_line_in(a, key, s, e);
                    match key_line_in(a, key, s, e) {
                        Some(k) => {
                            assert(key_line_in(b, key, s, e) == Some(k));
                            assert(b[k] == a[k]);
                        },
                        None => {
                            assert(key_line_in(b, key, s, e) is None);
                        },
                    }
                }
            }
        },
    }
}

/// Appending a table header other than this one leaves the key's value
/// alone.
proof fn lemma_read_push_header(a: Seq<Seq<char>>, x: Seq<char>, header: Seq<char>, key: Seq<char>)
    requires
        is_table_header(x),
        trim(x) != header,
    ensures
        key_value_in(a.push(x), header, key) == key_value_in(a, header, key),
{
    let b = a.push(x);
    assert(b =~= a.insert(a.len() as int, x));
    lemma_first_index_insert(a, a.len() as int, x, trims_to(header));
    lemma_table_range(a, header);
    match first_index(a, trims_to(header)) {
        None => {},
        Some(s) => {
            let e = section_end(a, s);
            let ta = a.skip(s + 1);
            let tb = b.skip(s + 1);
            lemma_first_index(ta, header_fn());
            lemma_key_line_in(a, key, s, e);
            assert(tb =~= ta.push(x));
            match first_index(ta, header_fn()) {
                Some(o) => {
                    assert forall|m: int| 0 <= m < o implies !(header_fn())(#[trigger] tb[m]) by {
                        assert(tb[m] == ta[m]);
                    }
                    assert(tb[o] == ta[o]);
                    lemma_first_index_is(tb, header_fn(), o);
                },
                None => {
                    assert forall|m: int| 0 <= m < ta.len() implies !(header_fn())(#[trigger] tb[m]) by {
                        assert(tb[m] == ta[m]);
                    }
                    assert(tb[ta.len() as int] == x);
                    lemma_first_index_is(tb, header_fn(), ta.len() as int);
                },
            }
            assert(section_end(b, s) == e);
            assert(table_range(b, header) == Some((s, e)));
            assert(b.subrange(s + 1, e) =~= a.subrange(s + 1, e));
            match key_line_in(a, key, s, e) {
                Some(k) => {
                    assert(key_line_in(b, key, s, e) == Some(k));
                    assert(b[k] == a[k]);
                },
                None => {
                    assert(key_line_in(b, key, s, e) is None);
                },
            }
        },
    }
}

/// Appending a line after a closing header of another table leaves the
/// key's value alone, whatever the line assigns.
proof fn lemma_read_push_after_header(a: Seq<Seq<char>>, x: Seq<char>, header: Seq<char>, key: Seq<char>)
    requires
        a.len() > 0,
        is_table_header(a.last()),
        trim(a.last()) != header,
        trim(x) != header,
    ensures
        key_value_in(a.push(x), header, key) == key_value_in(a, header, key),
{
    let b = a.push(x);
    assert(b =~= a.insert(a.len() as int, x));
    lemma_first_index_insert(a, a.len() as int, x, trims_to(header));
    lemma_table_range(a, header);
    match first_index(a, trims_to(header)) {
        None => {},
        Some(s) => {
            let e = section_end(a, s);
            let ta = a.skip(s + 1);
            let tb = b.skip(s + 1);
            assert(s != a.len() - 1);
            lemma_first_index(ta, header_fn());
            lemma_key_line_in(a, key, s, e);
            assert(tb =~= ta.push(x));
            assert(ta[ta.len() - 1] == a.last());
            match first_index(ta, header_fn()) {
                Some(o) => {
                    assert forall|m: int| 0 <= m < o implies !(header_fn())(#[trigger] tb[m]) by {
                        assert(tb[m] == ta[m]);
                    }
                    assert(tb[o] == ta[o]);
                    lemma_first_index_is(tb, header_fn(), o);
                },
                None => {
                    assert(!(header_fn())(ta[ta.len() - 1]));
                },
            }
            assert(section_end(b, s) == e);
            assert(table_range(b, header) == Some((s, e)));
            assert(b.subrange(s + 1, e) =~= a.subrange(s + 1, e));
            match key_line_in(a, key, s, e) {
                Some(k) => {
                    assert(key_line_in(b, key, s, e) == Some(k));
                    assert(b[k] == a[k]);
                },
                None => {
                    assert(key_line_in(b, key, s, e) is None);
                },
            }
        },
    }
}

/// The line-level frame: setting `k2` under `h2` leaves what `k1` reads
/// under `h1` alone, for any other table or key.
#[verifier::rlimit(40)]
proof fn lemma_edit_frame(
    lines: Seq<Seq<char>>,
    h1: Seq<char>,
    k1: Seq<char>,
    h2: Seq<char>,
    k2: Seq<char>,
    value: Seq<char>,
)
    requires
        header_shaped(h1),
        findable_header(h2),
        header_shaped(h2),
        writable_key(k2),
        writable_value(value),
        bracket_safe(k2, value),
        h1 != h2 || k1 != k2,
    ensures
        key_value_in(edited_lines(lines, h2, k2, value), h1, k1) == key_value_in(lines, h1, k1),
{
    let out = edited_lines(lines, h2, k2, value);
    lemma_fresh_key_line(k2, value);
    lemma_table_range(lines, h1);
    lemma_table_range(lines, h2);
    match table_range(lines, h2) {
        Some((s2, e2)) => {
            lemma_key_line_in(lines, k2, s2, e2);
            match key_line_in(lines, k2, s2, e2) {
                Some(i) => {
                    let old_line = lines[i];
                    lemma_key_line_has_eq(old_line, k2);
                    lemma_first_index(old_line, is_char('='));
                    lemma_value_span_shape(old_line);
                    lemma_replaced_value(old_line, value);
                    let n = replace_value(old_line, value);
                    let eq = first_index(old_line, is_char('='))->0;
                    assert(n.take(eq + 1) =~= old_line.take(eq + 1)) by {
                        assert forall|j: int| 0 <= j < eq + 1 implies n[j] == old_line[j] by {}
                    }
                    if k2.len() > 0 && k2[0] == '[' {
                        lemma_rewrite_not_header(old_line, value);
                    }
                    lemma_key_line_prefix(old_line, n, k2);
                    assert(out == lines.update(i, n));
                    assert(trim(old_line) != h1);
                    assert(trim(n) != h1);
                    if h1 == h2 {
                        lemma_read_update(lines, out, i, h1, k1);
                    } else {
                        match table_range(lines, h1) {
                            Some((s1, e1)) => {
                                assert(s1 != s2);
                                if s1 < s2 {
                                    if e1 > s2 {
                                        assert(!is_table_header(lines[s2]));
                                    }
                                } else {
                                    if s1 < e2 {
                                        assert(!is_table_header(lines[s1]));
                                    }
                                }
                            },
                            None => {},
                        }
                        lemma_read_update(lines, out, i, h1, k1);
                    }
                },
                None => {
                    lemma_inserted_line(lines, h2, k2, value);
                    assert(out == lines.insert(s2 + 1, key_line(k2, value)));
                    assert(trim(key_line(k2, value)) != h1);
                    if h1 != h2 {
                        match table_range(lines, h1) {
                            Some((s1, e1)) => {
                                assert(s1 != s2);
                                if s1 < s2 {
                                    if e1 > s2 {
                                        assert(!is_table_header(lines[s2]));
                                    }
                                }
                            },
                            None => {},
                        }
                    }
                    lemma_read_insert(lines, s2 + 1, key_line(k2, value), h1, k1);
                },
            }
        },
        None => {
            let base = if lines.len() > 0 && lines.last().len() > 0 {
                lines.push(seq![])
            } else {
                lines
            };
            assert(out == base.push(h2).push(key_line(k2, value)));
            let empty = Seq::<char>::empty();
            assert(trim(empty) =~= empty) by {
                crate::text::lemma_trimmed_end_len(trim_start(empty));
            }
            if lines.len() > 0 && lines.last().len() > 0 {
                assert(lines.push(empty) =~= lines.insert(lines.len() as int, empty));
                assert(!is_key_line(empty, k1)) by {
                    assert(trim_start(empty) =~= empty);
                    lemma_leading_ws(split_key(empty).1);
                }
                lemma_read_insert(lines, lines.len() as int, empty, h1, k1);
            }
            assert(key_value_in(base, h1, k1) == key_value_in(lines, h1, k1));
            lemma_table_range(base, h1);
            assert(trim(h2) == h2);
            if h1 != h2 {
                lemma_read_push_header(base, h2, h1, k1);
                let b2 = base.push(h2);
                assert(b2.last() == h2);
                lemma_read_push_after_header(b2, key_line(k2, value), h1, k1);
            } else {
                // The table is new: its only line assigns the other key.
                assert(key_value_in(lines, h1, k1) is None);
                let p = base.len() as int;
                assert forall|x: int| 0 <= x < p implies !(trims_to(h1))(#[trigger] out[x]) by {
                    assert(out[x] == base[x]);
                }
                assert(out[p] == h2);
                lemma_first_index_is(out, trims_to(h1), p);
                let t = out.skip(p + 1);
                assert(t =~= seq![key_line(k2, value)]);
                lemma_first_index_is(t, header_fn(), 1);
                assert(table_range(out, h1) == Some((p, p + 2)));
                let body = out.subrange(p + 1, p + 2);
                assert(body =~= seq![key_line(k2, value)]);
                assert(!is_key_line(key_line(k2, value), k1));
                lemma_first_index_is(body, key_line_fn(k1), 1);
            }
        },
    }
}

/// Setting one key leaves every other key's value as it read: after
/// `key2` is set under `[table2]`, `key1` under `[table1]` reads what it
/// read before, for any other table or any other key of the same table,
/// and the file's lines stay clean. This holds on the inputs where the
/// write itself reads back.
pub proof fn law_edit_keeps_other_keys(
    contents: Seq<char>,
    table1: Seq<char>,
    key1: Seq<char>,
    table2: Seq<char>,
    key2: Seq<char>,
    value: Seq<char>,
)
    requires
        clean_lines(split_lines(contents)),
        one_line(table1),
        one_line(table2),
        writable_key(key2),
        writable_value(value),
        bracket_safe(key2, value),
        table1 != table2 || key1 != key2,
    ensures
        toml_key_value(toml_with_key(contents, table2, key2, value), table1, key1) == toml_key_value(
            contents,
            table1,
            key1,
        ),
        clean_lines(split_lines(toml_with_key(contents, table2, key2, value))),
{
    let h1 = crate::configedit::header_of(table1);
    let h2 = crate::configedit::header_of(table2);
    let lines = split_lines(contents);
    lemma_header_findable(h1, table1);
    lemma_header_findable(h2, table2);
    if table1 != table2 {
        if h1 == h2 {
            assert(table1 =~= h1.subrange(1, h1.len() - 1));
            assert(table2 =~= h2.subrange(1, h2.len() - 1));
        }
    }
    assert(clean_line(value)) by {
        assert(is_ws('\r'));
    }
    lemma_edited_clean(lines, h2, key2, value);
    let out = edited_lines(lines, h2, key2, value);
    lemma_split_join(out);
    lemma_edit_frame(lines, h1, key1, h2, key2, value);
}

} // verus!
