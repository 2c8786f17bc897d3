//! The text of an account's TOML file from wizard or form answers: a
//! full template for a brand-new account, surgical per-key edits for an
//! existing one so hand-written content survives, and the
//! `[[identity]]` blocks the settings form owns. Reading, writing and
//! removing the files is the caller's I/O.
use vstd::prelude::*;

use crate::account_wizard::AccountAnswers;
use crate::config::Identity;
use crate::configedit::{blocks_view, set_array_tables, toml_set_array_tables, toml_with_key, with_key};
use crate::configedit::toml_key_value;
use crate::text::{
    append_chars, append_str, chars_of, clean_lines, is_ws, split_lines, join_with, join_with_of, lemma_lines_view_push,
    lines_view, opt_text, str_eq, string_of, texts_of,
};

verus! {

broadcast use vstd::string::group_string_axioms;

// ---------------------------------------------------------------
// TOML strings
// ---------------------------------------------------------------

/// The uppercase hexadecimal digit for `d` in `0..16`.
pub open spec fn hex_char(d: int) -> char {
    if d < 10 {
        crate::text::digit_char(d)
    } else if d == 10 {
        'A'
    } else if d == 11 {
        'B'
    } else if d == 12 {
        'C'
    } else if d == 13 {
        'D'
    } else if d == 14 {
        'E'
    } else {
        'F'
    }
}

/// How one character is written inside a TOML basic string: the
/// short escapes where TOML has one, `\u00XX` for the other control
/// characters, and the character itself otherwise.
pub open spec fn escape_char(c: char) -> Seq<char> {
    if c == '\u{8}' {
        seq!['\\', 'b']
    } else if c == '\t' {
        seq!['\\', 't']
    } else if c == '\n' {
        seq!['\\', 'n']
    } else if c == '\u{c}' {
        seq!['\\', 'f']
    } else if c == '\r' {
        seq!['\\', 'r']
    } else if c == '"' {
        seq!['\\', '"']
    } else if c == '\\' {
        seq!['\\', '\\']
    } else if (c as u32) < 0x20 || c == '\u{7f}' {
        seq!['\\', 'u', '0', '0', hex_char((c as u32) as int / 16), hex_char((c as u32) as int % 16)]
    } else {
        seq![c]
    }
}

/// The body of a TOML basic string holding `s`.
pub open spec fn toml_escape(s: Seq<char>) -> Seq<char>
    decreases s.len(),
{
    if s.len() == 0 {
        seq![]
    } else {
        toml_escape(s.drop_last()) + escape_char(s.last())
    }
}

/// `s` as a TOML basic string.
pub open spec fn toml_quoted(s: Seq<char>) -> Seq<char> {
    "\""@ + toml_escape(s) + "\""@
}

fn hex_of(d: u32) -> (c: char)
    requires
        d < 16,
    ensures
        c == hex_char(d as int),
{
    match d {
        0 => '0',
        1 => '1',
        2 => '2',
        3 => '3',
        4 => '4',
        5 => '5',
        6 => '6',
        7 => '7',
        8 => '8',
        9 => '9',
        10 => 'A',
        11 => 'B',
        12 => 'C',
        13 => 'D',
        14 => 'E',
        _ => 'F',
    }
}

fn push_escaped(out: &mut Vec<char>, c: char)
    ensures
        final(out)@ == old(out)@ + escape_char(c),
{
    let ghost start = out@;
    if c == '\u{8}' {
        out.push('\\');
        out.push('b');
    } else if c == '\t' {
        out.push('\\');
        out.push('t');
    } else if c == '\n' {
        out.push('\\');
        out.push('n');
    } else if c == '\u{c}' {
        out.push('\\');
        out.push('f');
    } else if c == '\r' {
        out.push('\\');
        out.push('r');
    } else if c == '"' {
        out.push('\\');
        out.push('"');
    } else if c == '\\' {
        out.push('\\');
        out.push('\\');
    } else if (c as u32) < 0x20 || c == '\u{7f}' {
        let code: u32 = c as u32;
        out.push('\\');
        out.push('u');
        out.push('0');
        out.push('0');
        out.push(hex_of(code / 16));
        out.push(hex_of(code % 16));
    } else {
        out.push(c);
    }
    assert(out@ =~= start + escape_char(c));
}

/// `value` as a TOML basic string.
pub fn quoted(value: &str) -> (r: String)
    ensures
        r@ == toml_quoted(value@),
{
    let v = chars_of(value);
    let mut out: Vec<char> = Vec::new();
    append_str(&mut out, "\"");
    let mut i: usize = 0;
    while i < v.len()
        invariant
            i <= v.len(),
            out@ == "\""@ + toml_escape(v@.take(i as int)),
        decreases v.len() - i,
    {
        assert(v@.take(i + 1).drop_last() =~= v@.take(i as int));
        push_escaped(&mut out, v[i]);
        i = i + 1;
    }
    assert(v@.take(v.len() as int) =~= v@);
    append_str(&mut out, "\"");
    string_of(&out)
}

/// A TOML array of strings: `["a", "b"]`.
pub open spec fn quoted_array_of(values: Seq<Seq<char>>) -> Seq<char> {
    "["@ + join_with(values.map_values(|v: Seq<char>| toml_quoted(v)), ", "@) + "]"@
}

/// `values` as a TOML array of strings.
pub fn quoted_array(values: &Vec<String>) -> (r: String)
    ensures
        r@ == quoted_array_of(texts_of(values@)),
{
    let ghost want = texts_of(values@).map_values(|v: Seq<char>| toml_quoted(v));
    let mut items: Vec<Vec<char>> = Vec::new();
    let mut i: usize = 0;
    while i < values.len()
        invariant
            i <= values.len(),
            want == texts_of(values@).map_values(|v: Seq<char>| toml_quoted(v)),
            lines_view(items@) =~= want.take(i as int),
        decreases values.len() - i,
    {
        let ghost before = items@;
        let item = chars_of(quoted(values[i].as_str()).as_str());
        items.push(item);
        proof {
            lemma_lines_view_push(before, items@[i as int]);
            assert(want.take(i + 1) =~= want.take(i as int).push(want[i as int]));
        }
        i = i + 1;
    }
    assert(want.take(values.len() as int) =~= want);
    let mut out: Vec<char> = Vec::new();
    append_str(&mut out, "[");
    let joined = join_with_of(&items, &chars_of(", "));
    append_chars(&mut out, &joined);
    append_str(&mut out, "]");
    string_of(&out)
}

// ---------------------------------------------------------------
// A fresh account file
// ---------------------------------------------------------------

/// The `password_cmd` line of the `[imap]` table, left out for an
/// account without one.
pub open spec fn password_line(password_cmd: Seq<char>) -> Seq<char> {
    if password_cmd.len() == 0 {
        Seq::empty()
    } else {
        "password_cmd = \""@ + password_cmd + "\"\n"@
    }
}

/// The identity's `name` line, left out without a from name.
pub open spec fn from_name_line(from_name: Seq<char>) -> Seq<char> {
    if from_name.len() == 0 {
        Seq::empty()
    } else {
        "name = \""@ + from_name + "\"\n"@
    }
}

/// The account file template with the given lines for the password
/// command and the identity's name.
pub open spec fn account_template(
    name: Seq<char>,
    address: Seq<char>,
    imap_host: Seq<char>,
    imap_user: Seq<char>,
    smtp_host: Seq<char>,
    password: Seq<char>,
    identity_name: Seq<char>,
) -> Seq<char> {
    "[account]\nname = \""@ + name + "\"\n\n[imap]\nhost = \""@ + imap_host + "\"\nuser = \""@
        + imap_user + "\"\n"@ + password + "\n[smtp]\nhost = \""@ + smtp_host
        + "\"\n\n[[identity]]\naddress = \""@ + address + "\"\n"@ + identity_name
        + "match = [\""@ + address + "\"]\n"@
}

/// The full file of a brand-new account.
pub open spec fn account_text(answers: AccountAnswers) -> Seq<char> {
    account_template(
        answers.name@,
        answers.address@,
        answers.imap_host@,
        answers.imap_user@,
        answers.smtp_host@,
        password_line(answers.password_cmd@),
        from_name_line(answers.from_name@),
    )
}

/// Fills the template given its two optional lines.
pub(crate) fn template_with(answers: &AccountAnswers, password: &Vec<char>, identity_name: &Vec<char>) -> (r: String)
    ensures
        r@ == account_template(
            answers.name@,
            answers.address@,
            answers.imap_host@,
            answers.imap_user@,
            answers.smtp_host@,
            password@,
            identity_name@,
        ),
{
    let mut out: Vec<char> = Vec::new();
    append_str(&mut out, "[account]\nname = \"");
    append_str(&mut out, answers.name.as_str());
    append_str(&mut out, "\"\n\n[imap]\nhost = \"");
    append_str(&mut out, answers.imap_host.as_str());
    append_str(&mut out, "\"\nuser = \"");
    append_str(&mut out, answers.imap_user.as_str());
    append_str(&mut out, "\"\n");
    append_chars(&mut out, password);
    append_str(&mut out, "\n[smtp]\nhost = \"");
    append_str(&mut out, answers.smtp_host.as_str());
    append_str(&mut out, "\"\n\n[[identity]]\naddress = \"");
    append_str(&mut out, answers.address.as_str());
    append_str(&mut out, "\"\n");
    append_chars(&mut out, identity_name);
    append_str(&mut out, "match = [\"");
    append_str(&mut out, answers.address.as_str());
    append_str(&mut out, "\"]\n");
    string_of(&out)
}

/// `key = "value"` and a newline, or nothing for an empty value.
fn optional_line(prefix: &str, value: &str) -> (r: Vec<char>)
    ensures
        value@.len() == 0 ==> r@ == Seq::<char>::empty(),
        value@.len() > 0 ==> r@ == prefix@ + value@ + "\"\n"@,
{
    let mut out: Vec<char> = Vec::new();
    let v = chars_of(value);
    if v.len() > 0 {
        append_str(&mut out, prefix);
        append_chars(&mut out, &v);
        append_str(&mut out, "\"\n");
    }
    out
}

/// The file of a brand-new account: the `[account]`, `[imap]` and
/// `[smtp]` tables and one identity matching the address; an empty
/// password command or from name leaves its line out.
pub fn account_toml(answers: &AccountAnswers) -> (r: String)
    ensures
        r@ == account_text(*answers),
{
    let password = optional_line("password_cmd = \"", answers.password_cmd.as_str());
    let identity_name = optional_line("name = \"", answers.from_name.as_str());
    template_with(answers, &password, &identity_name)
}

// ---------------------------------------------------------------
// Editing an existing file
// ---------------------------------------------------------------

/// One surgical edit: `key` under `[table]` set to `value` as a TOML
/// string, unless the value is empty, which leaves the text alone.
pub open spec fn edit_if_set(text: Seq<char>, table: Seq<char>, key: Seq<char>, value: Seq<char>) -> Seq<char> {
    if value.len() == 0 {
        text
    } else {
        toml_with_key(text, table, key, toml_quoted(value))
    }
}

/// An existing account file with the keys the edit form carries
/// rewritten in place: the account name, the IMAP host, user and
/// password command, and the SMTP host.
pub open spec fn edited_account_text(existing: Seq<char>, answers: AccountAnswers) -> Seq<char> {
    let text = edit_if_set(existing, "account"@, "name"@, answers.name@);
    let text = edit_if_set(text, "imap"@, "host"@, answers.imap_host@);
    let text = edit_if_set(text, "imap"@, "user"@, answers.imap_user@);
    let text = edit_if_set(text, "imap"@, "password_cmd"@, answers.password_cmd@);
    edit_if_set(text, "smtp"@, "host"@, answers.smtp_host@)
}

fn edited_if_set(text: String, table: &str, key: &str, value: &str) -> (r: String)
    ensures
        r@ == edit_if_set(text@, table@, key@, value@),
{
    if value.unicode_len() == 0 {
        return text;
    }
    let q = quoted(value);
    with_key(text.as_str(), table, key, q.as_str())
}

/// Rewrites only the account, IMAP and SMTP keys the edit form carries,
/// so every line the form does not know about is left exactly as the
/// user wrote it. An empty answer (an OAuth account's password
/// command) leaves the existing line alone.
pub fn edited_account_toml(existing: &str, answers: &AccountAnswers) -> (r: String)
    ensures
        r@ == edited_account_text(existing@, *answers),
{
    let text = existing.to_owned();
    let text = edited_if_set(text, "account", "name", answers.name.as_str());
    let text = edited_if_set(text, "imap", "host", answers.imap_host.as_str());
    let text = edited_if_set(text, "imap", "user", answers.imap_user.as_str());
    let text = edited_if_set(text, "imap", "password_cmd", answers.password_cmd.as_str());
    edited_if_set(text, "smtp", "host", answers.smtp_host.as_str())
}

// ---------------------------------------------------------------
// Identity blocks
// ---------------------------------------------------------------

/// `key = "value"` for a present, non-empty value; nothing otherwise.
pub open spec fn optional_entry(key: Seq<char>, value: Option<Seq<char>>) -> Seq<Seq<char>> {
    match value {
        Some(v) => if v.len() > 0 {
            seq![key + " = "@ + toml_quoted(v)]
        } else {
            seq![]
        },
        None => seq![],
    }
}

/// The lines of one `[[identity]]` block.
pub open spec fn identity_lines(identity: Identity) -> Seq<Seq<char>> {
    seq!["[[identity]]"@, "address = "@ + toml_quoted(identity.address@)] + optional_entry(
        "name"@,
        crate::text::opt_text(identity.name),
    ) + optional_entry("signature"@, crate::text::opt_text(identity.signature)) + optional_entry(
        "pgp_key"@,
        crate::text::opt_text(identity.pgp_key),
    ) + (if identity.pgp_sign {
        seq!["pgp_sign = true"@]
    } else {
        seq![]
    }) + (if identity.matches@.len() > 0 {
        seq!["match = "@ + quoted_array_of(texts_of(identity.matches@))]
    } else {
        seq![]
    })
}

/// Appends `key = "value"` to `block` when `value` is present and
/// non-empty.
pub fn push_optional(block: &mut Vec<String>, key: &str, value: &Option<String>)
    ensures
        texts_of(final(block)@) == texts_of(old(block)@) + optional_entry(
            key@,
            crate::text::opt_text(*value),
        ),
{
    match value {
        Some(v) => {
            if v.unicode_len() > 0 {
                let mut line = chars_of(key);
                append_str(&mut line, " = ");
                let q = quoted(v.as_str());
                append_str(&mut line, q.as_str());
                let ghost before = block@;
                block.push(string_of(&line));
                assert(texts_of(block@) =~= texts_of(before) + optional_entry(
                    key@,
                    crate::text::opt_text(*value),
                ));
            } else {
                assert(texts_of(block@) =~= texts_of(block@) + Seq::<Seq<char>>::empty());
            }
        },
        None => {
            assert(texts_of(block@) =~= texts_of(block@) + Seq::<Seq<char>>::empty());
        },
    }
}

fn push_line(block: &mut Vec<String>, line: String)
    ensures
        texts_of(final(block)@) == texts_of(old(block)@).push(line@),
{
    proof {
        crate::text::lemma_texts_of_push(block@, line);
    }
    block.push(line);
}

/// The `[[identity]]` block for `identity`: its address, then its
/// name, signature and key where set, `pgp_sign` when it signs, and its
/// match list when it has one.
pub fn render_identity(identity: &Identity) -> (r: Vec<String>)
    ensures
        texts_of(r@) == identity_lines(*identity),
{
    let mut block: Vec<String> = Vec::new();
    push_line(&mut block, "[[identity]]".to_owned());
    let mut address_line = chars_of("address = ");
    append_str(&mut address_line, quoted(identity.address.as_str()).as_str());
    push_line(&mut block, string_of(&address_line));
    let ghost head = texts_of(block@);
    push_optional(&mut block, "name", &identity.name);
    push_optional(&mut block, "signature", &identity.signature);
    push_optional(&mut block, "pgp_key", &identity.pgp_key);
    let ghost optional = texts_of(block@);
    if identity.pgp_sign {
        push_line(&mut block, "pgp_sign = true".to_owned());
    }
    let ghost signed = texts_of(block@);
    if identity.matches.len() > 0 {
        let mut match_line = chars_of("match = ");
        append_str(&mut match_line, quoted_array(&identity.matches).as_str());
        push_line(&mut block, string_of(&match_line));
    }
    assert(texts_of(block@) =~= identity_lines(*identity));
    block
}

// ---------------------------------------------------------------
// Which files an add, an edit or a rename touches
// ---------------------------------------------------------------

/// The file an account named `name` lives in, under `accounts/`.
pub open spec fn account_file_name_of(name: Seq<char>) -> Seq<char> {
    name + ".toml"@
}

pub fn account_file_name(name: &str) -> (r: String)
    ensures
        r@ == account_file_name_of(name@),
{
    let mut out = chars_of(name);
    append_str(&mut out, ".toml");
    string_of(&out)
}

/// The account whose file an edit starts from: the name it had before
/// the edit, or its own name when it is new or was not renamed.
pub open spec fn source_name_of(previous_name: Option<Seq<char>>, new_name: Seq<char>) -> Seq<char> {
    match previous_name {
        Some(p) => p,
        None => new_name,
    }
}

pub fn source_name(previous_name: Option<&str>, new_name: &str) -> (r: String)
    ensures
        r@ == source_name_of(
            match previous_name {
                Some(p) => Some(p@),
                None => None,
            },
            new_name@,
        ),
{
    match previous_name {
        Some(p) => p.to_owned(),
        None => new_name.to_owned(),
    }
}

/// The account file to remove after a save: the old one, only when the
/// account was renamed.
pub open spec fn renamed_from_of(previous_name: Option<Seq<char>>, new_name: Seq<char>) -> Option<Seq<char>> {
    match previous_name {
        Some(p) => if p == new_name {
            None
        } else {
            Some(p)
        },
        None => None,
    }
}

pub fn renamed_from(previous_name: Option<&str>, new_name: &str) -> (r: Option<String>)
    ensures
        opt_text(r) == renamed_from_of(
            match previous_name {
                Some(p) => Some(p@),
                None => None,
            },
            new_name@,
        ),
{
    match previous_name {
        Some(p) => if str_eq(p, new_name) {
            None
        } else {
            Some(p.to_owned())
        },
        None => None,
    }
}

/// What a save writes: the existing file with the form's keys edited
/// in place when there is one, a fresh file otherwise.
pub open spec fn saved_text_of(existing: Option<Seq<char>>, answers: AccountAnswers) -> Seq<char> {
    match existing {
        Some(text) => edited_account_text(text, answers),
        None => account_text(answers),
    }
}

pub fn saved_text(existing: Option<&str>, answers: &AccountAnswers) -> (r: String)
    ensures
        r@ == saved_text_of(
            match existing {
                Some(t) => Some(t@),
                None => None,
            },
            *answers,
        ),
{
    match existing {
        Some(text) => edited_account_toml(text, answers),
        None => account_toml(answers),
    }
}

/// The account file with its `[[identity]]` blocks replaced by
/// `identities`, or `None` when that changes nothing and the file need
/// not be written.
pub open spec fn identities_rewrite_of(text: Seq<char>, identities: Seq<Identity>) -> Option<Seq<char>> {
    let rewritten = toml_set_array_tables(text, "identity"@, identities.map_values(|i: Identity| identity_lines(i)));
    if rewritten == text {
        None
    } else {
        Some(rewritten)
    }
}

pub fn identities_rewrite(text: &str, identities: &Vec<Identity>) -> (r: Option<String>)
    ensures
        opt_text(r) == identities_rewrite_of(text@, identities@),
{
    let mut blocks: Vec<Vec<String>> = Vec::new();
    let mut i: usize = 0;
    while i < identities.len()
        invariant
            i <= identities@.len(),
            blocks@.len() == i,
            forall|j: int| 0 <= j < i ==> texts_of(#[trigger] blocks@[j]@) == identity_lines(identities@[j]),
        decreases identities.len() - i,
    {
        let block = render_identity(&identities[i]);
        blocks.push(block);
        i = i + 1;
    }
    assert(blocks_view(blocks@) =~= identities@.map_values(|i: Identity| identity_lines(i))) by {
        assert forall|j: int| 0 <= j < blocks@.len() implies #[trigger] blocks_view(blocks@)[j]
            == identities@.map_values(|i: Identity| identity_lines(i))[j] by {
            assert(texts_of(blocks@[j]@) == identity_lines(identities@[j]));
            assert(blocks_view(blocks@)[j] =~= texts_of(blocks@[j]@));
        }
    }
    let rewritten = set_array_tables(text, "identity", &blocks);
    if str_eq(rewritten.as_str(), text) {
        None
    } else {
        Some(rewritten)
    }
}

// ---------------------------------------------------------------
// What an edit of the account file reads back
// ---------------------------------------------------------------

/// A hexadecimal digit is neither a line break nor a `#`.
proof fn lemma_hex_plain(d: int)
    ensures
        hex_char(d) != '\n' && hex_char(d) != '#',
{
    if d < 10 {
        reveal_with_fuel(crate::text::digit_char, 1);
    }
}

/// Escaping text without `#` gives text without a line break or `#`.
proof fn lemma_escape_plain(a: Seq<char>)
    requires
        !a.contains('#'),
    ensures
        forall|j: int| 0 <= j < toml_escape(a).len() ==> #[trigger] toml_escape(a)[j] != '\n' && toml_escape(a)[j] != '#',
    decreases a.len(),
{
    if a.len() > 0 {
        let rest = a.drop_last();
        assert(!rest.contains('#')) by {
            if rest.contains('#') {
                let j = choose|j: int| 0 <= j < rest.len() && rest[j] == '#';
                assert(a[j] == '#');
            }
        }
        lemma_escape_plain(rest);
        let c = a.last();
        assert(c != '#');
        let ec = escape_char(c);
        lemma_hex_plain((c as u32) as int / 16);
        lemma_hex_plain((c as u32) as int % 16);
        assert forall|j: int| 0 <= j < ec.len() implies #[trigger] ec[j] != '\n' && ec[j] != '#' by {}
        let t = toml_escape(a);
        assert(t == toml_escape(rest) + ec);
        assert forall|j: int| 0 <= j < t.len() implies #[trigger] t[j] != '\n' && t[j] != '#' by {
            if j < toml_escape(rest).len() {
                assert(t[j] == toml_escape(rest)[j]);
            } else {
                assert(t[j] == ec[j - toml_escape(rest).len()]);
            }
        }
    }
}

/// A quoted answer without `#` is a value an edit writes and reads back.
proof fn lemma_quoted_writable(a: Seq<char>)
    requires
        !a.contains('#'),
    ensures
        crate::configedit_laws::writable_value(toml_quoted(a)),
        toml_quoted(a).last() == '"',
{
    lemma_escape_plain(a);
    reveal_strlit("\"");
    let q = toml_quoted(a);
    let e = toml_escape(a);
    assert(q =~= seq!['"'] + e + seq!['"']);
    assert(!q.contains('\n') && !q.contains('#')) by {
        if q.contains('\n') || q.contains('#') {
            let j = choose|j: int| 0 <= j < q.len() && (q[j] == '\n' || q[j] == '#');
            if 0 < j < q.len() - 1 {
                assert(q[j] == e[j - 1]);
            }
        }
    }
    assert(!is_ws('"'));
}

/// One form key: setting it writes its quoted answer where it reads,
/// keeps every other key's value, and keeps the lines clean.
proof fn lemma_form_edit(
    text: Seq<char>,
    table: Seq<char>,
    key: Seq<char>,
    answer: Seq<char>,
    other_table: Seq<char>,
    other_key: Seq<char>,
)
    requires
        clean_lines(split_lines(text)),
        crate::configedit_laws::one_line(table),
        crate::configedit_laws::one_line(other_table),
        crate::configedit_laws::writable_key(key),
        key.len() > 0 && key[0] != '[',
        !answer.contains('#'),
        other_table != table || other_key != key,
    ensures
        clean_lines(split_lines(edit_if_set(text, table, key, answer))),
        answer.len() > 0 ==> toml_key_value(edit_if_set(text, table, key, answer), table, key) == Some(
            toml_quoted(answer),
        ),
        toml_key_value(edit_if_set(text, table, key, answer), other_table, other_key) == toml_key_value(
            text,
            other_table,
            other_key,
        ),
{
    if answer.len() > 0 {
        let q = toml_quoted(answer);
        lemma_quoted_writable(answer);
        crate::configedit_laws::law_key_reads_back(text, table, key, q);
        crate::configedit_laws::law_edit_keeps_other_keys(text, other_table, other_key, table, key, q);
    }
}

/// A key or table name of lowercase letters and underscores.
proof fn lemma_plain_name(k: Seq<char>)
    requires
        k.len() > 0,
        forall|j: int| 0 <= j < k.len() ==> ('a' <= #[trigger] k[j] && k[j] <= 'z') || k[j] == '_',
    ensures
        crate::configedit_laws::writable_key(k),
        crate::configedit_laws::one_line(k),
        k[0] != '[',
{
    assert(!k.contains('\n') && !k.contains('\r') && !k.contains('"') && !k.contains('=')) by {
        if k.contains('\n') || k.contains('\r') || k.contains('"') || k.contains('=') {
            let j = choose|j: int| 0 <= j < k.len() && (k[j] == '\n' || k[j] == '\r' || k[j] == '"' || k[j] == '=');
            assert(('a' <= k[j] && k[j] <= 'z') || k[j] == '_');
        }
    }
}

/// How a form key reads after the edit: its quoted answer when the
/// answer is set, else whatever it read before.
pub open spec fn form_key_reads(
    edited: Seq<char>,
    existing: Seq<char>,
    table: Seq<char>,
    key: Seq<char>,
    answer: Seq<char>,
) -> bool {
    if answer.len() > 0 {
        toml_key_value(edited, table, key) == Some(toml_quoted(answer))
    } else {
        toml_key_value(edited, table, key) == toml_key_value(existing, table, key)
    }
}

/// Editing an account file sets each key the form carries (the account
/// name, the IMAP host, user and password command, and the SMTP host)
/// to its quoted answer where the answer is set, and leaves it reading
/// as before where the answer is empty, whatever order the file holds
/// them in. This holds for a file whose lines, once split, end in no
/// carriage return, and answers without `#` (which the quoted value
/// would cut short as a comment).
pub proof fn law_edited_account_sets_the_form_keys(existing: Seq<char>, answers: AccountAnswers)
    requires
        clean_lines(split_lines(existing)),
        !answers.name@.contains('#'),
        !answers.imap_host@.contains('#'),
        !answers.imap_user@.contains('#'),
        !answers.password_cmd@.contains('#'),
        !answers.smtp_host@.contains('#'),
    ensures
        ({
            let r = edited_account_text(existing, answers);
            &&& form_key_reads(r, existing, "account"@, "name"@, answers.name@)
            &&& form_key_reads(r, existing, "imap"@, "host"@, answers.imap_host@)
            &&& form_key_reads(r, existing, "imap"@, "user"@, answers.imap_user@)
            &&& form_key_reads(r, existing, "imap"@, "password_cmd"@, answers.password_cmd@)
            &&& form_key_reads(r, existing, "smtp"@, "host"@, answers.smtp_host@)
        }),
{
    reveal_strlit("account");
    reveal_strlit("imap");
    reveal_strlit("smtp");
    reveal_strlit("name");
    reveal_strlit("host");
    reveal_strlit("user");
    reveal_strlit("password_cmd");
    lemma_plain_name("account"@);
    lemma_plain_name("imap"@);
    lemma_plain_name("smtp"@);
    lemma_plain_name("name"@);
    lemma_plain_name("host"@);
    lemma_plain_name("user"@);
    lemma_plain_name("password_cmd"@);
    assert("imap"@ != "smtp"@ && "imap"@ != "account"@ && "smtp"@ != "account"@) by {
        assert("imap"@[0] != "smtp"@[0] && "imap"@[0] != "account"@[0] && "smtp"@[0] != "account"@[0]);
    }
    assert("host"@ != "user"@ && "host"@ != "password_cmd"@ && "user"@ != "password_cmd"@) by {
        assert("host"@[0] != "user"@[0] && "host"@[0] != "password_cmd"@[0] && "user"@[0] != "password_cmd"@[0]);
    }
    let t0 = existing;
    let t1 = edit_if_set(t0, "account"@, "name"@, answers.name@);
    let t2 = edit_if_set(t1, "imap"@, "host"@, answers.imap_host@);
    let t3 = edit_if_set(t2, "imap"@, "user"@, answers.imap_user@);
    let t4 = edit_if_set(t3, "imap"@, "password_cmd"@, answers.password_cmd@);
    let t5 = edit_if_set(t4, "smtp"@, "host"@, answers.smtp_host@);
    assert(t5 == edited_account_text(existing, answers));
    lemma_form_edit(t0, "account"@, "name"@, answers.name@, "imap"@, "host"@);
    lemma_form_edit(t0, "account"@, "name"@, answers.name@, "imap"@, "user"@);
    lemma_form_edit(t0, "account"@, "name"@, answers.name@, "imap"@, "password_cmd"@);
    lemma_form_edit(t0, "account"@, "name"@, answers.name@, "smtp"@, "host"@);
    lemma_form_edit(t1, "imap"@, "host"@, answers.imap_host@, "account"@, "name"@);
    lemma_form_edit(t1, "imap"@, "host"@, answers.imap_host@, "imap"@, "user"@);
    lemma_form_edit(t1, "imap"@, "host"@, answers.imap_host@, "imap"@, "password_cmd"@);
    lemma_form_edit(t1, "imap"@, "host"@, answers.imap_host@, "smtp"@, "host"@);
    lemma_form_edit(t2, "imap"@, "user"@, answers.imap_user@, "account"@, "name"@);
    lemma_form_edit(t2, "imap"@, "user"@, answers.imap_user@, "imap"@, "host"@);
    lemma_form_edit(t2, "imap"@, "user"@, answers.imap_user@, "imap"@, "password_cmd"@);
    lemma_form_edit(t2, "imap"@, "user"@, answers.imap_user@, "smtp"@, "host"@);
    lemma_form_edit(t3, "imap"@, "password_cmd"@, answers.password_cmd@, "account"@, "name"@);
    lemma_form_edit(t3, "imap"@, "password_cmd"@, answers.password_cmd@, "imap"@, "host"@);
    lemma_form_edit(t3, "imap"@, "password_cmd"@, answers.password_cmd@, "imap"@, "user"@);
    lemma_form_edit(t3, "imap"@, "password_cmd"@, answers.password_cmd@, "smtp"@, "host"@);
    lemma_form_edit(t4, "smtp"@, "host"@, answers.smtp_host@, "account"@, "name"@);
    lemma_form_edit(t4, "smtp"@, "host"@, answers.smtp_host@, "imap"@, "host"@);
    lemma_form_edit(t4, "smtp"@, "host"@, answers.smtp_host@, "imap"@, "user"@);
    lemma_form_edit(t4, "smtp"@, "host"@, answers.smtp_host@, "imap"@, "password_cmd"@);
}

} // verus!
