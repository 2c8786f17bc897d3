//! The Folders tab's alias editing: the buffer being typed, its keys,
//! the saved alias and its notice, the app's alias list patched in
//! place, and the `folder_names` edit to the account file.
use vstd::prelude::*;

use crate::configedit::{toml_with_key, toml_without_key, with_key, without_key};
use crate::text::{append_str, chars_of, string_of, trim, trimmed};
use crate::tui::account_form::deleted_at;
use crate::tui::folders::FolderRow;
use crate::tui::headers::inserted_at;
use crate::tui::keys::KeyCode;

verus! {

broadcast use vstd::string::group_string_axioms;

/// The table of the account file that holds folder aliases.
pub open spec fn folder_names_table() -> Seq<char> {
    "folder_names"@
}

/// The alias text being typed for a folder row, with its cursor.
#[derive(Debug, PartialEq, Eq)]
pub struct AliasEdit {
    pub text: String,
    pub cursor: usize,
    pub account: String,
    pub folder: String,
}

/// What a key did to the alias buffer.
#[derive(Clone, Copy, Debug, PartialEq, Eq, Structural)]
pub enum AliasOutcome {
    Edited,
    Cancel,
    Save,
}

/// Starts editing the alias of `row`, the cursor at its end.
pub fn begin_edit(row: &FolderRow) -> (r: AliasEdit)
    ensures
        r.text@ == row.alias@,
        r.cursor == row.alias@.len(),
        r.account@ == row.account@,
        r.folder@ == row.folder@,
{
    AliasEdit {
        cursor: row.alias.unicode_len(),
        text: row.alias.clone(),
        account: row.account.clone(),
        folder: row.folder.clone(),
    }
}

/// `n` held to `0..=len`.
pub open spec fn clamped(n: int, len: int) -> int {
    if n < 0 {
        0
    } else if n > len {
        len
    } else {
        n
    }
}

impl AliasEdit {
    /// The cursor stands within the text.
    pub open spec fn wf(self) -> bool {
        self.cursor <= self.text@.len()
    }

    /// `self` is `before` after the editing key `code`: a character is
    /// inserted at the cursor, Backspace and Delete remove the character
    /// before and at it, the arrows move it within the text, Home and
    /// End jump to either end; any other key changes nothing. The row
    /// edited stays the same.
    pub open spec fn keyed(self, before: AliasEdit, code: KeyCode) -> bool {
        let len = before.text@.len() as int;
        &&& self.account == before.account
        &&& self.folder == before.folder
        &&& match code {
            KeyCode::Char(ch) => self.text@ == inserted_at(before.text@, before.cursor as int, ch) && self.cursor
                == before.cursor + 1,
            KeyCode::Backspace => if before.cursor == 0 {
                self.text@ == before.text@ && self.cursor == 0
            } else {
                self.text@ == deleted_at(before.text@, before.cursor - 1) && self.cursor == before.cursor - 1
            },
            KeyCode::Delete => self.text@ == deleted_at(before.text@, before.cursor as int) && self.cursor
                == before.cursor,
            KeyCode::Left => self.text@ == before.text@ && self.cursor == clamped(before.cursor - 1, len),
            KeyCode::Right => self.text@ == before.text@ && self.cursor == clamped(before.cursor + 1, len),
            KeyCode::Home => self.text@ == before.text@ && self.cursor == 0,
            KeyCode::End => self.text@ == before.text@ && self.cursor == len,
            _ => self.text@ == before.text@ && self.cursor == before.cursor,
        }
    }

    /// Keys while an alias is typed: Esc cancels and Enter saves, both
    /// leaving the buffer for the caller; every other key edits it in
    /// place.
    pub fn feed(&mut self, code: KeyCode) -> (r: AliasOutcome)
        requires
            old(self).wf(),
        ensures
            code == KeyCode::Esc ==> r == AliasOutcome::Cancel && *final(self) == *old(self),
            code == KeyCode::Enter ==> r == AliasOutcome::Save && *final(self) == *old(self),
            code != KeyCode::Esc && code != KeyCode::Enter ==> r == AliasOutcome::Edited && final(self).keyed(
                *old(self),
                code,
            ) && final(self).wf(),
    {
        match code {
            KeyCode::Esc => AliasOutcome::Cancel,
            KeyCode::Enter => AliasOutcome::Save,
            KeyCode::Char(ch) => {
                let mut chars = chars_of(self.text.as_str());
                let at = if self.cursor < chars.len() {
                    self.cursor
                } else {
                    chars.len()
                };
                chars.insert(at, ch);
                let n = chars.len();
                assert(self.cursor < n);
                self.text = string_of(&chars);
                self.cursor = self.cursor + 1;
                AliasOutcome::Edited
            },
            KeyCode::Backspace => {
                if self.cursor > 0 {
                    let mut chars = chars_of(self.text.as_str());
                    self.cursor = self.cursor - 1;
                    chars.remove(self.cursor);
                    self.text = string_of(&chars);
                }
                AliasOutcome::Edited
            },
            KeyCode::Delete => {
                let mut chars = chars_of(self.text.as_str());
                if self.cursor < chars.len() {
                    chars.remove(self.cursor);
                    self.text = string_of(&chars);
                }
                AliasOutcome::Edited
            },
            KeyCode::Left => {
                if self.cursor > 0 {
                    self.cursor = self.cursor - 1;
                }
                AliasOutcome::Edited
            },
            KeyCode::Right => {
                let len = self.text.unicode_len();
                if self.cursor < len {
                    self.cursor = self.cursor + 1;
                }
                AliasOutcome::Edited
            },
            KeyCode::Home => {
                self.cursor = 0;
                AliasOutcome::Edited
            },
            KeyCode::End => {
                self.cursor = self.text.unicode_len();
                AliasOutcome::Edited
            },
            _ => AliasOutcome::Edited,
        }
    }

    /// The alias a save writes: the text trimmed; empty removes it.
    pub fn saved_alias(&self) -> (r: String)
        ensures
            r@ == trim(self.text@),
    {
        string_of(&trimmed(&chars_of(self.text.as_str())))
    }
}

pub open spec fn alias_notice_of(folder: Seq<char>, alias: Seq<char>) -> Seq<char> {
    if alias.len() == 0 {
        folder + ": alias removed"@
    } else {
        folder + ": alias set to "@ + alias
    }
}

/// The notice after a save.
pub fn alias_notice(folder: &str, alias: &str) -> (r: String)
    ensures
        r@ == alias_notice_of(folder@, alias@),
{
    let mut out = chars_of(folder);
    if alias.unicode_len() == 0 {
        append_str(&mut out, ": alias removed");
    } else {
        append_str(&mut out, ": alias set to ");
        append_str(&mut out, alias);
    }
    proof {
        reveal_strlit(": alias removed");
        reveal_strlit(": alias set to ");
    }
    string_of(&out)
}

/// Whether an alias entry is for `folder` of `account`.
pub open spec fn entry_for(account: Seq<char>, folder: Seq<char>) -> spec_fn((String, String, String)) -> bool {
    |t: (String, String, String)| t.0@ == account && t.1@ == folder
}

/// The alias list with `folder` of `account` re-pointed: every old
/// entry for it dropped, the rest kept in order, and the new alias
/// appended unless it is empty.
pub open spec fn updated_aliases(
    aliases: Seq<(String, String, String)>,
    account: Seq<char>,
    folder: Seq<char>,
    alias: Seq<char>,
) -> Seq<(Seq<char>, Seq<char>, Seq<char>)> {
    let kept = aliases.filter(|t: (String, String, String)| !(entry_for(account, folder))(t)).map_values(
        |t: (String, String, String)| (t.0@, t.1@, t.2@),
    );
    if alias.len() == 0 {
        kept
    } else {
        kept.push((account, folder, alias))
    }
}

/// The views of an alias list.
pub open spec fn alias_views(aliases: Seq<(String, String, String)>) -> Seq<(Seq<char>, Seq<char>, Seq<char>)> {
    aliases.map_values(|t: (String, String, String)| (t.0@, t.1@, t.2@))
}

/// Patches the app's alias list so the sidebar shows a saved alias
/// without a restart.
pub fn update_alias(aliases: &mut Vec<(String, String, String)>, account: &str, folder: &str, alias: &str)
    ensures
        alias_views(final(aliases)@) == updated_aliases(old(aliases)@, account@, folder@, alias@),
{
    let ghost start = old(aliases)@;
    let ghost p = |t: (String, String, String)| !(entry_for(account@, folder@))(t);
    let mut kept: Vec<(String, String, String)> = Vec::new();
    let mut i: usize = 0;
    while i < aliases.len()
        invariant
            i <= aliases@.len(),
            aliases@ == start,
            p == (|t: (String, String, String)| !(entry_for(account@, folder@))(t)),
            alias_views(kept@) == alias_views(start.take(i as int).filter(p)),
        decreases aliases@.len() - i,
    {
        let entry = &aliases[i];
        let same = crate::text::str_eq(entry.0.as_str(), account) && crate::text::str_eq(entry.1.as_str(), folder);
        proof {
            assert(start.take(i + 1).drop_last() =~= start.take(i as int));
            reveal(Seq::filter);
            assert(start.take(i + 1).last() == start[i as int]);
            assert(start.take(i + 1).filter(p) == if p(start[i as int]) {
                start.take(i as int).filter(p).push(start[i as int])
            } else {
                start.take(i as int).filter(p)
            });
        }
        if !same {
            let copy = (entry.0.clone(), entry.1.clone(), entry.2.clone());
            let ghost before = kept@;
            kept.push(copy);
            proof {
                assert(alias_views(kept@) =~= alias_views(before).push((entry.0@, entry.1@, entry.2@)));
                assert(alias_views(start.take(i + 1).filter(p)) =~= alias_views(
                    start.take(i as int).filter(p),
                ).push((entry.0@, entry.1@, entry.2@)));
            }
        }
        i = i + 1;
    }
    assert(start.take(start.len() as int) =~= start);
    if alias.unicode_len() > 0 {
        let ghost before = kept@;
        kept.push((account.to_string(), folder.to_string(), alias.to_string()));
        assert(alias_views(kept@) =~= alias_views(before).push((account@, folder@, alias@)));
    }
    *aliases = kept;
}

/// The account file's text once the alias of `folder` is written, or,
/// for an empty alias, removed, leaving every other line as it was.
pub fn persisted_alias_text(contents: &str, folder: &str, alias: &str) -> (r: String)
    ensures
        alias@.len() == 0 ==> r@ == toml_without_key(contents@, folder_names_table(), folder@),
        alias@.len() > 0 ==> r@ == toml_with_key(contents@, folder_names_table(), folder@, "\""@ + alias@ + "\""@),
{
    proof {
        reveal_strlit("folder_names");
        reveal_strlit("\"");
    }
    if alias.unicode_len() == 0 {
        without_key(contents, "folder_names", folder)
    } else {
        let mut quoted = chars_of("\"");
        append_str(&mut quoted, alias);
        append_str(&mut quoted, "\"");
        let value = string_of(&quoted);
        with_key(contents, "folder_names", folder, value.as_str())
    }
}

/// Whether an alias entry, as viewed, is for `folder` of `account`.
pub open spec fn view_for(account: Seq<char>, folder: Seq<char>) -> spec_fn((Seq<char>, Seq<char>, Seq<char>)) -> bool {
    |t: (Seq<char>, Seq<char>, Seq<char>)| t.0 == account && t.1 == folder
}

pub open spec fn view_not_for(account: Seq<char>, folder: Seq<char>) -> spec_fn((Seq<char>, Seq<char>, Seq<char>)) -> bool {
    |t: (Seq<char>, Seq<char>, Seq<char>)| !(t.0 == account && t.1 == folder)
}

proof fn lemma_views_filter(s: Seq<(String, String, String)>, account: Seq<char>, folder: Seq<char>)
    ensures
        alias_views(s.filter(|t: (String, String, String)| !(entry_for(account, folder))(t))) == alias_views(
            s,
        ).filter(view_not_for(account, folder)),
    decreases s.len(),
{
    reveal(Seq::filter);
    let p = |t: (String, String, String)| !(entry_for(account, folder))(t);
    if s.len() > 0 {
        lemma_views_filter(s.drop_last(), account, folder);
        assert(alias_views(s).drop_last() =~= alias_views(s.drop_last()));
        if p(s.last()) {
            assert(alias_views(s.filter(p)) =~= alias_views(s.drop_last().filter(p)).push(
                (s.last().0@, s.last().1@, s.last().2@),
            ));
        }
    } else {
        assert(alias_views(s.filter(p)) =~= alias_views(s).filter(view_not_for(account, folder)));
    }
}

proof fn lemma_filter_twice(
    kept: Seq<(Seq<char>, Seq<char>, Seq<char>)>,
    account: Seq<char>,
    folder: Seq<char>,
)
    requires
        forall|i: int| 0 <= i < kept.len() ==> (view_not_for(account, folder))(#[trigger] kept[i]),
    ensures
        kept.filter(view_for(account, folder)) == Seq::<(Seq<char>, Seq<char>, Seq<char>)>::empty(),
        kept.filter(view_not_for(account, folder)) == kept,
    decreases kept.len(),
{
    reveal(Seq::filter);
    if kept.len() > 0 {
        lemma_filter_twice(kept.drop_last(), account, folder);
        assert((view_not_for(account, folder))(kept[kept.len() - 1]));
        assert(kept.drop_last().push(kept.last()) =~= kept);
    }
}

/// Saving an alias replaces the folder's entry rather than adding a
/// second: the list then holds exactly the new entry for that folder
/// (none for an empty alias), and every other folder's entries as
/// they were, in order.
pub proof fn law_update_alias_replaces(
    aliases: Seq<(String, String, String)>,
    account: Seq<char>,
    folder: Seq<char>,
    alias: Seq<char>,
)
    ensures
        updated_aliases(aliases, account, folder, alias).filter(view_for(account, folder)) == if alias.len() == 0 {
            Seq::<(Seq<char>, Seq<char>, Seq<char>)>::empty()
        } else {
            seq![(account, folder, alias)]
        },
        updated_aliases(aliases, account, folder, alias).filter(view_not_for(account, folder)) == alias_views(
            aliases,
        ).filter(view_not_for(account, folder)),
{
    let p = |t: (String, String, String)| !(entry_for(account, folder))(t);
    lemma_views_filter(aliases, account, folder);
    let kept = alias_views(aliases).filter(view_not_for(account, folder));
    assert(aliases.filter(p).map_values(|t: (String, String, String)| (t.0@, t.1@, t.2@)) == alias_views(
        aliases.filter(p),
    ));
    assert forall|i: int| 0 <= i < kept.len() implies (view_not_for(account, folder))(#[trigger] kept[i]) by {
        alias_views(aliases).lemma_filter_pred(view_not_for(account, folder), i);
    }
    lemma_filter_twice(kept, account, folder);
    if alias.len() > 0 {
        reveal(Seq::filter);
        let e = (account, folder, alias);
        assert(kept.push(e).drop_last() =~= kept);
        assert(kept.push(e).filter(view_for(account, folder)) =~= seq![e]);
        assert(kept.push(e).filter(view_not_for(account, folder)) =~= kept);
    }
}

} // verus!
