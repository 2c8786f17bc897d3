//! The identity sub-editor: an account carries one or more
//! `[[identity]]` blocks, each a from name and address with its own
//! signature, PGP key, auto-sign toggle and match patterns. The account
//! form shows them as a list (add, edit, remove) that opens this
//! per-identity field editor.
use vstd::prelude::*;

use crate::config::Identity;
use crate::text::{
    append_str, chars_of, decimal, join_with, join_with_of, lemma_lines_view_push, lines_view,
    opt_text, push_decimal, string_of, texts_of, trim, trimmed, wrapped, wrapped_spec,
};
use crate::tui::account_form::{deleted_at, on_off, on_off_spec, AccountFormState};
use crate::tui::headers::inserted_at;
use crate::tui::keys::{KeyCode, KeyPress};

verus! {

broadcast use vstd::string::group_string_axioms;

/// The editor's rows: from name, from address, pgp key, the auto-sign
/// toggle, signature and match patterns.
pub const EDITOR_FIELDS: usize = 6;

/// The row of the auto-sign toggle.
pub const SIGN_ROW: usize = 3;

/// One identity as the form holds it: every value a string (the match
/// patterns comma-separated) bar the auto-sign toggle.
#[derive(Debug, PartialEq, Eq)]
pub struct FormIdentity {
    pub from_name: String,
    pub address: String,
    pub pgp_key: String,
    pub pgp_sign: bool,
    pub signature: String,
    pub matches: String,
}

/// The identity list, or the field editor for one identity.
#[derive(Debug, PartialEq, Eq)]
pub enum IdentityUi {
    List { selected: usize },
    Edit(IdentityEditor),
}

/// Editing one identity: `target` is the list slot a save overwrites
/// (none for a fresh add), `origin` the list selection to restore on
/// cancel.
#[derive(Debug, PartialEq, Eq)]
pub struct IdentityEditor {
    pub target: Option<usize>,
    pub origin: usize,
    pub draft: FormIdentity,
    pub focus: usize,
    pub cursor: usize,
}

/// A copy of an identity, field for field.
pub fn copy_identity(identity: &FormIdentity) -> (r: FormIdentity)
    ensures
        r == *identity,
{
    FormIdentity {
        from_name: identity.from_name.clone(),
        address: identity.address.clone(),
        pgp_key: identity.pgp_key.clone(),
        pgp_sign: identity.pgp_sign,
        signature: identity.signature.clone(),
        matches: identity.matches.clone(),
    }
}

impl Default for FormIdentity {
    /// An identity with nothing filled in.
    fn default() -> (r: FormIdentity)
        ensures
            r.from_name@.len() == 0 && r.address@.len() == 0 && r.pgp_key@.len() == 0,
            !r.pgp_sign && r.signature@.len() == 0 && r.matches@.len() == 0,
    {
        FormIdentity::blank()
    }
}

impl FormIdentity {
    /// An identity with nothing filled in.
    pub fn blank() -> (r: FormIdentity)
        ensures
            r.from_name@.len() == 0 && r.address@.len() == 0 && r.pgp_key@.len() == 0,
            !r.pgp_sign && r.signature@.len() == 0 && r.matches@.len() == 0,
    {
        FormIdentity {
            from_name: String::new(),
            address: String::new(),
            pgp_key: String::new(),
            pgp_sign: false,
            signature: String::new(),
            matches: String::new(),
        }
    }

    /// An identity with its from name and address filled in.
    pub fn seed(from_name: &str, address: &str) -> (r: FormIdentity)
        ensures
            r.from_name@ == from_name@ && r.address@ == address@ && r.pgp_key@.len() == 0,
            !r.pgp_sign && r.signature@.len() == 0 && r.matches@.len() == 0,
    {
        FormIdentity {
            from_name: from_name.to_owned(),
            address: address.to_owned(),
            pgp_key: String::new(),
            pgp_sign: false,
            signature: String::new(),
            matches: String::new(),
        }
    }

    /// The form's values for a configured identity: absent values
    /// empty, the match patterns comma-separated.
    pub fn from_config(identity: &Identity) -> (r: FormIdentity)
        ensures
            r.from_name@ == crate::account_wizard::or_empty(identity.name),
            r.address@ == identity.address@,
            r.pgp_key@ == crate::account_wizard::or_empty(identity.pgp_key),
            r.pgp_sign == identity.pgp_sign,
            r.signature@ == crate::account_wizard::or_empty(identity.signature),
            r.matches@ == join_with(texts_of(identity.matches@), ", "@),
    {
        let mut items: Vec<Vec<char>> = Vec::new();
        let mut i: usize = 0;
        while i < identity.matches.len()
            invariant
                i <= identity.matches.len(),
                lines_view(items@) =~= texts_of(identity.matches@).take(i as int),
            decreases identity.matches.len() - i,
        {
            let ghost before = items@;
            items.push(chars_of(identity.matches[i].as_str()));
            proof {
                lemma_lines_view_push(before, items@[i as int]);
                assert(texts_of(identity.matches@).take(i + 1) =~= texts_of(identity.matches@).take(i as int).push(identity.matches@[i as int]@));
            }
            i = i + 1;
        }
        assert(texts_of(identity.matches@).take(identity.matches.len() as int) =~= texts_of(identity.matches@));
        FormIdentity {
            from_name: text_or_empty(&identity.name),
            address: identity.address.clone(),
            pgp_key: text_or_empty(&identity.pgp_key),
            pgp_sign: identity.pgp_sign,
            signature: text_or_empty(&identity.signature),
            matches: string_of(&join_with_of(&items, &chars_of(", "))),
        }
    }

    /// The form's values as a configured identity ready to write: an
    /// empty from address falls back to the account address and an
    /// empty match list to matching that address, so a minimally
    /// filled identity still routes.
    pub fn to_config(&self, account_address: &str) -> (r: Identity)
        ensures
            r.address@ == config_address(self.address@, account_address@),
            texts_of(r.matches@) == parsed_matches(self.matches@, config_address(self.address@, account_address@)),
            opt_text(r.name) == non_empty_of(self.from_name@),
            opt_text(r.signature) == non_empty_of(self.signature@),
            opt_text(r.pgp_key) == non_empty_of(self.pgp_key@),
            r.pgp_sign == self.pgp_sign,
    {
        let address = match non_empty(self.address.as_str()) {
            Some(a) => a,
            None => string_of(&trimmed(&chars_of(account_address))),
        };
        let matches = parse_matches(self.matches.as_str(), address.as_str());
        Identity {
            address,
            name: non_empty(self.from_name.as_str()),
            signature: non_empty(self.signature.as_str()),
            matches,
            pgp_sign: self.pgp_sign,
            pgp_key: non_empty(self.pgp_key.as_str()),
        }
    }
}

fn text_or_empty(o: &Option<String>) -> (r: String)
    ensures
        r@ == crate::account_wizard::or_empty(*o),
{
    match o {
        Some(s) => s.clone(),
        None => String::new(),
    }
}

/// A value trimmed, or nothing when that leaves it empty.
pub open spec fn non_empty_of(value: Seq<char>) -> Option<Seq<char>> {
    if trim(value).len() == 0 {
        None
    } else {
        Some(trim(value))
    }
}

pub fn non_empty(value: &str) -> (r: Option<String>)
    ensures
        opt_text(r) == non_empty_of(value@),
{
    let t = trimmed(&chars_of(value));
    if t.len() == 0 {
        None
    } else {
        Some(string_of(&t))
    }
}

/// The address an identity is written with.
pub open spec fn config_address(address: Seq<char>, account_address: Seq<char>) -> Seq<char> {
    match non_empty_of(address) {
        Some(a) => a,
        None => trim(account_address),
    }
}

/// The comma-separated patterns of `s`, each trimmed, empty ones
/// dropped, reading `s` with `piece` as the part of the current pattern
/// already read.
pub open spec fn patterns_from(s: Seq<char>, piece: Seq<char>) -> Seq<Seq<char>>
    decreases s.len(),
{
    let done: Seq<Seq<char>> = if trim(piece).len() == 0 {
        seq![]
    } else {
        seq![trim(piece)]
    };
    if s.len() == 0 {
        done
    } else if s[0] == ',' {
        done + patterns_from(s.drop_first(), seq![])
    } else {
        patterns_from(s.drop_first(), piece.push(s[0]))
    }
}

/// The match patterns written: the typed ones, or the address alone.
pub open spec fn parsed_matches(raw: Seq<char>, address: Seq<char>) -> Seq<Seq<char>> {
    if patterns_from(raw, seq![]).len() == 0 {
        seq![address]
    } else {
        patterns_from(raw, seq![])
    }
}

fn push_piece(out: &mut Vec<String>, piece: &Vec<char>)
    ensures
        texts_of(final(out)@) == texts_of(old(out)@) + (if trim(piece@).len() == 0 {
            Seq::<Seq<char>>::empty()
        } else {
            seq![trim(piece@)]
        }),
{
    let t = trimmed(piece);
    if t.len() > 0 {
        let s = string_of(&t);
        proof {
            crate::text::lemma_texts_of_push(out@, s);
        }
        out.push(s);
        assert(texts_of(out@) =~= texts_of(old(out)@) + seq![trim(piece@)]);
    } else {
        assert(texts_of(out@) =~= texts_of(out@) + Seq::<Seq<char>>::empty());
    }
}

/// The match patterns of an identity.
pub fn parse_matches(raw: &str, address: &str) -> (r: Vec<String>)
    ensures
        texts_of(r@) == parsed_matches(raw@, address@),
{
    let v = chars_of(raw);
    let mut out: Vec<String> = Vec::new();
    let mut piece: Vec<char> = Vec::new();
    let mut i: usize = 0;
    assert(v@.skip(0) =~= v@);
    assert(texts_of(out@) =~= Seq::<Seq<char>>::empty());
    while i < v.len()
        invariant
            i <= v.len(),
            v@ == raw@,
            patterns_from(raw@, seq![]) == texts_of(out@) + patterns_from(v@.skip(i as int), piece@),
        decreases v.len() - i,
    {
        let c = v[i];
        assert(v@.skip(i as int)[0] == c);
        assert(v@.skip(i as int).drop_first() =~= v@.skip(i + 1));
        if c == ',' {
            let ghost before = texts_of(out@);
            let ghost p = piece@;
            push_piece(&mut out, &piece);
            piece = Vec::new();
            assert(piece@ =~= Seq::<char>::empty());
            let ghost done: Seq<Seq<char>> = if trim(p).len() == 0 {
                seq![]
            } else {
                seq![trim(p)]
            };
            assert(before + (done + patterns_from(v@.skip(i + 1), seq![])) =~= (before + done)
                + patterns_from(v@.skip(i + 1), seq![]));
        } else {
            piece.push(c);
        }
        i = i + 1;
    }
    assert(v@.skip(i as int) =~= Seq::<char>::empty());
    push_piece(&mut out, &piece);
    if out.len() == 0 {
        let mut only: Vec<String> = Vec::new();
        let a = address.to_owned();
        proof {
            crate::text::lemma_texts_of_push(only@, a);
        }
        only.push(a);
        assert(texts_of(only@) =~= seq![address@]);
        return only;
    }
    out
}

/// A one-line label for an identity: its from name, or its address, or
/// a placeholder when neither is filled in.
pub open spec fn descriptor_of(identity: FormIdentity) -> Seq<char> {
    match non_empty_of(identity.from_name@) {
        Some(n) => n,
        None => match non_empty_of(identity.address@) {
            Some(a) => a,
            None => "(unnamed)"@,
        },
    }
}

pub fn descriptor(identity: &FormIdentity) -> (r: String)
    ensures
        r@ == descriptor_of(*identity),
{
    match non_empty(identity.from_name.as_str()) {
        Some(n) => n,
        None => match non_empty(identity.address.as_str()) {
            Some(a) => a,
            None => "(unnamed)".to_owned(),
        },
    }
}

/// `N identities: a, b`, the noun singular for one.
pub open spec fn summary_of(identities: Seq<FormIdentity>) -> Seq<char> {
    decimal(identities.len()) + (if identities.len() == 1 {
        " identity: "@
    } else {
        " identities: "@
    }) + join_with(identities.map_values(|i: FormIdentity| descriptor_of(i)), ", "@)
}

pub fn summary(identities: &Vec<FormIdentity>) -> (r: String)
    ensures
        r@ == summary_of(identities@),
{
    let ghost want = identities@.map_values(|i: FormIdentity| descriptor_of(i));
    let mut items: Vec<Vec<char>> = Vec::new();
    let mut i: usize = 0;
    while i < identities.len()
        invariant
            i <= identities.len(),
            want == identities@.map_values(|i: FormIdentity| descriptor_of(i)),
            lines_view(items@) =~= want.take(i as int),
        decreases identities.len() - i,
    {
        let ghost before = items@;
        items.push(chars_of(descriptor(&identities[i]).as_str()));
        proof {
            lemma_lines_view_push(before, items@[i as int]);
            assert(want.take(i + 1) =~= want.take(i as int).push(want[i as int]));
        }
        i = i + 1;
    }
    assert(want.take(identities.len() as int) =~= want);
    let mut out: Vec<char> = Vec::new();
    push_decimal(&mut out, identities.len() as u128);
    if identities.len() == 1 {
        append_str(&mut out, " identity: ");
    } else {
        append_str(&mut out, " identities: ");
    }
    let joined = join_with_of(&items, &chars_of(", "));
    crate::text::append_chars(&mut out, &joined);
    string_of(&out)
}

/// The text an editor row edits; empty for the toggle.
pub open spec fn editor_text(d: FormIdentity, row: int) -> Seq<char> {
    if row == 0 {
        d.from_name@
    } else if row == 1 {
        d.address@
    } else if row == 2 {
        d.pgp_key@
    } else if row == 4 {
        d.signature@
    } else if row == 5 {
        d.matches@
    } else {
        Seq::empty()
    }
}

/// What an editor row shows.
pub open spec fn editor_value(d: FormIdentity, row: int) -> Seq<char> {
    if row == SIGN_ROW {
        on_off_spec(d.pgp_sign)
    } else {
        editor_text(d, row)
    }
}

/// The draft `after` is `before` with row `row` edited to `t`.
pub open spec fn draft_edited(after: FormIdentity, before: FormIdentity, row: int, t: Seq<char>) -> bool {
    &&& after.pgp_sign == before.pgp_sign
    &&& forall|k: int| 0 <= k < EDITOR_FIELDS && k != SIGN_ROW ==> #[trigger] editor_text(after, k) == if k == row {
        t
    } else {
        editor_text(before, k)
    }
}

/// The identity UI is consistent with the list: a selection in range,
/// an editor on a real slot and a real row.
pub open spec fn identity_ui_wf(identities: Seq<FormIdentity>, ui: Option<IdentityUi>) -> bool {
    match ui {
        None => true,
        Some(IdentityUi::List { selected }) => selected < identities.len(),
        Some(IdentityUi::Edit(e)) => e.focus < EDITOR_FIELDS && (e.target matches Some(t) ==> t
            < identities.len()) && identities.len() > 0,
    }
}

pub(crate) fn editor_text_of(d: &FormIdentity, row: usize) -> (r: &str)
    ensures
        r@ == editor_text(*d, row as int),
{
    if row == 0 {
        d.from_name.as_str()
    } else if row == 1 {
        d.address.as_str()
    } else if row == 2 {
        d.pgp_key.as_str()
    } else if row == 4 {
        d.signature.as_str()
    } else if row == 5 {
        d.matches.as_str()
    } else {
        proof {
            reveal_strlit("");
        }
        ""
    }
}

fn editor_value_len(d: &FormIdentity, row: usize) -> (r: usize)
    ensures
        r == editor_value(*d, row as int).len(),
{
    if row == SIGN_ROW {
        on_off(d.pgp_sign).unicode_len()
    } else {
        editor_text_of(d, row).unicode_len()
    }
}

fn set_editor_text(d: &mut FormIdentity, row: usize, t: String)
    requires
        row < EDITOR_FIELDS,
        row != SIGN_ROW,
    ensures
        draft_edited(*final(d), *old(d), row as int, t@),
{
    if row == 0 {
        d.from_name = t;
    } else if row == 1 {
        d.address = t;
    } else if row == 2 {
        d.pgp_key = t;
    } else if row == 4 {
        d.signature = t;
    } else {
        d.matches = t;
    }
}

/// The editor after a text key: the draft's row edited at the cursor
/// and the cursor moved, as the account form's own rows edit.
pub open spec fn editor_edited(after: IdentityEditor, before: IdentityEditor, code: KeyCode) -> bool {
    let row = before.focus as int;
    let t = editor_text(before.draft, row);
    let c = before.cursor as int;
    &&& after.target == before.target
    &&& after.origin == before.origin
    &&& after.focus == before.focus
    &&& match code {
        KeyCode::Char(ch) => draft_edited(after.draft, before.draft, row, inserted_at(t, c, ch)) && after.cursor == c + 1,
        KeyCode::Backspace => if c == 0 {
            after == before
        } else {
            draft_edited(after.draft, before.draft, row, deleted_at(t, c - 1)) && after.cursor == c - 1
        },
        KeyCode::Delete => draft_edited(after.draft, before.draft, row, deleted_at(t, c)) && after.cursor == c,
        KeyCode::Left => after.draft == before.draft && after.cursor == (if c == 0 {
            0
        } else {
            c - 1
        }),
        KeyCode::Right => after.draft == before.draft && after.cursor == (if c + 1 < t.len() {
            c + 1
        } else {
            t.len() as int
        }),
        KeyCode::Home => after.draft == before.draft && after.cursor == 0,
        KeyCode::End => after.draft == before.draft && after.cursor == t.len(),
        _ => after == before,
    }
}

fn edit_editor(e: &mut IdentityEditor, code: KeyCode)
    requires
        old(e).focus < EDITOR_FIELDS,
        old(e).focus != SIGN_ROW,
        old(e).cursor < usize::MAX,
    ensures
        editor_edited(*final(e), *old(e), code),
{
    let row = e.focus;
    let len = editor_text_of(&e.draft, row).unicode_len();
    match code {
        KeyCode::Char(ch) => {
            let mut chars = chars_of(editor_text_of(&e.draft, row));
            let at = if e.cursor < chars.len() {
                e.cursor
            } else {
                chars.len()
            };
            chars.insert(at, ch);
            set_editor_text(&mut e.draft, row, string_of(&chars));
            e.cursor = e.cursor + 1;
        },
        KeyCode::Backspace => {
            if e.cursor > 0 {
                let mut chars = chars_of(editor_text_of(&e.draft, row));
                let at = e.cursor - 1;
                if at < chars.len() {
                    chars.remove(at);
                    set_editor_text(&mut e.draft, row, string_of(&chars));
                } else {
                    let same = string_of(&chars);
                    set_editor_text(&mut e.draft, row, same);
                }
                e.cursor = at;
            }
        },
        KeyCode::Delete => {
            let mut chars = chars_of(editor_text_of(&e.draft, row));
            if e.cursor < chars.len() {
                chars.remove(e.cursor);
            }
            set_editor_text(&mut e.draft, row, string_of(&chars));
        },
        KeyCode::Left => {
            if e.cursor > 0 {
                e.cursor = e.cursor - 1;
            }
        },
        KeyCode::Right => {
            e.cursor = if e.cursor + 1 < len {
                e.cursor + 1
            } else {
                len
            };
        },
        KeyCode::Home => e.cursor = 0,
        KeyCode::End => e.cursor = len,
        _ => {},
    }
}

impl AccountFormState {
    /// Opens the identity list, seeding one blank identity when the
    /// account has none.
    pub fn open_identity_list(&mut self)
        ensures
            final(self).identity_ui == Some(IdentityUi::List { selected: 0 }),
            old(self).identities@.len() == 0 ==> final(self).identities@.len() == 1,
            old(self).identities@.len() > 0 ==> final(self).identities == old(self).identities,
            identity_ui_wf(final(self).identities@, final(self).identity_ui),
    {
        if self.identities.len() == 0 {
            self.identities.push(FormIdentity::blank());
        }
        self.identity_ui = Some(IdentityUi::List { selected: 0 });
    }

    fn set_selected(&mut self, value: usize)
        ensures
            (old(self).identity_ui matches Some(IdentityUi::List { .. })) ==> final(self).identity_ui == Some(IdentityUi::List { selected: value }),
            !(old(self).identity_ui matches Some(IdentityUi::List { .. })) ==> final(self).identity_ui == old(self).identity_ui,
            final(self).identities == old(self).identities,
    {
        if let Some(IdentityUi::List { .. }) = &self.identity_ui {
            self.identity_ui = Some(IdentityUi::List { selected: value });
        }
    }

    /// Opens the editor on the identity at `target`, or on a fresh one;
    /// a blank from address defaults to the account's address.
    pub fn open_editor(&mut self, target: Option<usize>, origin: usize)
        requires
            target matches Some(t) ==> t < old(self).identities@.len(),
            old(self).identities@.len() > 0,
        ensures
            final(self).identities == old(self).identities,
            final(self).identity_ui matches Some(IdentityUi::Edit(e)) && e.target == target && e.origin
                == origin && e.focus == 0 && e.cursor == e.draft.from_name@.len() && ({
                let base = match target {
                    Some(t) => old(self).identities@[t as int],
                    None => e.draft,
                };
                &&& e.draft.from_name == base.from_name
                &&& e.draft.pgp_key == base.pgp_key
                &&& e.draft.pgp_sign == base.pgp_sign
                &&& e.draft.signature == base.signature
                &&& e.draft.matches == base.matches
                &&& (target is None ==> e.draft.from_name@.len() == 0 && e.draft.pgp_key@.len() == 0
                    && !e.draft.pgp_sign && e.draft.signature@.len() == 0 && e.draft.matches@.len() == 0)
                &&& e.draft.address@ == (if trim(base.address@).len() == 0 || target is None {
                    old(self).address@
                } else {
                    base.address@
                })
            }),
            identity_ui_wf(final(self).identities@, final(self).identity_ui),
    {
        let mut draft = match target {
            Some(index) => copy_identity(&self.identities[index]),
            None => FormIdentity::blank(),
        };
        if trimmed(&chars_of(draft.address.as_str())).len() == 0 {
            draft.address = self.address.clone();
        }
        let cursor = draft.from_name.as_str().unicode_len();
        self.identity_ui = Some(IdentityUi::Edit(IdentityEditor { target, origin, draft, focus: 0, cursor }));
    }

    /// Removes the identity at `selected`, keeping the selection in
    /// range; the last identity is never removed, since a compose needs
    /// a From.
    pub fn remove_identity(&mut self, selected: usize)
        requires
            selected < old(self).identities@.len(),
        ensures
            old(self).identities@.len() <= 1 ==> *final(self) == *old(self),
            old(self).identities@.len() > 1 ==> final(self).identities@ == old(self).identities@.remove(
                selected as int,
            ) && ((old(self).identity_ui matches Some(IdentityUi::List { .. })) ==> final(self).identity_ui == Some(
                IdentityUi::List {
                    selected: if selected < final(self).identities@.len() - 1 {
                        selected
                    } else {
                        (final(self).identities@.len() - 1) as usize
                    },
                },
            )),
    {
        if self.identities.len() <= 1 {
            return;
        }
        self.identities.remove(selected);
        let last = self.identities.len() - 1;
        self.set_selected(if selected < last {
            selected
        } else {
            last
        });
    }

    /// Saves the editor's draft into its slot, or appends it, and goes
    /// back to the list with it selected.
    pub fn commit_identity(&mut self)
        requires
            identity_ui_wf(old(self).identities@, old(self).identity_ui),
        ensures
            match old(self).identity_ui {
                Some(IdentityUi::Edit(e)) => match e.target {
                    Some(t) => final(self).identities@ == old(self).identities@.update(t as int, e.draft)
                        && final(self).identity_ui == Some(IdentityUi::List { selected: t }),
                    None => final(self).identities@ == old(self).identities@.push(e.draft)
                        && final(self).identity_ui == Some(
                        IdentityUi::List { selected: old(self).identities@.len() as usize },
                    ),
                },
                _ => *final(self) == *old(self),
            },
            identity_ui_wf(final(self).identities@, final(self).identity_ui),
    {
        let ui = self.identity_ui.take();
        match ui {
            Some(IdentityUi::Edit(editor)) => {
                let selected = match editor.target {
                    Some(index) => {
                        self.identities.set(index, editor.draft);
                        index
                    },
                    None => {
                        self.identities.push(editor.draft);
                        self.identities.len() - 1
                    },
                };
                self.identity_ui = Some(IdentityUi::List { selected });
            },
            other => {
                self.identity_ui = other;
            },
        }
    }

    /// Leaves the editor without saving, back to the list at the
    /// selection it was opened from.
    pub fn close_editor(&mut self)
        ensures
            final(self).identities == old(self).identities,
            match old(self).identity_ui {
                Some(IdentityUi::Edit(e)) => final(self).identity_ui == Some(
                    IdentityUi::List {
                        selected: if old(self).identities@.len() == 0 {
                            0
                        } else if e.origin < old(self).identities@.len() - 1 {
                            e.origin
                        } else {
                            (old(self).identities@.len() - 1) as usize
                        },
                    },
                ),
                _ => final(self).identity_ui == old(self).identity_ui,
            },
    {
        let origin = match &self.identity_ui {
            Some(IdentityUi::Edit(editor)) => editor.origin,
            _ => return,
        };
        let last = if self.identities.len() > 0 {
            self.identities.len() - 1
        } else {
            0
        };
        self.identity_ui = Some(IdentityUi::List { selected: if origin < last {
            origin
        } else {
            last
        } });
    }

    /// A key on the identity list: up and down move, `a` adds, `e` or
    /// enter edits, `d` or `x` removes, esc closes.
    pub fn list_key(&mut self, code: KeyCode)
        requires
            identity_ui_wf(old(self).identities@, old(self).identity_ui),
        ensures
            identity_ui_wf(final(self).identities@, final(self).identity_ui),
            !(old(self).identity_ui matches Some(IdentityUi::List { .. })) ==> *final(self) == *old(self),
            old(self).identity_ui matches Some(IdentityUi::List { selected }) ==> match code {
                KeyCode::Esc => final(self).identity_ui is None && final(self).identities == old(self).identities,
                KeyCode::Up | KeyCode::BackTab => final(self).identities == old(self).identities
                    && final(self).identity_ui == Some(IdentityUi::List { selected: if selected == 0 {
                        0
                    } else {
                        (selected - 1) as usize
                    } }),
                KeyCode::Down | KeyCode::Tab => final(self).identities == old(self).identities
                    && final(self).identity_ui == Some(IdentityUi::List { selected: if selected + 1 < old(self).identities@.len() {
                        (selected + 1) as usize
                    } else {
                        (old(self).identities@.len() - 1) as usize
                    } }),
                KeyCode::Char('a') => final(self).identities == old(self).identities
                    && (final(self).identity_ui matches Some(IdentityUi::Edit(e)) && e.target is None && e.origin == selected),
                KeyCode::Char('e') | KeyCode::Enter => final(self).identities == old(self).identities
                    && (final(self).identity_ui matches Some(IdentityUi::Edit(e)) && e.target == Some(selected) && e.origin == selected),
                KeyCode::Char('d') | KeyCode::Char('x') => if old(self).identities@.len() > 1 {
                    final(self).identities@ == old(self).identities@.remove(selected as int)
                } else {
                    *final(self) == *old(self)
                },
                _ => *final(self) == *old(self),
            },
    {
        let selected = match &self.identity_ui {
            Some(IdentityUi::List { selected }) => *selected,
            _ => return,
        };
        let last = self.identities.len() - 1;
        match code {
            KeyCode::Esc => self.identity_ui = None,
            KeyCode::Up | KeyCode::BackTab => self.set_selected(if selected == 0 {
                0
            } else {
                selected - 1
            }),
            KeyCode::Down | KeyCode::Tab => self.set_selected(if selected < last {
                selected + 1
            } else {
                last
            }),
            KeyCode::Char('a') => self.open_editor(None, selected),
            KeyCode::Char('e') | KeyCode::Enter => self.open_editor(Some(selected), selected),
            KeyCode::Char('d') | KeyCode::Char('x') => self.remove_identity(selected),
            _ => {},
        }
    }

    /// A key in the identity editor: control-s saves, esc cancels, tab
    /// and the arrows move between rows, enter moves on or saves from
    /// the last row; space and the side arrows flip auto-sign, and
    /// every other key edits the focused row.
    pub fn editor_key(&mut self, key: KeyPress)
        requires
            identity_ui_wf(old(self).identities@, old(self).identity_ui),
            old(self).identity_ui matches Some(IdentityUi::Edit(e)) ==> e.cursor < usize::MAX,
        ensures
            identity_ui_wf(final(self).identities@, final(self).identity_ui),
            !(old(self).identity_ui matches Some(IdentityUi::Edit(_))) ==> *final(self) == *old(self),
            old(self).identity_ui matches Some(IdentityUi::Edit(e)) ==> {
                if key.control {
                    if key.code == KeyCode::Char('s') {
                        (final(self).identity_ui matches Some(IdentityUi::List { .. }))
                    } else {
                        *final(self) == *old(self)
                    }
                } else {
                    match key.code {
                        KeyCode::Esc => (final(self).identity_ui matches Some(IdentityUi::List { .. })) && final(self).identities == old(self).identities,
                        KeyCode::Tab | KeyCode::Down => final(self).identities == old(self).identities
                            && (final(self).identity_ui matches Some(IdentityUi::Edit(f)) && f.draft == e.draft
                            && f.focus == wrapped_spec(e.focus as int, EDITOR_FIELDS as int, 1)
                            && f.cursor == editor_value(f.draft, f.focus as int).len()),
                        KeyCode::BackTab | KeyCode::Up => final(self).identities == old(self).identities
                            && (final(self).identity_ui matches Some(IdentityUi::Edit(f)) && f.draft == e.draft
                            && f.focus == wrapped_spec(e.focus as int, EDITOR_FIELDS as int, -1)
                            && f.cursor == editor_value(f.draft, f.focus as int).len()),
                        KeyCode::Enter => if e.focus == EDITOR_FIELDS - 1 {
                            (final(self).identity_ui matches Some(IdentityUi::List { .. }))
                        } else {
                            final(self).identities == old(self).identities
                                && (final(self).identity_ui matches Some(IdentityUi::Edit(f)) && f.focus == e.focus + 1)
                        },
                        code => final(self).identities == old(self).identities && (final(self).identity_ui
                            matches Some(IdentityUi::Edit(f)) && if e.focus == SIGN_ROW {
                            if code == KeyCode::Left || code == KeyCode::Right || code == KeyCode::Char(' ') {
                                f == IdentityEditor { draft: FormIdentity { pgp_sign: !e.draft.pgp_sign, ..e.draft }, ..e }
                            } else {
                                f == e
                            }
                        } else {
                            editor_edited(f, e, code)
                        }),
                    }
                }
            },
    {
        match &self.identity_ui {
            Some(IdentityUi::Edit(_)) => {},
            _ => return,
        }
        if key.control {
            if key.code == KeyCode::Char('s') {
                self.commit_identity();
            }
            return;
        }
        match key.code {
            KeyCode::Esc => self.close_editor(),
            KeyCode::Tab | KeyCode::Down => self.editor_step(1),
            KeyCode::BackTab | KeyCode::Up => self.editor_step(-1),
            KeyCode::Enter => {
                let focus = match &self.identity_ui {
                    Some(IdentityUi::Edit(e)) => e.focus,
                    _ => return,
                };
                if focus == EDITOR_FIELDS - 1 {
                    self.commit_identity();
                } else {
                    self.editor_step(1);
                }
            },
            code => self.editor_field_key(code),
        }
    }

    fn editor_step(&mut self, step: i32)
        requires
            old(self).identity_ui matches Some(IdentityUi::Edit(e)) && e.focus < EDITOR_FIELDS,
        ensures
            final(self).identities == old(self).identities,
            old(self).identity_ui matches Some(IdentityUi::Edit(e)) ==> (final(self).identity_ui matches Some(
                IdentityUi::Edit(f),
            ) && f.draft == e.draft && f.target == e.target && f.origin == e.origin && f.focus == wrapped_spec(
                e.focus as int,
                EDITOR_FIELDS as int,
                step as int,
            ) && f.cursor == editor_value(f.draft, f.focus as int).len()),
    {
        let ui = self.identity_ui.take();
        match ui {
            Some(IdentityUi::Edit(mut editor)) => {
                editor.focus = wrapped(editor.focus, EDITOR_FIELDS, step);
                editor.cursor = editor_value_len(&editor.draft, editor.focus);
                self.identity_ui = Some(IdentityUi::Edit(editor));
            },
            other => {
                self.identity_ui = other;
            },
        }
    }

    fn editor_field_key(&mut self, code: KeyCode)
        requires
            old(self).identity_ui matches Some(IdentityUi::Edit(e)) && e.focus < EDITOR_FIELDS && e.cursor < usize::MAX,
        ensures
            final(self).identities == old(self).identities,
            old(self).identity_ui matches Some(IdentityUi::Edit(e)) ==> (final(self).identity_ui matches Some(
                IdentityUi::Edit(f),
            ) && if e.focus == SIGN_ROW {
                if code == KeyCode::Left || code == KeyCode::Right || code == KeyCode::Char(' ') {
                    f == IdentityEditor { draft: FormIdentity { pgp_sign: !e.draft.pgp_sign, ..e.draft }, ..e }
                } else {
                    f == e
                }
            } else {
                editor_edited(f, e, code)
            }),
    {
        let ui = self.identity_ui.take();
        match ui {
            Some(IdentityUi::Edit(mut editor)) => {
                if editor.focus == SIGN_ROW {
                    match code {
                        KeyCode::Left | KeyCode::Right | KeyCode::Char(' ') => {
                            editor.draft.pgp_sign = !editor.draft.pgp_sign;
                        },
                        _ => {},
                    }
                } else {
                    edit_editor(&mut editor, code);
                }
                self.identity_ui = Some(IdentityUi::Edit(editor));
            },
            other => {
                self.identity_ui = other;
            },
        }
    }
}

} // verus!
