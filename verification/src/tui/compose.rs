//! A compose in flight, across the fields stage, the body editor and
//! the review screen: the identity it sends as, the header fields, the
//! attachments and their selection, and the OpenPGP plan.
use vstd::prelude::*;

use crate::text::{append_str, chars_of, in_set, string_of, trim, trimmed, wrapped, wrapped_spec};
use crate::tui::compose_assembly::Outgoing;
use crate::tui::attach::Attachment;
use crate::tui::complete::{Completion, Contact};
use crate::tui::crypto::{ComposeCrypto, PgpPlan};
use crate::tui::drafts::{DraftFields, SavedDraft};
use crate::tui::headers::{
    label_cell, padded_label, row_label, with_cursor, with_cursor_of, HeaderFields, HeadersOutcome, LAST_FIELD,
};
use crate::tui::identity::ComposeIdentity;
use crate::tui::keys::KeyPress;

verus! {

broadcast use vstd::string::group_string_axioms;

/// One entry the From field can cycle to: a configured identity and
/// the account it sends through.
#[derive(Clone, Debug, PartialEq, Eq)]
pub struct IdentityChoice {
    pub account: String,
    pub identity: ComposeIdentity,
}

/// A compose in flight.
#[derive(Debug)]
pub struct ComposeState {
    pub choices: Vec<IdentityChoice>,
    pub chosen: usize,
    pub fields: HeaderFields,
    pub body: String,
    pub in_reply_to: Option<String>,
    pub references: Vec<String>,
    pub sign_override: Option<bool>,
    pub encrypt_override: Option<bool>,
    /// Whether the outgoing message asks for a read receipt; off by
    /// default.
    pub read_receipt: bool,
    pub attachments: Vec<Attachment>,
    pub selected_attachment: usize,
    pub reviewed: bool,
    pub contacts: Vec<Contact>,
    pub completion: Option<Completion>,
    pub forwarded_of: Option<(String, String)>,
    /// Unix time at or after which the message may send; none sends at
    /// the next outbox drain.
    pub schedule: Option<u64>,
}

/// The selection after removing the selected attachment of `len`: the
/// same index, clamped to the new last one.
pub open spec fn selection_after_removal(selected: int, len: int) -> int {
    let last = if len - 1 > 0 {
        len - 2
    } else {
        0
    };
    if selected < last {
        selected
    } else {
        last
    }
}

impl ComposeState {
    /// A compose for the fields stage.
    pub fn new(choices: Vec<IdentityChoice>, chosen: usize, fields: DraftFields, overrides: (Option<bool>, Option<bool>)) -> (r: ComposeState)
        ensures
            r.choices == choices,
            r.chosen == chosen,
            r.fields.texts() == seq![fields.to@, fields.cc@, fields.bcc@, fields.subject@],
            r.fields.focus == 0,
            r.body == fields.body,
            r.in_reply_to == fields.in_reply_to,
            r.references == fields.references,
            r.sign_override == overrides.0,
            r.encrypt_override == overrides.1,
            !r.read_receipt,
            r.attachments@.len() == 0,
            r.selected_attachment == 0,
            !r.reviewed,
            r.contacts@.len() == 0,
            r.completion is None,
            r.forwarded_of is None,
            r.schedule is None,
    {
        let header_fields = HeaderFields::from_draft(&fields);
        ComposeState {
            choices,
            chosen,
            fields: header_fields,
            body: fields.body,
            in_reply_to: fields.in_reply_to,
            references: fields.references,
            sign_override: overrides.0,
            encrypt_override: overrides.1,
            read_receipt: false,
            attachments: Vec::new(),
            selected_attachment: 0,
            reviewed: false,
            contacts: Vec::new(),
            completion: None,
            forwarded_of: None,
            schedule: None,
        }
    }

    /// Attaches a file and selects it.
    pub fn add_attachment(&mut self, attachment: Attachment)
        ensures
            final(self).attachments@ == old(self).attachments@.push(attachment),
            final(self).selected_attachment == old(self).attachments@.len(),
    {
        self.attachments.push(attachment);
        self.selected_attachment = self.attachments.len() - 1;
    }

    /// Removes the selected attachment, if the selection is in range,
    /// keeping the selection on the same index or the new last one.
    pub fn remove_selected_attachment(&mut self)
        ensures
            *final(self) == (ComposeState {
                attachments: final(self).attachments,
                selected_attachment: final(self).selected_attachment,
                ..*old(self)
            }),
            old(self).selected_attachment >= old(self).attachments@.len() ==> final(self).attachments
                == old(self).attachments && final(self).selected_attachment
                == old(self).selected_attachment,
            old(self).selected_attachment < old(self).attachments@.len() ==> final(self).attachments@
                == old(self).attachments@.remove(old(self).selected_attachment as int)
                && final(self).selected_attachment == selection_after_removal(
                old(self).selected_attachment as int,
                old(self).attachments@.len() as int,
            ),
    {
        if self.selected_attachment >= self.attachments.len() {
            return;
        }
        self.attachments.remove(self.selected_attachment);
        let last = if self.attachments.len() > 0 {
            self.attachments.len() - 1
        } else {
            0
        };
        if self.selected_attachment > last {
            self.selected_attachment = last;
        }
    }

    /// Moves the attachment selection by `step`, wrapping at both ends.
    pub fn select_attachment(&mut self, step: i32)
        requires
            old(self).attachments@.len() <= i32::MAX,
            old(self).selected_attachment <= i32::MAX,
        ensures
            *final(self) == (ComposeState { selected_attachment: final(self).selected_attachment, ..*old(self) }),
            final(self).selected_attachment == (if old(self).attachments@.len() == 0 {
                old(self).selected_attachment as int
            } else {
                wrapped_spec(
                    old(self).selected_attachment as int,
                    old(self).attachments@.len() as int,
                    step as int,
                )
            }),
    {
        let count = self.attachments.len();
        if count == 0 {
            return;
        }
        self.selected_attachment = wrapped(self.selected_attachment, count, step);
    }

    /// The identity the compose sends as.
    pub fn identity(&self) -> (r: &ComposeIdentity)
        requires
            self.chosen < self.choices@.len(),
        ensures
            *r == self.choices@[self.chosen as int].identity,
    {
        &self.choices[self.chosen].identity
    }

    /// The account the compose sends through.
    pub fn account(&self) -> (r: &str)
        requires
            self.chosen < self.choices@.len(),
        ensures
            r@ == self.choices@[self.chosen as int].account@,
    {
        self.choices[self.chosen].account.as_str()
    }

    /// The seal plan as it stands: the identity's signing default and
    /// no encryption, unless overridden.
    pub open spec fn plan_spec(self) -> PgpPlan {
        PgpPlan {
            sign: match self.sign_override {
                Some(s) => s,
                None => self.choices@[self.chosen as int].identity.pgp_sign,
            },
            encrypt: match self.encrypt_override {
                Some(e) => e,
                None => false,
            },
        }
    }

    pub fn plan(&self) -> (r: PgpPlan)
        requires
            self.chosen < self.choices@.len(),
        ensures
            r == self.plan_spec(),
    {
        let sign = match self.sign_override {
            Some(s) => s,
            None => self.identity().pgp_sign,
        };
        let encrypt = match self.encrypt_override {
            Some(e) => e,
            None => false,
        };
        PgpPlan { sign, encrypt }
    }

    /// What sealing the compose needs: the plan and the identity's key
    /// and address.
    pub fn crypto(&self) -> (r: ComposeCrypto)
        requires
            self.chosen < self.choices@.len(),
        ensures
            r.plan == self.plan_spec(),
            r.key == self.choices@[self.chosen as int].identity.pgp_key,
            r.address == self.choices@[self.chosen as int].identity.address,
    {
        let identity = self.identity();
        let key = match &identity.pgp_key {
            Some(k) => Some(k.clone()),
            None => None,
        };
        ComposeCrypto { plan: self.plan(), key, address: identity.address.clone() }
    }

    /// Cycles the From identity by `step`, wrapping through the choices.
    pub fn cycle_from(&mut self, step: i32)
        requires
            0 < old(self).choices@.len() <= i32::MAX,
            old(self).chosen <= i32::MAX,
        ensures
            final(self).chosen == wrapped_spec(old(self).chosen as int, old(self).choices@.len() as int, step as int),
            final(self).choices == old(self).choices,
            final(self).chosen < final(self).choices@.len(),
            *final(self) == (ComposeState { chosen: final(self).chosen, ..*old(self) }),
    {
        self.chosen = wrapped(self.chosen, self.choices.len(), step);
    }

    /// The From line: `Name <address>`, or the bare address.
    pub fn sender_line(&self) -> (r: String)
        requires
            self.chosen < self.choices@.len(),
        ensures
            ({
                let id = self.choices@[self.chosen as int].identity;
                r@ == match id.name {
                    Some(n) => n@ + " <"@ + id.address@ + ">"@,
                    None => id.address@,
                }
            }),
    {
        let identity = self.identity();
        match &identity.name {
            Some(name) => {
                let mut out = chars_of(name.as_str());
                append_str(&mut out, " <");
                append_str(&mut out, identity.address.as_str());
                append_str(&mut out, ">");
                string_of(&out)
            },
            None => identity.address.clone(),
        }
    }

    /// A key on the fields stage: text editing, or an identity cycle
    /// when From has the focus.
    pub fn edit(&mut self, key: KeyPress) -> (r: HeadersOutcome)
        requires
            old(self).choices@.len() <= i32::MAX,
            old(self).chosen < old(self).choices@.len(),
            old(self).fields.focus < crate::tui::headers::FIELD_COUNT,
            old(self).fields.cursor < usize::MAX,
        ensures
            final(self).choices == old(self).choices,
            final(self).chosen < final(self).choices@.len(),
            r matches HeadersOutcome::CycleFrom(step) ==> final(self).chosen == wrapped_spec(
                old(self).chosen as int,
                old(self).choices@.len() as int,
                step as int,
            ),
            !(r is CycleFrom) ==> final(self).chosen == old(self).chosen,
            final(self).fields.fed(old(self).fields, key, r),
            *final(self) == (ComposeState { fields: final(self).fields, chosen: final(self).chosen, ..*old(self) }),
    {
        let outcome = self.fields.feed(key);
        match outcome {
            HeadersOutcome::CycleFrom(step) => self.cycle_from(step),
            _ => {},
        }
        outcome
    }

    /// Moves the header focus.
    pub fn step_focus(&mut self, step: i32)
        requires
            old(self).fields.focus <= i32::MAX,
        ensures
            final(self).fields.focused_after(old(self).fields, step as int),
            final(self).choices == old(self).choices,
            final(self).chosen == old(self).chosen,
    {
        self.fields.step_focus(step);
    }

    /// Whether the focus sits on the last header field.
    pub fn at_last_field(&self) -> (r: bool)
        ensures
            r == (self.fields.focus == LAST_FIELD),
    {
        self.fields.focus == LAST_FIELD
    }

    /// Dismisses the suggestions.
    pub fn close_completion(&mut self)
        ensures
            final(self).completion is None,
            final(self).choices == old(self).choices,
            final(self).chosen == old(self).chosen,
    {
        self.completion = None;
    }
}

/// The identity choices a compose offers and the one selected: every
/// configured identity, with the wanted one selected where it is
/// configured, and put first when it is not.
pub open spec fn chooses(
    configured: Seq<IdentityChoice>,
    account: Seq<char>,
    identity: ComposeIdentity,
    r: Seq<IdentityChoice>,
    chosen: int,
) -> bool {
    match crate::text::first_index(configured, |c: IdentityChoice| c.account@ == account && c.identity.address@ == identity.address@) {
        Some(i) => r == configured && chosen == i,
        None => chosen == 0 && r.len() == configured.len() + 1 && r.skip(1) == configured && r[0].account@
            == account && r[0].identity == identity,
    }
}

fn copy_text(o: &Option<String>) -> (r: Option<String>)
    ensures
        r == *o,
{
    match o {
        Some(s) => Some(s.clone()),
        None => None,
    }
}

/// A copy of an identity, field for field.
pub fn copy_identity(identity: &ComposeIdentity) -> (r: ComposeIdentity)
    ensures
        r == *identity,
{
    ComposeIdentity {
        name: copy_text(&identity.name),
        address: identity.address.clone(),
        signature: copy_text(&identity.signature),
        pgp_sign: identity.pgp_sign,
        pgp_key: copy_text(&identity.pgp_key),
    }
}

/// Every configured identity to cycle through, the wanted one selected,
/// added as a one-off choice when it is no longer configured.
pub fn choices_for(configured: Vec<IdentityChoice>, account: &str, identity: &ComposeIdentity) -> (r: (Vec<IdentityChoice>, usize))
    ensures
        chooses(configured@, account@, *identity, r.0@, r.1 as int),
        r.1 < r.0@.len(),
{
    let ghost p = |c: IdentityChoice| c.account@ == account@ && c.identity.address@ == identity.address@;
    let mut i: usize = 0;
    while i < configured.len()
        invariant
            i <= configured.len(),
            p == (|c: IdentityChoice| c.account@ == account@ && c.identity.address@ == identity.address@),
            forall|j: int| 0 <= j < i ==> !p(#[trigger] configured@[j]),
        decreases configured.len() - i,
    {
        let c = &configured[i];
        if crate::text::str_eq(c.account.as_str(), account) && crate::text::str_eq(c.identity.address.as_str(), identity.address.as_str()) {
            proof {
                crate::text::lemma_first_index_is(configured@, p, i as int);
            }
            return (configured, i);
        }
        i = i + 1;
    }
    proof {
        crate::text::lemma_first_index_is(configured@, p, i as int);
    }
    let ghost before = configured@;
    let mut all = configured;
    let choice = IdentityChoice { account: account.to_owned(), identity: copy_identity(identity) };
    all.insert(0, choice);
    assert(all@.skip(1) =~= before);
    (all, 0)
}

/// Whether a choice sends as `address` through `account`.
pub open spec fn sends_as(account: Seq<char>, address: Seq<char>) -> spec_fn(IdentityChoice) -> bool {
    |c: IdentityChoice| c.account@ == account && c.identity.address@ == address
}

/// The identity a resumed draft composes as: the configured one of the
/// draft's account with the draft's address, or, when that is no
/// longer configured, a one-off identity with the draft's name and
/// address.
pub fn resume_identity(configured: &Vec<IdentityChoice>, draft: &SavedDraft) -> (r: ComposeIdentity)
    ensures
        match crate::text::first_index(configured@, sends_as(draft.account@, draft.from@)) {
            Some(i) => r == configured@[i].identity,
            None => r.name == draft.from_name && r.address@ == draft.from@ && r.signature is None && !r.pgp_sign
                && r.pgp_key is None,
        },
{
    let ghost p = sends_as(draft.account@, draft.from@);
    let mut i: usize = 0;
    while i < configured.len()
        invariant
            i <= configured.len(),
            p == sends_as(draft.account@, draft.from@),
            forall|j: int| 0 <= j < i ==> !p(#[trigger] configured@[j]),
        decreases configured.len() - i,
    {
        let c = &configured[i];
        if crate::text::str_eq(c.account.as_str(), draft.account.as_str()) && crate::text::str_eq(
            c.identity.address.as_str(),
            draft.from.as_str(),
        ) {
            proof {
                crate::text::lemma_first_index_is(configured@, p, i as int);
            }
            return copy_identity(&c.identity);
        }
        i = i + 1;
    }
    proof {
        crate::text::lemma_first_index_is(configured@, p, i as int);
    }
    ComposeIdentity {
        name: copy_text(&draft.from_name),
        address: draft.from.clone(),
        signature: None,
        pgp_sign: false,
        pgp_key: None,
    }
}

/// A saved draft reopened on the fields stage: every configured
/// identity to cycle through with the draft's selected (a From no
/// longer configured still cycles as a one-off choice), the draft's
/// fields, and its saved sign and encrypt plan, which wins over any
/// armed toggles. Its attachments are loaded by the caller.
pub fn resumed_compose(configured: Vec<IdentityChoice>, draft: SavedDraft) -> (r: ComposeState)
    ensures
        r.chosen < r.choices@.len(),
        match crate::text::first_index(configured@, sends_as(draft.account@, draft.from@)) {
            Some(i) => r.choices@ == configured@ && r.chosen == i,
            None => r.chosen == 0 && r.choices@.skip(1) == configured@ && r.choices@[0].account@ == draft.account@
                && r.choices@[0].identity.name == draft.from_name && r.choices@[0].identity.address@ == draft.from@
                && r.choices@[0].identity.signature is None && !r.choices@[0].identity.pgp_sign
                && r.choices@[0].identity.pgp_key is None,
        },
        r.fields.texts() == seq![draft.fields.to@, draft.fields.cc@, draft.fields.bcc@, draft.fields.subject@],
        r.body == draft.fields.body,
        r.in_reply_to == draft.fields.in_reply_to,
        r.references == draft.fields.references,
        r.sign_override == draft.sign,
        r.encrypt_override == draft.encrypt,
        r.attachments@.len() == 0,
{
    let identity = resume_identity(&configured, &draft);
    let ghost before = configured@;
    let (choices, chosen) = choices_for(configured, draft.account.as_str(), &identity);
    proof {
        let p = |c: IdentityChoice| c.account@ == draft.account@ && c.identity.address@ == identity.address@;
        let q = sends_as(draft.account@, draft.from@);
        match crate::text::first_index(before, q) {
            Some(i) => {
                crate::text::lemma_first_index(before, q);
                assert(identity.address@ == draft.from@);
            },
            None => {},
        }
        assert(p =~= q);
    }
    let SavedDraft { from_name: _, from: _, account: _, fields, sign, encrypt, attachments: _ } = draft;
    ComposeState::new(choices, chosen, fields, (sign, encrypt))
}

/// The From row's text: `Name <address>`, or the bare address.
pub open spec fn sender_text(s: ComposeState) -> Seq<char> {
    let id = s.choices@[s.chosen as int].identity;
    match id.name {
        Some(n) => n@ + " <"@ + id.address@ + ">"@,
        None => id.address@,
    }
}

/// The value shown on header row `row`.
pub open spec fn row_value(s: ComposeState, row: int) -> Seq<char> {
    if row < 4 {
        s.fields.texts()[row]
    } else {
        sender_text(s)
    }
}

/// Header row `row` as text: the label in its column, then the value,
/// with the cursor drawn on the focused row.
pub open spec fn row_text(s: ComposeState, row: int, focused: bool) -> Seq<char> {
    label_cell(row_label(row)) + if focused && row == s.fields.focus {
        with_cursor_of(row_value(s, row), s.fields.cursor as int)
    } else {
        row_value(s, row)
    }
}

impl ComposeState {
    /// The five header rows, shared by the fields stage (with focus
    /// and cursor) and the summary above the body editor.
    pub fn field_texts(&self, focused: bool) -> (r: Vec<String>)
        requires
            self.chosen < self.choices@.len(),
        ensures
            r@.len() == 5,
            forall|i: int| 0 <= i < 5 ==> #[trigger] r@[i]@ == row_text(*self, i, focused),
    {
        let sender = self.sender_line();
        let mut r: Vec<String> = Vec::new();
        let mut i: usize = 0;
        while i < 5
            invariant
                i <= 5,
                r@.len() == i,
                self.chosen < self.choices@.len(),
                sender@ == sender_text(*self),
                forall|j: int| 0 <= j < i ==> #[trigger] r@[j]@ == row_text(*self, j, focused),
            decreases 5 - i,
        {
            let label = if i == 0 {
                "To:"
            } else if i == 1 {
                "Cc:"
            } else if i == 2 {
                "Bcc:"
            } else if i == 3 {
                "Subject:"
            } else {
                "From:"
            };
            let value: &str = if i == 0 {
                self.fields.to.as_str()
            } else if i == 1 {
                self.fields.cc.as_str()
            } else if i == 2 {
                self.fields.bcc.as_str()
            } else if i == 3 {
                self.fields.subject.as_str()
            } else {
                sender.as_str()
            };
            assert(value@ == row_value(*self, i as int));
            let mut line = padded_label(label);
            if focused && i == self.fields.focus {
                let shown = with_cursor(value, self.fields.cursor);
                append_str(&mut line, shown.as_str());
            } else {
                append_str(&mut line, value);
            }
            r.push(string_of(&line));
            i = i + 1;
        }
        r
    }
}

/// `o` is the compose `s` as it stands, with `to`, `cc` and `bcc` the
/// entries read from its three recipient fields: the chosen identity's
/// name and address, the subject trimmed, the threading headers, the
/// body and the read-receipt flag carried across.
pub open spec fn outgoing_as(o: Outgoing, s: ComposeState, to: Seq<String>, cc: Seq<String>, bcc: Seq<String>) -> bool {
    let id = s.choices@[s.chosen as int].identity;
    &&& o.from_name == id.name
    &&& o.from == id.address
    &&& o.to@ == to
    &&& o.cc@ == cc
    &&& o.bcc@ == bcc
    &&& o.subject@ == trim(s.fields.subject@)
    &&& o.in_reply_to == s.in_reply_to
    &&& o.references@ == s.references@
    &&& o.body == s.body
    &&& o.read_receipt == s.read_receipt
}

fn copy_strings(v: &Vec<String>) -> (r: Vec<String>)
    ensures
        r@ == v@,
{
    let mut out: Vec<String> = Vec::new();
    let mut i: usize = 0;
    while i < v.len()
        invariant
            i <= v@.len(),
            out@ == v@.take(i as int),
        decreases v@.len() - i,
    {
        out.push(v[i].clone());
        assert(out@ =~= v@.take(i + 1));
        i = i + 1;
    }
    assert(v@.take(v@.len() as int) =~= v@);
    out
}

impl ComposeState {
    /// The compose exactly as it stands, unvalidated: a draft may lack
    /// recipients and still deserves saving. `to`, `cc` and `bcc` are
    /// the entries read from the recipient fields.
    pub fn draft_outgoing(&self, to: Vec<String>, cc: Vec<String>, bcc: Vec<String>) -> (r: Outgoing)
        requires
            self.chosen < self.choices@.len(),
        ensures
            outgoing_as(r, *self, to@, cc@, bcc@),
    {
        let identity = self.identity();
        Outgoing {
            from_name: copy_text(&identity.name),
            from: identity.address.clone(),
            to,
            cc,
            bcc,
            subject: string_of(&trimmed(&chars_of(self.fields.subject.as_str()))),
            in_reply_to: copy_text(&self.in_reply_to),
            references: copy_strings(&self.references),
            body: self.body.clone(),
            read_receipt: self.read_receipt,
        }
    }

    /// The compose validated for sending: the From address must be a
    /// full one, and To must name someone.
    pub fn outgoing(&self, to: Vec<String>, cc: Vec<String>, bcc: Vec<String>) -> (r: Result<Outgoing, String>)
        requires
            self.chosen < self.choices@.len(),
        ensures
            ({
                let from = self.choices@[self.chosen as int].identity.address@;
                &&& !from.contains('@') ==> (r matches Err(e) && e@ == "From needs a full address"@)
                &&& from.contains('@') && to@.len() == 0 ==> (r matches Err(e) && e@ == "no recipients in To"@)
                &&& from.contains('@') && to@.len() > 0 ==> (r matches Ok(o) && outgoing_as(o, *self, to@, cc@, bcc@))
            }),
    {
        let has_to = to.len() > 0;
        let outgoing = self.draft_outgoing(to, cc, bcc);
        if !in_set('@', &chars_of(outgoing.from.as_str())) {
            return Err("From needs a full address".to_string());
        }
        if !has_to {
            return Err("no recipients in To".to_string());
        }
        Ok(outgoing)
    }
}

} // verus!
