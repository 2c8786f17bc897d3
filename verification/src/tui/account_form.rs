//! The in-TUI account form that replaces the setup wizard's terminal
//! Q&A: one row per field, the rows shown following the account's
//! kind (a password account's servers, or an OAuth provider's client
//! and Microsoft Graph settings), edited in place with a character
//! cursor or cycled with left and right.
use vstd::prelude::*;

use crate::account_wizard::AccountAnswers;
use crate::text::{chars_of, string_of, wrapped};
use crate::tui::account_form_identity::{FormIdentity, IdentityUi};
use crate::tui::headers::inserted_at;
use crate::tui::keys::{KeyCode, KeyPress};

verus! {

broadcast use vstd::string::group_string_axioms;

/// The rows an IMAP account's form opens with, ahead of the Keychain
/// and provider rows: the address, the account name, the IMAP host and
/// user, the SMTP host and the password command.
pub const FIELD_COUNT: usize = 6;

/// An OAuth sign-in provider.
#[derive(Clone, Copy, Debug, PartialEq, Eq, Structural)]
pub enum OauthProvider {
    Microsoft,
    Google,
}

/// How a Microsoft account reaches the Graph API.
#[derive(Clone, Copy, Debug, PartialEq, Eq, Structural)]
pub enum GraphAuth {
    Delegated,
    AppOnly,
}

/// The kind of account: a password account, or one signing in with an
/// OAuth provider.
#[derive(Clone, Copy, Debug, PartialEq, Eq, Structural)]
pub enum AccountType {
    Imap,
    Microsoft,
    Google,
}

impl AccountType {
    pub open spec fn provider_spec(self) -> Option<OauthProvider> {
        match self {
            AccountType::Imap => None,
            AccountType::Microsoft => Some(OauthProvider::Microsoft),
            AccountType::Google => Some(OauthProvider::Google),
        }
    }

    /// The OAuth provider the account signs in with, if any.
    pub fn provider(self) -> (r: Option<OauthProvider>)
        ensures
            r == self.provider_spec(),
    {
        match self {
            AccountType::Imap => None,
            AccountType::Microsoft => Some(OauthProvider::Microsoft),
            AccountType::Google => Some(OauthProvider::Google),
        }
    }

    /// The account type signing in with `provider`.
    pub fn from_provider(provider: OauthProvider) -> (r: AccountType)
        ensures
            r.provider_spec() == Some(provider),
    {
        match provider {
            OauthProvider::Microsoft => AccountType::Microsoft,
            OauthProvider::Google => AccountType::Google,
        }
    }
}

/// The provider toggle's order: none, Google, Microsoft.
pub open spec fn type_index(t: AccountType) -> int {
    match t {
        AccountType::Imap => 0,
        AccountType::Google => 1,
        AccountType::Microsoft => 2,
    }
}

pub open spec fn type_at(i: int) -> AccountType {
    if i == 0 {
        AccountType::Imap
    } else if i == 1 {
        AccountType::Google
    } else {
        AccountType::Microsoft
    }
}

/// How the provider toggle spells a provider.
pub open spec fn provider_name_spec(provider: Option<OauthProvider>) -> Seq<char> {
    match provider {
        None => "none"@,
        Some(OauthProvider::Google) => "google"@,
        Some(OauthProvider::Microsoft) => "microsoft"@,
    }
}

pub fn provider_name(provider: Option<OauthProvider>) -> (r: &'static str)
    ensures
        r@ == provider_name_spec(provider),
{
    match provider {
        None => "none",
        Some(OauthProvider::Google) => "google",
        Some(OauthProvider::Microsoft) => "microsoft",
    }
}

pub open spec fn graph_auth_name_spec(auth: GraphAuth) -> Seq<char> {
    match auth {
        GraphAuth::Delegated => "delegated"@,
        GraphAuth::AppOnly => "app-only"@,
    }
}

/// The Graph flow as the toggle shows it.
pub fn graph_auth_name(auth: GraphAuth) -> (r: &'static str)
    ensures
        r@ == graph_auth_name_spec(auth),
{
    match auth {
        GraphAuth::Delegated => "delegated",
        GraphAuth::AppOnly => "app-only",
    }
}

pub open spec fn graph_auth_toml_spec(auth: GraphAuth) -> Seq<char> {
    match auth {
        GraphAuth::Delegated => "delegated"@,
        GraphAuth::AppOnly => "app_only"@,
    }
}

/// The `[graph] auth` value as the config parser spells it, distinct
/// from the toggle's label.
pub fn graph_auth_toml(auth: GraphAuth) -> (r: &'static str)
    ensures
        r@ == graph_auth_toml_spec(auth),
{
    match auth {
        GraphAuth::Delegated => "delegated",
        GraphAuth::AppOnly => "app_only",
    }
}

pub open spec fn on_off_spec(value: bool) -> Seq<char> {
    if value {
        "on"@
    } else {
        "off"@
    }
}

pub fn on_off(value: bool) -> (r: &'static str)
    ensures
        r@ == on_off_spec(value),
{
    if value {
        "on"
    } else {
        "off"
    }
}

/// Every row the form can show.
#[derive(Clone, Copy, Debug, PartialEq, Eq, Structural)]
pub enum Field {
    Address,
    Name,
    ImapHost,
    ImapUser,
    SmtpHost,
    PasswordCmd,
    KeychainSecret,
    Provider,
    ClientId,
    GraphSend,
    GraphTenant,
    GraphAuth,
    GraphSecretCmd,
}

/// Whether a row edits a string; the others cycle through fixed
/// choices.
pub open spec fn is_text(f: Field) -> bool {
    !(f == Field::Provider || f == Field::GraphSend || f == Field::GraphAuth)
}

pub open spec fn label_spec(f: Field) -> Seq<char> {
    match f {
        Field::Address => "e-mail address"@,
        Field::Name => "account name"@,
        Field::ImapHost => "imap host"@,
        Field::ImapUser => "imap user"@,
        Field::SmtpHost => "smtp host"@,
        Field::PasswordCmd => "password command"@,
        Field::KeychainSecret => "password (stored in Keychain)"@,
        Field::Provider => "oauth provider"@,
        Field::ClientId => "oauth client id"@,
        Field::GraphSend => "graph send"@,
        Field::GraphTenant => "graph tenant"@,
        Field::GraphAuth => "graph auth"@,
        Field::GraphSecretCmd => "graph secret command"@,
    }
}

fn label_of(f: Field) -> (r: &'static str)
    ensures
        r@ == label_spec(f),
{
    match f {
        Field::Address => "e-mail address",
        Field::Name => "account name",
        Field::ImapHost => "imap host",
        Field::ImapUser => "imap user",
        Field::SmtpHost => "smtp host",
        Field::PasswordCmd => "password command",
        Field::KeychainSecret => "password (stored in Keychain)",
        Field::Provider => "oauth provider",
        Field::ClientId => "oauth client id",
        Field::GraphSend => "graph send",
        Field::GraphTenant => "graph tenant",
        Field::GraphAuth => "graph auth",
        Field::GraphSecretCmd => "graph secret command",
    }
}

/// What a key did to the form, for the event loop to act on.
#[derive(Clone, Copy, Debug, PartialEq, Eq, Structural)]
pub enum FormOutcome {
    Edited,
    Save,
    Close,
}

/// The form: one string per text row, the toggles, the focused row
/// (an index into the rows shown) and the cursor in it. `editing`
/// names the account file an edit overwrites, and possibly renames,
/// rather than adding one.
#[derive(Debug, PartialEq, Eq)]
pub struct AccountFormState {
    pub address: String,
    pub name: String,
    pub from_name: String,
    pub imap_host: String,
    pub imap_user: String,
    pub smtp_host: String,
    pub password_cmd: String,
    pub keychain_secret: String,
    pub client_id: String,
    pub tenant: String,
    pub graph_secret_cmd: String,
    pub account_type: AccountType,
    pub graph_send: bool,
    pub graph_auth: GraphAuth,
    /// Whether the password is kept in the Keychain rather than read
    /// from a command.
    pub keychain: bool,
    /// Whether the platform has a Keychain to store a password in.
    pub keychain_available: bool,
    pub focus: usize,
    pub cursor: usize,
    pub editing: Option<String>,
    pub error: Option<String>,
    /// The account's identities, edited in their own sub-editor.
    pub identities: Vec<FormIdentity>,
    /// The identity list or editor, while open.
    pub identity_ui: Option<IdentityUi>,
}

impl AccountFormState {
    /// The OAuth provider the form's account type signs in with.
    pub fn provider(&self) -> (r: Option<OauthProvider>)
        ensures
            r == self.account_type.provider_spec(),
    {
        self.account_type.provider()
    }

    /// The rows shown, in order: the address and name; a password
    /// account's servers and password (and the Keychain row where there
    /// is one); the provider toggle; an OAuth account's client id; and
    /// a Microsoft account's Graph settings, the tenant and flow only
    /// once Graph sending is on and the secret only for the app-only
    /// flow.
    pub open spec fn rows(self) -> Seq<Field> {
        seq![Field::Address, Field::Name] + (if self.account_type == AccountType::Imap {
            seq![Field::ImapHost, Field::ImapUser, Field::SmtpHost, Field::PasswordCmd] + (
            if self.keychain_available {
                seq![Field::KeychainSecret]
            } else {
                seq![]
            })
        } else {
            seq![]
        }) + seq![Field::Provider] + (if self.account_type == AccountType::Imap {
            seq![]
        } else {
            seq![Field::ClientId]
        }) + (if self.account_type == AccountType::Microsoft {
            seq![Field::GraphSend] + (if self.graph_send {
                seq![Field::GraphTenant, Field::GraphAuth] + (if self.graph_auth
                    == GraphAuth::AppOnly {
                    seq![Field::GraphSecretCmd]
                } else {
                    seq![]
                })
            } else {
                seq![]
            })
        } else {
            seq![]
        })
    }

    /// Where the provider toggle sits among the rows.
    pub open spec fn provider_row(self) -> int {
        if self.account_type == AccountType::Imap {
            if self.keychain_available {
                7
            } else {
                6
            }
        } else {
            2
        }
    }

    pub proof fn lemma_provider_row(self)
        ensures
            0 <= self.provider_row() < self.rows().len(),
            self.rows()[self.provider_row()] == Field::Provider,
            forall|i: int| 0 <= i < self.rows().len() && self.rows()[i] == Field::Provider ==> i == self.provider_row(),
    {
    }

    /// The text a row edits; empty for a toggle.
    pub open spec fn text(self, f: Field) -> Seq<char> {
        match f {
            Field::Address => self.address@,
            Field::Name => self.name@,
            Field::ImapHost => self.imap_host@,
            Field::ImapUser => self.imap_user@,
            Field::SmtpHost => self.smtp_host@,
            Field::PasswordCmd => self.password_cmd@,
            Field::KeychainSecret => self.keychain_secret@,
            Field::ClientId => self.client_id@,
            Field::GraphTenant => self.tenant@,
            Field::GraphSecretCmd => self.graph_secret_cmd@,
            _ => Seq::empty(),
        }
    }

    /// What a row shows: its text, or a toggle's current choice.
    pub open spec fn value(self, f: Field) -> Seq<char> {
        match f {
            Field::Provider => provider_name_spec(self.account_type.provider_spec()),
            Field::GraphSend => on_off_spec(self.graph_send),
            Field::GraphAuth => graph_auth_name_spec(self.graph_auth),
            _ => self.text(f),
        }
    }

    pub open spec fn focused(self) -> Field {
        self.rows()[self.focus as int]
    }

    /// Everything but the text rows is as in `other`.
    pub open spec fn same_settings(self, other: AccountFormState) -> bool {
        &&& self.from_name == other.from_name
        &&& self.account_type == other.account_type
        &&& self.graph_send == other.graph_send
        &&& self.graph_auth == other.graph_auth
        &&& self.keychain == other.keychain
        &&& self.keychain_available == other.keychain_available
        &&& self.editing == other.editing
        &&& self.error == other.error
        &&& self.identities == other.identities
        &&& self.identity_ui == other.identity_ui
    }

    /// `self` is `other` with row `f`'s text replaced by `t`.
    pub open spec fn text_replaced(self, other: AccountFormState, f: Field, t: Seq<char>) -> bool {
        &&& self.same_settings(other)
        &&& self.focus == other.focus
        &&& forall|g: Field| #[trigger] self.text(g) == if g == f {
            t
        } else {
            other.text(g)
        }
    }

    /// A form filled from existing answers, focused on the first row
    /// with the cursor at the end of the address.
    pub fn from_answers(answers: &AccountAnswers, editing: Option<String>) -> (r: AccountFormState)
        ensures
            r.address@ == answers.address@,
            r.name@ == answers.name@,
            r.from_name@ == answers.from_name@,
            r.imap_host@ == answers.imap_host@,
            r.imap_user@ == answers.imap_user@,
            r.smtp_host@ == answers.smtp_host@,
            r.password_cmd@ == answers.password_cmd@,
            r.keychain_secret@ == Seq::<char>::empty(),
            r.client_id@ == Seq::<char>::empty(),
            r.tenant@ == Seq::<char>::empty(),
            r.graph_secret_cmd@ == Seq::<char>::empty(),
            r.account_type == AccountType::Imap,
            !r.graph_send,
            r.graph_auth == GraphAuth::Delegated,
            !r.keychain,
            !r.keychain_available,
            r.focus == 0,
            r.cursor == answers.address@.len(),
            r.editing == editing,
            r.error is None,
            r.identities@.len() == 0,
            r.identity_ui is None,
    {
        AccountFormState {
            address: answers.address.clone(),
            name: answers.name.clone(),
            from_name: answers.from_name.clone(),
            imap_host: answers.imap_host.clone(),
            imap_user: answers.imap_user.clone(),
            smtp_host: answers.smtp_host.clone(),
            password_cmd: answers.password_cmd.clone(),
            keychain_secret: String::new(),
            client_id: String::new(),
            tenant: String::new(),
            graph_secret_cmd: String::new(),
            account_type: AccountType::Imap,
            graph_send: false,
            graph_auth: GraphAuth::Delegated,
            keychain: false,
            keychain_available: false,
            focus: 0,
            cursor: answers.address.as_str().unicode_len(),
            editing,
            error: None,
            identities: Vec::new(),
            identity_ui: None,
        }
    }

    /// An empty form for adding an account.
    pub fn empty() -> (r: AccountFormState)
        ensures
            forall|f: Field| #[trigger] r.text(f) == Seq::<char>::empty(),
            r.from_name@ == Seq::<char>::empty(),
            r.account_type == AccountType::Imap,
            r.focus == 0,
            r.cursor == 0,
            r.editing is None,
            r.error is None,
            r.identities@.len() == 0,
            r.identity_ui is None,
    {
        AccountFormState {
            address: String::new(),
            name: String::new(),
            from_name: String::new(),
            imap_host: String::new(),
            imap_user: String::new(),
            smtp_host: String::new(),
            password_cmd: String::new(),
            keychain_secret: String::new(),
            client_id: String::new(),
            tenant: String::new(),
            graph_secret_cmd: String::new(),
            account_type: AccountType::Imap,
            graph_send: false,
            graph_auth: GraphAuth::Delegated,
            keychain: false,
            keychain_available: false,
            focus: 0,
            cursor: 0,
            editing: None,
            error: None,
            identities: Vec::new(),
            identity_ui: None,
        }
    }

    /// The rows shown.
    pub fn shown_rows(&self) -> (r: Vec<Field>)
        ensures
            r@ == self.rows(),
    {
        let mut rows: Vec<Field> = Vec::new();
        rows.push(Field::Address);
        rows.push(Field::Name);
        if self.account_type == AccountType::Imap {
            rows.push(Field::ImapHost);
            rows.push(Field::ImapUser);
            rows.push(Field::SmtpHost);
            rows.push(Field::PasswordCmd);
            if self.keychain_available {
                rows.push(Field::KeychainSecret);
            }
        }
        rows.push(Field::Provider);
        if self.account_type != AccountType::Imap {
            rows.push(Field::ClientId);
        }
        if self.account_type == AccountType::Microsoft {
            rows.push(Field::GraphSend);
            if self.graph_send {
                rows.push(Field::GraphTenant);
                rows.push(Field::GraphAuth);
                if self.graph_auth == GraphAuth::AppOnly {
                    rows.push(Field::GraphSecretCmd);
                }
            }
        }
        assert(rows@ =~= self.rows());
        rows
    }

    /// How many rows are shown.
    pub fn field_count(&self) -> (r: usize)
        ensures
            r == self.rows().len(),
    {
        self.shown_rows().len()
    }

    /// The label of row `index`.
    pub fn field_label(&self, index: usize) -> (r: &'static str)
        requires
            index < self.rows().len(),
        ensures
            r@ == label_spec(self.rows()[index as int]),
    {
        let rows = self.shown_rows();
        label_of(rows[index])
    }

    fn text_of(&self, f: Field) -> (r: &str)
        ensures
            r@ == self.text(f),
    {
        match f {
            Field::Address => self.address.as_str(),
            Field::Name => self.name.as_str(),
            Field::ImapHost => self.imap_host.as_str(),
            Field::ImapUser => self.imap_user.as_str(),
            Field::SmtpHost => self.smtp_host.as_str(),
            Field::PasswordCmd => self.password_cmd.as_str(),
            Field::KeychainSecret => self.keychain_secret.as_str(),
            Field::ClientId => self.client_id.as_str(),
            Field::GraphTenant => self.tenant.as_str(),
            Field::GraphSecretCmd => self.graph_secret_cmd.as_str(),
            _ => {
                proof {
                    reveal_strlit("");
                }
                ""
            },
        }
    }

    /// What row `index` shows: its text, or a toggle's choice.
    pub fn field_value(&self, index: usize) -> (r: &str)
        requires
            index < self.rows().len(),
        ensures
            r@ == self.value(self.rows()[index as int]),
    {
        let rows = self.shown_rows();
        match rows[index] {
            Field::Provider => provider_name(self.account_type.provider()),
            Field::GraphSend => on_off(self.graph_send),
            Field::GraphAuth => graph_auth_name(self.graph_auth),
            f => self.text_of(f),
        }
    }

    /// Whether row `index` hides its text behind a mask.
    pub fn field_masked(&self, index: usize) -> (r: bool)
        requires
            index < self.rows().len(),
        ensures
            r == (self.rows()[index as int] == Field::KeychainSecret),
    {
        let rows = self.shown_rows();
        rows[index] == Field::KeychainSecret
    }

    /// Whether the focused row edits a string.
    pub fn editable(&self) -> (r: bool)
        requires
            self.focus < self.rows().len(),
        ensures
            r == is_text(self.focused()),
    {
        let rows = self.shown_rows();
        let f = rows[self.focus];
        !(f == Field::Provider || f == Field::GraphSend || f == Field::GraphAuth)
    }

    fn set_text(&mut self, f: Field, value: String)
        requires
            is_text(f),
        ensures
            final(self).text_replaced(*old(self), f, value@),
            final(self).cursor == old(self).cursor,
    {
        match f {
            Field::Address => self.address = value,
            Field::Name => self.name = value,
            Field::ImapHost => self.imap_host = value,
            Field::ImapUser => self.imap_user = value,
            Field::SmtpHost => self.smtp_host = value,
            Field::PasswordCmd => self.password_cmd = value,
            Field::KeychainSecret => self.keychain_secret = value,
            Field::ClientId => self.client_id = value,
            Field::GraphTenant => self.tenant = value,
            _ => self.graph_secret_cmd = value,
        }
    }
}

/// `text` without the character at `at`, or unchanged when `at` is
/// past its end.
pub open spec fn deleted_at(text: Seq<char>, at: int) -> Seq<char> {
    if 0 <= at < text.len() {
        text.remove(at)
    } else {
        text
    }
}

impl AccountFormState {
    /// Every row's text is as in `other`.
    pub open spec fn same_texts(self, other: AccountFormState) -> bool {
        forall|g: Field| #[trigger] self.text(g) == other.text(g)
    }

    /// `self` is `before` with the focus stepped by `step`, wrapping
    /// through the rows shown, and the cursor at the end of the newly
    /// focused row.
    pub open spec fn stepped(self, before: AccountFormState, step: int) -> bool {
        &&& self.same_settings(before)
        &&& self.same_texts(before)
        &&& self.focus == crate::text::wrapped_spec(before.focus as int, before.rows().len() as int, step)
        &&& self.cursor == self.text(self.focused()).len()
    }

    /// `self` is `before` after the editing key `code` on the focused
    /// text row.
    pub open spec fn edited_by(self, before: AccountFormState, code: KeyCode) -> bool {
        let f = before.focused();
        let t = before.text(f);
        let c = before.cursor as int;
        match code {
            KeyCode::Char(ch) => self.text_replaced(before, f, inserted_at(t, c, ch)) && self.cursor == c + 1,
            KeyCode::Backspace => if c == 0 {
                self == before
            } else {
                self.text_replaced(before, f, deleted_at(t, c - 1)) && self.cursor == c - 1
            },
            KeyCode::Delete => self.text_replaced(before, f, deleted_at(t, c)) && self.cursor == c,
            KeyCode::Left => self.text_replaced(before, f, t) && self.cursor == (if c == 0 {
                0
            } else {
                c - 1
            }),
            KeyCode::Right => self.text_replaced(before, f, t) && self.cursor == (if c + 1 < t.len() {
                c + 1
            } else {
                t.len() as int
            }),
            KeyCode::Home => self.text_replaced(before, f, t) && self.cursor == 0,
            KeyCode::End => self.text_replaced(before, f, t) && self.cursor == t.len(),
            _ => self == before,
        }
    }

    /// `self` is `before` with the account type stepped by `step`
    /// through none, Google and Microsoft, the focus following the
    /// provider row to where it now stands.
    pub open spec fn cycled_type(self, before: AccountFormState, step: int) -> bool {
        &&& self.account_type == type_at(crate::text::wrapped_spec(type_index(before.account_type), 3, step))
        &&& self.same_texts(before)
        &&& self.from_name == before.from_name
        &&& self.graph_send == before.graph_send
        &&& self.graph_auth == before.graph_auth
        &&& self.keychain == before.keychain
        &&& self.keychain_available == before.keychain_available
        &&& self.editing == before.editing
        &&& self.error == before.error
        &&& self.identities == before.identities
        &&& self.identity_ui == before.identity_ui
        &&& self.cursor == before.cursor
        &&& self.focus == self.provider_row()
    }

    /// The step a key asks of a toggle: left back, right or space on.
    pub open spec fn cycle_step(code: KeyCode) -> int {
        if code == KeyCode::Left {
            -1
        } else if code == KeyCode::Right || code == KeyCode::Char(' ') {
            1
        } else {
            0
        }
    }

    /// `self` is `before` after `code` on the focused row.
    pub open spec fn keyed(self, before: AccountFormState, code: KeyCode) -> bool {
        let f = before.focused();
        let step = Self::cycle_step(code);
        if is_text(f) {
            self.edited_by(before, code)
        } else if step == 0 {
            self == before
        } else if f == Field::Provider {
            self.cycled_type(before, step)
        } else if f == Field::GraphSend {
            self == AccountFormState { graph_send: !before.graph_send, ..before }
        } else {
            self == AccountFormState {
                graph_auth: if before.graph_auth == GraphAuth::Delegated {
                    GraphAuth::AppOnly
                } else {
                    GraphAuth::Delegated
                },
                ..before
            }
        }
    }

    /// Moves the focus by `step`, wrapping through the rows shown, and
    /// parks the cursor at the end of the new row.
    pub fn step_focus(&mut self, step: i32)
        requires
            old(self).focus < old(self).rows().len(),
        ensures
            final(self).stepped(*old(self), step as int),
    {
        let count = self.field_count();
        self.focus = wrapped(self.focus, count, step);
        let rows = self.shown_rows();
        self.cursor = self.text_of(rows[self.focus]).unicode_len();
    }

    fn insert(&mut self, f: Field, ch: char)
        requires
            is_text(f),
            old(self).cursor < usize::MAX,
        ensures
            final(self).text_replaced(*old(self), f, inserted_at(old(self).text(f), old(self).cursor as int, ch)),
            final(self).cursor == old(self).cursor + 1,
    {
        let mut chars = chars_of(self.text_of(f));
        let at = if self.cursor < chars.len() {
            self.cursor
        } else {
            chars.len()
        };
        chars.insert(at, ch);
        self.cursor = self.cursor + 1;
        self.set_text(f, string_of(&chars));
    }

    fn delete(&mut self, f: Field)
        requires
            is_text(f),
        ensures
            final(self).text_replaced(*old(self), f, deleted_at(old(self).text(f), old(self).cursor as int)),
            final(self).cursor == old(self).cursor,
    {
        let mut chars = chars_of(self.text_of(f));
        if self.cursor >= chars.len() {
            return;
        }
        chars.remove(self.cursor);
        self.set_text(f, string_of(&chars));
    }

    fn edit(&mut self, f: Field, code: KeyCode)
        requires
            is_text(f),
            old(self).focus < old(self).rows().len(),
            old(self).focused() == f,
            old(self).cursor < usize::MAX,
        ensures
            final(self).edited_by(*old(self), code),
    {
        let len = self.text_of(f).unicode_len();
        match code {
            KeyCode::Char(ch) => self.insert(f, ch),
            KeyCode::Backspace => {
                if self.cursor > 0 {
                    self.cursor = self.cursor - 1;
                    self.delete(f);
                }
            },
            KeyCode::Delete => self.delete(f),
            KeyCode::Left => {
                if self.cursor > 0 {
                    self.cursor = self.cursor - 1;
                }
            },
            KeyCode::Right => {
                self.cursor = if self.cursor + 1 < len {
                    self.cursor + 1
                } else {
                    len
                };
            },
            KeyCode::Home => self.cursor = 0,
            KeyCode::End => self.cursor = len,
            _ => {},
        }
    }

    fn cycle_type(&mut self, step: i32)
        requires
            step == 1 || step == -1,
        ensures
            final(self).cycled_type(*old(self), step as int),
    {
        let current: usize = match self.account_type {
            AccountType::Imap => 0,
            AccountType::Google => 1,
            AccountType::Microsoft => 2,
        };
        let next = wrapped(current, 3, step);
        self.account_type = if next == 0 {
            AccountType::Imap
        } else if next == 1 {
            AccountType::Google
        } else {
            AccountType::Microsoft
        };
        self.focus = if self.account_type == AccountType::Imap {
            if self.keychain_available {
                7
            } else {
                6
            }
        } else {
            2
        };
    }

    fn field_key(&mut self, code: KeyCode)
        requires
            old(self).focus < old(self).rows().len(),
            old(self).cursor < usize::MAX,
        ensures
            final(self).keyed(*old(self), code),
            final(self).focus < final(self).rows().len(),
    {
        let rows = self.shown_rows();
        let f = rows[self.focus];
        if !(f == Field::Provider || f == Field::GraphSend || f == Field::GraphAuth) {
            self.edit(f, code);
            return;
        }
        let step: i32 = match code {
            KeyCode::Left => -1,
            KeyCode::Right | KeyCode::Char(' ') => 1,
            _ => 0,
        };
        if step == 0 {
            return;
        }
        if f == Field::Provider {
            self.cycle_type(step);
            proof {
                self.lemma_provider_row();
            }
        } else if f == Field::GraphSend {
            self.graph_send = !self.graph_send;
        } else {
            self.graph_auth = match self.graph_auth {
                GraphAuth::Delegated => GraphAuth::AppOnly,
                GraphAuth::AppOnly => GraphAuth::Delegated,
            };
        }
    }

    /// One key while the form is open: control-s saves, esc closes,
    /// tab and the arrows move between rows, enter moves on or saves
    /// from the last row, and every other key edits or cycles the
    /// focused row.
    pub fn feed(&mut self, key: KeyPress) -> (r: FormOutcome)
        requires
            old(self).focus < old(self).rows().len(),
            old(self).cursor < usize::MAX,
        ensures
            final(self).focus < final(self).rows().len(),
            key.control ==> *final(self) == *old(self) && r == (if key.code == KeyCode::Char('s') {
                FormOutcome::Save
            } else {
                FormOutcome::Edited
            }),
            !key.control ==> match key.code {
                KeyCode::Esc => r == FormOutcome::Close && *final(self) == *old(self),
                KeyCode::Tab | KeyCode::Down => r == FormOutcome::Edited && final(self).stepped(*old(self), 1),
                KeyCode::BackTab | KeyCode::Up => r == FormOutcome::Edited && final(self).stepped(*old(self), -1),
                KeyCode::Enter => if old(self).focus + 1 == old(self).rows().len() {
                    r == FormOutcome::Save && *final(self) == *old(self)
                } else {
                    r == FormOutcome::Edited && final(self).stepped(*old(self), 1)
                },
                code => r == FormOutcome::Edited && final(self).keyed(*old(self), code),
            },
    {
        if key.control {
            return if key.code == KeyCode::Char('s') {
                FormOutcome::Save
            } else {
                FormOutcome::Edited
            };
        }
        match key.code {
            KeyCode::Esc => FormOutcome::Close,
            KeyCode::Tab | KeyCode::Down => {
                self.step_focus(1);
                FormOutcome::Edited
            },
            KeyCode::BackTab | KeyCode::Up => {
                self.step_focus(-1);
                FormOutcome::Edited
            },
            KeyCode::Enter => {
                if self.focus + 1 == self.field_count() {
                    FormOutcome::Save
                } else {
                    self.step_focus(1);
                    FormOutcome::Edited
                }
            },
            code => {
                self.field_key(code);
                FormOutcome::Edited
            },
        }
    }
}

} // verus!
