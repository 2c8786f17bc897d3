//! Saving the account form: validation, the answers the base file is
//! written from, and the `[oauth]`/`[graph]` keys the form owns patched
//! onto the file's text afterwards. Checking for an existing file,
//! storing a Keychain secret and the writes themselves are the
//! caller's I/O.
use vstd::prelude::*;

use crate::account_file::{
    identity_lines, optional_entry, quoted_array_of, render_identity, renamed_from, renamed_from_of, saved_text,
    saved_text_of, toml_quoted,
};
use crate::account_wizard::AccountAnswers;
use crate::config::Identity;
use crate::configedit::{
    blocks_view, has_table, quoted, set_array_tables, toml_has_table, toml_set_array_tables, toml_string_array, toml_string_array_of, toml_with_key,
    toml_with_root_key, toml_without_key, toml_without_table, with_key, with_root_key,
    without_key, without_table,
};
use crate::setup::{keychain_lookup_command, keychain_lookup_text, looks_like_address, validate_address};
use crate::text::{append_str, chars_of, opt_text, string_of, texts_of, trim, trimmed};
use crate::tui::account_form::{
    graph_auth_toml, graph_auth_toml_spec, provider_name, provider_name_spec, AccountFormState,
    GraphAuth, OauthProvider,
};
use crate::tui::account_form_identity::{config_address, non_empty_of, parsed_matches, FormIdentity};

verus! {

broadcast use vstd::string::group_string_axioms;

/// Why the form cannot be saved as it stands, if it cannot: a name
/// and a valid address always, and a password account's servers.
pub open spec fn validation_error(form: AccountFormState) -> Option<Seq<char>> {
    if trim(form.name@).len() == 0 {
        Some("account name is required"@)
    } else if !looks_like_address(trim(form.address@)) {
        Some("that does not look like an e-mail address"@)
    } else if form.account_type.provider_spec() is Some {
        None
    } else if trim(form.imap_host@).len() == 0 {
        Some("imap host is required"@)
    } else if trim(form.imap_user@).len() == 0 {
        Some("imap user is required"@)
    } else if trim(form.smtp_host@).len() == 0 {
        Some("smtp host is required"@)
    } else {
        None
    }
}

fn trimmed_str(s: &String) -> (r: String)
    ensures
        r@ == trim(s@),
{
    string_of(&trimmed(&chars_of(s.as_str())))
}

fn is_blank(s: &String) -> (r: bool)
    ensures
        r == (trim(s@).len() == 0),
{
    trimmed(&chars_of(s.as_str())).len() == 0
}

/// Checks the form before anything is written.
pub fn validate(form: &AccountFormState) -> (r: Result<(), String>)
    ensures
        r is Ok <==> validation_error(*form) is None,
        r matches Err(e) ==> validation_error(*form) == Some(e@),
{
    if is_blank(&form.name) {
        return Err("account name is required".to_owned());
    }
    let address = trimmed_str(&form.address);
    match validate_address(address.as_str()) {
        Ok(()) => {},
        Err(e) => return Err(e),
    }
    if form.provider().is_some() {
        return Ok(());
    }
    if is_blank(&form.imap_host) {
        return Err("imap host is required".to_owned());
    }
    if is_blank(&form.imap_user) {
        return Err("imap user is required".to_owned());
    }
    if is_blank(&form.smtp_host) {
        return Err("smtp host is required".to_owned());
    }
    Ok(())
}

/// The password command to write, or why there is none: an OAuth
/// account needs no password; a command-mode account its typed
/// command; a Keychain-mode account a typed secret, whose lookup
/// command is written once the secret is stored.
pub open spec fn password_result(form: AccountFormState) -> Result<Seq<char>, Seq<char>> {
    if form.account_type.provider_spec() is Some {
        Ok(Seq::empty())
    } else if !(form.keychain_available && form.keychain) {
        if trim(form.password_cmd@).len() == 0 {
            Err("give a password command, e.g. pass show mail/name"@)
        } else {
            Ok(trim(form.password_cmd@))
        }
    } else if trim(form.keychain_secret@).len() == 0 {
        Err("type the password to store in the Keychain"@)
    } else {
        Ok(keychain_lookup_text(trim(form.name@)))
    }
}

/// Whether saving first stores the typed secret in the Keychain.
pub fn stores_in_keychain(form: &AccountFormState) -> (r: bool)
    ensures
        r == (form.account_type.provider_spec() is None && form.keychain_available && form.keychain),
{
    form.provider().is_none() && form.keychain_available && form.keychain
}

/// The password command the account file gets.
pub fn resolve_password_cmd(form: &AccountFormState) -> (r: Result<String, String>)
    ensures
        match password_result(*form) {
            Ok(p) => r matches Ok(x) && x@ == p,
            Err(e) => r matches Err(x) && x@ == e,
        },
{
    if form.provider().is_some() {
        return Ok(String::new());
    }
    if !(form.keychain_available && form.keychain) {
        if is_blank(&form.password_cmd) {
            return Err("give a password command, e.g. pass show mail/name".to_owned());
        }
        return Ok(trimmed_str(&form.password_cmd));
    }
    if is_blank(&form.keychain_secret) {
        return Err("type the password to store in the Keychain".to_owned());
    }
    keychain_lookup_command_ok(&form.name)
}

fn keychain_lookup_command_ok(name: &String) -> (r: Result<String, String>)
    ensures
        r matches Ok(x) && x@ == keychain_lookup_text(trim(name@)),
{
    let n = trimmed_str(name);
    Ok(keychain_lookup_command(n.as_str()))
}

/// An OAuth provider's fixed IMAP and SMTP hosts.
pub open spec fn oauth_hosts_spec(provider: OauthProvider) -> (Seq<char>, Seq<char>) {
    match provider {
        OauthProvider::Microsoft => ("outlook.office365.com"@, "smtp.office365.com"@),
        OauthProvider::Google => ("imap.gmail.com"@, "smtp.gmail.com"@),
    }
}

pub fn oauth_hosts(provider: OauthProvider) -> (r: (&'static str, &'static str))
    ensures
        r.0@ == oauth_hosts_spec(provider).0,
        r.1@ == oauth_hosts_spec(provider).1,
{
    match provider {
        OauthProvider::Microsoft => ("outlook.office365.com", "smtp.office365.com"),
        OauthProvider::Google => ("imap.gmail.com", "smtp.gmail.com"),
    }
}

/// The IMAP host, IMAP user and SMTP host to write: the form's own
/// for a password account, or the provider's fixed hosts with the
/// address as the user for an OAuth one.
pub open spec fn servers_spec(form: AccountFormState, address: Seq<char>) -> (Seq<char>, Seq<char>, Seq<char>) {
    match form.account_type.provider_spec() {
        None => (trim(form.imap_host@), trim(form.imap_user@), trim(form.smtp_host@)),
        Some(p) => (oauth_hosts_spec(p).0, address, oauth_hosts_spec(p).1),
    }
}

pub fn servers(form: &AccountFormState, address: &str) -> (r: (String, String, String))
    ensures
        r.0@ == servers_spec(*form, address@).0,
        r.1@ == servers_spec(*form, address@).1,
        r.2@ == servers_spec(*form, address@).2,
{
    match form.provider() {
        None => (trimmed_str(&form.imap_host), trimmed_str(&form.imap_user), trimmed_str(&form.smtp_host)),
        Some(p) => {
            let (imap, smtp) = oauth_hosts(p);
            (imap.to_owned(), address.to_owned(), smtp.to_owned())
        },
    }
}

/// The answers the account file is written from, or the first reason
/// the form cannot be saved.
pub fn answers(form: &AccountFormState) -> (r: Result<AccountAnswers, String>)
    ensures
        match validation_error(*form) {
            Some(e) => r matches Err(x) && x@ == e,
            None => match password_result(*form) {
                Err(e) => r matches Err(x) && x@ == e,
                Ok(p) => r matches Ok(a) && {
                    let hosts = servers_spec(*form, trim(form.address@));
                    &&& a.name@ == trim(form.name@)
                    &&& a.address@ == trim(form.address@)
                    &&& a.from_name@ == trim(form.from_name@)
                    &&& a.imap_host@ == hosts.0
                    &&& a.imap_user@ == hosts.1
                    &&& a.smtp_host@ == hosts.2
                    &&& a.password_cmd@ == p
                },
            },
        },
{
    match validate(form) {
        Ok(()) => {},
        Err(e) => return Err(e),
    }
    let address = trimmed_str(&form.address);
    let (imap_host, imap_user, smtp_host) = servers(form, address.as_str());
    let password_cmd = match resolve_password_cmd(form) {
        Ok(p) => p,
        Err(e) => return Err(e),
    };
    Ok(AccountAnswers {
        name: trimmed_str(&form.name),
        address,
        from_name: trimmed_str(&form.from_name),
        imap_host,
        imap_user,
        smtp_host,
        password_cmd,
    })
}

// ---------------------------------------------------------------
// The [oauth] and [graph] keys
// ---------------------------------------------------------------

fn plain_quoted(value: &str) -> (r: String)
    ensures
        r@ == quoted(value@),
{
    let mut out: Vec<char> = Vec::new();
    out.push('"');
    append_str(&mut out, value);
    out.push('"');
    assert(out@ =~= quoted(value@));
    string_of(&out)
}

/// A filled value written, an emptied one removed, so the file mirrors
/// the form without stale keys.
pub open spec fn optional_key_spec(text: Seq<char>, table: Seq<char>, key: Seq<char>, value: Seq<char>) -> Seq<char> {
    if value.len() == 0 {
        toml_without_key(text, table, key)
    } else {
        toml_with_key(text, table, key, quoted(value))
    }
}

pub fn optional_key(text: &str, table: &str, key: &str, value: &str) -> (r: String)
    ensures
        r@ == optional_key_spec(text@, table@, key@, value@),
{
    if value.unicode_len() == 0 {
        without_key(text, table, key)
    } else {
        with_key(text, table, key, plain_quoted(value).as_str())
    }
}

/// The `[graph]` table of a Microsoft account: with sending off only
/// an existing table's `send` flips; with it on, the flow, the tenant
/// and, for the app-only flow, the secret command are written, while
/// the delegated flow drops a lingering secret command.
pub open spec fn with_graph_spec(text: Seq<char>, form: AccountFormState) -> Seq<char> {
    if !form.graph_send {
        if toml_has_table(text, "graph"@) {
            toml_with_key(text, "graph"@, "send"@, "false"@)
        } else {
            text
        }
    } else {
        let t = toml_with_key(text, "graph"@, "send"@, "true"@);
        let t = toml_with_key(t, "graph"@, "auth"@, quoted(graph_auth_toml_spec(form.graph_auth)));
        let t = optional_key_spec(t, "graph"@, "tenant"@, trim(form.tenant@));
        if form.graph_auth == GraphAuth::AppOnly {
            optional_key_spec(t, "graph"@, "secret_cmd"@, trim(form.graph_secret_cmd@))
        } else {
            toml_without_key(t, "graph"@, "secret_cmd"@)
        }
    }
}

pub fn with_graph(text: &str, form: &AccountFormState) -> (r: String)
    ensures
        r@ == with_graph_spec(text@, *form),
{
    if !form.graph_send {
        if has_table(text, "graph") {
            return with_key(text, "graph", "send", "false");
        }
        return text.to_owned();
    }
    let t = with_key(text, "graph", "send", "true");
    let auth = plain_quoted(graph_auth_toml(form.graph_auth));
    let t = with_key(t.as_str(), "graph", "auth", auth.as_str());
    let t = optional_key(t.as_str(), "graph", "tenant", trimmed_str(&form.tenant).as_str());
    if form.graph_auth == GraphAuth::AppOnly {
        optional_key(t.as_str(), "graph", "secret_cmd", trimmed_str(&form.graph_secret_cmd).as_str())
    } else {
        without_key(t.as_str(), "graph", "secret_cmd")
    }
}

/// The account file's text with the keys the form owns patched in:
/// the `[oauth]` provider and client id, and a Microsoft account's
/// `[graph]` table. A password account drops `[oauth]` whole and
/// leaves `[graph]` alone. Every other line survives.
pub open spec fn with_oauth_spec(text: Seq<char>, form: AccountFormState) -> Seq<char> {
    match form.account_type.provider_spec() {
        None => toml_without_table(text, "oauth"@),
        Some(p) => {
            let t = toml_with_key(text, "oauth"@, "provider"@, quoted(provider_name_spec(Some(p))));
            let t = optional_key_spec(t, "oauth"@, "client_id"@, trim(form.client_id@));
            if p != OauthProvider::Microsoft {
                t
            } else {
                with_graph_spec(t, form)
            }
        },
    }
}

pub fn with_oauth(text: &str, form: &AccountFormState) -> (r: String)
    ensures
        r@ == with_oauth_spec(text@, *form),
{
    let provider = match form.provider() {
        None => return without_table(text, "oauth"),
        Some(p) => p,
    };
    let name = plain_quoted(provider_name(Some(provider)));
    let t = with_key(text, "oauth", "provider", name.as_str());
    let t = optional_key(t.as_str(), "oauth", "client_id", trimmed_str(&form.client_id).as_str());
    if provider != OauthProvider::Microsoft {
        return t;
    }
    with_graph(t.as_str(), form)
}

/// The folders a fresh Microsoft account starts with unsynced: the
/// calendars, contacts and other non-mail folders its mailbox exposes
/// over IMAP.
pub open spec fn ms365_unsynced() -> Seq<Seq<char>> {
    seq![
        "calendar*"@,
        "contacts"@,
        "conversation history"@,
        "journal"@,
        "rss feeds"@,
        "outbox"@,
    ]
}

/// A freshly added Microsoft account's file with its default unsynced
/// folders; any other file unchanged.
pub open spec fn seeded_defaults_spec(text: Seq<char>, form: AccountFormState, adding: bool) -> Seq<char> {
    if adding && form.account_type.provider_spec() == Some(OauthProvider::Microsoft) {
        toml_with_root_key(text, "folders_unsynced"@, toml_string_array_of(ms365_unsynced()))
    } else {
        text
    }
}

pub fn seeded_defaults(text: &str, form: &AccountFormState, adding: bool) -> (r: String)
    ensures
        r@ == seeded_defaults_spec(text@, *form, adding),
{
    if !(adding && form.provider() == Some(OauthProvider::Microsoft)) {
        return text.to_owned();
    }
    let mut values: Vec<String> = Vec::new();
    values.push("calendar*".to_owned());
    values.push("contacts".to_owned());
    values.push("conversation history".to_owned());
    values.push("journal".to_owned());
    values.push("rss feeds".to_owned());
    values.push("outbox".to_owned());
    assert(values@.map_values(|v: String| v@) =~= ms365_unsynced());
    let array = toml_string_array(&values);
    with_root_key(text, "folders_unsynced", array.as_str())
}

// ---------------------------------------------------------------
// The whole save
// ---------------------------------------------------------------

/// The `[[identity]]` block a form identity is written as, with its
/// From address falling back to the account's.
pub open spec fn config_lines(fi: FormIdentity, account_address: Seq<char>) -> Seq<Seq<char>> {
    let address = config_address(fi.address@, account_address);
    let patterns = parsed_matches(fi.matches@, address);
    seq!["[[identity]]"@, "address = "@ + toml_quoted(address)] + optional_entry("name"@, non_empty_of(fi.from_name@))
        + optional_entry("signature"@, non_empty_of(fi.signature@)) + optional_entry(
        "pgp_key"@,
        non_empty_of(fi.pgp_key@),
    ) + (if fi.pgp_sign {
        seq!["pgp_sign = true"@]
    } else {
        seq![]
    }) + (if patterns.len() > 0 {
        seq!["match = "@ + quoted_array_of(patterns)]
    } else {
        seq![]
    })
}

/// The identity blocks of the whole form.
pub open spec fn form_blocks(form: AccountFormState, account_address: Seq<char>) -> Seq<Seq<Seq<char>>> {
    form.identities@.map_values(|fi: FormIdentity| config_lines(fi, account_address))
}

/// What saving the form writes to the account file: the existing
/// file (the one under the name the account had) with the form's keys
/// edited in, or a fresh file; the identity blocks replaced by the
/// form's (an empty list leaves them); the `[oauth]`/`[graph]` keys
/// patched; and a newly added Microsoft account's default unsynced
/// folders.
pub open spec fn saved_form_text(
    form: AccountFormState,
    existing: Option<Seq<char>>,
    answers: AccountAnswers,
) -> Seq<char> {
    let base = saved_text_of(existing, answers);
    let identified = if form.identities@.len() == 0 {
        base
    } else {
        toml_set_array_tables(base, "identity"@, form_blocks(form, answers.address@))
    };
    seeded_defaults_spec(with_oauth_spec(identified, form), form, form.editing is None)
}

/// What a save does to the account files: the name written, the text
/// of its file, and the old file to remove when the account was
/// renamed.
pub struct SavePlan {
    pub name: String,
    pub text: String,
    pub remove: Option<String>,
}

proof fn lemma_config_lines(fi: FormIdentity, account_address: Seq<char>, r: Identity)
    requires
        r.address@ == config_address(fi.address@, account_address),
        texts_of(r.matches@) == parsed_matches(fi.matches@, config_address(fi.address@, account_address)),
        opt_text(r.name) == non_empty_of(fi.from_name@),
        opt_text(r.signature) == non_empty_of(fi.signature@),
        opt_text(r.pgp_key) == non_empty_of(fi.pgp_key@),
        r.pgp_sign == fi.pgp_sign,
    ensures
        identity_lines(r) == config_lines(fi, account_address),
{
}

/// Plans the save of the form: the first reason it cannot be saved
/// (an invalid form, a missing password, or an added account whose
/// name is taken), or what to write. `existing` is the file the
/// account had, if any; `target_exists` whether a file already holds
/// the name being saved. The Keychain secret, when the form stores
/// one, is the caller's to store.
pub fn save_plan(form: &AccountFormState, existing: Option<&str>, target_exists: bool) -> (r: Result<SavePlan, String>)
    ensures
        match validation_error(*form) {
            Some(e) => r matches Err(x) && x@ == e,
            None => match password_result(*form) {
                Err(e) => r matches Err(x) && x@ == e,
                Ok(_) => if form.editing is None && target_exists {
                    r matches Err(x) && x@ == trim(form.name@) + " already exists"@
                } else {
                    r matches Ok(plan) && plan.name@ == trim(form.name@) && opt_text(plan.remove) == renamed_from_of(
                        opt_text(form.editing),
                        trim(form.name@),
                    ) && exists|a: AccountAnswers|
                        #![trigger answers_match(a, *form)]
                        answers_match(a, *form) && plan.text@ == saved_form_text(
                            *form,
                            match existing {
                                Some(t) => Some(t@),
                                None => None,
                            },
                            a,
                        )
                },
            },
        },
{
    let answers = match answers(form) {
        Ok(a) => a,
        Err(e) => return Err(e),
    };
    let adding = form.editing.is_none();
    if adding && target_exists {
        let mut out = chars_of(answers.name.as_str());
        append_str(&mut out, " already exists");
        return Err(string_of(&out));
    }
    let base = saved_text(existing, &answers);
    let identified = if form.identities.len() == 0 {
        base
    } else {
        let mut blocks: Vec<Vec<String>> = Vec::new();
        let mut i: usize = 0;
        while i < form.identities.len()
            invariant
                i <= form.identities@.len(),
                blocks@.len() == i,
                forall|j: int| 0 <= j < i ==> texts_of(#[trigger] blocks@[j]@) == config_lines(
                    form.identities@[j],
                    answers.address@,
                ),
            decreases form.identities.len() - i,
        {
            let identity = form.identities[i].to_config(answers.address.as_str());
            proof {
                lemma_config_lines(form.identities@[i as int], answers.address@, identity);
            }
            let block = render_identity(&identity);
            blocks.push(block);
            i = i + 1;
        }
        assert(blocks_view(blocks@) =~= form_blocks(*form, answers.address@)) by {
            assert forall|j: int| 0 <= j < blocks@.len() implies #[trigger] blocks_view(blocks@)[j]
                == form_blocks(*form, answers.address@)[j] by {
                assert(blocks_view(blocks@)[j] =~= texts_of(blocks@[j]@));
            }
        }
        set_array_tables(base.as_str(), "identity", &blocks)
    };
    let patched = with_oauth(identified.as_str(), form);
    let text = seeded_defaults(patched.as_str(), form, adding);
    let editing: Option<&str> = match &form.editing {
        Some(e) => Some(e.as_str()),
        None => None,
    };
    let remove = renamed_from(editing, answers.name.as_str());
    assert(answers_match(answers, *form));
    Ok(SavePlan { name: answers.name, text, remove })
}

/// The answers `answers` gives for a valid form.
pub open spec fn answers_match(a: AccountAnswers, form: AccountFormState) -> bool {
    let hosts = servers_spec(form, trim(form.address@));
    &&& a.name@ == trim(form.name@)
    &&& a.address@ == trim(form.address@)
    &&& a.from_name@ == trim(form.from_name@)
    &&& a.imap_host@ == hosts.0
    &&& a.imap_user@ == hosts.1
    &&& a.smtp_host@ == hosts.2
    &&& password_result(form) matches Ok(p) && a.password_cmd@ == p
}

} // verus!
