//! The account form's connection test: what is checked, resolved from
//! the form, and how each outcome reads. Running the password command
//! and reaching the server happen on a worker thread, which is the
//! caller's I/O; its results come back here as plain values.
use vstd::prelude::*;

use crate::sendmail::{decode_lossy, utf8_lossy};
use crate::setup::{keychain_lookup_command, keychain_lookup_text};
use crate::text::{append_str, chars_of, join_with, lemma_set_end_len_is, set_end_len, slice_chars, join_with_of, lemma_lines_view_push, lines_view, string_of, texts_of, trim, trimmed};
use crate::tui::account_form::{AccountFormState, AccountType};
use crate::tui::account_form_save::{oauth_hosts, oauth_hosts_spec};

verus! {

broadcast use vstd::string::group_string_axioms;

/// The implicit IMAPS port the daemon assumes; the form has no port
/// field, so the test uses the same default.
pub const IMAPS_PORT: u16 = 993;

/// How a result reads: still running, a success, or a failure.
#[derive(Clone, Copy, Debug, PartialEq, Eq, Structural)]
pub enum Tone {
    Working,
    Good,
    Bad,
}

/// Why a probe did not authenticate: the server was out of reach, or
/// it answered but refused the credentials.
#[derive(Clone, Debug, PartialEq, Eq)]
pub enum ProbeError {
    Unreachable(String),
    Refused(String),
}

impl ProbeError {
    /// The probe's own words.
    pub fn detail(&self) -> (r: &str)
        ensures
            r@ == match self {
                ProbeError::Unreachable(d) => d@,
                ProbeError::Refused(d) => d@,
            },
    {
        match self {
            ProbeError::Unreachable(detail) => detail.as_str(),
            ProbeError::Refused(detail) => detail.as_str(),
        }
    }
}

/// A finished check's message and tone.
#[derive(Clone, Debug, PartialEq, Eq)]
pub struct ConnReport {
    pub message: String,
    pub tone: Tone,
}

/// What a password account's test authenticates with, or an OAuth
/// account's grant state.
#[derive(Clone, Debug, PartialEq, Eq)]
pub enum TestKind {
    Password { command: String },
    Oauth { signed_in: bool },
}

/// What the worker checks.
#[derive(Clone, Debug, PartialEq, Eq)]
pub struct TestSpec {
    pub host: String,
    pub port: u16,
    pub user: String,
    pub kind: TestKind,
}

/// The command whose output is the password: the Keychain lookup in
/// Keychain mode, else the typed command.
pub open spec fn password_command_spec(form: AccountFormState) -> Result<Seq<char>, Seq<char>> {
    if form.keychain_available && form.keychain {
        if trim(form.name@).len() == 0 {
            Err("name the account so its Keychain entry can be found"@)
        } else {
            Ok(keychain_lookup_text(trim(form.name@)))
        }
    } else if trim(form.password_cmd@).len() == 0 {
        Err("give a password command to test"@)
    } else {
        Ok(trim(form.password_cmd@))
    }
}

fn trimmed_of(s: &String) -> (r: String)
    ensures
        r@ == trim(s@),
{
    string_of(&trimmed(&chars_of(s.as_str())))
}

pub fn password_command(form: &AccountFormState) -> (r: Result<String, String>)
    ensures
        match password_command_spec(*form) {
            Ok(c) => r matches Ok(x) && x@ == c,
            Err(e) => r matches Err(x) && x@ == e,
        },
{
    if form.keychain_available && form.keychain {
        let name = trimmed_of(&form.name);
        if name.as_str().unicode_len() == 0 {
            return Err("name the account so its Keychain entry can be found".to_owned());
        }
        return Ok(keychain_lookup_command(name.as_str()));
    }
    let command = trimmed_of(&form.password_cmd);
    if command.as_str().unicode_len() == 0 {
        return Err("give a password command to test".to_owned());
    }
    Ok(command)
}

/// The test of a password account: its host and user, and the command
/// for its password.
pub open spec fn imap_spec_is(form: AccountFormState, r: Result<TestSpec, String>) -> bool {
    &&& trim(form.imap_host@).len() == 0 ==> (r matches Err(e) && e@ == "give an imap host to test"@)
    &&& trim(form.imap_host@).len() > 0 && trim(form.imap_user@).len() == 0 ==> (r matches Err(e) && e@
        == "give an imap user to test"@)
    &&& trim(form.imap_host@).len() > 0 && trim(form.imap_user@).len() > 0 ==> match password_command_spec(form) {
        Err(e) => r matches Err(x) && x@ == e,
        Ok(c) => r matches Ok(spec) && spec.host@ == trim(form.imap_host@) && spec.port == IMAPS_PORT
            && spec.user@ == trim(form.imap_user@) && (spec.kind matches TestKind::Password { command } && command@ == c),
    }
}

pub fn imap_spec(form: &AccountFormState) -> (r: Result<TestSpec, String>)
    ensures
        imap_spec_is(*form, r),
{
    let host = trimmed_of(&form.imap_host);
    if host.as_str().unicode_len() == 0 {
        return Err("give an imap host to test".to_owned());
    }
    let user = trimmed_of(&form.imap_user);
    if user.as_str().unicode_len() == 0 {
        return Err("give an imap user to test".to_owned());
    }
    let command = match password_command(form) {
        Ok(c) => c,
        Err(e) => return Err(e),
    };
    Ok(TestSpec { host, port: IMAPS_PORT, user, kind: TestKind::Password { command } })
}

/// The test of an OAuth account: its provider's IMAP host and the
/// address, with whether a grant is already stored.
pub open spec fn oauth_spec_is(form: AccountFormState, signed_in: bool, r: Result<TestSpec, String>) -> bool {
    match form.account_type.provider_spec() {
        None => r matches Err(e) && e@ == "choose an account type first"@,
        Some(p) => r matches Ok(spec) && spec.host@ == oauth_hosts_spec(p).0 && spec.port == IMAPS_PORT
            && spec.user@ == trim(form.address@) && spec.kind == (TestKind::Oauth { signed_in }),
    }
}

pub fn oauth_spec(form: &AccountFormState, signed_in: bool) -> (r: Result<TestSpec, String>)
    ensures
        oauth_spec_is(*form, signed_in, r),
{
    let provider = match form.provider() {
        None => return Err("choose an account type first".to_owned()),
        Some(p) => p,
    };
    let (imap, _) = oauth_hosts(provider);
    Ok(TestSpec { host: imap.to_owned(), port: IMAPS_PORT, user: trimmed_of(&form.address), kind: TestKind::Oauth { signed_in } })
}

/// How a login attempt reads.
pub open spec fn login_message(outcome: Result<(), ProbeError>) -> Seq<char> {
    match outcome {
        Ok(()) => "reached the server and signed in"@,
        Err(ProbeError::Refused(d)) => "reached the server, but it refused the credentials: "@ + d@,
        Err(ProbeError::Unreachable(d)) => "could not reach the server: "@ + d@,
    }
}

pub fn login_report(outcome: Result<(), ProbeError>) -> (r: ConnReport)
    ensures
        r.message@ == login_message(outcome),
        r.tone == (if outcome is Ok {
            Tone::Good
        } else {
            Tone::Bad
        }),
{
    match outcome {
        Ok(()) => ConnReport { message: "reached the server and signed in".to_owned(), tone: Tone::Good },
        Err(ProbeError::Refused(detail)) => {
            let mut m = chars_of("reached the server, but it refused the credentials: ");
            append_str(&mut m, detail.as_str());
            ConnReport { message: string_of(&m), tone: Tone::Bad }
        },
        Err(ProbeError::Unreachable(detail)) => {
            let mut m = chars_of("could not reach the server: ");
            append_str(&mut m, detail.as_str());
            ConnReport { message: string_of(&m), tone: Tone::Bad }
        },
    }
}

/// How a reachability check of an OAuth account reads.
pub open spec fn reach_message(outcome: Result<(), ProbeError>, signed_in: bool) -> Seq<char> {
    match outcome {
        Ok(()) => if signed_in {
            "reached the server; a sign-in grant is already stored"@
        } else {
            "reached the server; sign in to finish"@
        },
        Err(ProbeError::Refused(d)) => "could not reach the server: "@ + d@,
        Err(ProbeError::Unreachable(d)) => "could not reach the server: "@ + d@,
    }
}

pub fn reach_report(outcome: Result<(), ProbeError>, signed_in: bool) -> (r: ConnReport)
    ensures
        r.message@ == reach_message(outcome, signed_in),
        r.tone == (if outcome is Ok {
            Tone::Good
        } else {
            Tone::Bad
        }),
{
    match outcome {
        Ok(()) => {
            let message = if signed_in {
                "reached the server; a sign-in grant is already stored"
            } else {
                "reached the server; sign in to finish"
            };
            ConnReport { message: message.to_owned(), tone: Tone::Good }
        },
        Err(error) => {
            let mut m = chars_of("could not reach the server: ");
            append_str(&mut m, error.detail());
            ConnReport { message: string_of(&m), tone: Tone::Bad }
        },
    }
}

/// A password command that failed reports its own message, and the
/// login is never tried.
pub fn command_failed_report(message: String) -> (r: ConnReport)
    ensures
        r.message == message,
        r.tone == Tone::Bad,
{
    ConnReport { message, tone: Tone::Bad }
}

/// The message shown while the check runs.
pub fn working_message(host: &str) -> (r: String)
    ensures
        r@ == "testing the connection to "@ + host@ + "..."@,
{
    let mut m = chars_of("testing the connection to ");
    append_str(&mut m, host);
    append_str(&mut m, "...");
    string_of(&m)
}

/// An error's message and those of its sources, outermost first,
/// joined so the deepest server text reaches the form.
pub fn error_chain(messages: &Vec<String>) -> (r: String)
    ensures
        r@ == join_with(texts_of(messages@), ": "@),
{
    let mut items: Vec<Vec<char>> = Vec::new();
    let mut i: usize = 0;
    while i < messages.len()
        invariant
            i <= messages.len(),
            lines_view(items@) =~= texts_of(messages@).take(i as int),
        decreases messages.len() - i,
    {
        let ghost before = items@;
        items.push(chars_of(messages[i].as_str()));
        proof {
            lemma_lines_view_push(before, items@[i as int]);
            assert(texts_of(messages@).take(i + 1) =~= texts_of(messages@).take(i as int).push(messages@[i as int]@));
        }
        i = i + 1;
    }
    assert(texts_of(messages@).take(messages.len() as int) =~= texts_of(messages@));
    string_of(&join_with_of(&items, &chars_of(": ")))
}

/// What the test checks for the open form: a password account's login,
/// or an OAuth account's reachability with whether a grant is stored.
pub fn spec_for_form(form: &AccountFormState, signed_in: bool) -> (r: Result<TestSpec, String>)
    ensures
        form.account_type == AccountType::Imap ==> imap_spec_is(*form, r),
        form.account_type != AccountType::Imap ==> oauth_spec_is(*form, signed_in, r),
{
    if form.account_type == AccountType::Imap {
        imap_spec(form)
    } else {
        oauth_spec(form, signed_in)
    }
}

/// The line-end characters a password command's output loses.
pub open spec fn line_ends() -> Seq<char> {
    seq!['\r', '\n']
}

/// The password a command printed: its output read as UTF-8 (invalid
/// bytes replaced) without trailing line ends; a command that failed,
/// or printed nothing else, gives no password.
pub open spec fn password_output_of(success: bool, stdout: Seq<u8>) -> Result<Seq<char>, Seq<char>> {
    if !success {
        Err("the password command failed"@)
    } else {
        let text = utf8_lossy(stdout);
        let password = text.take(set_end_len(text, line_ends()));
        if password.len() == 0 {
            Err("the password command produced nothing"@)
        } else {
            Ok(password)
        }
    }
}

pub fn password_from_output(success: bool, stdout: &[u8]) -> (r: Result<String, String>)
    ensures
        match password_output_of(success, stdout@) {
            Ok(p) => r matches Ok(x) && x@ == p,
            Err(e) => r matches Err(x) && x@ == e,
        },
{
    if !success {
        return Err("the password command failed".to_owned());
    }
    let text = chars_of(decode_lossy(stdout).as_str());
    let mut n: usize = text.len();
    while n > 0 && (text[n - 1] == '\r' || text[n - 1] == '\n')
        invariant
            n <= text.len(),
            forall|j: int| n <= j < text.len() ==> line_ends().contains(#[trigger] text@[j]),
        decreases n,
    {
        proof {
            assert(line_ends()[0] == '\r');
            assert(line_ends()[1] == '\n');
        }
        n = n - 1;
    }
    proof {
        if n > 0 {
            assert(!line_ends().contains(text@[n - 1])) by {
                if line_ends().contains(text@[n - 1]) {
                    let k = choose|k: int| 0 <= k < line_ends().len() && line_ends()[k] == text@[n - 1];
                    assert(k == 0 || k == 1);
                }
            }
        }
        lemma_set_end_len_is(text@, line_ends(), n as int);
    }
    if n == 0 {
        return Err("the password command produced nothing".to_owned());
    }
    Ok(string_of(&slice_chars(&text, 0, n)))
}

/// The message when the worker ends without reporting.
pub fn stopped_report() -> (r: ConnReport)
    ensures
        r.message@ == "the connection test stopped unexpectedly"@,
        r.tone == Tone::Bad,
{
    ConnReport { message: "the connection test stopped unexpectedly".to_owned(), tone: Tone::Bad }
}

/// What a connection test reports once its outside work is done: for a
/// password account, the password command's failure, else how the
/// sign-in went (`probe`); for an OAuth account, whether the server was
/// reached (`probe`) and whether a grant is stored. `password` is
/// ignored for an OAuth account.
pub fn test_report(kind: &TestKind, password: Result<(), String>, probe: Result<(), ProbeError>) -> (r: ConnReport)
    ensures
        kind matches TestKind::Password { .. } ==> match password {
            Err(m) => r.message == m && r.tone == Tone::Bad,
            Ok(()) => r.message@ == login_message(probe) && r.tone == (if probe is Ok {
                Tone::Good
            } else {
                Tone::Bad
            }),
        },
        kind matches TestKind::Oauth { signed_in } ==> r.message@ == reach_message(probe, *signed_in) && r.tone == (
        if probe is Ok {
            Tone::Good
        } else {
            Tone::Bad
        }),
{
    match kind {
        TestKind::Password { .. } => match password {
            Err(message) => command_failed_report(message),
            Ok(()) => login_report(probe),
        },
        TestKind::Oauth { signed_in } => reach_report(probe, *signed_in),
    }
}

} // verus!
