//! The decisions of `antiphon setup`, the one command from nothing to
//! reading mail: which answers are accepted, what Enter keeps, the
//! hosts suggested from the address, and the text of the two files it
//! writes. Prompting, the Keychain and the files are the caller's I/O.
use vstd::prelude::*;

use crate::account_file::{account_template, template_with};
use crate::account_wizard::AccountAnswers;
use crate::text::{
    append_str, chars_of, is_ws, is_whitespace, last_index_in, last_index_of, slice_chars,
    string_of, trim, trimmed,
};

verus! {

broadcast use vstd::string::group_string_axioms;

/// An address is accepted when it holds an `@` and no whitespace.
pub open spec fn looks_like_address(address: Seq<char>) -> bool {
    address.contains('@') && !(exists|i: int| 0 <= i < address.len() && is_ws(#[trigger] address[i]))
}

/// Accepts an address holding an `@` and no whitespace, and refuses
/// anything else with a message for the prompt to show.
pub fn validate_address(address: &str) -> (r: Result<(), String>)
    ensures
        r is Ok <==> looks_like_address(address@),
        r matches Err(e) ==> e@ == "that does not look like an e-mail address"@,
{
    let v = chars_of(address);
    let mut has_at = false;
    let mut i: usize = 0;
    while i < v.len()
        invariant
            i <= v.len(),
            v@ == address@,
            has_at <==> exists|j: int| 0 <= j < i && v@[j] == '@',
            forall|j: int| 0 <= j < i ==> !is_ws(#[trigger] v@[j]),
        decreases v.len() - i,
    {
        if is_whitespace(v[i]) {
            return Err("that does not look like an e-mail address".to_owned());
        }
        if v[i] == '@' {
            has_at = true;
        }
        i = i + 1;
    }
    if has_at {
        Ok(())
    } else {
        Err("that does not look like an e-mail address".to_owned())
    }
}

/// What a prompt answer comes to: the trimmed line, or the default
/// when nothing but whitespace was typed.
pub open spec fn answer_of(line: Seq<char>, default: Seq<char>) -> Seq<char> {
    if trim(line).len() == 0 {
        default
    } else {
        trim(line)
    }
}

/// The answer to a prompt: what was typed, trimmed, or the default
/// when Enter alone was pressed.
pub fn answer_or_default(line: &str, default: &str) -> (r: String)
    ensures
        r@ == answer_of(line@, default@),
{
    let answer = trimmed(&chars_of(line));
    if answer.len() == 0 {
        default.to_owned()
    } else {
        string_of(&answer)
    }
}

/// The mail domain of an address: what follows its last `@`, or the
/// whole text when there is none.
pub open spec fn domain_of(address: Seq<char>) -> Seq<char> {
    match last_index_of(address, '@') {
        Some(i) => address.skip(i + 1),
        None => address,
    }
}

/// The mail domain of `address`, from which the host defaults are made.
pub fn mail_domain(address: &str) -> (r: String)
    ensures
        r@ == domain_of(address@),
{
    let v = chars_of(address);
    match last_index_in(&v, '@') {
        Some(i) => string_of(&slice_chars(&v, i + 1, v.len())),
        None => address.to_owned(),
    }
}

/// The host offered by default for a service: `imap.` or `smtp.` and
/// the address's domain.
pub fn suggested_host(service: &str, address: &str) -> (r: String)
    ensures
        r@ == service@ + "."@ + domain_of(address@),
{
    let mut out = chars_of(service);
    append_str(&mut out, ".");
    append_str(&mut out, mail_domain(address).as_str());
    string_of(&out)
}

/// The `config.toml` setup writes: the vault with the automatic
/// backend and the command that prints its passphrase.
pub open spec fn config_text(passphrase_cmd: Seq<char>) -> Seq<char> {
    "[vault]\nbackend = \"auto\"\npassphrase_cmd = \""@ + passphrase_cmd + "\"\n"@
}

pub fn config_toml(passphrase_cmd: &str) -> (r: String)
    ensures
        r@ == config_text(passphrase_cmd@),
{
    let mut out = chars_of("[vault]\nbackend = \"auto\"\npassphrase_cmd = \"");
    append_str(&mut out, passphrase_cmd);
    append_str(&mut out, "\"\n");
    string_of(&out)
}

/// The account file setup writes: the template with the password
/// command always present and no identity name.
pub open spec fn setup_account_text(
    name: Seq<char>,
    address: Seq<char>,
    imap_host: Seq<char>,
    imap_user: Seq<char>,
    smtp_host: Seq<char>,
    password_cmd: Seq<char>,
) -> Seq<char> {
    account_template(
        name,
        address,
        imap_host,
        imap_user,
        smtp_host,
        "password_cmd = \""@ + password_cmd + "\"\n"@,
        Seq::empty(),
    )
}

pub fn setup_account_toml(
    name: &str,
    address: &str,
    imap_host: &str,
    imap_user: &str,
    smtp_host: &str,
    password_cmd: &str,
) -> (r: String)
    ensures
        r@ == setup_account_text(name@, address@, imap_host@, imap_user@, smtp_host@, password_cmd@),
{
    let answers = AccountAnswers {
        name: name.to_owned(),
        address: address.to_owned(),
        from_name: String::new(),
        imap_host: imap_host.to_owned(),
        imap_user: imap_user.to_owned(),
        smtp_host: smtp_host.to_owned(),
        password_cmd: password_cmd.to_owned(),
    };
    let mut password = chars_of("password_cmd = \"");
    append_str(&mut password, password_cmd);
    append_str(&mut password, "\"\n");
    let none: Vec<char> = Vec::new();
    template_with(&answers, &password, &none)
}

/// The command that reads an account's mail password back from the
/// Keychain, where it is stored under `antiphon-mail-<name>`.
pub open spec fn keychain_lookup_text(name: Seq<char>) -> Seq<char> {
    "security find-generic-password -w -s antiphon-mail-"@ + name
}

pub fn keychain_lookup_command(name: &str) -> (r: String)
    ensures
        r@ == keychain_lookup_text(name@),
{
    let mut out = chars_of("security find-generic-password -w -s antiphon-mail-");
    append_str(&mut out, name);
    string_of(&out)
}

/// A question with no default that must be answered: the trimmed
/// line, or the message that asks again.
pub fn required_answer(label: &str, line: &str) -> (r: Result<String, String>)
    ensures
        trim(line@).len() == 0 ==> (r matches Err(m) && m@ == label@ + " is required"@),
        trim(line@).len() > 0 ==> (r matches Ok(a) && a@ == trim(line@)),
{
    let answer = trimmed(&chars_of(line));
    if answer.len() == 0 {
        let mut out = chars_of(label);
        append_str(&mut out, " is required");
        Err(string_of(&out))
    } else {
        Ok(string_of(&answer))
    }
}

} // verus!
