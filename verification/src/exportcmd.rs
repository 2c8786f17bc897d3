//! `antiphon export`: which key the archives are encrypted to and
//! which accounts they cover.
use vstd::prelude::*;

use crate::export::{archive_file_name, archive_name_of};
use crate::text::{append_str, join_with, lines_view, str_eq, string_of};

verus! {

broadcast use vstd::string::group_string_axioms;

/// The command line of an export.
#[derive(Clone, Debug, PartialEq, Eq)]
pub struct ExportArgs {
    pub account: Option<String>,
    pub output: String,
    pub recipients: Vec<String>,
    pub passphrase: bool,
}

/// How the archives are encrypted.
#[derive(Clone, Copy, Debug, PartialEq, Eq, Structural)]
pub enum KeyMode {
    Recipients,
    Passphrase,
}

pub open spec fn both_keys_message() -> Seq<char> {
    "use either --recipient or --passphrase, not both"@
}

pub open spec fn no_key_message() -> Seq<char> {
    "choose how to encrypt: repeat -r/--recipient <age public key>, or -p/--passphrase to be prompted for one"@
}

/// Exactly one way of encrypting must be chosen: recipients or a
/// passphrase.
pub fn key_mode(recipients: &Vec<String>, passphrase: bool) -> (r: Result<KeyMode, String>)
    ensures
        recipients@.len() > 0 && !passphrase ==> r == Ok::<KeyMode, String>(KeyMode::Recipients),
        recipients@.len() == 0 && passphrase ==> r == Ok::<KeyMode, String>(KeyMode::Passphrase),
        recipients@.len() > 0 && passphrase ==> (r matches Err(m) && m@ == both_keys_message()),
        recipients@.len() == 0 && !passphrase ==> (r matches Err(m) && m@ == no_key_message()),
{
    match (recipients.len() == 0, passphrase) {
        (false, false) => Ok(KeyMode::Recipients),
        (true, true) => Ok(KeyMode::Passphrase),
        (false, true) => Err("use either --recipient or --passphrase, not both".to_owned()),
        (true, false) => Err(
            "choose how to encrypt: repeat -r/--recipient <age public key>, or -p/--passphrase to be prompted for one".to_owned(),
        ),
    }
}

pub open spec fn no_accounts_message() -> Seq<char> {
    "no accounts configured; add one under accounts/ first"@
}

/// `no account named W; configured accounts: A, B`
pub open spec fn unknown_account_message(wanted: Seq<char>, names: Seq<Seq<char>>) -> Seq<char> {
    "no account named "@ + wanted + "; configured accounts: "@ + join_with(names, ", "@)
}

/// The accounts an export covers: every configured one, or the one
/// asked for when it exists.
pub fn selected_accounts(names: &Vec<String>, wanted: Option<&str>) -> (r: Result<Vec<String>, String>)
    ensures
        names@.len() == 0 ==> (r matches Err(m) && m@ == no_accounts_message()),
        names@.len() > 0 ==> match wanted {
            None => (r matches Ok(v) && v@ == names@),
            Some(w) => if exists|i: int| 0 <= i < names@.len() && names@[i]@ == w@ {
                (r matches Ok(v) && v@.len() == 1 && v@[0]@ == w@)
            } else {
                (r matches Err(m) && m@ == unknown_account_message(w@, names@.map_values(|n: String| n@)))
            },
        },
{
    if names.len() == 0 {
        return Err("no accounts configured; add one under accounts/ first".to_owned());
    }
    let w = match wanted {
        None => {
            return Ok(names.clone());
        },
        Some(w) => w,
    };
    let mut i: usize = 0;
    while i < names.len()
        invariant
            i <= names.len(),
            wanted == Some(w),
            forall|j: int| 0 <= j < i ==> names@[j]@ != w@,
        decreases names.len() - i,
    {
        if crate::text::chars_eq(&crate::text::chars_of(names[i].as_str()), &crate::text::chars_of(w)) {
            let mut v: Vec<String> = Vec::new();
            v.push(w.to_owned());
            return Ok(v);
        }
        i = i + 1;
    }
    let mut items: Vec<Vec<char>> = Vec::new();
    let mut k: usize = 0;
    while k < names.len()
        invariant
            k <= names.len(),
            lines_view(items@) == names@.map_values(|n: String| n@).take(k as int),
        decreases names.len() - k,
    {
        let ghost old_items = items@;
        let item = crate::text::chars_of(names[k].as_str());
        items.push(item);
        proof {
            crate::text::lemma_lines_view_push(old_items, item);
        }
        assert(lines_view(items@) =~= names@.map_values(|n: String| n@).take(k + 1));
        k = k + 1;
    }
    assert(names@.map_values(|n: String| n@).take(names.len() as int) =~= names@.map_values(|n: String| n@));
    let sep = crate::text::chars_of(", ");
    let joined = crate::text::join_with_of(&items, &sep);
    let mut out: Vec<char> = crate::text::chars_of("no account named ");
    append_str(&mut out, w);
    append_str(&mut out, "; configured accounts: ");
    crate::text::append_chars(&mut out, &joined);
    Err(string_of(&out))
}

/// Where one account's archive is written.
#[derive(Clone, Debug, PartialEq, Eq)]
pub enum Destination {
    /// The output path itself, as a file.
    File,
    /// A file of this name inside the output directory, which is
    /// created when missing.
    InDirectory(String),
}

/// An explicitly named account may target a file directly; everything
/// else treats the output as a directory and names the archives by the
/// day, which needs a readable system clock (nothing when it has none).
pub fn destination(account: &str, single: bool, output_is_dir: bool) -> (r: Option<Destination>)
    ensures
        single && !output_is_dir ==> r == Some(Destination::File),
        !(single && !output_is_dir) ==> (r matches Some(d) ==> (d matches Destination::InDirectory(name)
            && exists|date: Seq<char>| crate::export::date_shaped(date) && name@ == archive_name_of(account@, date))),
{
    if single && !output_is_dir {
        Some(Destination::File)
    } else {
        match archive_file_name(account) {
            Some(name) => Some(Destination::InDirectory(name)),
            None => None,
        }
    }
}

pub open spec fn empty_passphrase_message() -> Seq<char> {
    "the passphrase must not be empty"@
}

pub open spec fn mismatch_message() -> Seq<char> {
    "the passphrases do not match"@
}

/// The first passphrase typed must not be empty; only then is it asked
/// for again.
pub fn check_passphrase(first: &str) -> (r: Result<(), String>)
    ensures
        first@.len() == 0 <==> r is Err,
        r matches Err(m) ==> m@ == empty_passphrase_message(),
{
    if first.unicode_len() == 0 {
        Err("the passphrase must not be empty".to_owned())
    } else {
        Ok(())
    }
}

/// The repeated passphrase must match the first.
pub fn check_repeat(first: &str, again: &str) -> (r: Result<(), String>)
    ensures
        first@ != again@ <==> r is Err,
        r matches Err(m) ==> m@ == mismatch_message(),
{
    if str_eq(first, again) {
        Ok(())
    } else {
        Err("the passphrases do not match".to_owned())
    }
}

} // verus!
