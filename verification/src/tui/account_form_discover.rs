//! Autodiscovery for the account form: `^d` looks the entered e-mail
//! address up and fills the IMAP and SMTP rows. The lookup itself goes
//! over the network; the form decides whether to ask, and what the
//! answer does to it.
use vstd::prelude::*;

use crate::text::{append_str, chars_of, in_set, last_index_in, last_index_of, slice_chars, string_of, trim, trimmed};
use crate::tui::account_form::AccountFormState;

verus! {

broadcast use vstd::string::group_string_axioms;

/// A server the lookup found: its host and the user to sign in as.
#[derive(Clone, Debug, PartialEq, Eq)]
pub struct DiscoveredServer {
    pub host: String,
    pub username: String,
}

/// What a lookup found for an address.
#[derive(Clone, Debug, PartialEq, Eq)]
pub struct Discovered {
    pub imap: Option<DiscoveredServer>,
    pub smtp: Option<DiscoveredServer>,
}

/// A lookup that could not be made, such as for an address the lookup
/// cannot read.
#[derive(Clone, Copy, Debug, PartialEq, Eq, Structural)]
pub struct DiscoverError;

pub open spec fn fixed_servers_message() -> Seq<char> {
    "autodiscovery fills IMAP accounts; this type has fixed servers"@
}

pub open spec fn address_first_message() -> Seq<char> {
    "enter the e-mail address first, then ^d"@
}

pub open spec fn full_address_message() -> Seq<char> {
    "enter a full e-mail address first"@
}

/// The part of `address` after its last `@`, or all of it.
pub open spec fn domain_of(address: Seq<char>) -> Seq<char> {
    match last_index_of(address, '@') {
        Some(i) => address.skip(i + 1),
        None => address,
    }
}

pub open spec fn miss_message(address: Seq<char>) -> Seq<char> {
    "no settings found for "@ + domain_of(address) + "; fill them in"@
}

/// The form with only its error replaced.
pub open spec fn with_error(form: AccountFormState, error: Option<String>) -> AccountFormState {
    AccountFormState { error, ..form }
}


/// The form with the found servers written into its rows.
pub open spec fn applied(form: AccountFormState, found: Discovered) -> AccountFormState {
    AccountFormState {
        imap_host: match found.imap {
            Some(s) => s.host,
            None => form.imap_host,
        },
        imap_user: match found.imap {
            Some(s) => s.username,
            None => form.imap_user,
        },
        smtp_host: match found.smtp {
            Some(s) => s.host,
            None => form.smtp_host,
        },
        ..form
    }
}

/// The error a settled lookup leaves, with its text.
pub open spec fn has_error(form: AccountFormState, text: Seq<char>) -> bool {
    form.error matches Some(e) && e@ == text
}

/// `after` is `before` once the lookup for `address` answered
/// `lookup`: found servers fill the rows and clear the error; a miss
/// names the domain looked under; a failed lookup asks for a full
/// address. Nothing else changes.
pub open spec fn settled_as(after: AccountFormState, before: AccountFormState, address: Seq<char>, lookup: Result<Option<Discovered>, DiscoverError>) -> bool {
    match lookup {
        Ok(Some(found)) => after == with_error(applied(before, found), None),
        Ok(None) => has_error(after, miss_message(address)) && after == with_error(before, after.error),
        Err(_) => has_error(after, full_address_message()) && after == with_error(before, after.error),
    }
}

/// What `^d` does to the form `before`, leaving `after` and asking
/// for `r`: an OAuth account has fixed servers and an address needs an
/// `@`, and the error says so; otherwise the trimmed address is looked
/// up and the form is left as it is.
pub open spec fn requested_as(r: Option<String>, after: AccountFormState, before: AccountFormState) -> bool {
    let address = trim(before.address@);
    if before.account_type.provider_spec() is Some {
        r is None && has_error(after, fixed_servers_message()) && after == with_error(before, after.error)
    } else if !address.contains('@') {
        r is None && has_error(after, address_first_message()) && after == with_error(before, after.error)
    } else {
        r matches Some(a) && a@ == address && after == before
    }
}

/// Whether `^d` asks for a lookup, and for which address: an OAuth
/// account has fixed servers, and an address needs an `@`. When it does
/// not ask, the form's error says why.
pub fn request(form: &mut AccountFormState) -> (r: Option<String>)
    ensures
        requested_as(r, *final(form), *old(form)),
{
    if form.provider().is_some() {
        proof {
            reveal_strlit("autodiscovery fills IMAP accounts; this type has fixed servers");
        }
        form.error = Some("autodiscovery fills IMAP accounts; this type has fixed servers".to_string());
        return None;
    }
    let address = trimmed(&chars_of(form.address.as_str()));
    if !in_set('@', &address) {
        proof {
            reveal_strlit("enter the e-mail address first, then ^d");
        }
        form.error = Some("enter the e-mail address first, then ^d".to_string());
        return None;
    }
    Some(string_of(&address))
}

/// What the lookup's answer does to the form: found servers fill the
/// rows and clear the error; a miss names the domain it looked under;
/// a failed lookup asks for a full address.
pub fn settle(form: &mut AccountFormState, address: &str, lookup: Result<Option<Discovered>, DiscoverError>)
    ensures
        settled_as(*final(form), *old(form), address@, lookup),
{
    match lookup {
        Ok(Some(found)) => {
            apply(form, found);
            form.error = None;
        },
        Ok(None) => {
            let chars = chars_of(address);
            let domain = match last_index_in(&chars, '@') {
                Some(i) => slice_chars(&chars, i + 1, chars.len()),
                None => chars,
            };
            let mut message = chars_of("no settings found for ");
            let mut tail = domain;
            message.append(&mut tail);
            append_str(&mut message, "; fill them in");
            proof {
                reveal_strlit("no settings found for ");
                reveal_strlit("; fill them in");
                match last_index_of(address@, '@') {
                    Some(i) => {
                        assert(address@.skip(i + 1) =~= address@.subrange(i + 1, address@.len() as int));
                    },
                    None => {},
                }
                assert(message@ =~= miss_message(address@));
            }
            form.error = Some(string_of(&message));
        },
        Err(_) => {
            proof {
                reveal_strlit("enter a full e-mail address first");
            }
            form.error = Some("enter a full e-mail address first".to_string());
        },
    }
}

/// The form holds only hosts and the IMAP user, so discovered ports
/// and socket types are not written; the daemon supplies the standard
/// ports.
fn apply(form: &mut AccountFormState, found: Discovered)
    ensures
        *final(form) == applied(*old(form), found),
{
    let Discovered { imap, smtp } = found;
    match imap {
        Some(server) => {
            form.imap_host = server.host;
            form.imap_user = server.username;
        },
        None => {},
    }
    match smtp {
        Some(server) => {
            form.smtp_host = server.host;
        },
        None => {},
    }
}

} // verus!
