//! `:export <account> <path>` from the TUI: the checks made before an
//! archive is written. Encryption targets come from `[export]
//! recipients` in the global config; the TUI prompts for no
//! passphrase.
use vstd::prelude::*;

use crate::export::{age_parsed, age_rejection, first_bad_key, parse_recipients};
use crate::text::{append_str, chars_of, string_of, texts_of, trim};
use crate::tui::folders::contains_name;

verus! {

broadcast use vstd::string::group_string_axioms;

pub open spec fn no_account_notice(account: Seq<char>) -> Seq<char> {
    "no account named "@ + account
}

pub open spec fn no_recipients_notice() -> Seq<char> {
    "set [export] recipients in config.toml first"@
}

/// The notice for a recipient key that does not parse.
pub open spec fn bad_recipient_notice(key: Seq<char>, reason: Seq<char>) -> Seq<char> {
    "bad age recipient \""@ + key + "\": "@ + reason
}

/// The recipients a TUI export encrypts to, or the notice that stops
/// it: the account must be known, recipients configured, and every
/// recipient key must parse.
pub fn export_recipients(accounts: &Vec<String>, account: &str, keys: &Vec<String>) -> (r: Result<
    Vec<age::x25519::Recipient>,
    String,
>)
    ensures
        !texts_of(accounts@).contains(account@) ==> (r matches Err(e) && e@ == no_account_notice(account@)),
        texts_of(accounts@).contains(account@) && keys@.len() == 0 ==> (r matches Err(e) && e@
            == no_recipients_notice()),
        texts_of(accounts@).contains(account@) && keys@.len() > 0 ==> match first_bad_key(
            keys@.map_values(|k: String| k@),
        ) {
            None => r matches Ok(v) && v@.len() == keys@.len() && forall|j: int|
                0 <= j < keys@.len() ==> age_parsed(trim(keys@[j]@)) == Ok::<age::x25519::Recipient, Seq<char>>(
                    #[trigger] v@[j],
                ),
            Some(i) => r matches Err(e) && exists|reason: Seq<char>|
                #![trigger bad_recipient_notice(keys@[i]@, reason)]
                Some(reason) == age_rejection(trim(keys@[i]@)) && e@ == bad_recipient_notice(keys@[i]@, reason),
        },
{
    if !contains_name(accounts, account) {
        let mut out = chars_of("no account named ");
        append_str(&mut out, account);
        proof {
            reveal_strlit("no account named ");
        }
        return Err(string_of(&out));
    }
    if keys.len() == 0 {
        proof {
            reveal_strlit("set [export] recipients in config.toml first");
        }
        return Err("set [export] recipients in config.toml first".to_string());
    }
    match parse_recipients(keys) {
        Ok(v) => Ok(v),
        Err(error) => {
            let notice = error.message();
            proof {
                match first_bad_key(keys@.map_values(|k: String| k@)) {
                    Some(i) => {
                        match error {
                            crate::export::ExportError::BadRecipient { key, reason } => {
                                reveal_strlit("bad age recipient \"");
                                reveal_strlit("\": ");
                                assert(notice@ =~= bad_recipient_notice(keys@[i]@, reason@));
                            },
                            _ => {},
                        }
                    },
                    None => {},
                }
            }
            Err(notice)
        },
    }
}

} // verus!
