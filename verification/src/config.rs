//! The parts of an account's configuration that the setup wizard, the
//! account file writer and the settings form read: the values as
//! plain strings, the way the config loader hands them over.
use vstd::prelude::*;

use crate::tui::app::ReadingPane;

verus! {

/// One `[[identity]]` block of an account file.
#[derive(Clone, Debug, PartialEq, Eq)]
pub struct Identity {
    pub address: String,
    pub name: Option<String>,
    pub signature: Option<String>,
    pub matches: Vec<String>,
    pub pgp_sign: bool,
    pub pgp_key: Option<String>,
}

/// An account file as loaded: the `[account]` name, the `[imap]`
/// connection, the optional `[smtp]` host and the identities in file
/// order.
#[derive(Clone, Debug, PartialEq, Eq)]
pub struct AccountFile {
    pub name: String,
    pub imap_host: String,
    pub imap_user: String,
    pub imap_password_cmd: Option<String>,
    pub smtp_host: Option<String>,
    pub identities: Vec<Identity>,
}

/// Where the accounts show in the client: a sidebar listing them all,
/// or a tab per account.
#[derive(Clone, Copy, Debug, PartialEq, Eq, Structural)]
pub enum AccountsBar {
    Sidebar,
    Tabs,
}

/// The loaded configuration the client starts from: the account files
/// in their configured order and the layout settings.
#[derive(Clone, Debug, PartialEq, Eq)]
pub struct Loaded {
    pub accounts: Vec<AccountFile>,
    pub reading_pane: ReadingPane,
    pub accounts_bar: AccountsBar,
    /// The `folder_names` aliases of every account: `(account, folder,
    /// alias)`.
    pub folder_aliases: Vec<(String, String, String)>,
}

/// The names of the configured accounts, in order.
pub open spec fn account_names_of(accounts: Seq<AccountFile>) -> Seq<Seq<char>> {
    accounts.map_values(|a: AccountFile| a.name@)
}

/// The configured accounts' names, in order.
pub fn account_names(loaded: &Loaded) -> (r: Vec<String>)
    ensures
        crate::text::texts_of(r@) == account_names_of(loaded.accounts@),
{
    let mut out: Vec<String> = Vec::new();
    let mut i: usize = 0;
    while i < loaded.accounts.len()
        invariant
            i <= loaded.accounts@.len(),
            crate::text::texts_of(out@) == account_names_of(loaded.accounts@).take(i as int),
        decreases loaded.accounts@.len() - i,
    {
        let name = loaded.accounts[i].name.clone();
        proof {
            crate::text::lemma_texts_of_push(out@, name);
        }
        out.push(name);
        assert(account_names_of(loaded.accounts@).take(i + 1) =~= account_names_of(loaded.accounts@).take(
            i as int,
        ).push(loaded.accounts@[i as int].name@));
        i = i + 1;
    }
    assert(account_names_of(loaded.accounts@).take(loaded.accounts@.len() as int) =~= account_names_of(
        loaded.accounts@,
    ));
    out
}

} // verus!
