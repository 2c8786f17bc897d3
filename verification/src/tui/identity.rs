//! The identities a compose can send from: each configured identity
//! of each account, in account order, and the one a fresh compose in
//! an account starts with. Reading signature files is the caller's
//! I/O; their texts come in as plain values.
use vstd::prelude::*;

use crate::config::{AccountFile, Identity};
use crate::text::first_index;
use crate::tui::compose::IdentityChoice;

verus! {

broadcast use vstd::string::group_string_axioms;

/// One identity a compose can send as: display name, address,
/// signature text and its pgp defaults.
#[derive(Clone, Debug, PartialEq, Eq)]
pub struct ComposeIdentity {
    pub name: Option<String>,
    pub address: String,
    pub signature: Option<String>,
    pub pgp_sign: bool,
    pub pgp_key: Option<String>,
}

/// The signature text given for the identity at `i`, if any.
pub open spec fn signature_at(signatures: Seq<Option<String>>, i: int) -> Option<String> {
    if 0 <= i < signatures.len() {
        signatures[i]
    } else {
        None
    }
}

/// A configured identity as a compose sends it, with its signature's
/// text.
pub open spec fn compose_identity_of(identity: Identity, signature: Option<String>) -> ComposeIdentity {
    ComposeIdentity {
        name: identity.name,
        address: identity.address,
        signature,
        pgp_sign: identity.pgp_sign,
        pgp_key: identity.pgp_key,
    }
}

fn copy_opt(o: &Option<String>) -> (r: Option<String>)
    ensures
        r == *o,
{
    match o {
        Some(s) => Some(s.clone()),
        None => None,
    }
}

/// The identities an account composes from: its configured ones, each
/// with the text of its signature (`signatures` in the same order);
/// with none configured, its IMAP user when that is an address; else
/// none.
pub fn account_identities(file: &AccountFile, signatures: &Vec<Option<String>>) -> (r: Vec<ComposeIdentity>)
    ensures
        file.identities@.len() > 0 ==> r@.len() == file.identities@.len(),
        forall|i: int|
            0 <= i < r@.len() && file.identities@.len() > 0 ==> #[trigger] r@[i] == compose_identity_of(
                file.identities@[i],
                signature_at(signatures@, i),
            ),
        file.identities@.len() == 0 && file.imap_user@.contains('@') ==> r@ == seq![
            ComposeIdentity { name: None, address: file.imap_user, signature: None, pgp_sign: false, pgp_key: None },
        ],
        file.identities@.len() == 0 && !file.imap_user@.contains('@') ==> r@.len() == 0,
{
    let mut r: Vec<ComposeIdentity> = Vec::new();
    if file.identities.len() > 0 {
        let mut i: usize = 0;
        while i < file.identities.len()
            invariant
                i <= file.identities@.len(),
                r@.len() == i,
                forall|j: int| 0 <= j < i ==> #[trigger] r@[j] == compose_identity_of(file.identities@[j], signature_at(signatures@, j)),
            decreases file.identities.len() - i,
        {
            let identity = &file.identities[i];
            let signature = if i < signatures.len() {
                copy_opt(&signatures[i])
            } else {
                None
            };
            let made = ComposeIdentity {
                name: copy_opt(&identity.name),
                address: identity.address.clone(),
                signature,
                pgp_sign: identity.pgp_sign,
                pgp_key: copy_opt(&identity.pgp_key),
            };
            r.push(made);
            i = i + 1;
        }
        return r;
    }
    let user = crate::text::chars_of(file.imap_user.as_str());
    let mut k: usize = 0;
    while k < user.len()
        invariant
            k <= user@.len(),
            r@.len() == 0,
            file.identities@.len() == 0,
            user@ == file.imap_user@,
            forall|j: int| 0 <= j < k ==> user@[j] != '@',
        decreases user.len() - k,
    {
        if user[k] == '@' {
            r.push(ComposeIdentity {
                name: None,
                address: file.imap_user.clone(),
                signature: None,
                pgp_sign: false,
                pgp_key: None,
            });
            assert(r@ =~= seq![
                ComposeIdentity { name: None, address: file.imap_user, signature: None, pgp_sign: false, pgp_key: None },
            ]);
            return r;
        }
        k = k + 1;
    }
    r
}

/// Every configured identity paired with its account, in account
/// order: the choices the From field cycles through.
pub open spec fn choices_of(accounts: Seq<(String, Vec<ComposeIdentity>)>) -> Seq<(Seq<char>, ComposeIdentity)>
    decreases accounts.len(),
{
    if accounts.len() == 0 {
        Seq::empty()
    } else {
        choices_of(accounts.drop_last()) + accounts.last().1@.map_values(
            |identity: ComposeIdentity| (accounts.last().0@, identity),
        )
    }
}

/// A choice as its account's text and its identity.
pub open spec fn choice_view(c: IdentityChoice) -> (Seq<char>, ComposeIdentity) {
    (c.account@, c.identity)
}

pub fn choices(accounts: &Vec<(String, Vec<ComposeIdentity>)>) -> (r: Vec<IdentityChoice>)
    ensures
        r@.map_values(|c: IdentityChoice| choice_view(c)) == choices_of(accounts@),
{
    let mut r: Vec<IdentityChoice> = Vec::new();
    let mut a: usize = 0;
    while a < accounts.len()
        invariant
            a <= accounts@.len(),
            r@.map_values(|c: IdentityChoice| choice_view(c)) == choices_of(accounts@.take(a as int)),
        decreases accounts.len() - a,
    {
        let name = &accounts[a].0;
        let identities = &accounts[a].1;
        let ghost start = r@.map_values(|c: IdentityChoice| choice_view(c));
        let mut i: usize = 0;
        while i < identities.len()
            invariant
                a < accounts@.len(),
                *name == accounts@[a as int].0,
                *identities == accounts@[a as int].1,
                i <= identities@.len(),
                r@.map_values(|c: IdentityChoice| choice_view(c)) == start + identities@.take(i as int).map_values(
                    |identity: ComposeIdentity| (name@, identity),
                ),
            decreases identities.len() - i,
        {
            let ghost before = r@;
            r.push(IdentityChoice { account: name.clone(), identity: crate::tui::compose::copy_identity(&identities[i]) });
            assert(r@.map_values(|c: IdentityChoice| choice_view(c)) =~= before.map_values(|c: IdentityChoice| choice_view(c)).push(
                (name@, identities@[i as int]),
            ));
            assert(identities@.take(i + 1).map_values(|identity: ComposeIdentity| (name@, identity)) =~= identities@.take(
                i as int,
            ).map_values(|identity: ComposeIdentity| (name@, identity)).push((name@, identities@[i as int])));
            i = i + 1;
        }
        assert(identities@.take(identities.len() as int) =~= identities@);
        assert(accounts@.take(a + 1).drop_last() =~= accounts@.take(a as int));
        assert(accounts@.take(a + 1).last() == accounts@[a as int]);
        a = a + 1;
    }
    assert(accounts@.take(accounts.len() as int) =~= accounts@);
    r
}

/// The choice a fresh compose in `account` starts on: the account's
/// first identity, or the first configured identity when it has none
/// of its own.
pub open spec fn identity_for_of(choices: Seq<IdentityChoice>, account: Seq<char>) -> Option<int> {
    match first_index(choices, |c: IdentityChoice| c.account@ == account) {
        Some(i) => Some(i),
        None => if choices.len() > 0 {
            Some(0)
        } else {
            None
        },
    }
}

pub fn identity_for(choices: &Vec<IdentityChoice>, account: &str) -> (r: Option<usize>)
    ensures
        match identity_for_of(choices@, account@) {
            Some(i) => r == Some(i as usize),
            None => r is None,
        },
{
    let ghost p = |c: IdentityChoice| c.account@ == account@;
    let mut i: usize = 0;
    while i < choices.len()
        invariant
            i <= choices@.len(),
            p == (|c: IdentityChoice| c.account@ == account@),
            forall|j: int| 0 <= j < i ==> !p(#[trigger] choices@[j]),
        decreases choices.len() - i,
    {
        if crate::text::str_eq(choices[i].account.as_str(), account) {
            proof {
                crate::text::lemma_first_index_is(choices@, p, i as int);
            }
            return Some(i);
        }
        i = i + 1;
    }
    proof {
        crate::text::lemma_first_index_is(choices@, p, i as int);
    }
    if choices.len() > 0 {
        Some(0)
    } else {
        None
    }
}

} // verus!
