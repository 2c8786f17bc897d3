//! The OpenPGP plan of a compose and the signer lookup's matching.
use vstd::prelude::*;

use crate::text::{
    append_chars, append_str, ascii_lowercase, ascii_lowercased, chars_eq, chars_of, contains_chars,
    contains_seq, first_index, join_with, join_with_of, lemma_first_index_is, lines_view, string_of,
};

verus! {

broadcast use vstd::string::group_string_axioms;

/// What OpenPGP protection the finished compose receives, resolved
/// from the identity default and any per-message toggles before the
/// editor opens.
#[derive(Clone, Copy, Debug, PartialEq, Eq, Structural)]
pub struct PgpPlan {
    pub sign: bool,
    pub encrypt: bool,
}

impl Default for PgpPlan {
    fn default() -> (r: PgpPlan)
        ensures
            !r.sign && !r.encrypt,
    {
        PgpPlan { sign: false, encrypt: false }
    }
}

/// The status-line label of a plan.
pub open spec fn plan_label(sign: bool, encrypt: bool) -> Option<Seq<char>> {
    if !sign && !encrypt {
        None
    } else if sign && !encrypt {
        Some(seq!['[', 's', 'i', 'g', 'n', ']'])
    } else if !sign && encrypt {
        Some(seq!['[', 'e', 'n', 'c', 'r', 'y', 'p', 't', ']'])
    } else {
        Some(seq!['[', 's', 'i', 'g', 'n', '+', 'e', 'n', 'c', 'r', 'y', 'p', 't', ']'])
    }
}

impl PgpPlan {
    /// `[sign]`, `[encrypt]`, `[sign+encrypt]`, or nothing for a plain
    /// message.
    pub fn label(&self) -> (r: Option<&'static str>)
        ensures
            match plan_label(self.sign, self.encrypt) {
                Some(l) => r matches Some(s) && s@ == l,
                None => r is None,
            },
    {
        proof {
            reveal_strlit("[sign]");
            reveal_strlit("[encrypt]");
            reveal_strlit("[sign+encrypt]");
        }
        match (self.sign, self.encrypt) {
            (false, false) => None,
            (true, false) => Some("[sign]"),
            (false, true) => Some("[encrypt]"),
            (true, true) => Some("[sign+encrypt]"),
        }
    }

    /// Neither signed nor encrypted.
    pub fn is_plain(&self) -> (r: bool)
        ensures
            r == (!self.sign && !self.encrypt),
    {
        !self.sign && !self.encrypt
    }
}

/// Everything the finish step needs to seal a compose: the plan plus
/// the sending identity's signer configuration.
#[derive(Clone, Debug, PartialEq, Eq)]
pub struct ComposeCrypto {
    pub plan: PgpPlan,
    pub key: Option<String>,
    pub address: String,
}

/// A user ID names `address` when it is the address itself or
/// carries it in angle brackets, ASCII case ignored.
pub open spec fn uid_names(uid: Seq<char>, address: Seq<char>) -> bool {
    let uid = ascii_lowercase(uid);
    let address = ascii_lowercase(address);
    uid == address || contains_seq(uid, seq!['<'] + address + seq!['>'])
}

/// Whether the user ID `uid` belongs to `address`.
pub fn uid_matches(uid: &str, address: &str) -> (r: bool)
    ensures
        r == uid_names(uid@, address@),
{
    let uid = ascii_lowercased(&chars_of(uid));
    let address = ascii_lowercased(&chars_of(address));
    if chars_eq(&uid, &address) {
        return true;
    }
    let mut bracketed: Vec<char> = Vec::new();
    bracketed.push('<');
    append_chars(&mut bracketed, &address);
    bracketed.push('>');
    assert(bracketed@ =~= seq!['<'] + address@ + seq!['>']);
    contains_chars(&uid, &bracketed)
}

/// A signing certificate the agent holds: its fingerprint and its
/// primary user ID, if it has one.
#[derive(Clone, Debug, PartialEq, Eq)]
pub struct SigningCert {
    pub fingerprint: String,
    pub primary_user_id: Option<String>,
}

/// Whether a certificate's primary user ID names `address`.
pub open spec fn signs_for(address: Seq<char>) -> spec_fn(SigningCert) -> bool {
    |c: SigningCert| c.primary_user_id matches Some(u) && uid_names(u@, address)
}

pub open spec fn no_signer_message(address: Seq<char>) -> Seq<char> {
    "no signing key for "@ + address + " known to gpg-agent"@
}

/// The fingerprint to sign with: the identity's configured key, or the
/// first of the agent's signing certificates (`certs`, or the error
/// the agent gave) whose user ID carries the identity's address.
pub fn resolve_signer(crypto: &ComposeCrypto, certs: Result<Vec<SigningCert>, String>) -> (r: Result<String, String>)
    ensures
        crypto.key matches Some(k) ==> r == Ok::<String, String>(k),
        crypto.key is None ==> match certs {
            Err(e) => r == Err::<String, String>(e),
            Ok(list) => match first_index(list@, signs_for(crypto.address@)) {
                Some(i) => r == Ok::<String, String>(list@[i].fingerprint),
                None => r matches Err(e) && e@ == no_signer_message(crypto.address@),
            },
        },
{
    match &crypto.key {
        Some(key) => {
            return Ok(key.clone());
        },
        None => {},
    }
    let list = match certs {
        Ok(list) => list,
        Err(error) => {
            return Err(error);
        },
    };
    let mut i: usize = 0;
    while i < list.len()
        invariant
            i <= list@.len(),
            crypto.key is None,
            certs == Ok::<Vec<SigningCert>, String>(list),
            forall|j: int| 0 <= j < i ==> !(signs_for(crypto.address@))(#[trigger] list@[j]),
        decreases list@.len() - i,
    {
        let hit = match &list[i].primary_user_id {
            Some(uid) => uid_matches(uid.as_str(), crypto.address.as_str()),
            None => false,
        };
        if hit {
            proof {
                lemma_first_index_is(list@, signs_for(crypto.address@), i as int);
            }
            return Ok(list[i].fingerprint.clone());
        }
        i = i + 1;
    }
    proof {
        lemma_first_index_is(list@, signs_for(crypto.address@), list@.len() as int);
    }
    let mut message = chars_of("no signing key for ");
    append_str(&mut message, crypto.address.as_str());
    append_str(&mut message, " known to gpg-agent");
    proof {
        reveal_strlit("no signing key for ");
        reveal_strlit(" known to gpg-agent");
    }
    Err(string_of(&message))
}

/// The recipients whose lookup found no key, in order.
pub open spec fn missing_of<C>(recipients: Seq<Seq<char>>, found: Seq<Option<C>>) -> Seq<Seq<char>>
    decreases found.len(),
{
    if found.len() == 0 {
        seq![]
    } else {
        missing_of(recipients, found.drop_last()) + if found.last() is None {
            seq![recipients[found.len() - 1]]
        } else {
            Seq::<Seq<char>>::empty()
        }
    }
}

/// The keys found, in order, once every lookup found one.
pub open spec fn found_of<C>(found: Seq<Option<C>>) -> Seq<C> {
    found.map_values(|o: Option<C>| o->Some_0)
}

pub open spec fn missing_keys_message(missing: Seq<Seq<char>>) -> Seq<char> {
    "no key in the pgp keyring for: "@ + join_with(missing, ", "@)
}

/// The certificates to encrypt to: `found[i]` is what the keyring
/// holds for `recipients[i]`. Every recipient needs a key; the error
/// names all that lack one.
pub fn recipient_certs<C>(recipients: &Vec<String>, found: Vec<Option<C>>) -> (r: Result<Vec<C>, String>)
    requires
        found@.len() == recipients@.len(),
    ensures
        ({
            let missing = missing_of(recipients@.map_values(|s: String| s@), found@);
            &&& missing.len() == 0 ==> (r matches Ok(certs) && certs@ == found_of(found@))
            &&& missing.len() > 0 ==> (r matches Err(e) && e@ == missing_keys_message(missing))
        }),
{
    let ghost names = recipients@.map_values(|s: String| s@);
    let ghost all = found@;
    let mut certs: Vec<C> = Vec::new();
    let mut missing: Vec<Vec<char>> = Vec::new();
    let mut rest = found;
    let mut i: usize = 0;
    let n = rest.len();
    assert(rest@ =~= all.skip(0));
    while i < n
        invariant
            n == all.len(),
            n == recipients@.len(),
            names == recipients@.map_values(|s: String| s@),
            i <= n,
            rest@ == all.skip(i as int),
            lines_view(missing@) == missing_of(names, all.take(i as int)),
            missing_of(names, all.take(i as int)).len() == 0 ==> certs@ == found_of(all.take(i as int)),
        decreases n - i,
    {
        assert(rest@.len() == n - i);
        let ghost before_rest = rest@;
        let next = rest.remove(0);
        proof {
            assert(next == all[i as int]);
            assert(rest@ =~= all.skip(i + 1));
            assert(all.take(i + 1).drop_last() =~= all.take(i as int));
            assert(all.take(i + 1).last() == all[i as int]);
        }
        match next {
            Some(cert) => {
                certs.push(cert);
                proof {
                    assert(missing_of(names, all.take(i + 1)) =~= missing_of(names, all.take(i as int)));
                    if missing_of(names, all.take(i as int)).len() == 0 {
                        assert(certs@ =~= found_of(all.take(i + 1)));
                    }
                }
            },
            None => {
                let name = chars_of(recipients[i].as_str());
                let ghost before = missing@;
                missing.push(name);
                proof {
                    assert(names[i as int] == recipients@[i as int]@);
                    assert(lines_view(missing@) =~= lines_view(before).push(name@));
                    assert(missing_of(names, all.take(i + 1)) =~= missing_of(names, all.take(i as int)).push(
                        names[i as int],
                    ));
                }
            },
        }
        i = i + 1;
    }
    assert(all.take(n as int) =~= all);
    if missing.len() > 0 {
        let sep = chars_of(", ");
        let joined = join_with_of(&missing, &sep);
        let mut message = chars_of("no key in the pgp keyring for: ");
        let mut tail = joined;
        message.append(&mut tail);
        proof {
            reveal_strlit("no key in the pgp keyring for: ");
            reveal_strlit(", ");
        }
        return Err(string_of(&message));
    }
    Ok(certs)
}

/// How a compose is sealed, by its plan.
#[derive(Clone, Copy, Debug, PartialEq, Eq, Structural)]
pub enum SealPath {
    /// A plain plan passes the bytes through untouched.
    Plain,
    /// Encrypt to the recipients' keys, without the agent.
    EncryptOnly,
    /// Sign through the agent, and encrypt as well when asked.
    Sign { encrypt: bool },
}

/// The path a seal takes: a plain plan touches nothing, an
/// encrypt-only plan never reaches the agent, and a signing plan
/// resolves its signer there.
pub fn seal_path(plan: PgpPlan) -> (r: SealPath)
    ensures
        !plan.sign && !plan.encrypt ==> r == SealPath::Plain,
        !plan.sign && plan.encrypt ==> r == SealPath::EncryptOnly,
        plan.sign ==> r == (SealPath::Sign { encrypt: plan.encrypt }),
{
    if !plan.sign && !plan.encrypt {
        SealPath::Plain
    } else if !plan.sign {
        SealPath::EncryptOnly
    } else {
        SealPath::Sign { encrypt: plan.encrypt }
    }
}

} // verus!
