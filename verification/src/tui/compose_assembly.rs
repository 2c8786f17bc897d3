//! Address helpers for turning a compose into a message on the wire.
use vstd::prelude::*;

use crate::text::{
    chars_of, find_char_from, first_index, is_char, lemma_first_index_is, lemma_texts_of_push, slice_chars,
    string_of, texts_of, trim, trimmed,
};

verus! {

broadcast use vstd::string::group_string_axioms;

/// The bare address of an entry: what stands between its first `<` and
/// the next `>`, trimmed; the whole entry trimmed when it has no such
/// brackets.
pub open spec fn bare_address_of(value: Seq<char>) -> Seq<char> {
    match first_index(value, is_char('<')) {
        Some(i) => match first_index(value.skip(i + 1), is_char('>')) {
            Some(j) => trim(value.skip(i + 1).take(j)),
            None => trim(value),
        },
        None => trim(value),
    }
}

/// The bare address of a header entry, for the envelope.
pub fn bare_address(value: &str) -> (r: String)
    ensures
        r@ == bare_address_of(value@),
{
    let v = chars_of(value);
    assert(v@.skip(0) =~= v@);
    match find_char_from(&v, '<', 0) {
        Some(i) => {
            proof {
                lemma_first_index_is(v@, is_char('<'), i as int);
            }
            match find_char_from(&v, '>', i + 1) {
                Some(j) => {
                    proof {
                        let rest = v@.skip(i + 1);
                        assert forall|k: int| 0 <= k < j - (i + 1) implies !(is_char('>'))(#[trigger] rest[k]) by {
                            assert(rest[k] == v@[i + 1 + k]);
                        }
                        lemma_first_index_is(rest, is_char('>'), j - (i + 1));
                    }
                    let inner = slice_chars(&v, i + 1, j);
                    assert(inner@ =~= v@.skip(i + 1).take(j - (i + 1)));
                    string_of(&trimmed(&inner))
                },
                None => {
                    proof {
                        let rest = v@.skip(i + 1);
                        assert forall|k: int| 0 <= k < rest.len() implies !(is_char('>'))(#[trigger] rest[k]) by {
                            assert(rest[k] == v@[i + 1 + k]);
                        }
                        lemma_first_index_is(rest, is_char('>'), rest.len() as int);
                    }
                    string_of(&trimmed(&v))
                },
            }
        },
        None => string_of(&trimmed(&v)),
    }
}

/// A compose ready to assemble: the address lists and the exact header
/// values the message will carry.
#[derive(Debug, Default, PartialEq, Eq)]
pub struct Outgoing {
    pub from_name: Option<String>,
    pub from: String,
    pub to: Vec<String>,
    pub cc: Vec<String>,
    pub bcc: Vec<String>,
    pub subject: String,
    pub in_reply_to: Option<String>,
    pub references: Vec<String>,
    pub body: String,
    pub read_receipt: bool,
}

/// Who a queued message goes from and to: the account it sends
/// through, the sender, every recipient as a bare address, and the
/// Unix time it may send at (none sends at the next drain).
#[derive(Debug, PartialEq, Eq)]
pub struct Envelope {
    pub account: String,
    pub from: String,
    pub recipients: Vec<String>,
    pub send_after: Option<u64>,
}

/// The envelope's recipients: To, Cc and Bcc, in that order, each
/// reduced to its bare address.
pub open spec fn recipients_of(o: Outgoing) -> Seq<Seq<char>> {
    (texts_of(o.to@) + texts_of(o.cc@) + texts_of(o.bcc@)).map_values(|e: Seq<char>| bare_address_of(e))
}

fn push_bare(out: &mut Vec<String>, entries: &Vec<String>)
    ensures
        texts_of(final(out)@) == texts_of(old(out)@) + texts_of(entries@).map_values(
            |e: Seq<char>| bare_address_of(e),
        ),
{
    let ghost start = texts_of(out@);
    let mut i: usize = 0;
    while i < entries.len()
        invariant
            i <= entries@.len(),
            texts_of(out@) == start + texts_of(entries@).map_values(|e: Seq<char>| bare_address_of(e)).take(
                i as int,
            ),
        decreases entries@.len() - i,
    {
        let bare = bare_address(entries[i].as_str());
        proof {
            lemma_texts_of_push(out@, bare);
        }
        out.push(bare);
        assert(texts_of(out@) =~= start + texts_of(entries@).map_values(|e: Seq<char>| bare_address_of(e)).take(
            i + 1,
        ));
        i = i + 1;
    }
    assert(texts_of(entries@).map_values(|e: Seq<char>| bare_address_of(e)).take(entries@.len() as int)
        =~= texts_of(entries@).map_values(|e: Seq<char>| bare_address_of(e)));
}

/// The envelope of `outgoing` sent through `account`; Bcc recipients
/// ride here, never in the headers.
pub fn envelope(account: &str, outgoing: &Outgoing) -> (r: Envelope)
    ensures
        r.account@ == account@,
        r.from@ == outgoing.from@,
        texts_of(r.recipients@) == recipients_of(*outgoing),
        r.send_after is None,
{
    let mut recipients: Vec<String> = Vec::new();
    push_bare(&mut recipients, &outgoing.to);
    push_bare(&mut recipients, &outgoing.cc);
    push_bare(&mut recipients, &outgoing.bcc);
    proof {
        let f = |e: Seq<char>| bare_address_of(e);
        let (a, b, c) = (texts_of(outgoing.to@), texts_of(outgoing.cc@), texts_of(outgoing.bcc@));
        assert((a + b + c).map_values(f) =~= Seq::<Seq<char>>::empty() + a.map_values(f) + b.map_values(f)
            + c.map_values(f));
    }
    Envelope { account: account.to_string(), from: outgoing.from.clone(), recipients, send_after: None }
}

} // verus!
