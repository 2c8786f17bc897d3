//! Recipient completion: contacts matching the entry being typed,
//! and the selection stepping through them.
use vstd::prelude::*;

use crate::text::{
    append_str, chars_of, contains_chars, contains_seq, last_index_in,
    last_index_of, slice_chars, string_of, trim, trim_end, trimmed, trimmed_end_of, wrapped,
    wrapped_spec,
};

verus! {

broadcast use vstd::string::group_string_axioms;

/// At most this many suggestions show under a field.
pub const MAX_SUGGESTIONS: usize = 5;

/// Fewer characters than this suggest nothing.
pub const MIN_FRAGMENT_CHARS: usize = 2;

/// A harvested contact, ranked by the store.
#[derive(Clone, Debug, PartialEq, Eq)]
pub struct Contact {
    pub address: String,
    pub name: String,
    pub score: u32,
}

/// Suggestions under a recipient field, best-ranked first.
#[derive(Debug, PartialEq, Eq)]
pub struct Completion {
    pub items: Vec<String>,
    pub selected: usize,
}

impl Default for Completion {
    fn default() -> (r: Completion)
        ensures
            r.items@.len() == 0,
            r.selected == 0,
    {
        Completion { items: Vec::new(), selected: 0 }
    }
}

impl Completion {
    /// Moves the selection by `step`, wrapping at both ends; an empty
    /// list has nothing to select. The selection is read as an `i32`,
    /// as the list's positions are.
    pub fn step(&mut self, step: i32)
        requires
            old(self).items@.len() <= i32::MAX,
            i32::MIN <= (old(self).selected as i32) + step <= i32::MAX,
        ensures
            final(self).items == old(self).items,
            final(self).selected == (if old(self).items@.len() == 0 {
                old(self).selected as int
            } else {
                wrapped_spec((old(self).selected as i32) as int, old(self).items@.len() as int, step as int)
            }),
    {
        let count = self.items.len();
        if count == 0 {
            return;
        }
        let current: i32 = self.selected as i32;
        let sum: i32 = current + step;
        self.selected = if sum >= 0 {
            wrapped(sum as usize, count, 0)
        } else {
            wrapped(0, count, sum)
        };
    }

    /// The selected suggestion, if the selection is in range.
    pub fn chosen(&self) -> (r: Option<&str>)
        ensures
            self.selected < self.items@.len() ==> (r matches Some(s) && s@ == self.items@[self.selected as int]@),
            self.selected >= self.items@.len() ==> r is None,
    {
        if self.selected < self.items.len() {
            Some(self.items[self.selected].as_str())
        } else {
            None
        }
    }
}

/// What `str::to_lowercase` makes of a text (full Unicode case
/// mapping; a function of the text alone).
pub uninterp spec fn lowercased(s: Seq<char>) -> Seq<char>;

/// std's `str::to_lowercase`; its result is named, not modelled.
#[verifier::external_body]
pub(crate) fn to_lowercase(s: &str) -> (r: String)
    ensures
        r@ == lowercased(s@),
{
    s.to_lowercase()
}

/// The entry being typed: whatever follows the last comma, trimmed.
pub open spec fn fragment_of(field: Seq<char>) -> Seq<char> {
    match last_index_of(field, ',') {
        Some(comma) => trim(field.skip(comma + 1)),
        None => trim(field),
    }
}

/// How a contact enters a field: `Name <address>`, or the bare
/// address without a name.
pub open spec fn entry_text(address: Seq<char>, name: Seq<char>) -> Seq<char> {
    if name.len() == 0 {
        address
    } else {
        name + seq![' ', '<'] + address + seq!['>']
    }
}

pub open spec fn contact_matches(contact: Contact, fragment: Seq<char>) -> bool {
    contains_seq(lowercased(contact.address@), fragment) || contains_seq(
        lowercased(contact.name@),
        fragment,
    )
}

/// The first `limit` matching contacts, in the order they came.
pub open spec fn suggestions_from(contacts: Seq<Contact>, fragment: Seq<char>, limit: int) -> Seq<
    Seq<char>,
>
    decreases contacts.len(),
{
    if contacts.len() == 0 || limit <= 0 {
        seq![]
    } else if contact_matches(contacts[0], fragment) {
        seq![entry_text(contacts[0].address@, contacts[0].name@)] + suggestions_from(
            contacts.drop_first(),
            fragment,
            limit - 1,
        )
    } else {
        suggestions_from(contacts.drop_first(), fragment, limit)
    }
}

/// The suggestions for what the field holds: none under two
/// characters of fragment, else the first five matching contacts.
pub open spec fn suggestions(contacts: Seq<Contact>, field: Seq<char>) -> Seq<Seq<char>> {
    let fragment = lowercased(fragment_of(field));
    if fragment.len() < MIN_FRAGMENT_CHARS {
        seq![]
    } else {
        suggestions_from(contacts, fragment, MAX_SUGGESTIONS as int)
    }
}

fn fragment(field: &Vec<char>) -> (r: Vec<char>)
    ensures
        r@ == fragment_of(field@),
{
    match last_index_in(field, ',') {
        Some(comma) => {
            let rest = slice_chars(field, comma + 1, field.len());
            assert(rest@ =~= field@.skip(comma + 1));
            trimmed(&rest)
        },
        None => trimmed(field),
    }
}

fn entry(contact: &Contact) -> (r: String)
    ensures
        r@ == entry_text(contact.address@, contact.name@),
{
    if contact.name.as_str().unicode_len() == 0 {
        return contact.address.clone();
    }
    let mut out: Vec<char> = chars_of(contact.name.as_str());
    append_str(&mut out, " <");
    append_str(&mut out, contact.address.as_str());
    append_str(&mut out, ">");
    proof {
        reveal_strlit(" <");
        reveal_strlit(">");
    }
    assert(out@ =~= entry_text(contact.address@, contact.name@));
    string_of(&out)
}

/// Matches the fragment after the last comma against address and
/// display name; contacts arrive ranked, so order holds.
pub fn suggest(contacts: &Vec<Contact>, field: &str) -> (r: Vec<String>)
    ensures
        r@.map_values(|s: String| s@) == suggestions(contacts@, field@),
{
    let chars = chars_of(field);
    let frag = fragment(&chars);
    let lowered = to_lowercase(string_of(&frag).as_str());
    let needle = chars_of(lowered.as_str());
    let mut out: Vec<String> = Vec::new();
    if needle.len() < MIN_FRAGMENT_CHARS {
        assert(out@.map_values(|s: String| s@) =~= Seq::<Seq<char>>::empty());
        return out;
    }
    let ghost all = contacts@;
    let mut i: usize = 0;
    assert(all.skip(0) =~= all);
    assert(out@.map_values(|s: String| s@) + suggestions_from(all.skip(0), needle@, 5) =~= suggestions_from(all, needle@, 5));
    while i < contacts.len() && out.len() < MAX_SUGGESTIONS
        invariant
            i <= contacts.len(),
            all == contacts@,
            out@.len() <= 5,
            out@.map_values(|s: String| s@) + suggestions_from(
                all.skip(i as int),
                needle@,
                5 - out@.len(),
            ) == suggestions_from(all, needle@, 5),
        decreases contacts.len() - i,
    {
        let contact = &contacts[i];
        let ghost rest = all.skip(i as int);
        assert(rest[0] == contact);
        assert(rest.drop_first() =~= all.skip(i + 1));
        let address = to_lowercase(contact.address.as_str());
        let name = to_lowercase(contact.name.as_str());
        let a = chars_of(address.as_str());
        let n = chars_of(name.as_str());
        if contains_chars(&a, &needle) || contains_chars(&n, &needle) {
            let e = entry(contact);
            let ghost before = out@.map_values(|s: String| s@);
            out.push(e);
            assert(out@.map_values(|s: String| s@) =~= before.push(e@));
        }
        i = i + 1;
    }
    proof {
        if i == contacts.len() {
            assert(all.skip(i as int) =~= Seq::<Contact>::empty());
        }
        assert(out@.map_values(|s: String| s@) + suggestions_from(
            all.skip(i as int),
            needle@,
            5 - out@.len(),
        ) =~= out@.map_values(|s: String| s@));
    }
    out
}

/// The field after accepting `choice`: every completed entry before
/// the last comma is kept, the fragment being typed is replaced.
pub open spec fn accepted(field: Seq<char>, choice: Seq<char>) -> Seq<char> {
    match last_index_of(field, ',') {
        Some(comma) => trim_end(field.take(comma)) + seq![',', ' '] + choice,
        None => choice,
    }
}

/// Replaces the fragment being typed with the chosen entry.
pub fn accept(field: &str, choice: &str) -> (r: String)
    ensures
        r@ == accepted(field@, choice@),
{
    let chars = chars_of(field);
    match last_index_in(&chars, ',') {
        Some(comma) => {
            let keep = trimmed_end_of(&chars, comma);
            let mut out = slice_chars(&chars, 0, keep);
            proof {
                crate::text::lemma_trimmed_end_len(chars@.take(comma as int));
            }
            assert(out@ =~= trim_end(chars@.take(comma as int)));
            out.push(',');
            out.push(' ');
            append_str(&mut out, choice);
            assert(out@ =~= accepted(field@, choice@));
            string_of(&out)
        },
        None => choice.to_owned(),
    }
}

/// `last_index_of` finds the last occurrence, or reports there is none.
proof fn lemma_last_index_of(s: Seq<char>, c: char)
    ensures
        match last_index_of(s, c) {
            Some(i) => 0 <= i < s.len() && s[i] == c && forall|j: int| i < j < s.len() ==> s[j] != c,
            None => forall|j: int| 0 <= j < s.len() ==> s[j] != c,
        },
    decreases s.len(),
{
    if s.len() > 0 && s.last() != c {
        lemma_last_index_of(s.drop_last(), c);
        assert forall|j: int| 0 <= j < s.len() - 1 implies s.drop_last()[j] == s[j] by {}
    }
}

/// Accepting a suggestion keeps every entry completed before the one
/// being typed: with `comma` the field's last comma, the result is the
/// field up to that comma (trailing spaces dropped), a comma and a
/// space, and the choice.
pub proof fn law_accept_keeps_completed_entries(field: Seq<char>, choice: Seq<char>, comma: int)
    requires
        0 <= comma < field.len(),
        field[comma] == ',',
        forall|j: int| comma < j < field.len() ==> field[j] != ',',
    ensures
        accepted(field, choice) == trim_end(field.take(comma)) + seq![',', ' '] + choice,
        accepted(field, choice).take(trim_end(field.take(comma)).len() as int) == trim_end(field.take(comma)),
        accepted(field, choice).skip(trim_end(field.take(comma)).len() + 2int) == choice,
{
    lemma_last_index_of(field, ',');
    match last_index_of(field, ',') {
        Some(i) => {
            if i < comma {
                assert(field[comma] != ',');
            }
            if i > comma {
                assert(field[i] != ',');
            }
        },
        None => {
            assert(field[comma] != ',');
        },
    }
    let keep = trim_end(field.take(comma));
    let r = keep + seq![',', ' '] + choice;
    assert(r.take(keep.len() as int) =~= keep);
    assert(r.skip(keep.len() + 2int) =~= choice);
}

/// With no comma in the field, accepting a suggestion replaces the
/// whole field with the choice.
pub proof fn law_accept_replaces_a_lone_entry(field: Seq<char>, choice: Seq<char>)
    requires
        forall|j: int| 0 <= j < field.len() ==> field[j] != ',',
    ensures
        accepted(field, choice) == choice,
{
    lemma_last_index_of(field, ',');
}

/// Whether a contact's address or name, lowercased, holds `needle`.
pub open spec fn contact_holds(contact: Contact, needle: Seq<char>) -> bool {
    contains_seq(lowercased(contact.address@), needle) || contains_seq(lowercased(contact.name@), needle)
}

/// Suggestions are blind to case: two fields whose fragments lowercase
/// alike get the same suggestions.
pub proof fn law_suggestions_ignore_case(contacts: Seq<Contact>, f1: Seq<char>, f2: Seq<char>)
    requires
        lowercased(fragment_of(f1)) == lowercased(fragment_of(f2)),
    ensures
        suggestions(contacts, f1) == suggestions(contacts, f2),
{
}

/// Whether `entry` is how some contact holding `needle` enters a field.
pub open spec fn is_entry_holding(contacts: Seq<Contact>, needle: Seq<char>, entry: Seq<char>) -> bool {
    exists|i: int|
        0 <= i < contacts.len() && contact_holds(contacts[i], needle) && entry == entry_text(
            contacts[i].address@,
            contacts[i].name@,
        )
}

proof fn lemma_suggestions_from(contacts: Seq<Contact>, needle: Seq<char>, limit: int)
    requires
        limit >= 0,
    ensures
        suggestions_from(contacts, needle, limit).len() <= limit,
        forall|k: int| 0 <= k < suggestions_from(contacts, needle, limit).len() ==> is_entry_holding(contacts, needle, #[trigger] suggestions_from(contacts, needle, limit)[k]),
        limit > 0 && (exists|i: int| 0 <= i < contacts.len() && contact_holds(#[trigger] contacts[i], needle))
            ==> suggestions_from(contacts, needle, limit).len() > 0,
        limit > 0 && contacts.len() > 0 && contact_holds(contacts[0], needle) ==> suggestions_from(
            contacts,
            needle,
            limit,
        )[0] == entry_text(contacts[0].address@, contacts[0].name@),
    decreases contacts.len(),
{
    if contacts.len() > 0 && limit > 0 {
        let rest = contacts.drop_first();
        let r = suggestions_from(contacts, needle, limit);
        if contact_holds(contacts[0], needle) {
            lemma_suggestions_from(rest, needle, limit - 1);
            let tail = suggestions_from(rest, needle, limit - 1);
            assert forall|k: int| 0 <= k < r.len() implies is_entry_holding(contacts, needle, #[trigger] r[k]) by {
                if k == 0 {
                    assert(r[0] == entry_text(contacts[0].address@, contacts[0].name@));
                    assert(is_entry_holding(contacts, needle, r[0]));
                } else {
                    assert(r[k] == tail[k - 1]);
                    assert(is_entry_holding(rest, needle, tail[k - 1]));
                    let i = choose|i: int| 0 <= i < rest.len() && contact_holds(rest[i], needle)
                        && tail[k - 1] == entry_text(rest[i].address@, rest[i].name@);
                    assert(rest[i] == contacts[i + 1]);
                    assert(is_entry_holding(contacts, needle, r[k]));
                }
            }
        } else {
            lemma_suggestions_from(rest, needle, limit);
            let tail = suggestions_from(rest, needle, limit);
            assert(r == tail);
            assert forall|k: int| 0 <= k < r.len() implies is_entry_holding(contacts, needle, #[trigger] r[k]) by {
                assert(is_entry_holding(rest, needle, tail[k]));
                let i = choose|i: int| 0 <= i < rest.len() && contact_holds(rest[i], needle)
                    && tail[k] == entry_text(rest[i].address@, rest[i].name@);
                assert(rest[i] == contacts[i + 1]);
                assert(is_entry_holding(contacts, needle, r[k]));
            }
            if exists|i: int| 0 <= i < contacts.len() && contact_holds(#[trigger] contacts[i], needle) {
                let i = choose|i: int| 0 <= i < contacts.len() && contact_holds(#[trigger] contacts[i], needle);
                assert(i != 0);
                assert(rest[i - 1] == contacts[i]);
            }
        }
    }
}

/// What the suggestions are: none while the lowercased fragment after
/// the last comma is under two characters; otherwise at most five, each
/// the entry of a contact whose lowercased address or name holds the
/// lowercased fragment, at least one whenever some contact does, and
/// first the entry of the first contact when it does.
pub proof fn law_suggestions_are_matching_contacts(contacts: Seq<Contact>, field: Seq<char>)
    ensures
        ({
            let needle = lowercased(fragment_of(field));
            let r = suggestions(contacts, field);
            &&& needle.len() < 2 ==> r.len() == 0
            &&& r.len() <= 5
            &&& forall|k: int| 0 <= k < r.len() ==> is_entry_holding(contacts, needle, #[trigger] r[k])
            &&& needle.len() >= 2 && (exists|i: int| 0 <= i < contacts.len() && contact_holds(#[trigger] contacts[i], needle))
                ==> r.len() > 0
            &&& needle.len() >= 2 && contacts.len() > 0 && contact_holds(contacts[0], needle)
                ==> r[0] == entry_text(contacts[0].address@, contacts[0].name@)
        }),
{
    let needle = lowercased(fragment_of(field));
    let r = suggestions(contacts, field);
    lemma_suggestions_from(contacts, needle, 5);
    if needle.len() >= 2 {
        assert(r == suggestions_from(contacts, needle, 5));
        assert forall|k: int| 0 <= k < r.len() implies is_entry_holding(contacts, needle, #[trigger] r[k]) by {
            assert(r[k] == suggestions_from(contacts, needle, 5)[k]);
        }
    }
}

} // verus!
