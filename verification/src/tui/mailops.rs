//! Where a message lives in the local store, read off its path.
use vstd::prelude::*;

use crate::text::{
    chars_of, find_char_from, find_from, find_seq, first_index, is_char, last_index_in, last_index_of, lemma_first_index_is,
    slice_chars, string_of,
};

verus! {

broadcast use vstd::string::group_string_axioms;

/// The account a stored message belongs to: the directory right below
/// the store's `maildir/`, or nothing for a path outside it.
pub open spec fn account_of_path(path: Seq<char>) -> Seq<char> {
    match find_from(path, "maildir/"@, 0) {
        Some(i) => {
            let rest = path.skip(i + 8);
            match first_index(rest, is_char('/')) {
                Some(j) => rest.take(j),
                None => rest,
            }
        },
        None => Seq::empty(),
    }
}

/// The account of the message stored at `path`.
pub fn account_of(path: &str) -> (r: String)
    ensures
        r@ == account_of_path(path@),
{
    let v = chars_of(path);
    let marker = chars_of("maildir/");
    proof {
        reveal_strlit("maildir/");
    }
    match find_seq(&v, &marker, 0) {
        None => String::new(),
        Some(i) => {
            assert(marker@.len() == 8);
            let n = v.len();
            assert(i + 8 <= n);
            let start = i + 8;
            match find_char_from(&v, '/', start) {
                Some(j) => {
                    proof {
                        let rest = v@.skip(start as int);
                        assert forall|k: int| 0 <= k < j - start implies !(is_char('/'))(#[trigger] rest[k]) by {
                            assert(rest[k] == v@[start + k]);
                        }
                        lemma_first_index_is(rest, is_char('/'), j - start);
                    }
                    let account = slice_chars(&v, start, j);
                    assert(account@ =~= v@.skip(start as int).take(j - start));
                    string_of(&account)
                },
                None => {
                    proof {
                        let rest = v@.skip(start as int);
                        assert forall|k: int| 0 <= k < rest.len() implies !(is_char('/'))(#[trigger] rest[k]) by {
                            assert(rest[k] == v@[start + k]);
                        }
                        lemma_first_index_is(rest, is_char('/'), rest.len() as int);
                    }
                    let account = slice_chars(&v, start, v.len());
                    assert(account@ =~= v@.skip(start as int));
                    string_of(&account)
                },
            }
        },
    }
}

/// `s` up to its last `/`, or nothing when it has none.
pub open spec fn parent_of(s: Seq<char>) -> Seq<char> {
    match last_index_of(s, '/') {
        Some(k) => s.take(k),
        None => Seq::empty(),
    }
}

fn parent(v: &Vec<char>) -> (r: Vec<char>)
    ensures
        r@ == parent_of(v@),
{
    match last_index_in(v, '/') {
        Some(k) => slice_chars(v, 0, k),
        None => Vec::new(),
    }
}

/// The folder a stored message sits in: the path below its account's
/// directory, without the maildir's `cur`, `new` or `tmp` part and the
/// file; the account's root folder is the empty path.
pub open spec fn folder_of_path(path: Seq<char>) -> Seq<char> {
    match find_from(path, "maildir/"@, 0) {
        Some(i) => {
            let rest = path.skip(i + 8);
            match first_index(rest, is_char('/')) {
                Some(j) => parent_of(parent_of(rest.skip(j + 1))),
                None => Seq::empty(),
            }
        },
        None => Seq::empty(),
    }
}

/// The folder of the message stored at `path`.
pub fn folder_of(path: &str) -> (r: String)
    ensures
        r@ == folder_of_path(path@),
{
    let v = chars_of(path);
    let marker = chars_of("maildir/");
    proof {
        reveal_strlit("maildir/");
    }
    match find_seq(&v, &marker, 0) {
        None => String::new(),
        Some(i) => {
            assert(marker@.len() == 8);
            let n = v.len();
            assert(i + 8 <= n);
            let start = i + 8;
            match find_char_from(&v, '/', start) {
                Some(j) => {
                    let ghost rest = v@.skip(start as int);
                    proof {
                        assert forall|k: int| 0 <= k < j - start implies !(is_char('/'))(#[trigger] rest[k]) by {
                            assert(rest[k] == v@[start + k]);
                        }
                        lemma_first_index_is(rest, is_char('/'), j - start);
                    }
                    let below = slice_chars(&v, j + 1, v.len());
                    assert(below@ =~= rest.skip(j - start + 1));
                    let dir = parent(&below);
                    string_of(&parent(&dir))
                },
                None => {
                    proof {
                        let rest = v@.skip(start as int);
                        assert forall|k: int| 0 <= k < rest.len() implies !(is_char('/'))(#[trigger] rest[k]) by {
                            assert(rest[k] == v@[start + k]);
                        }
                        lemma_first_index_is(rest, is_char('/'), rest.len() as int);
                    }
                    String::new()
                },
            }
        },
    }
}

} // verus!
