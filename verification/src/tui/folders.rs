//! The Folders settings tab: every folder of every account in sidebar
//! order, hidden ones included so they can be unhidden, each with its
//! alias and whether the daemon skips it; and the edits the tab makes
//! to an account's order, hidden and unsynced lists. Persisting the
//! lists to the account file is the caller's I/O.
use vstd::prelude::*;

use crate::text::{first_index, str_eq, texts_of};

verus! {

broadcast use vstd::string::group_string_axioms;

/// The sidebar's name for an account's inbox.
pub open spec fn inbox() -> Seq<char> {
    "inbox"@
}

/// One account as the sidebar knows it: its discovered folders (the
/// inbox aside), the order the user chose, and the folders it hides
/// and does not sync.
#[derive(Clone, Debug, Default, PartialEq, Eq)]
pub struct AccountEntry {
    pub name: String,
    pub folders: Vec<String>,
    pub order: Vec<String>,
    pub hidden: Vec<String>,
    pub unsynced: Vec<String>,
}

/// Whether `list` holds `name`.
pub fn contains_name(list: &Vec<String>, name: &str) -> (r: bool)
    ensures
        r == texts_of(list@).contains(name@),
{
    let mut i: usize = 0;
    while i < list.len()
        invariant
            i <= list.len(),
            forall|j: int| 0 <= j < i ==> list@[j]@ != name@,
        decreases list.len() - i,
    {
        if str_eq(list[i].as_str(), name) {
            assert(texts_of(list@)[i as int] == name@);
            return true;
        }
        i = i + 1;
    }
    proof {
        if texts_of(list@).contains(name@) {
            let j = choose|j: int| 0 <= j < texts_of(list@).len() && texts_of(list@)[j] == name@;
            assert(list@[j]@ == name@);
        }
    }
    false
}

/// The account's folders in sidebar order: the ones its order names
/// first, as ordered, then the inbox unless the order places it, then
/// every other folder as discovered.
pub open spec fn ordered_names_of(folders: Seq<Seq<char>>, order: Seq<Seq<char>>) -> Seq<Seq<char>> {
    order.filter(|n: Seq<char>| n == inbox() || folders.contains(n)) + (if order.contains(inbox()) {
        seq![]
    } else {
        seq![inbox()]
    }) + folders.filter(|f: Seq<char>| !order.contains(f))
}

/// Whether a name matches an unsynced entry: exactly, or by the prefix
/// before a trailing `*`.
pub open spec fn matches_entry(entry: Seq<char>, name: Seq<char>) -> bool {
    if entry.len() > 0 && entry.last() == '*' {
        entry.drop_last().len() <= name.len() && name.take(entry.drop_last().len() as int) == entry.drop_last()
    } else {
        entry == name
    }
}

pub open spec fn unsynced_in(entries: Seq<Seq<char>>, name: Seq<char>) -> bool {
    exists|i: int| 0 <= i < entries.len() && matches_entry(#[trigger] entries[i], name)
}

/// The folder names of an account in sidebar order.
pub fn ordered_names(account: &AccountEntry) -> (r: Vec<String>)
    ensures
        texts_of(r@) == ordered_names_of(texts_of(account.folders@), texts_of(account.order@)),
{
    let ghost folders = texts_of(account.folders@);
    let ghost order = texts_of(account.order@);
    let ghost known = |n: Seq<char>| n == inbox() || folders.contains(n);
    let ghost rest = |f: Seq<char>| !order.contains(f);
    let mut out: Vec<String> = Vec::new();
    let mut i: usize = 0;
    assert(texts_of(out@) =~= order.take(0).filter(known));
    while i < account.order.len()
        invariant
            i <= account.order.len(),
            folders == texts_of(account.folders@),
            order == texts_of(account.order@),
            known == (|n: Seq<char>| n == inbox() || folders.contains(n)),
            texts_of(out@) == order.take(i as int).filter(known),
        decreases account.order.len() - i,
    {
        let name = &account.order[i];
        assert(order.take(i + 1) =~= order.take(i as int).push(name@));
        proof {
            order.take(i as int).lemma_filter_push(name@, known);
        }
        if str_eq(name.as_str(), "inbox") || contains_name(&account.folders, name.as_str()) {
            let copy = name.clone();
            proof {
                crate::text::lemma_texts_of_push(out@, copy);
            }
            out.push(copy);
        }
        i = i + 1;
    }
    assert(order.take(account.order.len() as int) =~= order);
    let ghost head = texts_of(out@);
    if !contains_name(&account.order, "inbox") {
        let label = "inbox".to_owned();
        proof {
            crate::text::lemma_texts_of_push(out@, label);
        }
        out.push(label);
    }
    let ghost middle = texts_of(out@);
    assert(middle =~= head + (if order.contains(inbox()) {
        seq![]
    } else {
        seq![inbox()]
    }));
    let mut k: usize = 0;
    assert(folders.take(0).filter(rest) =~= Seq::<Seq<char>>::empty());
    assert(texts_of(out@) =~= middle + folders.take(0).filter(rest));
    while k < account.folders.len()
        invariant
            k <= account.folders.len(),
            folders == texts_of(account.folders@),
            order == texts_of(account.order@),
            rest == (|f: Seq<char>| !order.contains(f)),
            texts_of(out@) == middle + folders.take(k as int).filter(rest),
        decreases account.folders.len() - k,
    {
        let name = &account.folders[k];
        assert(folders.take(k + 1) =~= folders.take(k as int).push(name@));
        proof {
            folders.take(k as int).lemma_filter_push(name@, rest);
        }
        if !contains_name(&account.order, name.as_str()) {
            let copy = name.clone();
            proof {
                crate::text::lemma_texts_of_push(out@, copy);
            }
            out.push(copy);
            assert(texts_of(out@) =~= middle + folders.take(k + 1).filter(rest));
        }
        k = k + 1;
    }
    assert(folders.take(account.folders.len() as int) =~= folders);
    out
}

/// Whether the sidebar hides `name`.
pub fn is_hidden(account: &AccountEntry, name: &str) -> (r: bool)
    ensures
        r == texts_of(account.hidden@).contains(name@),
{
    contains_name(&account.hidden, name)
}

fn matches(entry: &str, name: &str) -> (r: bool)
    ensures
        r == matches_entry(entry@, name@),
{
    let e = crate::text::chars_of(entry);
    let n = crate::text::chars_of(name);
    if e.len() > 0 && e[e.len() - 1] == '*' {
        let prefix = crate::text::slice_chars(&e, 0, e.len() - 1);
        assert(prefix@ =~= e@.drop_last());
        if prefix.len() > n.len() {
            return false;
        }
        let head = crate::text::slice_chars(&n, 0, prefix.len());
        assert(head@ =~= n@.take(prefix.len() as int));
        crate::text::chars_eq(&head, &prefix)
    } else {
        crate::text::chars_eq(&e, &n)
    }
}

/// Whether the daemon skips syncing `name`.
pub fn is_unsynced(account: &AccountEntry, name: &str) -> (r: bool)
    ensures
        r == unsynced_in(texts_of(account.unsynced@), name@),
{
    let mut i: usize = 0;
    while i < account.unsynced.len()
        invariant
            i <= account.unsynced.len(),
            forall|j: int| 0 <= j < i ==> !matches_entry(#[trigger] texts_of(account.unsynced@)[j], name@),
        decreases account.unsynced.len() - i,
    {
        if matches(account.unsynced[i].as_str(), name) {
            assert(matches_entry(texts_of(account.unsynced@)[i as int], name@));
            return true;
        }
        i = i + 1;
    }
    false
}

/// One row of the Folders tab.
#[derive(Clone, Debug, PartialEq, Eq)]
pub struct FolderRow {
    pub account: String,
    pub folder: String,
    pub alias: String,
    pub hidden: bool,
    pub unsynced: bool,
}

/// The alias configured for `folder` of `account`, or nothing.
pub open spec fn alias_of(aliases: Seq<(String, String, String)>, account: Seq<char>, folder: Seq<char>) -> Seq<char> {
    match first_index(aliases, |t: (String, String, String)| t.0@ == account && t.1@ == folder) {
        Some(i) => aliases[i].2@,
        None => Seq::empty(),
    }
}

/// The row of folder `name` of `account`, alias joined in.
pub open spec fn row_of(account: AccountEntry, name: Seq<char>, aliases: Seq<(String, String, String)>) -> (
    Seq<char>,
    Seq<char>,
    Seq<char>,
    bool,
    bool,
) {
    (
        account.name@,
        name,
        alias_of(aliases, account.name@, name),
        texts_of(account.hidden@).contains(name),
        unsynced_in(texts_of(account.unsynced@), name),
    )
}

pub open spec fn row_view(row: FolderRow) -> (Seq<char>, Seq<char>, Seq<char>, bool, bool) {
    (row.account@, row.folder@, row.alias@, row.hidden, row.unsynced)
}

/// Every folder of every account, in account order and sidebar order
/// within each.
pub open spec fn rows_of(accounts: Seq<AccountEntry>, aliases: Seq<(String, String, String)>) -> Seq<
    (Seq<char>, Seq<char>, Seq<char>, bool, bool),
>
    decreases accounts.len(),
{
    if accounts.len() == 0 {
        seq![]
    } else {
        rows_of(accounts.drop_last(), aliases) + ordered_names_of(
            texts_of(accounts.last().folders@),
            texts_of(accounts.last().order@),
        ).map_values(|name: Seq<char>| row_of(accounts.last(), name, aliases))
    }
}

fn alias_for(aliases: &Vec<(String, String, String)>, account: &str, folder: &str) -> (r: String)
    ensures
        r@ == alias_of(aliases@, account@, folder@),
{
    let ghost p = |t: (String, String, String)| t.0@ == account@ && t.1@ == folder@;
    let mut i: usize = 0;
    while i < aliases.len()
        invariant
            i <= aliases.len(),
            p == (|t: (String, String, String)| t.0@ == account@ && t.1@ == folder@),
            forall|j: int| 0 <= j < i ==> !p(#[trigger] aliases@[j]),
        decreases aliases.len() - i,
    {
        let entry = &aliases[i];
        if str_eq(entry.0.as_str(), account) && str_eq(entry.1.as_str(), folder) {
            proof {
                crate::text::lemma_first_index_is(aliases@, p, i as int);
            }
            return entry.2.clone();
        }
        i = i + 1;
    }
    proof {
        crate::text::lemma_first_index_is(aliases@, p, i as int);
    }
    String::new()
}

/// The row of one folder.
pub fn folder_row(account: &AccountEntry, name: String, aliases: &Vec<(String, String, String)>) -> (r: FolderRow)
    ensures
        row_view(r) == row_of(*account, name@, aliases@),
{
    let alias = alias_for(aliases, account.name.as_str(), name.as_str());
    let hidden = is_hidden(account, name.as_str());
    let unsynced = is_unsynced(account, name.as_str());
    FolderRow { account: account.name.clone(), folder: name, alias, hidden, unsynced }
}

/// Every folder of every account in sidebar order, hidden ones
/// included, each with its alias.
pub fn rows(accounts: &Vec<AccountEntry>, aliases: &Vec<(String, String, String)>) -> (r: Vec<FolderRow>)
    ensures
        r@.map_values(|row: FolderRow| row_view(row)) == rows_of(accounts@, aliases@),
{
    let mut out: Vec<FolderRow> = Vec::new();
    let mut a: usize = 0;
    assert(accounts@.take(0) =~= Seq::<AccountEntry>::empty());
    assert(out@.map_values(|row: FolderRow| row_view(row)) =~= rows_of(accounts@.take(0), aliases@));
    while a < accounts.len()
        invariant
            a <= accounts.len(),
            out@.map_values(|row: FolderRow| row_view(row)) == rows_of(accounts@.take(a as int), aliases@),
        decreases accounts.len() - a,
    {
        let account = &accounts[a];
        let names = ordered_names(account);
        let ghost named = ordered_names_of(texts_of(account.folders@), texts_of(account.order@));
        let ghost start = out@.map_values(|row: FolderRow| row_view(row));
        let mut k: usize = 0;
        while k < names.len()
            invariant
                k <= names.len(),
                texts_of(names@) == named,
                out@.map_values(|row: FolderRow| row_view(row)) == start + named.take(k as int).map_values(
                    |name: Seq<char>| row_of(*account, name, aliases@),
                ),
            decreases names.len() - k,
        {
            let row = folder_row(account, names[k].clone(), aliases);
            assert(named[k as int] == names@[k as int]@);
            let ghost before = out@;
            out.push(row);
            assert(out@.map_values(|row: FolderRow| row_view(row)) =~= before.map_values(|row: FolderRow| row_view(row)).push(row_view(out@[before.len() as int])));
            assert(named.take(k + 1).map_values(|name: Seq<char>| row_of(*account, name, aliases@))
                =~= named.take(k as int).map_values(|name: Seq<char>| row_of(*account, name, aliases@)).push(row_of(*account, named[k as int], aliases@)));
            k = k + 1;
        }
        assert(named.take(names.len() as int) =~= named);
        assert(accounts@.take(a + 1).drop_last() =~= accounts@.take(a as int));
        assert(accounts@.take(a + 1).last() == *account);
        a = a + 1;
    }
    assert(accounts@.take(accounts.len() as int) =~= accounts@);
    out
}

// ---------------------------------------------------------------
// The tab's edits
// ---------------------------------------------------------------

/// A hidden or unsynced list with `name` toggled: removed everywhere
/// it stands when the row shows it marked, appended otherwise.
pub open spec fn other_than(name: Seq<char>) -> spec_fn(Seq<char>) -> bool {
    |n: Seq<char>| n != name
}

pub open spec fn toggled_list(list: Seq<Seq<char>>, name: Seq<char>, marked: bool) -> Seq<Seq<char>> {
    if marked {
        list.filter(other_than(name))
    } else {
        list.push(name)
    }
}

pub fn toggled(list: &Vec<String>, name: &str, marked: bool) -> (r: Vec<String>)
    ensures
        texts_of(r@) == toggled_list(texts_of(list@), name@, marked),
{
    let ghost keep = other_than(name@);
    let mut out: Vec<String> = Vec::new();
    if !marked {
        let mut i: usize = 0;
        while i < list.len()
            invariant
                i <= list.len(),
                texts_of(out@) == texts_of(list@).take(i as int),
            decreases list.len() - i,
        {
            let copy = list[i].clone();
            proof {
                crate::text::lemma_texts_of_push(out@, copy);
            }
            out.push(copy);
            assert(texts_of(list@).take(i + 1) =~= texts_of(list@).take(i as int).push(list@[i as int]@));
            i = i + 1;
        }
        assert(texts_of(list@).take(list.len() as int) =~= texts_of(list@));
        let added = name.to_owned();
        proof {
            crate::text::lemma_texts_of_push(out@, added);
        }
        out.push(added);
        return out;
    }
    let mut i: usize = 0;
    assert(texts_of(out@) =~= texts_of(list@).take(0).filter(keep));
    while i < list.len()
        invariant
            i <= list.len(),
            keep == other_than(name@),
            texts_of(out@) == texts_of(list@).take(i as int).filter(keep),
        decreases list.len() - i,
    {
        assert(texts_of(list@).take(i + 1) =~= texts_of(list@).take(i as int).push(list@[i as int]@));
        proof {
            texts_of(list@).take(i as int).lemma_filter_push(list@[i as int]@, keep);
        }
        if !str_eq(list[i].as_str(), name) {
            let copy = list[i].clone();
            proof {
                crate::text::lemma_texts_of_push(out@, copy);
            }
            out.push(copy);
        }
        i = i + 1;
    }
    assert(texts_of(list@).take(list.len() as int) =~= texts_of(list@));
    out
}

proof fn lemma_filter_keeps_all(list: Seq<Seq<char>>, name: Seq<char>)
    requires
        !list.contains(name),
    ensures
        list.filter(other_than(name)) == list,
    decreases list.len(),
{
    if list.len() == 0 {
        assert(list.filter(other_than(name)) =~= list) by {
            reveal(Seq::filter);
        }
    } else {
        let init = list.drop_last();
        assert(!init.contains(name)) by {
            if init.contains(name) {
                let j = choose|j: int| 0 <= j < init.len() && init[j] == name;
                assert(list[j] == name);
            }
        }
        lemma_filter_keeps_all(init, name);
        assert(list[list.len() - 1] != name);
        init.lemma_filter_push(list.last(), other_than(name));
        assert(init.push(list.last()) =~= list);
    }
}

/// Marking a folder and then unmarking it gives back the list it
/// started from, when the folder was not in it.
pub proof fn law_toggle_round_trip(list: Seq<Seq<char>>, name: Seq<char>)
    requires
        !list.contains(name),
    ensures
        toggled_list(toggled_list(list, name, false), name, true) == list,
{
    list.lemma_filter_push(name, other_than(name));
    lemma_filter_keeps_all(list, name);
}

/// Where a folder moved by `step` within its account lands: clamped to
/// the account's rows.
pub open spec fn moved_to(from: int, len: int, step: int) -> int {
    let to = from + step;
    if to < 0 {
        0
    } else if to > len - 1 {
        len - 1
    } else {
        to
    }
}

/// The account's order with the folder at `from` moved by `step`, or
/// nothing when the clamp leaves it where it is.
pub open spec fn reordered_names(names: Seq<Seq<char>>, from: int, step: int) -> Option<Seq<Seq<char>>> {
    let to = moved_to(from, names.len() as int, step);
    if to == from {
        None
    } else {
        Some(names.update(from, names[to]).update(to, names[from]))
    }
}

pub fn reordered(names: &Vec<String>, from: usize, step: i32) -> (r: Option<Vec<String>>)
    requires
        from < names.len(),
        names.len() <= i32::MAX,
    ensures
        match reordered_names(texts_of(names@), from as int, step as int) {
            Some(n) => r matches Some(v) && texts_of(v@) == n,
            None => r is None,
        },
{
    let last: i64 = names.len() as i64 - 1;
    let wanted: i64 = from as i64 + step as i64;
    let to: i64 = if wanted < 0 {
        0
    } else if wanted > last {
        last
    } else {
        wanted
    };
    if to == from as i64 {
        return None;
    }
    let to = to as usize;
    let mut out: Vec<String> = Vec::new();
    let mut i: usize = 0;
    let ghost want = texts_of(names@).update(from as int, texts_of(names@)[to as int]).update(to as int, texts_of(names@)[from as int]);
    while i < names.len()
        invariant
            i <= names.len(),
            from < names.len(),
            to < names.len(),
            want == texts_of(names@).update(from as int, texts_of(names@)[to as int]).update(to as int, texts_of(names@)[from as int]),
            texts_of(out@) == want.take(i as int),
        decreases names.len() - i,
    {
        let source = if i == from {
            to
        } else if i == to {
            from
        } else {
            i
        };
        let copy = names[source].clone();
        proof {
            crate::text::lemma_texts_of_push(out@, copy);
        }
        out.push(copy);
        assert(want.take(i + 1) =~= want.take(i as int).push(want[i as int]));
        i = i + 1;
    }
    assert(want.take(names.len() as int) =~= want);
    Some(out)
}

/// Whether the daemon may be told to skip a folder: never the inbox.
pub fn may_unsync(folder: &str) -> (r: bool)
    ensures
        r == (folder@ != inbox()),
{
    !str_eq(folder, "inbox")
}

/// What the tab says after `h` on a row: unhidden when it was hidden.
pub fn hide_notice(folder: &str, was_hidden: bool) -> (r: String)
    ensures
        r@ == folder@ + (if was_hidden {
            " shown again"@
        } else {
            " hidden from the sidebar"@
        }),
{
    let mut out = crate::text::chars_of(folder);
    if was_hidden {
        crate::text::append_str(&mut out, " shown again");
    } else {
        crate::text::append_str(&mut out, " hidden from the sidebar");
    }
    crate::text::string_of(&out)
}

/// What the tab says after `u` on a row: syncing again when it was
/// unsynced.
pub fn unsync_notice(folder: &str, was_unsynced: bool) -> (r: String)
    ensures
        r@ == folder@ + (if was_unsynced {
            " syncing again"@
        } else {
            " will no longer sync"@
        }),
{
    let mut out = crate::text::chars_of(folder);
    if was_unsynced {
        crate::text::append_str(&mut out, " syncing again");
    } else {
        crate::text::append_str(&mut out, " will no longer sync");
    }
    crate::text::string_of(&out)
}

/// The folder rows the sidebar lists for one account: its folders in
/// sidebar order, the hidden ones left out, each with the account.
pub open spec fn sidebar_rows_for(account: AccountEntry) -> Seq<(Seq<char>, Seq<char>)> {
    ordered_names_of(texts_of(account.folders@), texts_of(account.order@)).filter(
        |n: Seq<char>| !texts_of(account.hidden@).contains(n),
    ).map_values(|n: Seq<char>| (account.name@, n))
}

/// The sidebar's folder rows of every account, account by account.
pub open spec fn sidebar_rows_of(accounts: Seq<AccountEntry>) -> Seq<(Seq<char>, Seq<char>)>
    decreases accounts.len(),
{
    if accounts.len() == 0 {
        seq![]
    } else {
        sidebar_rows_of(accounts.drop_last()) + sidebar_rows_for(accounts.last())
    }
}

/// The `(account, folder)` rows the sidebar lists.
pub fn sidebar_folders(accounts: &Vec<AccountEntry>) -> (r: Vec<(String, String)>)
    ensures
        crate::tui::folder_picker::pair_views(r@) == sidebar_rows_of(accounts@),
{
    let mut out: Vec<(String, String)> = Vec::new();
    let mut a: usize = 0;
    while a < accounts.len()
        invariant
            a <= accounts@.len(),
            out@.map_values(|p: (String, String)| (p.0@, p.1@)) == sidebar_rows_of(accounts@.take(a as int)),
        decreases accounts@.len() - a,
    {
        let account = &accounts[a];
        let names = ordered_names(account);
        let ghost hidden = texts_of(account.hidden@);
        let ghost keep = |n: Seq<char>| !hidden.contains(n);
        let ghost start = out@.map_values(|p: (String, String)| (p.0@, p.1@));
        let mut i: usize = 0;
        while i < names.len()
            invariant
                i <= names@.len(),
                hidden == texts_of(account.hidden@),
                keep == (|n: Seq<char>| !hidden.contains(n)),
                out@.map_values(|p: (String, String)| (p.0@, p.1@)) == start + texts_of(names@).take(i as int).filter(
                    keep,
                ).map_values(|n: Seq<char>| (account.name@, n)),
            decreases names@.len() - i,
        {
            let ghost t = texts_of(names@);
            proof {
                reveal(Seq::filter);
                assert(t.take(i + 1).drop_last() =~= t.take(i as int));
                assert(t.take(i + 1).last() == names@[i as int]@);
            }
            if !is_hidden(account, names[i].as_str()) {
                let ghost before = out@;
                out.push((account.name.clone(), names[i].clone()));
                proof {
                    assert(t.take(i + 1).filter(keep) == t.take(i as int).filter(keep).push(names@[i as int]@));
                    assert(out@.map_values(|p: (String, String)| (p.0@, p.1@)) =~= before.map_values(
                        |p: (String, String)| (p.0@, p.1@),
                    ).push((account.name@, names@[i as int]@)));
                    assert(start + t.take(i + 1).filter(keep).map_values(|n: Seq<char>| (account.name@, n)) =~= start
                        + t.take(i as int).filter(keep).map_values(|n: Seq<char>| (account.name@, n)).push(
                        (account.name@, names@[i as int]@),
                    ));
                }
            } else {
                proof {
                    assert(t.take(i + 1).filter(keep) == t.take(i as int).filter(keep));
                }
            }
            i = i + 1;
        }
        proof {
            assert(texts_of(names@).take(names@.len() as int) =~= texts_of(names@));
            assert(accounts@.take(a + 1).drop_last() =~= accounts@.take(a as int));
            assert(accounts@.take(a + 1).last() == accounts@[a as int]);
            assert(sidebar_rows_for(accounts@[a as int]) =~= texts_of(names@).filter(keep).map_values(
                |n: Seq<char>| (account.name@, n),
            ));
        }
        a = a + 1;
    }
    assert(accounts@.take(accounts@.len() as int) =~= accounts@);
    out
}

} // verus!
