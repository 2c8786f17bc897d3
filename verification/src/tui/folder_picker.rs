//! The `c` picker: every folder of the message's account but the one it
//! already sits in, shown by alias where one is configured and moving
//! by real path, and what the picker's keys ask for.
use vstd::prelude::*;

use crate::text::{first_index, lemma_first_index_is, str_eq, texts_of};
use crate::tui::keys::KeyCode;
use crate::tui::mailops::{account_of, account_of_path, folder_of, folder_of_path};

verus! {

broadcast use vstd::string::group_string_axioms;

/// The account root's display name; as a move target it is the empty
/// folder path.
pub open spec fn root_label() -> Seq<char> {
    "inbox"@
}

pub open spec fn no_targets_message() -> Seq<char> {
    "no other folders on this account"@
}

/// The picker: `(real path, label)` targets and the selection.
#[derive(Clone, Debug, Default, PartialEq, Eq)]
pub struct FolderPicker {
    pub folders: Vec<(String, String)>,
    pub selected: usize,
}

/// The label a folder of `account` is shown by: its configured alias,
/// or its own name.
pub open spec fn shown_as(aliases: Seq<(String, String, String)>, account: Seq<char>, name: Seq<char>) -> Seq<char> {
    match first_index(aliases, |t: (String, String, String)| t.0@ == account && t.1@ == name) {
        Some(i) => aliases[i].2@,
        None => name,
    }
}

/// Whether a sidebar folder entry is a target for a message of
/// `account` sitting in `current`.
pub open spec fn is_target(entry: (Seq<char>, Seq<char>), account: Seq<char>, current: Seq<char>) -> bool {
    entry.0 == account && entry.1 != current && entry.1 != root_label()
}

/// The targets of the sidebar folder entries `entries`, in their order.
pub open spec fn targets_of(
    entries: Seq<(Seq<char>, Seq<char>)>,
    aliases: Seq<(String, String, String)>,
    account: Seq<char>,
    current: Seq<char>,
) -> Seq<(Seq<char>, Seq<char>)>
    decreases entries.len(),
{
    if entries.len() == 0 {
        seq![]
    } else {
        let e = entries.last();
        targets_of(entries.drop_last(), aliases, account, current) + if is_target(e, account, current) {
            seq![(e.1, shown_as(aliases, account, e.1))]
        } else {
            Seq::empty()
        }
    }
}

/// Where a message stored at `path` can move: the account's root first
/// unless it sits there, then every other folder of its account among
/// the sidebar entries `(account, folder)`, in their order.
pub open spec fn move_targets_of(
    path: Seq<char>,
    entries: Seq<(Seq<char>, Seq<char>)>,
    aliases: Seq<(String, String, String)>,
) -> Seq<(Seq<char>, Seq<char>)> {
    let account = account_of_path(path);
    let current = folder_of_path(path);
    (if current.len() > 0 {
        seq![(Seq::<char>::empty(), root_label())]
    } else {
        Seq::empty()
    }) + targets_of(entries, aliases, account, current)
}

pub open spec fn pair_views(v: Seq<(String, String)>) -> Seq<(Seq<char>, Seq<char>)> {
    v.map_values(|p: (String, String)| (p.0@, p.1@))
}

fn shown_name(aliases: &Vec<(String, String, String)>, account: &str, name: &str) -> (r: String)
    ensures
        r@ == shown_as(aliases@, account@, name@),
{
    let ghost p = |t: (String, String, String)| t.0@ == account@ && t.1@ == name@;
    let mut i: usize = 0;
    while i < aliases.len()
        invariant
            i <= aliases@.len(),
            p == (|t: (String, String, String)| t.0@ == account@ && t.1@ == name@),
            forall|j: int| 0 <= j < i ==> !p(#[trigger] aliases@[j]),
        decreases aliases@.len() - i,
    {
        if str_eq(aliases[i].0.as_str(), account) && str_eq(aliases[i].1.as_str(), name) {
            proof {
                lemma_first_index_is(aliases@, p, i as int);
            }
            return aliases[i].2.clone();
        }
        i = i + 1;
    }
    proof {
        lemma_first_index_is(aliases@, p, aliases@.len() as int);
    }
    name.to_string()
}

/// The picker's targets for the message stored at `path`, or the
/// notice when its account has no other folder.
pub fn move_targets(path: &str, entries: &Vec<(String, String)>, aliases: &Vec<(String, String, String)>) -> (r: Result<
    Vec<(String, String)>,
    String,
>)
    ensures
        move_targets_of(path@, pair_views(entries@), aliases@).len() == 0 ==> (r matches Err(m) && m@ == no_targets_message()),
        move_targets_of(path@, pair_views(entries@), aliases@).len() > 0 ==> (r matches Ok(v) && pair_views(v@)
            == move_targets_of(path@, pair_views(entries@), aliases@)),
{
    let account = account_of(path);
    let current = folder_of(path);
    let mut out: Vec<(String, String)> = Vec::new();
    proof {
        reveal_strlit("inbox");
        reveal_strlit("");
    }
    if current.unicode_len() > 0 {
        out.push((String::new(), "inbox".to_string()));
    }
    let ghost head = pair_views(out@);
    assert(head =~= (if current@.len() > 0 {
        seq![(Seq::<char>::empty(), root_label())]
    } else {
        Seq::<(Seq<char>, Seq<char>)>::empty()
    }));
    let mut i: usize = 0;
    while i < entries.len()
        invariant
            i <= entries@.len(),
            account@ == account_of_path(path@),
            current@ == folder_of_path(path@),
            pair_views(out@) == head + targets_of(pair_views(entries@).take(i as int), aliases@, account@, current@),
        decreases entries@.len() - i,
    {
        let entry = &entries[i];
        assert(pair_views(entries@).take(i + 1).drop_last() =~= pair_views(entries@).take(i as int));
        assert(pair_views(entries@).take(i + 1).last() == (entries@[i as int].0@, entries@[i as int].1@));
        proof {
            reveal_strlit("inbox");
        }
        let keep = str_eq(entry.0.as_str(), account.as_str()) && !str_eq(entry.1.as_str(), current.as_str())
            && !str_eq(entry.1.as_str(), "inbox");
        if keep {
            let label = shown_name(aliases, account.as_str(), entry.1.as_str());
            let ghost before = out@;
            out.push((entry.1.clone(), label));
            assert(pair_views(out@) =~= pair_views(before).push((entry.1@, label@)));
        }
        assert(pair_views(out@) =~= head + targets_of(pair_views(entries@).take(i + 1), aliases@, account@, current@));
        i = i + 1;
    }
    assert(pair_views(entries@).take(entries@.len() as int) =~= pair_views(entries@));
    if out.len() == 0 {
        proof {
            reveal_strlit("no other folders on this account");
        }
        return Err("no other folders on this account".to_string());
    }
    Ok(out)
}

/// What a key asks of the open picker.
#[derive(Clone, Debug, PartialEq, Eq)]
pub enum PickerStep {
    /// Esc closes it without moving.
    Close,
    /// j/k and the arrows move the selection, held to the list.
    Select(usize),
    /// Enter moves the message to this folder path and closes it.
    Move(String),
    /// Anything else is ignored.
    Stay,
}

pub open spec fn picker_step_of(picker: FolderPicker, code: KeyCode) -> PickerStep {
    let count = picker.folders@.len() as int;
    let last = if count > 0 { count - 1 } else { 0 };
    match code {
        KeyCode::Esc => PickerStep::Close,
        KeyCode::Char('j') | KeyCode::Down => PickerStep::Select(
            (if picker.selected + 1 < last { picker.selected + 1 } else { last }) as usize,
        ),
        KeyCode::Char('k') | KeyCode::Up => PickerStep::Select(
            (if picker.selected > 0 { picker.selected - 1 } else { 0 }) as usize,
        ),
        KeyCode::Enter => PickerStep::Move(picker.folders@[picker.selected as int].0),
        _ => PickerStep::Stay,
    }
}

impl FolderPicker {
    /// The selection stands on a target.
    pub open spec fn wf(self) -> bool {
        self.selected < self.folders@.len()
    }

    pub fn step(&self, code: KeyCode) -> (r: PickerStep)
        requires
            self.wf(),
        ensures
            match picker_step_of(*self, code) {
                PickerStep::Move(f) => r matches PickerStep::Move(g) && g@ == f@,
                other => r == other,
            },
    {
        let count = self.folders.len();
        let last = if count > 0 {
            count - 1
        } else {
            0
        };
        match code {
            KeyCode::Esc => PickerStep::Close,
            KeyCode::Char('j') | KeyCode::Down => PickerStep::Select(
                if self.selected + 1 < last {
                    self.selected + 1
                } else {
                    last
                },
            ),
            KeyCode::Char('k') | KeyCode::Up => PickerStep::Select(
                if self.selected > 0 {
                    self.selected - 1
                } else {
                    0
                },
            ),
            KeyCode::Enter => PickerStep::Move(self.folders[self.selected].0.clone()),
            _ => PickerStep::Stay,
        }
    }
}

} // verus!
