//! Bulk actions over a whole search result: trash, archive, move or
//! permanently delete every message the current query matches. A
//! `:`-command arms an action; the confirm modal states the exact count,
//! a sample of subjects and, where the sweep is destructive or large, a
//! warning, before any op is queued. Fetching the full match set and
//! drawing the modal are the caller's work.
use vstd::prelude::*;

use crate::text::{
    append_str, chars_of, decimal, lemma_texts_of_push, push_decimal, string_of, texts_of, trim, trimmed,
};
use crate::tui::app::{App, MessageSummary, OpIntent};
use crate::tui::commands::{argument_of, argument_of_spec, PromptKind};

verus! {

broadcast use vstd::string::group_string_axioms;

/// Subjects listed in the confirm modal as a sample.
pub const EXAMPLE_LIMIT: usize = 10;

/// Above this many matches the modal warns more loudly, since the
/// action sweeps well beyond the visible window.
pub const BULK_WARN_THRESHOLD: usize = 100;

/// The four bulk commands.
#[derive(Clone, Debug, PartialEq, Eq)]
pub enum BulkAction {
    Trash,
    Archive,
    Move(String),
    Delete,
}

/// What the modal shows and what confirming queues.
#[derive(Clone, Debug, PartialEq, Eq)]
pub struct BulkConfirm {
    pub action: BulkAction,
    pub count: usize,
    pub examples: Vec<String>,
    pub intents: Vec<OpIntent>,
}

/// `move-all <folder>` needs a folder.
pub fn parse_move(argument: &str) -> (r: Option<BulkAction>)
    ensures
        trim(argument@).len() == 0 ==> r is None,
        trim(argument@).len() > 0 ==> (r matches Some(BulkAction::Move(f)) && f@ == trim(argument@)),
{
    let folder = trimmed(&chars_of(argument));
    if folder.len() == 0 {
        None
    } else {
        Some(BulkAction::Move(string_of(&folder)))
    }
}

/// Which bulk command a command line names, and what it arms or the
/// usage it is refused with.
pub open spec fn bulk_command(command: Seq<char>) -> Option<Result<Option<Seq<char>>, Seq<char>>> {
    if argument_of_spec(command, "trash-all"@) is Some {
        Some(Ok(None))
    } else if argument_of_spec(command, "archive-all"@) is Some {
        Some(Ok(None))
    } else if argument_of_spec(command, "delete-all"@) is Some {
        Some(Ok(None))
    } else {
        match argument_of_spec(command, "move-all"@) {
            Some(a) => if trim(a).len() > 0 {
                Some(Ok(Some(trim(a))))
            } else {
                Some(Err("usage: move-all <folder>"@))
            },
            None => None,
        }
    }
}

/// What recognising `command` as a bulk command gives: `None` for
/// another command, the armed action, or the usage line when
/// `move-all` lacks its folder.
pub open spec fn parsed_as(command: Seq<char>, r: Option<Result<BulkAction, String>>) -> bool {
    &&& argument_of_spec(command, "trash-all"@) is Some ==> r == Some(Ok::<BulkAction, String>(BulkAction::Trash))
    &&& argument_of_spec(command, "trash-all"@) is None && argument_of_spec(command, "archive-all"@) is Some
        ==> r == Some(Ok::<BulkAction, String>(BulkAction::Archive))
    &&& argument_of_spec(command, "trash-all"@) is None && argument_of_spec(command, "archive-all"@) is None
        && argument_of_spec(command, "delete-all"@) is Some ==> r == Some(Ok::<BulkAction, String>(BulkAction::Delete))
    &&& argument_of_spec(command, "trash-all"@) is None && argument_of_spec(command, "archive-all"@) is None
        && argument_of_spec(command, "delete-all"@) is None ==> match argument_of_spec(command, "move-all"@) {
        None => r is None,
        Some(a) => if trim(a).len() > 0 {
            r matches Some(Ok(BulkAction::Move(f))) && f@ == trim(a)
        } else {
            r matches Some(Err(u)) && u@ == "usage: move-all <folder>"@
        },
    }
}

/// Recognises a bulk command: `None` leaves the command for the
/// ordinary dispatch; otherwise the armed action, or the usage line
/// when `move-all` lacks its folder.
pub fn parse_bulk(command: &str) -> (r: Option<Result<BulkAction, String>>)
    ensures
        parsed_as(command@, r),
{
    if argument_of(command, "trash-all").is_some() {
        return Some(Ok(BulkAction::Trash));
    }
    if argument_of(command, "archive-all").is_some() {
        return Some(Ok(BulkAction::Archive));
    }
    if argument_of(command, "delete-all").is_some() {
        return Some(Ok(BulkAction::Delete));
    }
    match argument_of(command, "move-all") {
        None => None,
        Some(argument) => match parse_move(argument.as_str()) {
            Some(action) => Some(Ok(action)),
            None => Some(Err("usage: move-all <folder>".to_owned())),
        },
    }
}

impl BulkAction {
    pub open spec fn verb_spec(self) -> Seq<char> {
        match self {
            BulkAction::Trash => "trash"@,
            BulkAction::Archive => "archive"@,
            BulkAction::Move(_) => "move"@,
            BulkAction::Delete => "permanent delete"@,
        }
    }

    /// The action as the queued notice names it.
    pub fn verb(&self) -> (r: &'static str)
        ensures
            r@ == self.verb_spec(),
    {
        match self {
            BulkAction::Trash => "trash",
            BulkAction::Archive => "archive",
            BulkAction::Move(_) => "move",
            BulkAction::Delete => "permanent delete",
        }
    }

    pub open spec fn title_spec(self, count: nat) -> Seq<char> {
        match self {
            BulkAction::Trash => " trash "@ + decimal(count) + " messages "@,
            BulkAction::Archive => " archive "@ + decimal(count) + " messages "@,
            BulkAction::Move(folder) => " move "@ + decimal(count) + " messages to "@ + folder@ + " "@,
            BulkAction::Delete => " delete "@ + decimal(count) + " messages permanently "@,
        }
    }

    /// The modal's title.
    pub fn title(&self, count: usize) -> (r: String)
        ensures
            r@ == self.title_spec(count as nat),
    {
        let mut out: Vec<char> = Vec::new();
        match self {
            BulkAction::Trash => {
                append_str(&mut out, " trash ");
                push_decimal(&mut out, count as u128);
                append_str(&mut out, " messages ");
            },
            BulkAction::Archive => {
                append_str(&mut out, " archive ");
                push_decimal(&mut out, count as u128);
                append_str(&mut out, " messages ");
            },
            BulkAction::Move(folder) => {
                append_str(&mut out, " move ");
                push_decimal(&mut out, count as u128);
                append_str(&mut out, " messages to ");
                append_str(&mut out, folder.as_str());
                append_str(&mut out, " ");
            },
            BulkAction::Delete => {
                append_str(&mut out, " delete ");
                push_decimal(&mut out, count as u128);
                append_str(&mut out, " messages permanently ");
            },
        }
        string_of(&out)
    }

    /// Only a permanent delete cannot be undone.
    pub fn is_destructive(&self) -> (r: bool)
        ensures
            r == (*self is Delete),
    {
        match self {
            BulkAction::Delete => true,
            _ => false,
        }
    }
}

/// The modal's warning: always for a permanent delete, and for any
/// other action sweeping more than the threshold.
pub open spec fn warning_spec(action: BulkAction, count: nat) -> Option<Seq<char>> {
    if action is Delete {
        Some("Permanently deletes "@ + decimal(count) + " messages. This cannot be undone."@)
    } else if count > BULK_WARN_THRESHOLD {
        Some("This affects "@ + decimal(count) + " messages, far beyond the visible list."@)
    } else {
        None
    }
}

pub fn warning_line(action: &BulkAction, count: usize) -> (r: Option<String>)
    ensures
        crate::text::opt_text(r) == warning_spec(*action, count as nat),
{
    if action.is_destructive() {
        let mut out = chars_of("Permanently deletes ");
        push_decimal(&mut out, count as u128);
        append_str(&mut out, " messages. This cannot be undone.");
        return Some(string_of(&out));
    }
    if count > BULK_WARN_THRESHOLD {
        let mut out = chars_of("This affects ");
        push_decimal(&mut out, count as u128);
        append_str(&mut out, " messages, far beyond the visible list.");
        return Some(string_of(&out));
    }
    None
}

/// A subject as the sample lists it: trimmed, or a placeholder when
/// blank.
pub open spec fn shown_subject(subject: Seq<char>) -> Seq<char> {
    if trim(subject).len() == 0 {
        "(no subject)"@
    } else {
        trim(subject)
    }
}

pub fn subject_or_placeholder(subject: &str) -> (r: String)
    ensures
        r@ == shown_subject(subject@),
{
    let t = trimmed(&chars_of(subject));
    if t.len() == 0 {
        "(no subject)".to_owned()
    } else {
        string_of(&t)
    }
}

/// The first subjects of the match set, as the modal samples them.
pub fn examples_of(summaries: &Vec<MessageSummary>) -> (r: Vec<String>)
    ensures
        r@.len() == if summaries@.len() < EXAMPLE_LIMIT {
            summaries@.len()
        } else {
            EXAMPLE_LIMIT as nat
        },
        forall|i: int| 0 <= i < r@.len() ==> #[trigger] r@[i]@ == shown_subject(summaries@[i].subject@),
{
    let mut out: Vec<String> = Vec::new();
    let mut i: usize = 0;
    while i < summaries.len() && i < EXAMPLE_LIMIT
        invariant
            i <= summaries.len(),
            i <= EXAMPLE_LIMIT,
            out@.len() == i,
            forall|j: int| 0 <= j < i ==> #[trigger] out@[j]@ == shown_subject(summaries@[j].subject@),
        decreases summaries.len() - i,
    {
        out.push(subject_or_placeholder(summaries[i].subject.as_str()));
        i = i + 1;
    }
    out
}

pub open spec fn op_id(op: OpIntent) -> Seq<char> {
    match op {
        OpIntent::Move { message_id, .. } => message_id@,
        OpIntent::Delete { message_id, .. } => message_id@,
        OpIntent::Flag { message_id, .. } => message_id@,
    }
}

/// The message an op acts on.
pub fn op_message_id(op: &OpIntent) -> (r: &str)
    ensures
        r@ == op_id(*op),
{
    match op {
        OpIntent::Move { message_id, .. } => message_id.as_str(),
        OpIntent::Delete { message_id, .. } => message_id.as_str(),
        OpIntent::Flag { message_id, .. } => message_id.as_str(),
    }
}

/// The notice once the ops are queued.
pub fn queued_notice(action: &BulkAction, count: usize) -> (r: String)
    ensures
        r@ == "queued "@ + action.verb_spec() + " for "@ + decimal(count as nat) + " messages"@,
{
    let mut out = chars_of("queued ");
    append_str(&mut out, action.verb());
    append_str(&mut out, " for ");
    push_decimal(&mut out, count as u128);
    append_str(&mut out, " messages");
    string_of(&out)
}

/// Whether some op acts on message `id`.
pub open spec fn touched(intents: Seq<OpIntent>, id: Seq<char>) -> bool {
    exists|i: int| 0 <= i < intents.len() && op_id(#[trigger] intents[i]) == id
}

fn is_touched(intents: &Vec<OpIntent>, id: &str) -> (r: bool)
    ensures
        r == touched(intents@, id@),
{
    let mut i: usize = 0;
    while i < intents.len()
        invariant
            i <= intents.len(),
            forall|j: int| 0 <= j < i ==> op_id(#[trigger] intents@[j]) != id@,
        decreases intents.len() - i,
    {
        if crate::text::str_eq(op_message_id(&intents[i]), id) {
            return true;
        }
        i = i + 1;
    }
    false
}

/// The loaded rows a confirmed sweep leaves in view: every message no
/// op touches, in order.
pub fn untouched(messages: Vec<MessageSummary>, intents: &Vec<OpIntent>) -> (r: Vec<MessageSummary>)
    ensures
        r@ == messages@.filter(|m: MessageSummary| !touched(intents@, m.id@)),
{
    let ghost all = messages@;
    let ghost keep = |m: MessageSummary| !touched(intents@, m.id@);
    let total = messages.len();
    let mut rest = messages;
    let mut out: Vec<MessageSummary> = Vec::new();
    let mut i: usize = 0;
    assert(out@ =~= all.take(0).filter(keep));
    assert(rest@ =~= all.skip(0));
    while rest.len() > 0
        invariant
            i <= all.len(),
            all.len() == total,
            rest@ == all.skip(i as int),
            keep == (|m: MessageSummary| !touched(intents@, m.id@)),
            out@ == all.take(i as int).filter(keep),
        decreases rest.len(),
    {
        let m = rest.remove(0);
        assert(m == all[i as int]);
        assert(rest@ =~= all.skip(i + 1));
        assert(all.take(i + 1) =~= all.take(i as int).push(m));
        proof {
            all.take(i as int).lemma_filter_push(m, keep);
        }
        if !is_touched(intents, m.id.as_str()) {
            out.push(m);
        }
        i = i + 1;
    }
    assert(all.take(i as int) =~= all);
    out
}

/// A bulk action in flight: armed by its command, then awaiting
/// confirmation with the ops it would queue.
#[derive(Clone, Debug, PartialEq, Eq)]
pub enum Bulk {
    Armed(BulkAction),
    Confirm(BulkConfirm),
}

/// The rows left after the ops are queued, and the selection clamped to
/// them.
pub open spec fn clamped_selection(selected: int, len: int) -> int {
    let last = if len > 0 {
        len - 1
    } else {
        0
    };
    if selected < last {
        selected
    } else {
        last
    }
}

impl App {
    /// Recognises a bulk command and arms its action; a command that
    /// needs an argument and has none leaves its usage as the notice.
    /// `false` leaves the command for the ordinary dispatch.
    pub fn arm(&mut self, command: &str) -> (r: bool)
        ensures
            !r ==> parsed_as(command@, None) && *final(self) == *old(self),
            r ==> ((final(self).bulk matches Some(Bulk::Armed(a)) && parsed_as(command@, Some(Ok(a))) && *final(self)
                == (App { bulk: final(self).bulk, ..*old(self) })) || (final(self).notice matches Some(u) && parsed_as(
                command@,
                Some(Err(u)),
            ) && *final(self) == (App { notice: final(self).notice, ..*old(self) }))),
    {
        match parse_bulk(command) {
            None => false,
            Some(Err(usage)) => {
                self.notice = Some(usage);
                true
            },
            Some(Ok(action)) => {
                self.bulk = Some(Bulk::Armed(action));
                true
            },
        }
    }

    /// Takes the armed action out for the caller to fetch the full
    /// match set; a pending confirmation stays.
    pub fn take_armed(&mut self) -> (r: Option<BulkAction>)
        ensures
            match old(self).bulk {
                Some(Bulk::Armed(a)) => r == Some(a) && *final(self) == (App { bulk: None, ..*old(self) }),
                _ => r is None && *final(self) == *old(self),
            },
    {
        let taken = self.bulk.take();
        match taken {
            Some(Bulk::Armed(action)) => Some(action),
            other => {
                self.bulk = other;
                None
            },
        }
    }

    /// Opens the confirm modal over every message the query matched,
    /// with the ops routed for them; an empty match set only says so.
    pub fn open_confirm(&mut self, action: BulkAction, summaries: Vec<MessageSummary>, intents: Vec<OpIntent>)
        ensures
            summaries@.len() == 0 ==> (final(self).notice matches Some(n) && n@ == "nothing matches this search"@
                && *final(self) == (App { notice: final(self).notice, ..*old(self) })),
            summaries@.len() > 0 ==> (final(self).bulk matches Some(Bulk::Confirm(c)) && c.action == action && c.count
                == summaries@.len() && c.intents == intents && c.examples@.len() == (if summaries@.len() < EXAMPLE_LIMIT {
                summaries@.len()
            } else {
                EXAMPLE_LIMIT as nat
            }) && (forall|i: int| 0 <= i < c.examples@.len() ==> #[trigger] c.examples@[i]@ == shown_subject(
                summaries@[i].subject@,
            ))) && (final(self).prompt matches Some(p) && p.kind == PromptKind::ConfirmBulk && p.buffer@.len() == 0)
                && *final(self) == (App { bulk: final(self).bulk, prompt: final(self).prompt, ..*old(self) }),
    {
        if summaries.len() == 0 {
            self.notice = Some("nothing matches this search".to_owned());
            return;
        }
        let examples = examples_of(&summaries);
        self.bulk = Some(Bulk::Confirm(BulkConfirm { action, count: summaries.len(), examples, intents }));
        self.open_prompt(PromptKind::ConfirmBulk);
    }

    /// Queues the confirmed ops: the touched rows leave the view at
    /// once, the total drops by the count, the selection stays in
    /// range, and the notice names what was queued. Anything but a
    /// pending confirmation is dropped and nothing is queued.
    pub fn queue_confirmed(&mut self) -> (r: usize)
        ensures
            match old(self).bulk {
                Some(Bulk::Confirm(c)) => {
                    let kept = old(self).messages@.filter(|m: MessageSummary| !touched(c.intents@, m.id@));
                    &&& r == c.count
                    &&& final(self).pending_ops@ == old(self).pending_ops@ + c.intents@
                    &&& final(self).messages@ == kept
                    &&& final(self).total_messages == (if old(self).total_messages >= c.count as u32 {
                        (old(self).total_messages - c.count as u32) as u32
                    } else {
                        0u32
                    })
                    &&& final(self).selected as int == clamped_selection(old(self).selected as int, kept.len() as int)
                    &&& final(self).notice matches Some(n) && n@ == "queued "@ + c.action.verb_spec() + " for "@
                        + decimal(c.count as nat) + " messages"@
                    &&& *final(self) == (App {
                        bulk: None,
                        pending_ops: final(self).pending_ops,
                        messages: final(self).messages,
                        total_messages: final(self).total_messages,
                        selected: final(self).selected,
                        notice: final(self).notice,
                        ..*old(self)
                    })
                },
                _ => r == 0 && *final(self) == (App { bulk: None, ..*old(self) }),
            },
    {
        let taken = self.bulk.take();
        let confirm = match taken {
            Some(Bulk::Confirm(c)) => c,
            _ => return 0,
        };
        let count = confirm.count;
        let mut messages: Vec<MessageSummary> = Vec::new();
        std::mem::swap(&mut messages, &mut self.messages);
        self.messages = untouched(messages, &confirm.intents);
        let notice = queued_notice(&confirm.action, count);
        let mut intents = confirm.intents;
        self.pending_ops.append(&mut intents);
        let dropped: u32 = count as u32;
        self.total_messages = if self.total_messages >= dropped {
            self.total_messages - dropped
        } else {
            0
        };
        let last = if self.messages.len() > 0 {
            self.messages.len() - 1
        } else {
            0
        };
        if self.selected > last {
            self.selected = last;
        }
        self.notice = Some(notice);
        count
    }

    /// Drops the pending bulk action.
    pub fn cancel_bulk(&mut self)
        ensures
            final(self).notice matches Some(n) && n@ == "cancelled; nothing queued"@,
            *final(self) == (App { bulk: None, notice: final(self).notice, ..*old(self) }),
    {
        self.bulk = None;
        self.notice = Some("cancelled; nothing queued".to_owned());
    }
}

/// The confirmation modal's text: the warning and a blank line when
/// there is one, each example subject indented by a space, then how
/// many more match beyond the examples.
pub open spec fn modal_text_of(confirm: BulkConfirm) -> Seq<Seq<char>> {
    (match warning_spec(confirm.action, confirm.count as nat) {
        Some(w) => seq![w, Seq::<char>::empty()],
        None => Seq::<Seq<char>>::empty(),
    }) + texts_of(confirm.examples@).map_values(|e: Seq<char>| " "@ + e) + (if confirm.count
        > confirm.examples@.len() {
        seq![" and "@ + decimal((confirm.count - confirm.examples@.len()) as nat) + " more"@]
    } else {
        Seq::<Seq<char>>::empty()
    })
}

impl BulkConfirm {
    pub fn modal_text(&self) -> (r: Vec<String>)
        ensures
            texts_of(r@) == modal_text_of(*self),
    {
        let mut out: Vec<String> = Vec::new();
        let ghost head: Seq<Seq<char>> = match warning_spec(self.action, self.count as nat) {
            Some(w) => seq![w, Seq::<char>::empty()],
            None => Seq::<Seq<char>>::empty(),
        };
        match warning_line(&self.action, self.count) {
            Some(w) => {
                let blank = String::new();
                proof {
                    lemma_texts_of_push(out@, w);
                    lemma_texts_of_push(out@.push(w), blank);
                }
                out.push(w);
                out.push(blank);
                assert(texts_of(out@) =~= head);
            },
            None => {
                assert(texts_of(out@) =~= head);
            },
        }
        let ghost shown = texts_of(self.examples@).map_values(|e: Seq<char>| " "@ + e);
        let mut i: usize = 0;
        while i < self.examples.len()
            invariant
                i <= self.examples@.len(),
                shown == texts_of(self.examples@).map_values(|e: Seq<char>| " "@ + e),
                texts_of(out@) == head + shown.take(i as int),
            decreases self.examples@.len() - i,
        {
            let mut line = chars_of(" ");
            append_str(&mut line, self.examples[i].as_str());
            let row = string_of(&line);
            proof {
                reveal_strlit(" ");
                lemma_texts_of_push(out@, row);
                assert(shown.take(i + 1) =~= shown.take(i as int).push(shown[i as int]));
            }
            out.push(row);
            assert(texts_of(out@) =~= head + shown.take(i + 1));
            i = i + 1;
        }
        assert(shown.take(self.examples@.len() as int) =~= shown);
        if self.count > self.examples.len() {
            let mut line = chars_of(" and ");
            push_decimal(&mut line, (self.count - self.examples.len()) as u128);
            append_str(&mut line, " more");
            let row = string_of(&line);
            proof {
                lemma_texts_of_push(out@, row);
            }
            out.push(row);
            assert(texts_of(out@) =~= modal_text_of(*self));
        } else {
            assert(texts_of(out@) =~= modal_text_of(*self));
        }
        out
    }
}

} // verus!
