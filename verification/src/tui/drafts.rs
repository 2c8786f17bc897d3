//! Saved drafts: the header block a compose is saved as, and reading
//! it back for `:resume`.
use vstd::prelude::*;

use crate::sendmail::blank_line_from;
use crate::text::{
    ascii_lowercase, ascii_lowercased, chars_eq, chars_of, find_char_from, first_index,
    is_char, lemma_first_index_is, lines_view, slice_chars, split_lines,
    split_lines_of, string_of, trim, trim_chars, trimmed, trimmed_chars, words, words_of, join_lines,
    join_lines_of, join_with, join_with_of, lemma_lines_view_push, append_str,
};
use crate::tui::attach::Attachment;
use crate::tui::compose::ComposeState;
use crate::tui::compose_assembly::{bare_address, bare_address_of};

verus! {

broadcast use vstd::string::group_string_axioms;

/// The fields a compose is prefilled from.
#[derive(Clone, Debug, PartialEq, Eq)]
pub struct DraftFields {
    pub to: String,
    pub cc: String,
    pub bcc: String,
    pub subject: String,
    pub body: String,
    pub in_reply_to: Option<String>,
    pub references: Vec<String>,
}

impl Default for DraftFields {
    fn default() -> (r: DraftFields)
        ensures
            r.to@.len() == 0,
            r.cc@.len() == 0,
            r.bcc@.len() == 0,
            r.subject@.len() == 0,
            r.body@.len() == 0,
            r.in_reply_to is None,
            r.references@.len() == 0,
    {
        DraftFields {
            to: String::new(),
            cc: String::new(),
            bcc: String::new(),
            subject: String::new(),
            body: String::new(),
            in_reply_to: None,
            references: Vec::new(),
        }
    }
}

/// A compose saved from the review screen, restored by `:resume` with
/// its fields, plan and attachment paths intact.
#[derive(Clone, Debug, PartialEq, Eq)]
pub struct SavedDraft {
    pub from_name: Option<String>,
    pub from: String,
    pub account: String,
    pub fields: DraftFields,
    pub sign: Option<bool>,
    pub encrypt: Option<bool>,
    pub attachments: Vec<String>,
}

/// A saved draft as text.
#[verifier::ext_equal]
pub struct DraftView {
    pub from_name: Option<Seq<char>>,
    pub from: Seq<char>,
    pub account: Seq<char>,
    pub to: Seq<char>,
    pub cc: Seq<char>,
    pub bcc: Seq<char>,
    pub subject: Seq<char>,
    pub body: Seq<char>,
    pub in_reply_to: Option<Seq<char>>,
    pub references: Seq<Seq<char>>,
    pub sign: Option<bool>,
    pub encrypt: Option<bool>,
    pub attachments: Seq<Seq<char>>,
}

impl View for SavedDraft {
    type V = DraftView;

    open spec fn view(&self) -> DraftView {
        DraftView {
            from_name: crate::text::opt_text(self.from_name),
            from: self.from@,
            account: self.account@,
            to: self.fields.to@,
            cc: self.fields.cc@,
            bcc: self.fields.bcc@,
            subject: self.fields.subject@,
            body: self.fields.body@,
            in_reply_to: crate::text::opt_text(self.fields.in_reply_to),
            references: crate::text::texts_of(self.fields.references@),
            sign: self.sign,
            encrypt: self.encrypt,
            attachments: crate::text::texts_of(self.attachments@),
        }
    }
}

/// The sender's display name in a From value: what precedes its `<`,
/// trimmed and unquoted, if anything.
pub open spec fn from_name_of(value: Seq<char>) -> Option<Seq<char>> {
    match first_index(value, is_char('<')) {
        Some(i) => {
            let name = trim(trim_chars(trim(value.take(i)), seq!['"']));
            if name.len() == 0 {
                None
            } else {
                Some(name)
            }
        },
        None => None,
    }
}

/// A message id without its angle brackets, if anything is left.
pub open spec fn single_id_of(value: Seq<char>) -> Option<Seq<char>> {
    let id = trim_chars(trim(value), seq!['<', '>']);
    if id.len() == 0 {
        None
    } else {
        Some(id)
    }
}

/// The message ids of a References value, brackets stripped, empty
/// ones dropped.
pub open spec fn id_list_of(value: Seq<char>) -> Seq<Seq<char>> {
    words(value).map_values(|w: Seq<char>| trim_chars(w, seq!['<', '>'])).filter(
        |id: Seq<char>| id.len() > 0,
    )
}

/// One header of a saved draft applied, or why it cannot be.
pub open spec fn apply_header(d: DraftView, key: Seq<char>, value: Seq<char>) -> Result<DraftView, Seq<char>> {
    let k = ascii_lowercase(key);
    if k == "from"@ {
        Ok(DraftView { from: bare_address_of(value), from_name: from_name_of(value), ..d })
    } else if k == "account"@ {
        Ok(DraftView { account: value, ..d })
    } else if k == "to"@ {
        Ok(DraftView { to: value, ..d })
    } else if k == "cc"@ {
        Ok(DraftView { cc: value, ..d })
    } else if k == "bcc"@ {
        Ok(DraftView { bcc: value, ..d })
    } else if k == "subject"@ {
        Ok(DraftView { subject: value, ..d })
    } else if k == "in-reply-to"@ {
        Ok(DraftView { in_reply_to: single_id_of(value), ..d })
    } else if k == "references"@ {
        Ok(DraftView { references: id_list_of(value), ..d })
    } else if k == "sign"@ {
        Ok(DraftView { sign: Some(value == "on"@), ..d })
    } else if k == "encrypt"@ {
        Ok(DraftView { encrypt: Some(value == "on"@), ..d })
    } else if k == "attachment"@ {
        Ok(DraftView { attachments: d.attachments.push(value), ..d })
    } else {
        Err("unknown draft header: "@ + k)
    }
}

/// One header line applied: `key: value`, both trimmed.
pub open spec fn apply_line(d: DraftView, line: Seq<char>) -> Result<DraftView, Seq<char>> {
    match first_index(line, is_char(':')) {
        None => Err("malformed draft line: "@ + line),
        Some(c) => apply_header(d, trim(line.take(c)), trim(line.skip(c + 1))),
    }
}

/// The header lines applied in order, stopping at the first problem.
pub open spec fn apply_lines(d: DraftView, lines: Seq<Seq<char>>) -> Result<DraftView, Seq<char>>
    decreases lines.len(),
{
    if lines.len() == 0 {
        Ok(d)
    } else {
        match apply_line(d, lines[0]) {
            Err(e) => Err(e),
            Ok(next) => apply_lines(next, lines.drop_first()),
        }
    }
}

/// A draft holding nothing but its body.
pub open spec fn body_only(body: Seq<char>) -> DraftView {
    DraftView {
        from_name: None,
        from: Seq::empty(),
        account: Seq::empty(),
        to: Seq::empty(),
        cc: Seq::empty(),
        bcc: Seq::empty(),
        subject: Seq::empty(),
        body,
        in_reply_to: None,
        references: Seq::empty(),
        sign: None,
        encrypt: None,
        attachments: Seq::empty(),
    }
}

/// A saved draft read back: the header block up to the first blank
/// line, one `Key: value` per line, then the body; a draft must name a
/// From address.
pub open spec fn parsed_draft(text: Seq<char>) -> Result<DraftView, Seq<char>> {
    match blank_line_from(text, 0) {
        None => Err("draft has no blank line after the headers"@),
        Some(i) => match apply_lines(body_only(text.skip(i + 2)), split_lines(text.take(i))) {
            Err(e) => Err(e),
            Ok(d) => if d.from.contains('@') {
                Ok(d)
            } else {
                Err("draft has no From address"@)
            },
        },
    }
}

/// Sets the From address and the display name from a From value.
pub fn set_from(draft: &mut SavedDraft, value: &str)
    ensures
        final(draft)@ == (DraftView { from: bare_address_of(value@), from_name: from_name_of(value@), ..old(draft)@ }),
{
    draft.from = bare_address(value);
    let v = chars_of(value);
    assert(v@.skip(0) =~= v@);
    let name = match find_char_from(&v, '<', 0) {
        Some(i) => {
            proof {
                lemma_first_index_is(v@, is_char('<'), i as int);
            }
            let head = trimmed(&slice_chars(&v, 0, i));
            let mut quote: Vec<char> = Vec::new();
            quote.push('"');
            let name = trimmed(&trimmed_chars(&head, &quote));
            assert(quote@ =~= seq!['"']);
            if name.len() == 0 {
                None
            } else {
                Some(string_of(&name))
            }
        },
        None => {
            proof {
                lemma_first_index_is(v@, is_char('<'), v@.len() as int);
            }
            None
        },
    };
    draft.from_name = name;
    assert(final(draft)@ =~= (DraftView { from: bare_address_of(value@), from_name: from_name_of(value@), ..old(draft)@ }));
}

fn angle_brackets() -> (r: Vec<char>)
    ensures
        r@ == seq!['<', '>'],
{
    let mut set: Vec<char> = Vec::new();
    set.push('<');
    set.push('>');
    assert(set@ =~= seq!['<', '>']);
    set
}

/// A message id without its angle brackets, or nothing.
pub fn single_id(value: &str) -> (r: Option<String>)
    ensures
        crate::text::opt_text(r) == single_id_of(value@),
{
    let id = trimmed_chars(&trimmed(&chars_of(value)), &angle_brackets());
    if id.len() == 0 {
        None
    } else {
        Some(string_of(&id))
    }
}

/// The message ids of a References value.
pub fn id_list(value: &str) -> (r: Vec<String>)
    ensures
        crate::text::texts_of(r@) == id_list_of(value@),
{
    let tokens = words_of(&chars_of(value));
    let ghost ws = words(value@);
    let ghost stripped = ws.map_values(|w: Seq<char>| trim_chars(w, seq!['<', '>']));
    let set = angle_brackets();
    let mut out: Vec<String> = Vec::new();
    let mut i: usize = 0;
    assert(crate::text::texts_of(out@) =~= stripped.take(0).filter(|id: Seq<char>| id.len() > 0));
    while i < tokens.len()
        invariant
            i <= tokens.len(),
            lines_view(tokens@) == ws,
            set@ == seq!['<', '>'],
            stripped == ws.map_values(|w: Seq<char>| trim_chars(w, seq!['<', '>'])),
            crate::text::texts_of(out@) == stripped.take(i as int).filter(|id: Seq<char>| id.len() > 0),
        decreases tokens.len() - i,
    {
        assert(lines_view(tokens@)[i as int] == tokens@[i as int]@);
        let id = trimmed_chars(&tokens[i], &set);
        assert(id@ == stripped[i as int]);
        assert(stripped.take(i + 1).drop_last() =~= stripped.take(i as int));
        proof {
            stripped.take(i as int).lemma_filter_push(stripped[i as int], |id: Seq<char>| id.len() > 0);
        }
        assert(stripped.take(i + 1) =~= stripped.take(i as int).push(stripped[i as int]));
        if id.len() > 0 {
            let s = string_of(&id);
            proof {
                crate::text::lemma_texts_of_push(out@, s);
            }
            out.push(s);
        }
        i = i + 1;
    }
    assert(stripped.take(tokens.len() as int) =~= stripped);
    out
}

fn is_key(k: &Vec<char>, name: &str) -> (r: bool)
    ensures
        r == (k@ == name@),
{
    chars_eq(k, &chars_of(name))
}

/// Applies one header to the draft being read.
pub fn apply(draft: &mut SavedDraft, key: &str, value: &str) -> (r: Result<(), String>)
    ensures
        match apply_header(old(draft)@, key@, value@) {
            Ok(d) => r is Ok && final(draft)@ == d,
            Err(e) => (r matches Err(x) && x@ == e),
        },
{
    let k = ascii_lowercased(&chars_of(key));
    let ghost before = draft@;
    if is_key(&k, "from") {
        set_from(draft, value);
    } else if is_key(&k, "account") {
        draft.account = value.to_owned();
        assert(draft@ =~= (DraftView { account: value@, ..before }));
    } else if is_key(&k, "to") {
        draft.fields.to = value.to_owned();
        assert(draft@ =~= (DraftView { to: value@, ..before }));
    } else if is_key(&k, "cc") {
        draft.fields.cc = value.to_owned();
        assert(draft@ =~= (DraftView { cc: value@, ..before }));
    } else if is_key(&k, "bcc") {
        draft.fields.bcc = value.to_owned();
        assert(draft@ =~= (DraftView { bcc: value@, ..before }));
    } else if is_key(&k, "subject") {
        draft.fields.subject = value.to_owned();
        assert(draft@ =~= (DraftView { subject: value@, ..before }));
    } else if is_key(&k, "in-reply-to") {
        draft.fields.in_reply_to = single_id(value);
        assert(draft@ =~= (DraftView { in_reply_to: single_id_of(value@), ..before }));
    } else if is_key(&k, "references") {
        draft.fields.references = id_list(value);
        assert(draft@ =~= (DraftView { references: id_list_of(value@), ..before }));
    } else if is_key(&k, "sign") {
        draft.sign = Some(crate::text::str_eq(value, "on"));
        assert(draft@ =~= (DraftView { sign: Some(value@ == "on"@), ..before }));
    } else if is_key(&k, "encrypt") {
        draft.encrypt = Some(crate::text::str_eq(value, "on"));
        assert(draft@ =~= (DraftView { encrypt: Some(value@ == "on"@), ..before }));
    } else if is_key(&k, "attachment") {
        let owned = value.to_owned();
        proof {
            crate::text::lemma_texts_of_push(draft.attachments@, owned);
        }
        draft.attachments.push(owned);
        assert(draft@ =~= (DraftView { attachments: before.attachments.push(value@), ..before }));
    } else {
        let mut message = chars_of("unknown draft header: ");
        crate::text::append_chars(&mut message, &k);
        return Err(string_of(&message));
    }
    Ok(())
}

/// Reads a saved draft back, or names what is wrong with it.
pub fn parse(text: &str) -> (r: Result<SavedDraft, String>)
    ensures
        match parsed_draft(text@) {
            Ok(d) => r matches Ok(x) && x@ == d,
            Err(e) => r matches Err(x) && x@ == e,
        },
{
    let v = chars_of(text);
    let mut i: usize = 0;
    while i < v.len() && v.len() - i > 1 && !(v[i] == '\n' && v[i + 1] == '\n')
        invariant
            i <= v.len(),
            blank_line_from(v@, 0) == blank_line_from(v@, i as int),
        decreases v.len() - i,
    {
        i = i + 1;
    }
    if !(i < v.len() && v.len() - i > 1) {
        return Err("draft has no blank line after the headers".to_owned());
    }
    let body = slice_chars(&v, i + 2, v.len());
    assert(body@ =~= v@.skip(i + 2));
    let head = slice_chars(&v, 0, i);
    let lines = split_lines_of(&head);
    let ghost all = lines_view(lines@);
    let mut draft = SavedDraft {
        from_name: None,
        from: String::new(),
        account: String::new(),
        fields: DraftFields {
            to: String::new(),
            cc: String::new(),
            bcc: String::new(),
            subject: String::new(),
            body: string_of(&body),
            in_reply_to: None,
            references: Vec::new(),
        },
        sign: None,
        encrypt: None,
        attachments: Vec::new(),
    };
    assert(crate::text::texts_of(draft.attachments@) =~= Seq::<Seq<char>>::empty());
    assert(crate::text::texts_of(draft.fields.references@) =~= Seq::<Seq<char>>::empty());
    assert(draft@ =~= body_only(v@.skip(i + 2)));
    assert(head@ =~= v@.take(i as int));
    assert(all.skip(0) =~= all);
    let mut k: usize = 0;
    while k < lines.len()
        invariant
            k <= lines.len(),
            all == lines_view(lines@),
            v@ == text@,
            blank_line_from(v@, 0) == Some(i as int),
            all == split_lines(v@.take(i as int)),
            apply_lines(body_only(v@.skip(i + 2)), all) == apply_lines(draft@, all.skip(k as int)),
        decreases lines.len() - k,
    {
        let line = &lines[k];
        assert(all[k as int] == line@);
        assert(all.skip(k as int)[0] == line@);
        assert(all.skip(k as int).drop_first() =~= all.skip(k + 1));
        assert(line@.skip(0) =~= line@);
        match find_char_from(line, ':', 0) {
            None => {
                proof {
                    lemma_first_index_is(line@, is_char(':'), line@.len() as int);
                }
                let mut message = chars_of("malformed draft line: ");
                crate::text::append_chars(&mut message, line);
                return Err(string_of(&message));
            },
            Some(c) => {
                proof {
                    lemma_first_index_is(line@, is_char(':'), c as int);
                }
                let key = string_of(&trimmed(&slice_chars(line, 0, c)));
                let value = string_of(&trimmed(&slice_chars(line, c + 1, line.len())));
                assert(line@.subrange(0, c as int) =~= line@.take(c as int));
                assert(line@.subrange(c + 1, line@.len() as int) =~= line@.skip(c + 1));
                match apply(&mut draft, key.as_str(), value.as_str()) {
                    Ok(()) => {},
                    Err(e) => return Err(e),
                }
            },
        }
        k = k + 1;
    }
    assert(all.skip(k as int) =~= Seq::<Seq<char>>::empty());
    let from = chars_of(draft.from.as_str());
    if crate::text::find_char_from(&from, '@', 0).is_none() {
        proof {
            assert(from@.skip(0) =~= from@);
            if draft@.from.contains('@') {
                let j = choose|j: int| 0 <= j < draft@.from.len() && draft@.from[j] == '@';
                assert(from@[j] == '@');
            }
        }
        return Err("draft has no From address".to_owned());
    }
    Ok(draft)
}

// ---------------------------------------------------------------
// Saving
// ---------------------------------------------------------------

/// What a saved draft holds, as text: the From line and account, the
/// four header fields, the threading ids, the seal plan, the
/// attachment paths and the body.
pub struct DraftParts {
    pub sender: Seq<char>,
    pub account: Seq<char>,
    pub to: Seq<char>,
    pub cc: Seq<char>,
    pub bcc: Seq<char>,
    pub subject: Seq<char>,
    pub in_reply_to: Option<Seq<char>>,
    pub references: Seq<Seq<char>>,
    pub sign: bool,
    pub encrypt: bool,
    pub attachments: Seq<Seq<char>>,
    pub body: Seq<char>,
}

pub open spec fn on_off(value: bool) -> Seq<char> {
    if value {
        "on"@
    } else {
        "off"@
    }
}

/// A message id in angle brackets.
pub open spec fn bracketed(id: Seq<char>) -> Seq<char> {
    "<"@ + id + ">"@
}

pub open spec fn reply_lines(in_reply_to: Option<Seq<char>>) -> Seq<Seq<char>> {
    match in_reply_to {
        Some(id) => seq!["In-Reply-To: "@ + bracketed(id)],
        None => Seq::empty(),
    }
}

pub open spec fn reference_lines(references: Seq<Seq<char>>) -> Seq<Seq<char>> {
    if references.len() > 0 {
        seq!["References: "@ + join_with(references.map_values(|id: Seq<char>| bracketed(id)), " "@)]
    } else {
        Seq::empty()
    }
}

pub open spec fn attachment_lines(paths: Seq<Seq<char>>) -> Seq<Seq<char>> {
    paths.map_values(|path: Seq<char>| "Attachment: "@ + path)
}

/// The header lines of a saved draft, in the order they are written.
pub open spec fn draft_lines(p: DraftParts) -> Seq<Seq<char>> {
    seq![
        "From: "@ + p.sender,
        "Account: "@ + p.account,
        "To: "@ + p.to,
        "Cc: "@ + p.cc,
        "Bcc: "@ + p.bcc,
        "Subject: "@ + p.subject,
    ] + reply_lines(p.in_reply_to) + reference_lines(p.references) + seq![
        "Sign: "@ + on_off(p.sign),
        "Encrypt: "@ + on_off(p.encrypt),
    ] + attachment_lines(p.attachments)
}

/// A saved draft: its header lines, a blank line, the body.
pub open spec fn draft_text(p: DraftParts) -> Seq<char> {
    join_lines(draft_lines(p)) + seq!['\n'] + p.body
}

/// What a compose saves.
pub open spec fn draft_parts_of(s: ComposeState) -> DraftParts {
    let id = s.choices@[s.chosen as int].identity;
    DraftParts {
        sender: match id.name {
            Some(n) => n@ + " <"@ + id.address@ + ">"@,
            None => id.address@,
        },
        account: s.choices@[s.chosen as int].account@,
        to: s.fields.to@,
        cc: s.fields.cc@,
        bcc: s.fields.bcc@,
        subject: s.fields.subject@,
        in_reply_to: crate::text::opt_text(s.in_reply_to),
        references: crate::text::texts_of(s.references@),
        sign: s.plan_spec().sign,
        encrypt: s.plan_spec().encrypt,
        attachments: s.attachments@.map_values(|a: Attachment| a.path@),
        body: s.body@,
    }
}

fn push_line(lines: &mut Vec<Vec<char>>, prefix: &str, value: &str)
    ensures
        lines_view(final(lines)@) == lines_view(old(lines)@).push(prefix@ + value@),
{
    let mut line = chars_of(prefix);
    append_str(&mut line, value);
    let ghost before = lines@;
    lines.push(line);
    proof {
        lemma_lines_view_push(before, line);
    }
}

fn bracketed_chars(id: &str) -> (r: Vec<char>)
    ensures
        r@ == bracketed(id@),
{
    let mut out = chars_of("<");
    append_str(&mut out, id);
    append_str(&mut out, ">");
    out
}

/// The text a compose is saved as, for `:resume` to read back.
pub fn render(state: &ComposeState) -> (r: String)
    requires
        state.chosen < state.choices@.len(),
    ensures
        r@ == draft_text(draft_parts_of(*state)),
{
    let ghost p = draft_parts_of(*state);
    let plan = state.plan();
    let mut lines: Vec<Vec<char>> = Vec::new();
    assert(lines_view(lines@) =~= Seq::<Seq<char>>::empty());
    push_line(&mut lines, "From: ", state.sender_line().as_str());
    push_line(&mut lines, "Account: ", state.account());
    push_line(&mut lines, "To: ", state.fields.to.as_str());
    push_line(&mut lines, "Cc: ", state.fields.cc.as_str());
    push_line(&mut lines, "Bcc: ", state.fields.bcc.as_str());
    push_line(&mut lines, "Subject: ", state.fields.subject.as_str());
    let ghost head = lines_view(lines@);
    assert(head =~= seq![
        "From: "@ + p.sender,
        "Account: "@ + p.account,
        "To: "@ + p.to,
        "Cc: "@ + p.cc,
        "Bcc: "@ + p.bcc,
        "Subject: "@ + p.subject,
    ]);
    match &state.in_reply_to {
        Some(id) => {
            let b = bracketed_chars(id.as_str());
            push_line(&mut lines, "In-Reply-To: ", string_of(&b).as_str());
        },
        None => {},
    }
    assert(lines_view(lines@) =~= head + reply_lines(p.in_reply_to));
    let ghost with_reply = lines_view(lines@);
    if state.references.len() > 0 {
        let mut items: Vec<Vec<char>> = Vec::new();
        let mut i: usize = 0;
        while i < state.references.len()
            invariant
                i <= state.references@.len(),
                lines_view(items@) =~= crate::text::texts_of(state.references@).take(i as int).map_values(
                    |id: Seq<char>| bracketed(id),
                ),
            decreases state.references.len() - i,
        {
            let ghost before = items@;
            let b = bracketed_chars(state.references[i].as_str());
            items.push(b);
            proof {
                lemma_lines_view_push(before, b);
                assert(crate::text::texts_of(state.references@).take(i + 1) =~= crate::text::texts_of(
                    state.references@,
                ).take(i as int).push(state.references@[i as int]@));
            }
            i = i + 1;
        }
        assert(crate::text::texts_of(state.references@).take(state.references.len() as int) =~= crate::text::texts_of(
            state.references@,
        ));
        let joined = join_with_of(&items, &chars_of(" "));
        push_line(&mut lines, "References: ", string_of(&joined).as_str());
    }
    assert(lines_view(lines@) =~= with_reply + reference_lines(p.references));
    let ghost before_plan = lines_view(lines@);
    push_line(&mut lines, "Sign: ", if plan.sign { "on" } else { "off" });
    push_line(&mut lines, "Encrypt: ", if plan.encrypt { "on" } else { "off" });
    assert(lines_view(lines@) =~= before_plan + seq!["Sign: "@ + on_off(p.sign), "Encrypt: "@ + on_off(p.encrypt)]);
    let ghost before_files = lines_view(lines@);
    let mut k: usize = 0;
    while k < state.attachments.len()
        invariant
            k <= state.attachments@.len(),
            lines_view(lines@) =~= before_files + attachment_lines(
                state.attachments@.map_values(|a: Attachment| a.path@),
            ).take(k as int),
        decreases state.attachments.len() - k,
    {
        push_line(&mut lines, "Attachment: ", state.attachments[k].path.as_str());
        proof {
            let all = attachment_lines(state.attachments@.map_values(|a: Attachment| a.path@));
            assert(all.take(k + 1) =~= all.take(k as int).push("Attachment: "@ + state.attachments@[k as int].path@));
        }
        k = k + 1;
    }
    proof {
        let all = attachment_lines(state.attachments@.map_values(|a: Attachment| a.path@));
        assert(all.take(state.attachments.len() as int) =~= all);
    }
    assert(lines_view(lines@) =~= draft_lines(p));
    let mut out = join_lines_of(&lines);
    out.push('\n');
    append_str(&mut out, state.body.as_str());
    string_of(&out)
}

} // verus!
