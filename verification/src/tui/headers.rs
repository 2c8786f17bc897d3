//! The structured header fields above the body editor: To, Cc, Bcc
//! and Subject take free text edited at a character cursor; From
//! cycles through the configured identities.
use vstd::prelude::*;

use crate::text::{append_chars, chars_of, slice_chars, string_of};
use crate::tui::drafts::DraftFields;
use crate::tui::keys::{KeyCode, KeyPress};

verus! {

broadcast use vstd::string::group_string_axioms;

pub const FIELD_COUNT: usize = 5;
pub const LAST_FIELD: usize = 4;
pub const FROM_FIELD: usize = 4;
pub const RECIPIENT_FIELDS: usize = 3;

/// The structured header fields: `focus` names the field (0 To, 1 Cc,
/// 2 Bcc, 3 Subject, 4 From) and `cursor` the character position in
/// it.
#[derive(Debug, PartialEq, Eq)]
pub struct HeaderFields {
    pub to: String,
    pub cc: String,
    pub bcc: String,
    pub subject: String,
    pub focus: usize,
    pub cursor: usize,
}

/// What one key did to the fields, for the event loop to act on;
/// identity cycling is handled by the compose state.
#[derive(Debug, PartialEq, Eq)]
pub enum HeadersOutcome {
    Edited,
    CycleFrom(i32),
    OpenEditor,
    Cancel,
}

/// The slot a write to the focused field lands in: To, Cc, Bcc, and
/// Subject for everything else.
pub open spec fn write_slot(focus: int) -> int {
    if focus < 3 {
        focus
    } else {
        3
    }
}

/// `text` with `ch` inserted at character `cursor`, or appended when
/// the cursor is past the end.
pub open spec fn inserted_at(text: Seq<char>, cursor: int, ch: char) -> Seq<char> {
    text.insert(if cursor < text.len() { cursor } else { text.len() as int }, ch)
}

/// `(focus + step)` wrapped through the five fields.
pub open spec fn focus_after(focus: int, step: int) -> int {
    (focus + step) % (FIELD_COUNT as int)
}

impl Default for HeaderFields {
    fn default() -> (r: HeaderFields)
        ensures
            r.texts() == seq![Seq::<char>::empty(), Seq::<char>::empty(), Seq::<char>::empty(), Seq::<char>::empty()],
            r.focus == 0,
            r.cursor == 0,
    {
        HeaderFields {
            to: String::new(),
            cc: String::new(),
            bcc: String::new(),
            subject: String::new(),
            focus: 0,
            cursor: 0,
        }
    }
}

impl HeaderFields {
    /// The four text fields in order: To, Cc, Bcc, Subject.
    pub open spec fn texts(self) -> Seq<Seq<char>> {
        seq![self.to@, self.cc@, self.bcc@, self.subject@]
    }

    /// The focused field as it reads: empty for From (and beyond).
    pub open spec fn focused_text(self) -> Seq<char> {
        if self.focus < 4 {
            self.texts()[self.focus as int]
        } else {
            seq![]
        }
    }

    /// The field a write to the focus lands in.
    pub open spec fn writable_text(self) -> Seq<char> {
        self.texts()[write_slot(self.focus as int)]
    }

    /// Opens the fields from a draft, focused on To with the cursor
    /// at its end.
    pub fn from_draft(fields: &DraftFields) -> (r: HeaderFields)
        ensures
            r.texts() == seq![fields.to@, fields.cc@, fields.bcc@, fields.subject@],
            r.focus == 0,
            r.cursor == fields.to@.len(),
    {
        HeaderFields {
            to: fields.to.clone(),
            cc: fields.cc.clone(),
            bcc: fields.bcc.clone(),
            subject: fields.subject.clone(),
            focus: 0,
            cursor: fields.to.as_str().unicode_len(),
        }
    }

    /// `self` is `before` after `key`, which answered `r`: Control-e
    /// or Control-h opens the editor and other Control keys change
    /// nothing, Esc cancels, Tab and BackTab step the focus, Enter steps
    /// or (on the last field) opens the editor, a key on From asks for
    /// an identity cycle, and every other key edits the focused field.
    pub open spec fn fed(self, before: HeaderFields, key: KeyPress, r: HeadersOutcome) -> bool {
        if key.control {
            r == (if key.code == KeyCode::Char('e') || key.code == KeyCode::Char('h') {
                HeadersOutcome::OpenEditor
            } else {
                HeadersOutcome::Edited
            }) && self == before
        } else if key.code == KeyCode::Esc {
            r == HeadersOutcome::Cancel && self == before
        } else if key.code == KeyCode::Tab {
            r == HeadersOutcome::Edited && self.focused_after(before, 1)
        } else if key.code == KeyCode::BackTab {
            r == HeadersOutcome::Edited && self.focused_after(before, -1)
        } else if key.code == KeyCode::Enter {
            if before.focus == LAST_FIELD {
                r == HeadersOutcome::OpenEditor && self == before
            } else {
                r == HeadersOutcome::Edited && self.focused_after(before, 1)
            }
        } else if before.focus == FROM_FIELD {
            self == before && r == from_outcome_spec(key.code)
        } else {
            r == HeadersOutcome::Edited && self.edited_by(before, key.code)
        }
    }

    /// One key: Control-e or Control-h opens the editor, Esc cancels,
    /// Tab and BackTab step the focus, Enter steps or (on From) opens
    /// the editor, and every other key edits the focused field.
    pub fn feed(&mut self, key: KeyPress) -> (r: HeadersOutcome)
        requires
            old(self).focus < FIELD_COUNT,
            old(self).cursor < usize::MAX,
        ensures
            key.control ==> (r == (if key.code == KeyCode::Char('e') || key.code == KeyCode::Char(
                'h',
            ) {
                HeadersOutcome::OpenEditor
            } else {
                HeadersOutcome::Edited
            }) && *final(self) == *old(self)),
            !key.control && key.code == KeyCode::Esc ==> r == HeadersOutcome::Cancel && *final(self) == *old(self),
            !key.control && key.code == KeyCode::Tab ==> r == HeadersOutcome::Edited && final(self).focused_after(*old(self), 1),
            !key.control && key.code == KeyCode::BackTab ==> r == HeadersOutcome::Edited && final(self).focused_after(*old(self), -1),
            !key.control && key.code == KeyCode::Enter ==> if old(self).focus == LAST_FIELD {
                r == HeadersOutcome::OpenEditor && *final(self) == *old(self)
            } else {
                r == HeadersOutcome::Edited && final(self).focused_after(*old(self), 1)
            },
            !key.control && old(self).focus == FROM_FIELD && !(key.code == KeyCode::Esc
                || key.code == KeyCode::Tab || key.code == KeyCode::BackTab || key.code
                == KeyCode::Enter) ==> *final(self) == *old(self) && r == from_outcome_spec(key.code),
            !key.control && old(self).focus != FROM_FIELD && !(key.code == KeyCode::Esc
                || key.code == KeyCode::Tab || key.code == KeyCode::BackTab || key.code
                == KeyCode::Enter) ==> r == HeadersOutcome::Edited && final(self).edited_by(
                *old(self),
                key.code,
            ),
            final(self).fed(*old(self), key, r),
    {
        if key.control {
            return match key.code {
                KeyCode::Char('e') | KeyCode::Char('h') => HeadersOutcome::OpenEditor,
                _ => HeadersOutcome::Edited,
            };
        }
        match key.code {
            KeyCode::Esc => HeadersOutcome::Cancel,
            KeyCode::Tab => self.step_focus(1),
            KeyCode::BackTab => self.step_focus(-1),
            KeyCode::Enter => self.enter(),
            other => self.field_key(other),
        }
    }

    /// `self` is `before` with the focus stepped by `step` and the
    /// cursor parked at the end of the newly focused field.
    pub open spec fn focused_after(self, before: HeaderFields, step: int) -> bool {
        &&& self.texts() == before.texts()
        &&& self.focus == focus_after(before.focus as int, step)
        &&& self.cursor == self.focused_text().len()
    }

    /// `self` is `before` after the editing key `code` on a text field.
    pub open spec fn edited_by(self, before: HeaderFields, code: KeyCode) -> bool {
        &&& self.focus == before.focus
        &&& match code {
            KeyCode::Char(ch) => self.texts() == before.texts().update(
                write_slot(before.focus as int),
                inserted_at(before.writable_text(), before.cursor as int, ch),
            ) && self.cursor == before.cursor + 1,
            KeyCode::Backspace => if before.cursor == 0 {
                self == before
            } else {
                self.cursor == before.cursor - 1 && self.texts() == before.deleted_at(
                    (before.cursor - 1) as int,
                )
            },
            KeyCode::Delete => self.cursor == before.cursor && self.texts() == before.deleted_at(
                before.cursor as int,
            ),
            KeyCode::Left => self.texts() == before.texts() && self.cursor == (if before.cursor
                == 0 {
                0
            } else {
                before.cursor - 1
            }),
            KeyCode::Right => self.texts() == before.texts() && self.cursor == (if before.cursor
                + 1 < before.focused_text().len() {
                before.cursor + 1
            } else {
                before.focused_text().len() as int
            }),
            KeyCode::Home => self.texts() == before.texts() && self.cursor == 0,
            KeyCode::End => self.texts() == before.texts() && self.cursor
                == before.focused_text().len(),
            _ => self == before,
        }
    }

    /// The texts with the character at `at` removed from the writable
    /// field, or unchanged when `at` is past its end.
    pub open spec fn deleted_at(self, at: int) -> Seq<Seq<char>> {
        if at >= self.writable_text().len() {
            self.texts()
        } else {
            self.texts().update(write_slot(self.focus as int), self.writable_text().remove(at))
        }
    }

    fn enter(&mut self) -> (r: HeadersOutcome)
        requires
            old(self).focus < FIELD_COUNT,
        ensures
            old(self).focus == LAST_FIELD ==> r == HeadersOutcome::OpenEditor && *final(self)
                == *old(self),
            old(self).focus != LAST_FIELD ==> r == HeadersOutcome::Edited && final(self).focused_after(*old(self), 1),
    {
        if self.focus == LAST_FIELD {
            return HeadersOutcome::OpenEditor;
        }
        self.step_focus(1)
    }

    /// Steps the focus by `step`, wrapping through the five fields,
    /// and parks the cursor at the end of the new field.
    pub fn step_focus(&mut self, step: i32) -> (r: HeadersOutcome)
        requires
            old(self).focus <= i32::MAX,
        ensures
            r == HeadersOutcome::Edited,
            final(self).focused_after(*old(self), step as int),
    {
        self.focus = crate::text::wrapped(self.focus, FIELD_COUNT, step);
        self.cursor = self.field().unicode_len();
        HeadersOutcome::Edited
    }

    fn field_key(&mut self, code: KeyCode) -> (r: HeadersOutcome)
        requires
            old(self).cursor < usize::MAX,
        ensures
            old(self).focus == FROM_FIELD ==> *final(self) == *old(self) && r
                == from_outcome_spec(code),
            old(self).focus != FROM_FIELD ==> r == HeadersOutcome::Edited && final(self).edited_by(
                *old(self),
                code,
            ),
    {
        if self.focus == FROM_FIELD {
            return from_outcome(code);
        }
        match code {
            KeyCode::Char(ch) => self.insert(ch),
            KeyCode::Backspace => self.backspace(),
            KeyCode::Delete => self.delete(),
            KeyCode::Left => {
                if self.cursor > 0 {
                    self.cursor = self.cursor - 1;
                }
            },
            KeyCode::Right => {
                let len = self.field().unicode_len();
                self.cursor = if self.cursor + 1 < len {
                    self.cursor + 1
                } else {
                    len
                };
            },
            KeyCode::Home => self.cursor = 0,
            KeyCode::End => self.cursor = self.field().unicode_len(),
            _ => {},
        }
        HeadersOutcome::Edited
    }

    fn writable(&self) -> (r: &String)
        ensures
            r@ == self.writable_text(),
    {
        match self.focus {
            0 => &self.to,
            1 => &self.cc,
            2 => &self.bcc,
            _ => &self.subject,
        }
    }

    fn set_writable(&mut self, text: String)
        ensures
            final(self).focus == old(self).focus,
            final(self).cursor == old(self).cursor,
            final(self).texts() == old(self).texts().update(write_slot(old(self).focus as int), text@),
    {
        match self.focus {
            0 => self.to = text,
            1 => self.cc = text,
            2 => self.bcc = text,
            _ => self.subject = text,
        }
        assert(final(self).texts() =~= old(self).texts().update(write_slot(old(self).focus as int), text@));
    }

    fn insert(&mut self, ch: char)
        requires
            old(self).cursor < usize::MAX,
        ensures
            final(self).focus == old(self).focus,
            final(self).cursor == old(self).cursor + 1,
            final(self).texts() == old(self).texts().update(
                write_slot(old(self).focus as int),
                inserted_at(old(self).writable_text(), old(self).cursor as int, ch),
            ),
    {
        let mut chars = chars_of(self.writable().as_str());
        let at = if self.cursor < chars.len() {
            self.cursor
        } else {
            chars.len()
        };
        chars.insert(at, ch);
        self.set_writable(string_of(&chars));
        self.cursor = self.cursor + 1;
    }

    fn backspace(&mut self)
        ensures
            final(self).focus == old(self).focus,
            old(self).cursor == 0 ==> *final(self) == *old(self),
            old(self).cursor > 0 ==> final(self).cursor == old(self).cursor - 1 && final(self).texts() == old(self).deleted_at(old(self).cursor - 1),
    {
        if self.cursor == 0 {
            return;
        }
        self.cursor = self.cursor - 1;
        self.delete();
    }

    fn delete(&mut self)
        ensures
            final(self).focus == old(self).focus,
            final(self).cursor == old(self).cursor,
            final(self).texts() == old(self).deleted_at(old(self).cursor as int),
            old(self).cursor >= old(self).writable_text().len() ==> *final(self) == *old(self),
    {
        let mut chars = chars_of(self.writable().as_str());
        if self.cursor >= chars.len() {
            return;
        }
        chars.remove(self.cursor);
        self.set_writable(string_of(&chars));
    }

    /// Whether a recipient field (To, Cc, Bcc) has the focus.
    pub fn recipient_focused(&self) -> (r: bool)
        ensures
            r == (self.focus < RECIPIENT_FIELDS),
    {
        self.focus < RECIPIENT_FIELDS
    }

    /// Swaps the focused field's text wholesale, cursor at the end;
    /// completion acceptance is the caller. From holds no text, so with
    /// the focus there no field changes.
    pub fn replace_field(&mut self, text: String)
        ensures
            final(self).focus == old(self).focus,
            final(self).cursor == text@.len(),
            old(self).focus < FROM_FIELD ==> final(self).texts() == old(self).texts().update(
                old(self).focus as int,
                text@,
            ),
            old(self).focus >= FROM_FIELD ==> final(self).texts() == old(self).texts(),
    {
        let len = text.as_str().unicode_len();
        if self.focus < FROM_FIELD {
            self.set_writable(text);
        }
        self.cursor = len;
    }

    /// The focused field's text: empty for From.
    pub fn field(&self) -> (r: &str)
        ensures
            r@ == self.focused_text(),
    {
        match self.focus {
            0 => self.to.as_str(),
            1 => self.cc.as_str(),
            2 => self.bcc.as_str(),
            3 => self.subject.as_str(),
            _ => {
                proof {
                    reveal_strlit("");
                }
                ""
            },
        }
    }
}

/// What a key on the From row asks for.
pub open spec fn from_outcome_spec(code: KeyCode) -> HeadersOutcome {
    if code == KeyCode::Right || code == KeyCode::Char(' ') {
        HeadersOutcome::CycleFrom(1i32)
    } else if code == KeyCode::Left {
        HeadersOutcome::CycleFrom(-1i32)
    } else {
        HeadersOutcome::Edited
    }
}

fn from_outcome(code: KeyCode) -> (r: HeadersOutcome)
    ensures
        r == from_outcome_spec(code),
{
    match code {
        KeyCode::Right | KeyCode::Char(' ') => HeadersOutcome::CycleFrom(1),
        KeyCode::Left => HeadersOutcome::CycleFrom(-1),
        _ => HeadersOutcome::Edited,
    }
}

/// The block cursor drawn in the focused field.
pub open spec fn cursor_char() -> char {
    '\u{258c}'
}

/// `value` with the cursor drawn before its character at `cursor`, or
/// at its end when `cursor` is past it.
pub open spec fn with_cursor_of(value: Seq<char>, cursor: int) -> Seq<char> {
    let at = if cursor < value.len() {
        cursor
    } else {
        value.len() as int
    };
    value.take(at) + seq![cursor_char()] + value.skip(at)
}

pub fn with_cursor(value: &str, cursor: usize) -> (r: String)
    ensures
        r@ == with_cursor_of(value@, cursor as int),
{
    let v = chars_of(value);
    let at = if cursor < v.len() {
        cursor
    } else {
        v.len()
    };
    let mut out = slice_chars(&v, 0, at);
    out.push('\u{258c}');
    let rest = slice_chars(&v, at, v.len());
    append_chars(&mut out, &rest);
    assert(v@.skip(at as int) =~= v@.subrange(at as int, v.len() as int));
    string_of(&out)
}

/// The labels of the five header rows.
pub open spec fn row_label(row: int) -> Seq<char> {
    if row == 0 {
        "To:"@
    } else if row == 1 {
        "Cc:"@
    } else if row == 2 {
        "Bcc:"@
    } else if row == 3 {
        "Subject:"@
    } else {
        "From:"@
    }
}

/// A label padded to the label column's ten characters.
pub open spec fn label_cell(label: Seq<char>) -> Seq<char> {
    label + Seq::new(if label.len() < 10 { (10 - label.len()) as nat } else { 0 }, |i: int| ' ')
}

pub fn padded_label(label: &str) -> (r: Vec<char>)
    ensures
        r@ == label_cell(label@),
{
    let mut out = chars_of(label);
    let n = out.len();
    let mut i: usize = n;
    while i < 10
        invariant
            n == label@.len(),
            n <= i <= 10 || (i == n && n >= 10),
            out@ == label@ + Seq::new((i - n) as nat, |k: int| ' '),
        decreases 10 - i,
    {
        out.push(' ');
        assert(label@ + Seq::new((i + 1 - n) as nat, |k: int| ' ') =~= (label@ + Seq::new((i - n) as nat, |k: int| ' ')).push(' '));
        i = i + 1;
    }
    assert(out@ =~= label_cell(label@));
    out
}

} // verus!
