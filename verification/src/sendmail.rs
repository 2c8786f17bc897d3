//! The logic of the sendmail-compatible entry point that git send-email
//! and friends call: the classic flags, recipients as arguments, and
//! the envelope sender taken from the message's From header when no
//! `-f` names one. Reading stdin, queueing the message and talking to
//! the daemon are the caller's I/O.
use vstd::prelude::*;

use crate::tui::compose_assembly::Envelope;

use crate::text::{
    append_str, ascii_lowercase, ascii_lowercased, chars_eq, chars_of, first_index,
    first_index_or, is_char, is_ws, is_whitespace, last_index_in, last_index_of,
    lemma_first_index, lemma_first_index_is, lemma_texts_of_push, lines_view, opt_text,
    slice_chars, split_lines, split_lines_of, str_eq, string_of, texts_of, trim, trimmed,
};

verus! {

broadcast use vstd::string::group_string_axioms;

/// sysexits.h: the command was used incorrectly.
pub const EX_USAGE: u8 = 64;

/// sysexits.h: the addressee is unknown.
pub const EX_NOUSER: u8 = 67;

/// sysexits.h: a temporary failure; the caller may retry.
pub const EX_TEMPFAIL: u8 = 75;

/// sysexits.h: something was found in an unconfigured or
/// misconfigured state.
pub const EX_CONFIG: u8 = 78;

/// What the command line asks for.
pub struct Invocation {
    pub envelope_from: Option<String>,
    pub recipients: Vec<String>,
    /// Flags that are not understood; they are skipped with a warning.
    pub ignored: Vec<String>,
}

/// Flags accepted and silently without effect.
pub open spec fn is_quiet_flag(arg: Seq<char>) -> bool {
    arg == "-i"@ || arg == "-oi"@ || arg == "-t"@ || arg == "--"@
}

/// The parse of `args[i..]`, given what was read before `i`: the
/// envelope sender, the recipients and the skipped flags, or the
/// usage error.
pub open spec fn parse_from(
    args: Seq<Seq<char>>,
    i: int,
    from: Option<Seq<char>>,
    recipients: Seq<Seq<char>>,
    ignored: Seq<Seq<char>>,
) -> Result<(Option<Seq<char>>, Seq<Seq<char>>, Seq<Seq<char>>), Seq<char>>
    decreases args.len() - i,
{
    if i >= args.len() {
        if recipients.len() == 0 {
            Err("no recipients given"@)
        } else {
            Ok((from, recipients, ignored))
        }
    } else {
        let arg = args[i];
        if is_quiet_flag(arg) {
            parse_from(args, i + 1, from, recipients, ignored)
        } else if arg == "-f"@ || arg == "-F"@ {
            if i + 1 >= args.len() {
                Err(arg + " needs a value"@)
            } else {
                let sender = if arg == "-f"@ {
                    Some(args[i + 1])
                } else {
                    from
                };
                parse_from(args, i + 2, sender, recipients, ignored)
            }
        } else if arg.len() > 0 && arg[0] == '-' {
            parse_from(args, i + 1, from, recipients, ignored.push(arg))
        } else {
            parse_from(args, i + 1, from, recipients.push(arg), ignored)
        }
    }
}

/// The parse of a whole command line.
pub open spec fn parsed_args(args: Seq<Seq<char>>) -> Result<
    (Option<Seq<char>>, Seq<Seq<char>>, Seq<Seq<char>>),
    Seq<char>,
> {
    parse_from(args, 0, None, seq![], seq![])
}

/// Reads the classic sendmail flags: `-i`, `-oi`, `-t` and `--` are
/// accepted and ignored, `-f` names the envelope sender, `-F` takes a
/// value that is dropped, any other flag is skipped, and every other
/// argument is a recipient. At least one recipient is required.
pub fn parse_args(args: &Vec<String>) -> (r: Result<Invocation, String>)
    ensures
        match parsed_args(texts_of(args@)) {
            Ok((from, recipients, ignored)) => r matches Ok(inv) && opt_text(inv.envelope_from)
                == from && texts_of(inv.recipients@) == recipients && texts_of(inv.ignored@)
                == ignored,
            Err(message) => r matches Err(e) && e@ == message,
        },
{
    let ghost all = texts_of(args@);
    let mut envelope_from: Option<String> = None;
    let mut recipients: Vec<String> = Vec::new();
    let mut ignored: Vec<String> = Vec::new();
    let mut i: usize = 0;
    assert(texts_of(recipients@) =~= Seq::<Seq<char>>::empty());
    while i < args.len()
        invariant
            i <= args.len(),
            all == texts_of(args@),
            parsed_args(all) == parse_from(
                all,
                i as int,
                opt_text(envelope_from),
                texts_of(recipients@),
                texts_of(ignored@),
            ),
        decreases args.len() - i,
    {
        let arg = args[i].as_str();
        assert(all[i as int] == arg@);
        if str_eq(arg, "-i") || str_eq(arg, "-oi") || str_eq(arg, "-t") || str_eq(arg, "--") {
            i = i + 1;
        } else if str_eq(arg, "-f") || str_eq(arg, "-F") {
            if i + 1 >= args.len() {
                let mut message = chars_of(arg);
                append_str(&mut message, " needs a value");
                return Err(string_of(&message));
            }
            if str_eq(arg, "-f") {
                assert(all[i + 1] == args@[i + 1]@);
                envelope_from = Some(args[i + 1].clone());
            }
            i = i + 2;
        } else {
            let chars = chars_of(arg);
            if chars.len() > 0 && chars[0] == '-' {
                proof {
                    lemma_texts_of_push(ignored@, args@[i as int]);
                }
                ignored.push(args[i].clone());
            } else {
                proof {
                    lemma_texts_of_push(recipients@, args@[i as int]);
                }
                recipients.push(args[i].clone());
            }
            i = i + 1;
        }
    }
    if recipients.len() == 0 {
        return Err("no recipients given".to_owned());
    }
    Ok(Invocation { envelope_from, recipients, ignored })
}

// ---------------------------------------------------------------
// The envelope sender from the From header
// ---------------------------------------------------------------

/// The first position at or after `i` where a blank line begins: two
/// newlines in a row.
pub open spec fn blank_line_from(text: Seq<char>, i: int) -> Option<int>
    decreases text.len() - i,
{
    if i + 1 >= text.len() {
        None
    } else if text[i] == '\n' && text[i + 1] == '\n' {
        Some(i)
    } else {
        blank_line_from(text, i + 1)
    }
}

/// The message's header block: everything before the first blank line.
pub open spec fn message_head(text: Seq<char>) -> Seq<char> {
    match blank_line_from(text, 0) {
        Some(i) => text.take(i),
        None => text,
    }
}

/// A `From:` header line, in any letter case.
pub open spec fn is_from_line(line: Seq<char>) -> bool {
    line.len() >= 5 && ascii_lowercase(line.take(5)) == "from:"@
}

pub open spec fn from_line_fn() -> spec_fn(Seq<char>) -> bool {
    |line: Seq<char>| is_from_line(line)
}

pub open spec fn is_punct(c: char) -> bool {
    c == ',' || c == ';'
}

pub open spec fn not_punct_fn() -> spec_fn(char) -> bool {
    |c: char| !is_punct(c)
}

/// The length of `s` without its trailing commas and semicolons.
pub open spec fn punct_end_len(s: Seq<char>) -> int
    decreases s.len(),
{
    if s.len() == 0 {
        0
    } else if is_punct(s.last()) {
        punct_end_len(s.drop_last())
    } else {
        s.len() as int
    }
}

/// `s` with commas and semicolons stripped from both ends.
pub open spec fn trim_punct(s: Seq<char>) -> Seq<char> {
    let rest = s.skip(first_index_or(s, not_punct_fn(), s.len() as int));
    rest.take(punct_end_len(rest))
}

/// The first whitespace-delimited word holding an `@`, reading `s`
/// with `word` as the part of the current word already read.
pub open spec fn at_word(s: Seq<char>, word: Seq<char>) -> Option<Seq<char>>
    decreases s.len(),
{
    if s.len() == 0 {
        if word.contains('@') {
            Some(word)
        } else {
            None
        }
    } else if is_ws(s[0]) {
        if word.contains('@') {
            Some(word)
        } else {
            at_word(s.drop_first(), seq![])
        }
    } else {
        at_word(s.drop_first(), word.push(s[0]))
    }
}

/// The address in a From field: what stands between the first `<` and
/// the last `>`, trimmed; else the first word with an `@`, stripped of
/// list punctuation.
pub open spec fn address_in(field: Seq<char>) -> Option<Seq<char>> {
    let open = first_index(field, is_char('<'));
    let close = last_index_of(field, '>');
    if open is Some && close is Some && open->0 < close->0 {
        Some(trim(field.subrange(open->0 + 1, close->0)))
    } else {
        match at_word(field, seq![]) {
            Some(word) => Some(trim_punct(word)),
            None => None,
        }
    }
}

/// The envelope sender named by the first From header of a message.
pub open spec fn sender_of(text: Seq<char>) -> Option<Seq<char>> {
    let lines = split_lines(message_head(text));
    match first_index(lines, from_line_fn()) {
        Some(k) => address_in(lines[k].skip(5)),
        None => None,
    }
}

/// The text of `raw` read as UTF-8, every invalid sequence replaced by
/// U+FFFD.
pub uninterp spec fn utf8_lossy(raw: Seq<u8>) -> Seq<char>;

/// std's `String::from_utf8_lossy`. The contract claims only that the
/// result is the lossy UTF-8 decoding of the bytes, a function of the
/// bytes alone.
#[verifier::external_body]
pub(crate) fn decode_lossy(raw: &[u8]) -> (r: String)
    ensures
        r@ == utf8_lossy(raw@),
{
    String::from_utf8_lossy(raw).into_owned()
}

/// Where the header block of `v` ends.
fn head_len(v: &Vec<char>) -> (n: usize)
    ensures
        v@.take(n as int) == message_head(v@),
        n <= v.len(),
{
    let mut i: usize = 0;
    while i < v.len() && v.len() - i > 1
        invariant
            i <= v.len(),
            blank_line_from(v@, 0) == blank_line_from(v@, i as int),
        decreases v.len() - i,
    {
        if v[i] == '\n' && v[i + 1] == '\n' {
            return i;
        }
        i = i + 1;
    }
    assert(v@.take(v.len() as int) =~= v@);
    v.len()
}

/// Whether `line` is a From header.
fn from_line(line: &Vec<char>) -> (r: bool)
    ensures
        r == is_from_line(line@),
{
    if line.len() < 5 {
        return false;
    }
    let lowered = ascii_lowercased(&slice_chars(line, 0, 5));
    chars_eq(&lowered, &chars_of("from:"))
}

/// The number of leading commas and semicolons of `v`.
fn leading_punct(v: &Vec<char>) -> (n: usize)
    ensures
        n == first_index_or(v@, not_punct_fn(), v@.len() as int),
        n <= v.len(),
{
    let mut i: usize = 0;
    while i < v.len() && (v[i] == ',' || v[i] == ';')
        invariant
            i <= v.len(),
            forall|j: int| 0 <= j < i ==> !(not_punct_fn())(#[trigger] v@[j]),
        decreases v.len() - i,
    {
        i = i + 1;
    }
    proof {
        lemma_first_index_is(v@, not_punct_fn(), i as int);
    }
    i
}

proof fn lemma_punct_end_len_is(s: Seq<char>, n: int)
    requires
        0 <= n <= s.len(),
        forall|j: int| n <= j < s.len() ==> is_punct(#[trigger] s[j]),
        n > 0 ==> !is_punct(s[n - 1]),
    ensures
        punct_end_len(s) == n,
    decreases s.len(),
{
    if s.len() > n {
        assert(is_punct(s[s.len() - 1]));
        assert forall|j: int| n <= j < s.drop_last().len() implies is_punct(
            #[trigger] s.drop_last()[j],
        ) by {
            assert(s.drop_last()[j] == s[j]);
        }
        lemma_punct_end_len_is(s.drop_last(), n);
    }
}

/// `v` with commas and semicolons stripped from both ends.
fn trimmed_punct(v: &Vec<char>) -> (r: Vec<char>)
    ensures
        r@ == trim_punct(v@),
{
    let start = leading_punct(v);
    let rest = slice_chars(v, start, v.len());
    assert(rest@ == v@.skip(start as int));
    let mut n: usize = rest.len();
    while n > 0 && (rest[n - 1] == ',' || rest[n - 1] == ';')
        invariant
            n <= rest.len(),
            forall|j: int| n <= j < rest.len() ==> is_punct(#[trigger] rest@[j]),
        decreases n,
    {
        n = n - 1;
    }
    proof {
        lemma_punct_end_len_is(rest@, n as int);
    }
    slice_chars(&rest, 0, n)
}

/// The first whitespace-delimited word of `v` holding an `@`.
fn first_at_word(v: &Vec<char>) -> (r: Option<Vec<char>>)
    ensures
        match at_word(v@, seq![]) {
            Some(w) => r matches Some(x) && x@ == w,
            None => r is None,
        },
{
    let mut word: Vec<char> = Vec::new();
    let mut has_at = false;
    let mut i: usize = 0;
    assert(v@.skip(0) =~= v@);
    while i < v.len()
        invariant
            i <= v.len(),
            has_at == word@.contains('@'),
            at_word(v@, seq![]) == at_word(v@.skip(i as int), word@),
        decreases v.len() - i,
    {
        let c = v[i];
        assert(v@.skip(i as int)[0] == c);
        assert(v@.skip(i as int).drop_first() =~= v@.skip(i + 1));
        if is_whitespace(c) {
            if has_at {
                return Some(word);
            }
            word = Vec::new();
            has_at = false;
            assert(!word@.contains('@'));
        } else {
            let ghost before = word@;
            word.push(c);
            assert(word@ == before.push(c));
            if c == '@' {
                assert(word@[before.len() as int] == '@');
                has_at = true;
            } else {
                assert(word@.contains('@') == before.contains('@')) by {
                    if word@.contains('@') {
                        let k = choose|k: int| 0 <= k < word@.len() && word@[k] == '@';
                        assert(k < before.len());
                        assert(before[k] == '@');
                    }
                    if before.contains('@') {
                        let k = choose|k: int| 0 <= k < before.len() && before[k] == '@';
                        assert(word@[k] == '@');
                    }
                }
            }
        }
        i = i + 1;
    }
    assert(v@.skip(i as int).len() == 0);
    if has_at {
        Some(word)
    } else {
        None
    }
}

/// The address in a From field.
pub fn address_of(field: &str) -> (r: Option<String>)
    ensures
        opt_text(r) == address_in(field@),
{
    let v = chars_of(field);
    let open = crate::text::find_char_from(&v, '<', 0);
    let close = last_index_in(&v, '>');
    assert(v@.skip(0) =~= v@);
    proof {
        lemma_first_index(v@, is_char('<'));
    }
    match (open, close) {
        (Some(o), Some(c)) => {
            if o < c {
                let inner = slice_chars(&v, o + 1, c);
                return Some(string_of(&trimmed(&inner)));
            }
        },
        _ => {},
    }
    match first_at_word(&v) {
        Some(word) => Some(string_of(&trimmed_punct(&word))),
        None => None,
    }
}

/// The envelope sender of a message's text: the address of its first
/// From header line, read only from the header block.
pub fn sender_in(text: &str) -> (r: Option<String>)
    ensures
        opt_text(r) == sender_of(text@),
{
    let v = chars_of(text);
    let end = head_len(&v);
    let head = slice_chars(&v, 0, end);
    assert(head@ == message_head(text@));
    let lines = split_lines_of(&head);
    let ghost views = lines_view(lines@);
    let mut k: usize = 0;
    while k < lines.len()
        invariant
            k <= lines.len(),
            views == lines_view(lines@),
            views == split_lines(message_head(text@)),
            forall|j: int| 0 <= j < k ==> !(from_line_fn())(#[trigger] views[j]),
        decreases lines.len() - k,
    {
        assert(views[k as int] == lines@[k as int]@);
        if from_line(&lines[k]) {
            proof {
                lemma_first_index_is(views, from_line_fn(), k as int);
            }
            let field = slice_chars(&lines[k], 5, lines[k].len());
            assert(field@ =~= views[k as int].skip(5));
            let s = string_of(&field);
            assert(split_lines(message_head(text@)) == views);
            assert(first_index(views, from_line_fn()) == Some(k as int));
            assert(s@ == views[k as int].skip(5));
            return address_of(s.as_str());
        }
        k = k + 1;
    }
    proof {
        lemma_first_index_is(views, from_line_fn(), k as int);
    }
    None
}

/// The envelope sender named by the From header of a raw message.
pub fn from_header(raw: &[u8]) -> (r: Option<String>)
    ensures
        opt_text(r) == sender_of(utf8_lossy(raw@)),
{
    let text = decode_lossy(raw);
    sender_in(text.as_str())
}

pub open spec fn no_sender_message() -> Seq<char> {
    "no -f and no From header in the message"@
}

/// The envelope sender of a submission: `-f` when given, else the
/// message's From header; with neither the submission is a usage error.
pub open spec fn envelope_sender_of(envelope_from: Option<Seq<char>>, raw: Seq<u8>) -> Result<Seq<char>, (u8, Seq<char>)> {
    match envelope_from {
        Some(f) => Ok(f),
        None => match sender_of(utf8_lossy(raw)) {
            Some(f) => Ok(f),
            None => Err((EX_USAGE, no_sender_message())),
        },
    }
}

pub fn envelope_sender(invocation: &Invocation, raw: &[u8]) -> (r: Result<String, (u8, String)>)
    ensures
        match envelope_sender_of(opt_text(invocation.envelope_from), raw@) {
            Ok(f) => r matches Ok(x) && x@ == f,
            Err((code, m)) => r matches Err((c, x)) && c == code && x@ == m,
        },
{
    match &invocation.envelope_from {
        Some(f) => Ok(f.clone()),
        None => match from_header(raw) {
            Some(f) => Ok(f),
            None => Err((EX_USAGE, "no -f and no From header in the message".to_owned())),
        },
    }
}

/// A line on standard error, prefixed with the command's name.
pub open spec fn failure_line_of(message: Seq<char>) -> Seq<char> {
    "antiphon sendmail: "@ + message
}

pub fn failure_line(message: &str) -> (r: String)
    ensures
        r@ == failure_line_of(message@),
{
    let mut out = chars_of("antiphon sendmail: ");
    append_str(&mut out, message);
    string_of(&out)
}

/// `no account identity matches FROM`, the message when no configured
/// account sends as the envelope sender.
pub fn no_account_message(from: &str) -> (r: String)
    ensures
        r@ == "no account identity matches "@ + from@,
{
    let mut out = chars_of("no account identity matches ");
    append_str(&mut out, from);
    string_of(&out)
}

/// The envelope a submission queues, or the exit code and message of
/// the first of its stages that failed, in order: the command line,
/// reading the message, loading the configuration, finding the envelope
/// sender, and matching an account to it. The envelope goes out through
/// the matched account, from the sender, to the recipients of the
/// command line, to send at the next drain.
pub open spec fn submission_of(
    parsed: Result<Seq<Seq<char>>, Seq<char>>,
    stdin: Result<(), Seq<char>>,
    config: Result<(), Seq<char>>,
    sender: Result<Seq<char>, (u8, Seq<char>)>,
    account: Option<Seq<char>>,
) -> Result<(Seq<char>, Seq<char>, Seq<Seq<char>>), (u8, Seq<char>)> {
    match parsed {
        Err(m) => Err((EX_USAGE, m)),
        Ok(recipients) => match stdin {
            Err(e) => Err((EX_TEMPFAIL, "reading stdin: "@ + e)),
            Ok(()) => match config {
                Err(e) => Err((EX_CONFIG, e)),
                Ok(()) => match sender {
                    Err((code, m)) => Err((code, m)),
                    Ok(from) => match account {
                        None => Err((EX_NOUSER, "no account identity matches "@ + from)),
                        Some(a) => Ok((a, from, recipients)),
                    },
                },
            },
        },
    }
}

/// A unit result's view.
pub open spec fn unit_view(r: Result<(), String>) -> Result<(), Seq<char>> {
    match r {
        Ok(()) => Ok(()),
        Err(e) => Err(e@),
    }
}

/// The view of a parsed command line: its recipients, or the usage
/// error.
pub open spec fn parsed_view(parsed: Result<Invocation, String>) -> Result<Seq<Seq<char>>, Seq<char>> {
    match parsed {
        Ok(inv) => Ok(texts_of(inv.recipients@)),
        Err(m) => Err(m@),
    }
}

/// The view of an envelope: its account, sender and recipients.
pub open spec fn envelope_view(e: Envelope) -> (Seq<char>, Seq<char>, Seq<Seq<char>>) {
    (e.account@, e.from@, texts_of(e.recipients@))
}

/// The envelope of a submission; see `submission_of`.
pub fn submission(
    parsed: Result<Invocation, String>,
    stdin: &Result<(), String>,
    config: &Result<(), String>,
    sender: &Result<String, (u8, String)>,
    account: &Option<String>,
) -> (r: Result<Envelope, (u8, String)>)
    ensures
        match submission_of(
            parsed_view(parsed),
            unit_view(*stdin),
            unit_view(*config),
            match sender {
                Ok(f) => Ok(f@),
                Err((c, m)) => Err((*c, m@)),
            },
            opt_text(*account),
        ) {
            Ok(v) => r matches Ok(e) && envelope_view(e) == v && e.send_after is None,
            Err((code, m)) => r matches Err((c, x)) && c == code && x@ == m,
        },
{
    let invocation = match parsed {
        Err(m) => return Err((EX_USAGE, m)),
        Ok(invocation) => invocation,
    };
    match stdin {
        Err(e) => {
            let mut out = chars_of("reading stdin: ");
            append_str(&mut out, e.as_str());
            proof {
                reveal_strlit("reading stdin: ");
            }
            return Err((EX_TEMPFAIL, string_of(&out)));
        },
        Ok(()) => {},
    }
    match config {
        Err(e) => return Err((EX_CONFIG, e.clone())),
        Ok(()) => {},
    }
    let from = match sender {
        Err((code, m)) => return Err((*code, m.clone())),
        Ok(f) => f.clone(),
    };
    match account {
        None => Err((EX_NOUSER, no_account_message(from.as_str()))),
        Some(a) => Ok(Envelope { account: a.clone(), from, recipients: invocation.recipients, send_after: None }),
    }
}

pub open spec fn store_unavailable_message() -> Seq<char> {
    "the store is unavailable (vault sealed?)"@
}

/// How a submission ends: a stage that failed before queueing decides
/// it; then reaching the daemon, finding the store, and queueing the
/// envelope `submission` built, with the message. Exit zero, with no
/// message, only once that envelope is queued.
pub open spec fn submission_exit_of(
    plan: Result<(Seq<char>, Seq<char>, Seq<Seq<char>>), (u8, Seq<char>)>,
    daemon: Result<(), Seq<char>>,
    store_exists: bool,
    queued: Result<(), Seq<char>>,
) -> (u8, Option<Seq<char>>) {
    match plan {
        Err((code, m)) => (code, Some(m)),
        Ok(_) => match daemon {
            Err(e) => (EX_TEMPFAIL, Some(e)),
            Ok(()) => if !store_exists {
                (EX_TEMPFAIL, Some(store_unavailable_message()))
            } else {
                match queued {
                    Err(e) => (EX_TEMPFAIL, Some(e)),
                    Ok(()) => (0u8, None),
                }
            },
        },
    }
}

/// The exit code and failure message of a submission; the caller
/// prints the message with `failure_line` and exits with the code.
/// `queued` is how queueing the envelope of `plan` went.
pub fn submission_exit(
    plan: &Result<Envelope, (u8, String)>,
    daemon: &Result<(), String>,
    store_exists: bool,
    queued: &Result<(), String>,
) -> (r: (u8, Option<String>))
    ensures
        (r.0, opt_text(r.1)) == submission_exit_of(
            match plan {
                Ok(e) => Ok(envelope_view(*e)),
                Err((c, m)) => Err((*c, m@)),
            },
            unit_view(*daemon),
            store_exists,
            unit_view(*queued),
        ),
{
    match plan {
        Err((code, m)) => return (*code, Some(m.clone())),
        Ok(_) => {},
    }
    match daemon {
        Err(e) => return (EX_TEMPFAIL, Some(e.clone())),
        Ok(()) => {},
    }
    if !store_exists {
        proof {
            reveal_strlit("the store is unavailable (vault sealed?)");
        }
        return (EX_TEMPFAIL, Some("the store is unavailable (vault sealed?)".to_owned()));
    }
    match queued {
        Err(e) => (EX_TEMPFAIL, Some(e.clone())),
        Ok(()) => (0, None),
    }
}

/// Whether account `a` can send for the submission: it has an SMTP
/// server and one of its identities answers for the sender
/// (`matched`, from the identity matcher).
pub open spec fn sends_for(a: crate::config::AccountFile, matched: bool) -> bool {
    a.smtp_host is Some && matched
}

/// The account a submission goes out through: the first configured
/// account with an SMTP server whose identities answer for the sender.
/// `matched[i]` says whether one of account `i`'s identities does.
pub fn account_for(accounts: &Vec<crate::config::AccountFile>, matched: &Vec<bool>) -> (r: Option<String>)
    requires
        matched@.len() == accounts@.len(),
    ensures
        match r {
            Some(name) => exists|i: int|
                0 <= i < accounts@.len() && #[trigger] sends_for(accounts@[i], matched@[i]) && name@
                    == accounts@[i].name@ && forall|j: int| 0 <= j < i ==> !sends_for(accounts@[j], matched@[j]),
            None => forall|i: int| 0 <= i < accounts@.len() ==> !#[trigger] sends_for(accounts@[i], matched@[i]),
        },
{
    let mut i: usize = 0;
    while i < accounts.len()
        invariant
            i <= accounts@.len(),
            matched@.len() == accounts@.len(),
            forall|j: int| 0 <= j < i ==> !#[trigger] sends_for(accounts@[j], matched@[j]),
        decreases accounts@.len() - i,
    {
        if accounts[i].smtp_host.is_some() && matched[i] {
            let name = accounts[i].name.clone();
            assert(sends_for(accounts@[i as int], matched@[i as int]));
            return Some(name);
        }
        i = i + 1;
    }
    None
}

} // verus!
