//! Preflight checks for the local setup: how each check's outcome is
//! reported, and the exit status of the whole run. Running the checks
//! (the file system, the tools on `PATH`, the environment) is the
//! caller's I/O.
use vstd::prelude::*;

use crate::text::{
    append_str, chars_of, decimal, join_with, join_with_of, lines_view, push_decimal, split_lines,
    split_lines_of, string_of, trim, trimmed,
};
use crate::sendmail::{decode_lossy, utf8_lossy};

verus! {

broadcast use vstd::string::group_string_axioms;

/// The width of the widest status label, `FAIL`.
pub const STATUS_WIDTH: usize = 4;

/// What one check found.
#[derive(Clone, Debug, PartialEq, Eq)]
pub struct Outcome {
    pub passed: bool,
    pub detail: String,
}

impl Outcome {
    /// A passed check.
    pub fn ok(detail: &str) -> (r: Outcome)
        ensures
            r.passed,
            r.detail@ == detail@,
    {
        Outcome { passed: true, detail: detail.to_owned() }
    }

    /// A failed check.
    pub fn fail(detail: &str) -> (r: Outcome)
        ensures
            !r.passed,
            r.detail@ == detail@,
    {
        Outcome { passed: false, detail: detail.to_owned() }
    }
}

/// `n` spaces.
pub open spec fn spaces(n: int) -> Seq<char> {
    Seq::new(if n < 0 { 0 } else { n as nat }, |i: int| ' ')
}

/// `text` padded with spaces on the right to `width` characters.
pub open spec fn pad_right(text: Seq<char>, width: int) -> Seq<char> {
    text + spaces(width - text.len())
}

pub open spec fn status_label(passed: bool) -> Seq<char> {
    if passed {
        "ok"@
    } else {
        "FAIL"@
    }
}

/// The label in green or red, or bare without colour.
pub open spec fn painted(text: Seq<char>, passed: bool, colour: bool) -> Seq<char> {
    if !colour {
        text
    } else {
        (if passed {
            "\x1b[32m"@
        } else {
            "\x1b[31m"@
        }) + text + "\x1b[0m"@
    }
}

/// One report line: status, padding to align with `FAIL`, the check's
/// name padded to `name_width`, and the detail.
pub open spec fn report_line(name: Seq<char>, passed: bool, detail: Seq<char>, name_width: int, colour: bool) -> Seq<char> {
    let label = status_label(passed);
    painted(label, passed, colour) + spaces(STATUS_WIDTH - label.len()) + "  "@ + pad_right(name, name_width) + "  "@ + detail
}

fn push_spaces(out: &mut Vec<char>, n: usize)
    ensures
        final(out)@ == old(out)@ + spaces(n as int),
{
    let mut i: usize = 0;
    while i < n
        invariant
            i <= n,
            out@ == old(out)@ + spaces(i as int),
        decreases n - i,
    {
        out.push(' ');
        assert(spaces(i + 1) =~= spaces(i as int).push(' '));
        i = i + 1;
    }
}

/// The label painted green for a pass and red for a failure, when
/// colour is allowed.
pub fn paint(text: &str, passed: bool, colour: bool) -> (r: String)
    ensures
        r@ == painted(text@, passed, colour),
{
    if !colour {
        return text.to_owned();
    }
    let mut out: Vec<char> = Vec::new();
    if passed {
        append_str(&mut out, "\x1b[32m");
    } else {
        append_str(&mut out, "\x1b[31m");
    }
    append_str(&mut out, text);
    append_str(&mut out, "\x1b[0m");
    string_of(&out)
}

/// The report line of one check.
pub fn render_line(name: &str, outcome: &Outcome, name_width: usize, colour: bool) -> (r: String)
    ensures
        r@ == report_line(name@, outcome.passed, outcome.detail@, name_width as int, colour),
{
    let label = if outcome.passed { "ok" } else { "FAIL" };
    proof {
        reveal_strlit("ok");
        reveal_strlit("FAIL");
    }
    let label_len: usize = if outcome.passed { 2 } else { 4 };
    assert(label@ == status_label(outcome.passed));
    let painted_label = paint(label, outcome.passed, colour);
    let mut out: Vec<char> = chars_of(painted_label.as_str());
    push_spaces(&mut out, STATUS_WIDTH - label_len);
    append_str(&mut out, "  ");
    append_str(&mut out, name);
    let name_len = name.unicode_len();
    if name_len < name_width {
        push_spaces(&mut out, name_width - name_len);
    } else {
        assert(spaces(name_width - name@.len()) =~= Seq::<char>::empty());
    }
    append_str(&mut out, "  ");
    append_str(&mut out, outcome.detail.as_str());
    assert(out@ =~= report_line(name@, outcome.passed, outcome.detail@, name_width as int, colour));
    string_of(&out)
}

/// What the accounts check reports for the configured account names.
pub open spec fn accounts_detail(names: Seq<Seq<char>>) -> Seq<char> {
    if names.len() == 0 {
        "none configured yet"@
    } else {
        decimal(names.len()) + " found: "@ + join_with(names, ", "@)
    }
}

/// The accounts check: it passes whenever the configuration parsed, and
/// names what it found.
pub fn accounts_outcome(names: &Vec<String>) -> (r: Outcome)
    ensures
        r.passed,
        r.detail@ == accounts_detail(names@.map_values(|s: String| s@)),
{
    let ghost named = names@.map_values(|s: String| s@);
    if names.len() == 0 {
        proof {
            reveal_strlit("none configured yet");
        }
        return Outcome::ok("none configured yet");
    }
    let mut items: Vec<Vec<char>> = Vec::new();
    let mut i: usize = 0;
    while i < names.len()
        invariant
            i <= names.len(),
            named == names@.map_values(|s: String| s@),
            lines_view(items@) =~= named.take(i as int),
        decreases names.len() - i,
    {
        let ghost before = items@;
        let chars = chars_of(names[i].as_str());
        items.push(chars);
        proof {
            crate::text::lemma_lines_view_push(before, items@[i as int]);
            assert(named.take(i + 1) =~= named.take(i as int).push(named[i as int]));
        }
        i = i + 1;
    }
    let mut out: Vec<char> = Vec::new();
    push_decimal(&mut out, names.len() as u128);
    append_str(&mut out, " found: ");
    let sep = chars_of(", ");
    let joined = join_with_of(&items, &sep);
    let mut k: usize = 0;
    while k < joined.len()
        invariant
            k <= joined.len(),
            out@ == decimal(names@.len()) + " found: "@ + joined@.take(k as int),
        decreases joined.len() - k,
    {
        out.push(joined[k]);
        assert(joined@.take(k + 1) =~= joined@.take(k as int).push(joined@[k as int]));
        k = k + 1;
    }
    proof {
        reveal_strlit(", ");
        assert(joined@.take(joined.len() as int) =~= joined@);
        assert(named.take(names.len() as int) =~= named);
    }
    Outcome { passed: true, detail: string_of(&out) }
}

/// The widest of the check names, in characters.
pub fn name_width(names: &Vec<&str>) -> (r: usize)
    ensures
        forall|i: int| 0 <= i < names@.len() ==> names@[i]@.len() <= r,
        names@.len() == 0 ==> r == 0,
        names@.len() > 0 ==> exists|i: int| 0 <= i < names@.len() && names@[i]@.len() == r,
{
    let mut widest: usize = 0;
    let mut i: usize = 0;
    while i < names.len()
        invariant
            i <= names.len(),
            forall|j: int| 0 <= j < i ==> names@[j]@.len() <= widest,
            i == 0 ==> widest == 0,
            i > 0 ==> exists|j: int| 0 <= j < i && names@[j]@.len() == widest,
        decreases names.len() - i,
    {
        let len = names[i].unicode_len();
        if len > widest || i == 0 {
            widest = len;
        }
        i = i + 1;
    }
    widest
}

/// The head of a tool's version output: its first line, trimmed, or
/// nothing for empty output.
pub open spec fn first_line_of(text: Seq<char>) -> Seq<char> {
    if split_lines(text).len() == 0 {
        seq![]
    } else {
        trim(split_lines(text)[0])
    }
}

/// The first line of `text`, trimmed.
pub fn first_line(text: &str) -> (r: String)
    ensures
        r@ == first_line_of(text@),
{
    let lines = split_lines_of(&chars_of(text));
    if lines.len() == 0 {
        return String::new();
    }
    assert(crate::text::lines_view(lines@)[0] == lines@[0]@);
    string_of(&trimmed(&lines[0]))
}

/// Colour is allowed unless `NO_COLOR` is set to something non-empty.
pub fn colour_allowed(no_colour: Option<&str>) -> (r: bool)
    ensures
        r == match no_colour {
            None => true,
            Some(v) => v@.len() == 0,
        },
{
    match no_colour {
        None => true,
        Some(value) => value.unicode_len() == 0,
    }
}

/// The run's exit status: 0 only when every check passed.
pub fn exit_code(results: &Vec<bool>) -> (r: u8)
    ensures
        r == (if forall|i: int| 0 <= i < results@.len() ==> results@[i] { 0u8 } else { 1u8 }),
{
    let mut i: usize = 0;
    while i < results.len()
        invariant
            i <= results.len(),
            forall|j: int| 0 <= j < i ==> results@[j],
        decreases results.len() - i,
    {
        if !results[i] {
            return 1;
        }
        i = i + 1;
    }
    0
}

/// The config directory check: the directory must resolve and exist.
pub open spec fn directory_outcome_of(path: Option<Seq<char>>, is_dir: bool) -> (bool, Seq<char>) {
    match path {
        None => (false, "cannot resolve the home directory"@),
        Some(p) => if is_dir {
            (true, p)
        } else {
            (false, p + " does not exist"@)
        },
    }
}

pub fn directory_outcome(path: Option<&str>, is_dir: bool) -> (r: Outcome)
    ensures
        (r.passed, r.detail@) == directory_outcome_of(
            match path {
                Some(p) => Some(p@),
                None => None,
            },
            is_dir,
        ),
{
    match path {
        None => Outcome::fail("cannot resolve the home directory"),
        Some(p) => if is_dir {
            Outcome::ok(p)
        } else {
            let mut out = chars_of(p);
            append_str(&mut out, " does not exist");
            Outcome { passed: false, detail: string_of(&out) }
        },
    }
}

/// The parse check: no directory, the loader's error, or success.
pub open spec fn parse_outcome_of(loaded: Option<Result<(), Seq<char>>>) -> (bool, Seq<char>) {
    match loaded {
        None => (false, "no configuration directory"@),
        Some(Err(e)) => (false, e),
        Some(Ok(())) => (true, "config.toml and accounts are valid"@),
    }
}

pub fn parse_outcome(loaded: Option<Result<(), String>>) -> (r: Outcome)
    ensures
        (r.passed, r.detail@) == parse_outcome_of(
            match loaded {
                None => None,
                Some(Err(e)) => Some(Err(e@)),
                Some(Ok(())) => Some(Ok(())),
            },
        ),
{
    match loaded {
        None => Outcome::fail("no configuration directory"),
        Some(Err(e)) => Outcome { passed: false, detail: e },
        Some(Ok(())) => Outcome::ok("config.toml and accounts are valid"),
    }
}

pub open spec fn accounts_unavailable() -> Seq<char> {
    "unavailable until the configuration parses"@
}

/// The accounts check: unavailable until the configuration parses,
/// then the names of what it found.
pub fn accounts_check(names: Option<&Vec<String>>) -> (r: Outcome)
    ensures
        names is None ==> !r.passed && r.detail@ == accounts_unavailable(),
        names matches Some(n) ==> r.passed && r.detail@ == accounts_detail(n@.map_values(|s: String| s@)),
{
    match names {
        None => Outcome::fail("unavailable until the configuration parses"),
        Some(n) => accounts_outcome(n),
    }
}

/// What running `TOOL --version` showed: it could not be started, it
/// exited with failure, or it succeeded with this output.
pub enum ToolRun {
    NotFound,
    Failed,
    Succeeded(Vec<u8>),
}

/// A tool check: found on `PATH` and answering `--version`, reported by
/// the first line of what it printed.
pub open spec fn tool_outcome_of(tool: Seq<char>, run: ToolRun) -> (bool, Seq<char>) {
    match run {
        ToolRun::NotFound => (false, tool + " not found on PATH"@),
        ToolRun::Failed => (false, tool + " --version failed"@),
        ToolRun::Succeeded(stdout) => (true, first_line_of(utf8_lossy(stdout@))),
    }
}

pub fn tool_outcome(tool: &str, run: &ToolRun) -> (r: Outcome)
    ensures
        (r.passed, r.detail@) == tool_outcome_of(tool@, *run),
{
    match run {
        ToolRun::NotFound => {
            let mut out = chars_of(tool);
            append_str(&mut out, " not found on PATH");
            Outcome { passed: false, detail: string_of(&out) }
        },
        ToolRun::Failed => {
            let mut out = chars_of(tool);
            append_str(&mut out, " --version failed");
            Outcome { passed: false, detail: string_of(&out) }
        },
        ToolRun::Succeeded(stdout) => {
            let text = decode_lossy(stdout.as_slice());
            Outcome { passed: true, detail: first_line(text.as_str()) }
        },
    }
}

/// An environment check: the variable must hold something, which is
/// then shown.
pub open spec fn env_outcome_of(var: Seq<char>, value: Option<Seq<char>>) -> (bool, Seq<char>) {
    match value {
        Some(v) => if v.len() > 0 {
            (true, v)
        } else {
            (false, "$"@ + var + " is not set"@)
        },
        None => (false, "$"@ + var + " is not set"@),
    }
}

pub fn env_outcome(var: &str, value: Option<&str>) -> (r: Outcome)
    ensures
        (r.passed, r.detail@) == env_outcome_of(
            var@,
            match value {
                Some(v) => Some(v@),
                None => None,
            },
        ),
{
    match value {
        Some(v) => if v.unicode_len() > 0 {
            return Outcome::ok(v);
        },
        None => {},
    }
    let mut out = chars_of("$");
    append_str(&mut out, var);
    append_str(&mut out, " is not set");
    Outcome { passed: false, detail: string_of(&out) }
}

} // verus!
