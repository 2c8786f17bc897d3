//! Character-level text: the mathematical model of strings that
//! every editor in this crate is specified over, and the verified
//! primitives (searching, trimming, splitting into lines, joining)
//! that the editors are built from.
use vstd::prelude::*;

verus! {

broadcast use vstd::string::group_string_axioms;

// ---------------------------------------------------------------
// Model
// ---------------------------------------------------------------

/// The first position in `s` whose element satisfies `p`.
pub open spec fn first_index<A>(s: Seq<A>, p: spec_fn(A) -> bool) -> Option<int>
    decreases s.len(),
{
    if s.len() == 0 {
        None
    } else if p(s[0]) {
        Some(0)
    } else {
        match first_index(s.drop_first(), p) {
            Some(i) => Some(i + 1),
            None => None,
        }
    }
}

/// `first_index` as an offset, or `default` when nothing matches.
pub open spec fn first_index_or<A>(s: Seq<A>, p: spec_fn(A) -> bool, default: int) -> int {
    match first_index(s, p) {
        Some(i) => i,
        None => default,
    }
}

pub proof fn lemma_first_index<A>(s: Seq<A>, p: spec_fn(A) -> bool)
    ensures
        match first_index(s, p) {
            Some(i) => 0 <= i < s.len() && p(s[i]) && forall|j: int| 0 <= j < i ==> !p(#[trigger] s[j]),
            None => forall|j: int| 0 <= j < s.len() ==> !p(#[trigger] s[j]),
        },
    decreases s.len(),
{
    if s.len() > 0 && !p(s[0]) {
        lemma_first_index(s.drop_first(), p);
        assert forall|j: int| 1 <= j < s.len() implies s[j] == s.drop_first()[j - 1] by {}
    }
}

/// The characterisation of `first_index` used by the scanning loops.
pub proof fn lemma_first_index_is<A>(s: Seq<A>, p: spec_fn(A) -> bool, i: int)
    requires
        0 <= i <= s.len(),
        forall|j: int| 0 <= j < i ==> !p(#[trigger] s[j]),
        i < s.len() ==> p(s[i]),
    ensures
        first_index(s, p) == (if i < s.len() { Some(i) } else { None::<int> }),
{
    lemma_first_index(s, p);
    match first_index(s, p) {
        Some(k) => {
            if k < i {
                assert(!p(s[k]));
            }
            if i < k {
                assert(!p(s[i]));
            }
        },
        None => {
            if i < s.len() {
                assert(!p(s[i]));
            }
        },
    }
}

pub open spec fn is_char(c: char) -> spec_fn(char) -> bool {
    |x: char| x == c
}

/// Rust's `char::is_whitespace`: the Unicode `White_Space` property.
pub open spec fn is_ws(c: char) -> bool {
    ||| ('\u{9}' <= c && c <= '\u{d}')
    ||| c == ' '
    ||| c == '\u{85}'
    ||| c == '\u{a0}'
    ||| c == '\u{1680}'
    ||| ('\u{2000}' <= c && c <= '\u{200a}')
    ||| c == '\u{2028}'
    ||| c == '\u{2029}'
    ||| c == '\u{202f}'
    ||| c == '\u{205f}'
    ||| c == '\u{3000}'
}

pub open spec fn not_ws_fn() -> spec_fn(char) -> bool {
    |x: char| !is_ws(x)
}

/// Rust's `str::trim_start`.
pub open spec fn trim_start(s: Seq<char>) -> Seq<char> {
    s.skip(first_index_or(s, not_ws_fn(), s.len() as int))
}

/// The number of leading whitespace characters of `s`.
pub open spec fn leading_ws(s: Seq<char>) -> int {
    first_index_or(s, not_ws_fn(), s.len() as int)
}

/// The length of `s` without its trailing whitespace.
pub open spec fn trimmed_end_len(s: Seq<char>) -> int
    decreases s.len(),
{
    if s.len() == 0 {
        0
    } else if is_ws(s.last()) {
        trimmed_end_len(s.drop_last())
    } else {
        s.len() as int
    }
}

/// Rust's `str::trim_end`.
pub open spec fn trim_end(s: Seq<char>) -> Seq<char> {
    s.take(trimmed_end_len(s))
}

/// Rust's `str::trim`.
pub open spec fn trim(s: Seq<char>) -> Seq<char> {
    trim_end(trim_start(s))
}

pub proof fn lemma_trimmed_end_len(s: Seq<char>)
    ensures
        0 <= trimmed_end_len(s) <= s.len(),
        forall|j: int| trimmed_end_len(s) <= j < s.len() ==> is_ws(#[trigger] s[j]),
        trimmed_end_len(s) > 0 ==> !is_ws(s[trimmed_end_len(s) - 1]),
    decreases s.len(),
{
    if s.len() > 0 && is_ws(s.last()) {
        lemma_trimmed_end_len(s.drop_last());
        assert forall|j: int| trimmed_end_len(s) <= j < s.len() implies is_ws(#[trigger] s[j]) by {
            if j < s.len() - 1 {
                assert(s.drop_last()[j] == s[j]);
            }
        }
        if trimmed_end_len(s) > 0 {
            assert(s.drop_last()[trimmed_end_len(s) - 1] == s[trimmed_end_len(s) - 1]);
        }
    }
}

/// `trimmed_end_len` is fixed by any length `n` such that everything
/// from `n` on is whitespace and the character before `n` is not.
pub proof fn lemma_trimmed_end_len_is(s: Seq<char>, n: int)
    requires
        0 <= n <= s.len(),
        forall|j: int| n <= j < s.len() ==> is_ws(#[trigger] s[j]),
        n > 0 ==> !is_ws(s[n - 1]),
    ensures
        trimmed_end_len(s) == n,
    decreases s.len(),
{
    if s.len() > n {
        assert(is_ws(s[s.len() - 1]));
        assert forall|j: int| n <= j < s.drop_last().len() implies is_ws(#[trigger] s.drop_last()[j]) by {
            assert(s.drop_last()[j] == s[j]);
        }
        lemma_trimmed_end_len_is(s.drop_last(), n);
    }
}

pub proof fn lemma_leading_ws(s: Seq<char>)
    ensures
        0 <= leading_ws(s) <= s.len(),
        forall|j: int| 0 <= j < leading_ws(s) ==> is_ws(#[trigger] s[j]),
        leading_ws(s) < s.len() ==> !is_ws(s[leading_ws(s)]),
        trim_start(s) == s.skip(leading_ws(s)),
{
    lemma_first_index(s, not_ws_fn());
}

/// A line without its one trailing carriage return.
pub open spec fn strip_cr(line: Seq<char>) -> Seq<char> {
    if line.len() > 0 && line.last() == '\r' {
        line.drop_last()
    } else {
        line
    }
}

/// Rust's `str::lines`: split at `\n`, dropping one `\r` before each
/// `\n`; a final line ending is optional and yields no empty line.
pub open spec fn split_lines(s: Seq<char>) -> Seq<Seq<char>>
    decreases s.len(),
{
    if s.len() == 0 {
        seq![]
    } else {
        match first_index(s, is_char('\n')) {
            Some(i) => {
                if 0 <= i < s.len() {
                    seq![strip_cr(s.take(i))] + split_lines(s.skip(i + 1))
                } else {
                    seq![s]
                }
            },
            None => seq![s],
        }
    }
}

/// Every line followed by a newline: `lines.join("\n") + "\n"` for a
/// non-empty list, and the empty text for none.
pub open spec fn join_lines(lines: Seq<Seq<char>>) -> Seq<char>
    decreases lines.len(),
{
    if lines.len() == 0 {
        seq![]
    } else {
        join_lines(lines.drop_last()) + lines.last() + seq!['\n']
    }
}

/// `items.join(sep)`.
pub open spec fn join_with(items: Seq<Seq<char>>, sep: Seq<char>) -> Seq<char>
    decreases items.len(),
{
    if items.len() == 0 {
        seq![]
    } else if items.len() == 1 {
        items[0]
    } else {
        join_with(items.drop_last(), sep) + sep + items.last()
    }
}

/// A line that survives being joined and split again unchanged: no
/// line break inside, and no carriage return at its end, which would be
/// read as part of a CRLF line ending.
pub open spec fn clean_line(line: Seq<char>) -> bool {
    !line.contains('\n') && !(line.len() > 0 && line.last() == '\r')
}

pub open spec fn clean_lines(lines: Seq<Seq<char>>) -> bool {
    forall|i: int| 0 <= i < lines.len() ==> clean_line(#[trigger] lines[i])
}

/// The view of a vector of lines.
pub open spec fn lines_view(lines: Seq<Vec<char>>) -> Seq<Seq<char>> {
    Seq::new(lines.len(), |i: int| lines[i]@)
}

pub proof fn lemma_lines_view_push(v: Seq<Vec<char>>, x: Vec<char>)
    ensures
        lines_view(v.push(x)) == lines_view(v).push(x@),
{
    assert(lines_view(v.push(x)) =~= lines_view(v).push(x@));
}

/// The text of `lines` with every line re-joined, each followed by a
/// newline.
pub open spec fn render(lines: Seq<Seq<char>>) -> Seq<char> {
    join_lines(lines)
}

pub proof fn lemma_join_lines_prepend(line: Seq<char>, lines: Seq<Seq<char>>)
    ensures
        join_lines(seq![line] + lines) == line + seq!['\n'] + join_lines(lines),
    decreases lines.len(),
{
    if lines.len() == 0 {
        assert(seq![line] + lines =~= seq![line]);
        assert(seq![line].drop_last() =~= Seq::<Seq<char>>::empty());
        assert(join_lines(Seq::<Seq<char>>::empty()) == Seq::<char>::empty());
        assert(join_lines(seq![line]) =~= line + seq!['\n']);
    } else {
        lemma_join_lines_prepend(line, lines.drop_last());
        assert((seq![line] + lines).drop_last() =~= seq![line] + lines.drop_last());
        assert((seq![line] + lines).last() == lines.last());
        assert(join_lines(seq![line] + lines) =~= line + seq!['\n'] + join_lines(lines));
    }
}

/// Clean lines are exactly what splitting their joined text gives
/// back.
pub proof fn lemma_split_join(lines: Seq<Seq<char>>)
    requires
        clean_lines(lines),
    ensures
        split_lines(join_lines(lines)) == lines,
    decreases lines.len(),
{
    if lines.len() > 0 {
        let first = lines[0];
        let rest = lines.drop_first();
        assert(lines =~= seq![first] + rest);
        lemma_join_lines_prepend(first, rest);
        let text = join_lines(lines);
        assert(text =~= first + seq!['\n'] + join_lines(rest));
        assert(clean_line(first));
        assert forall|j: int| 0 <= j < first.len() implies !(is_char('\n'))(#[trigger] text[j]) by {
            assert(text[j] == first[j]);
            if first[j] == '\n' {
                assert(first.contains('\n'));
            }
        }
        assert(text[first.len() as int] == '\n');
        lemma_first_index_is(text, is_char('\n'), first.len() as int);
        assert(text.take(first.len() as int) =~= first);
        assert(text.skip(first.len() + 1int) =~= join_lines(rest));
        assert(strip_cr(first) == first);
        assert forall|i: int| 0 <= i < rest.len() implies clean_line(#[trigger] rest[i]) by {
            assert(rest[i] == lines[i + 1]);
        }
        lemma_split_join(rest);
    }
}

/// Every line that splitting a text without carriage returns yields
/// is clean.
pub proof fn lemma_split_clean(s: Seq<char>)
    requires
        !s.contains('\r'),
    ensures
        clean_lines(split_lines(s)),
    decreases s.len(),
{
    if s.len() > 0 {
        lemma_first_index(s, is_char('\n'));
        match first_index(s, is_char('\n')) {
            Some(i) => {
                let head = s.take(i);
                assert forall|k: int| 0 <= k < head.len() implies #[trigger] head[k] != '\n' && head[k] != '\r' by {
                    assert(head[k] == s[k]);
                    assert(!(is_char('\n'))(s[k]));
                    if s[k] == '\r' {
                        assert(s.contains('\r'));
                    }
                }
                assert(!head.contains('\n'));
                assert(!head.contains('\r'));
                assert(strip_cr(head) == head);
                let tail = s.skip(i + 1);
                assert forall|k: int| 0 <= k < tail.len() implies #[trigger] tail[k] != '\r' by {
                    assert(tail[k] == s[i + 1 + k]);
                    if s[i + 1 + k] == '\r' {
                        assert(s.contains('\r'));
                    }
                }
                assert(!tail.contains('\r'));
                lemma_split_clean(tail);
                let out = split_lines(s);
                assert(out == seq![head] + split_lines(tail));
                assert forall|j: int| 0 <= j < out.len() implies clean_line(#[trigger] out[j]) by {
                    if j > 0 {
                        assert(out[j] == split_lines(tail)[j - 1]);
                    }
                }
            },
            None => {
                assert forall|k: int| 0 <= k < s.len() implies #[trigger] s[k] != '\n' by {
                    assert(!(is_char('\n'))(s[k]));
                }
                assert(!s.contains('\n'));
                assert(split_lines(s) =~= seq![s]);
            },
        }
    }
}


/// The decimal digit for `d` in `0..10`.
pub open spec fn digit_char(d: int) -> char {
    if d == 0 {
        '0'
    } else if d == 1 {
        '1'
    } else if d == 2 {
        '2'
    } else if d == 3 {
        '3'
    } else if d == 4 {
        '4'
    } else if d == 5 {
        '5'
    } else if d == 6 {
        '6'
    } else if d == 7 {
        '7'
    } else if d == 8 {
        '8'
    } else {
        '9'
    }
}

/// The decimal spelling of `n`, as `Display` writes an integer.
pub open spec fn decimal(n: nat) -> Seq<char>
    decreases n,
{
    if n < 10 {
        seq![digit_char(n as int)]
    } else {
        decimal(n / 10) + seq![digit_char((n % 10) as int)]
    }
}

fn digit_of(d: u128) -> (c: char)
    requires
        d < 10,
    ensures
        c == digit_char(d as int),
{
    match d {
        0 => '0',
        1 => '1',
        2 => '2',
        3 => '3',
        4 => '4',
        5 => '5',
        6 => '6',
        7 => '7',
        8 => '8',
        _ => '9',
    }
}

/// Appends the decimal spelling of `n` to `dst`.
pub fn push_decimal(dst: &mut Vec<char>, n: u128)
    ensures
        final(dst)@ == old(dst)@ + decimal(n as nat),
    decreases n,
{
    if n < 10 {
        dst.push(digit_of(n));
        assert(decimal(n as nat) == seq![digit_char(n as int)]);
    } else {
        push_decimal(dst, n / 10);
        dst.push(digit_of(n % 10));
        assert(decimal(n as nat) == decimal((n / 10) as nat) + seq![digit_char((n % 10) as int)]);
    }
}


/// The last position in `s` holding `c`.
pub open spec fn last_index_of(s: Seq<char>, c: char) -> Option<int>
    decreases s.len(),
{
    if s.len() == 0 {
        None
    } else if s.last() == c {
        Some(s.len() - 1)
    } else {
        last_index_of(s.drop_last(), c)
    }
}

/// Whether `needle` occurs in `hay` as a contiguous run.
pub open spec fn contains_seq(hay: Seq<char>, needle: Seq<char>) -> bool {
    exists|i: int| 0 <= i && i + needle.len() <= hay.len() && #[trigger] hay.subrange(i, i + needle.len()) == needle
}

/// `(current + step)` wrapped into `0..count`.
pub open spec fn wrapped_spec(current: int, count: int, step: int) -> int {
    (current + step) % count
}


/// A selection stepped by `step` and back by `-step` is where it
/// started: cycling the From identity (or any list selection) forward
/// and back again returns to the same entry.
pub proof fn law_step_back_undoes_step(current: int, count: int, step: int)
    requires
        0 <= current < count,
    ensures
        wrapped_spec(wrapped_spec(current, count, step), count, -step) == current,
{
    let a = (current + step) % count;
    let q = (current + step) / count;
    assert(current + step == q * count + a) by (nonlinear_arith)
        requires
            count > 0,
            a == (current + step) % count,
            q == (current + step) / count,
    ;
    assert((a - step) == current + (-q) * count) by (nonlinear_arith)
        requires
            current + step == q * count + a,
    ;
    assert((current + (-q) * count) % count == current) by (nonlinear_arith)
        requires
            0 <= current < count,
    {
        vstd::arithmetic::div_mod::lemma_mod_multiples_vanish(-q, current, count);
        vstd::arithmetic::div_mod::lemma_small_mod(current as nat, count as nat);
    }
}

/// `char::to_ascii_lowercase`: `A..=Z` mapped to `a..=z`, every other
/// character unchanged.
pub open spec fn ascii_lower(c: char) -> char {
    if 'A' <= c && c <= 'Z' {
        ((c as u32) + 32) as char
    } else {
        c
    }
}

/// `str::to_ascii_lowercase`.
pub open spec fn ascii_lowercase(s: Seq<char>) -> Seq<char> {
    s.map_values(|c: char| ascii_lower(c))
}


/// The texts of a list of strings.
pub open spec fn texts_of(v: Seq<String>) -> Seq<Seq<char>> {
    v.map_values(|s: String| s@)
}

/// The text of an optional string.
pub open spec fn opt_text(o: Option<String>) -> Option<Seq<char>> {
    match o {
        Some(s) => Some(s@),
        None => None,
    }
}

pub proof fn lemma_texts_of_push(v: Seq<String>, x: String)
    ensures
        texts_of(v.push(x)) == texts_of(v).push(x@),
{
    assert(texts_of(v.push(x)) =~= texts_of(v).push(x@));
}


/// Whether `c` is one of the characters of `set`.
pub open spec fn not_in_set_fn(set: Seq<char>) -> spec_fn(char) -> bool {
    |c: char| !set.contains(c)
}

/// The length of `s` without its trailing characters from `set`.
pub open spec fn set_end_len(s: Seq<char>, set: Seq<char>) -> int
    decreases s.len(),
{
    if s.len() == 0 {
        0
    } else if set.contains(s.last()) {
        set_end_len(s.drop_last(), set)
    } else {
        s.len() as int
    }
}

/// Rust's `str::trim_matches` with a set of characters: `s` with every
/// character from `set` stripped from both ends.
pub open spec fn trim_chars(s: Seq<char>, set: Seq<char>) -> Seq<char> {
    let rest = s.skip(first_index_or(s, not_in_set_fn(set), s.len() as int));
    rest.take(set_end_len(rest, set))
}

pub proof fn lemma_set_end_len_is(s: Seq<char>, set: Seq<char>, n: int)
    requires
        0 <= n <= s.len(),
        forall|j: int| n <= j < s.len() ==> set.contains(#[trigger] s[j]),
        n > 0 ==> !set.contains(s[n - 1]),
    ensures
        set_end_len(s, set) == n,
    decreases s.len(),
{
    if s.len() > n {
        assert(set.contains(s[s.len() - 1]));
        assert forall|j: int| n <= j < s.drop_last().len() implies set.contains(
            #[trigger] s.drop_last()[j],
        ) by {
            assert(s.drop_last()[j] == s[j]);
        }
        lemma_set_end_len_is(s.drop_last(), set, n);
    }
}


/// Rust's `str::split_whitespace`, reading `s` with `word` as the part
/// of the current word already read.
pub open spec fn words_from(s: Seq<char>, word: Seq<char>) -> Seq<Seq<char>>
    decreases s.len(),
{
    if s.len() == 0 {
        if word.len() == 0 {
            seq![]
        } else {
            seq![word]
        }
    } else if is_ws(s[0]) {
        (if word.len() == 0 {
            seq![]
        } else {
            seq![word]
        }) + words_from(s.drop_first(), seq![])
    } else {
        words_from(s.drop_first(), word.push(s[0]))
    }
}

/// The whitespace-separated words of `s`.
pub open spec fn words(s: Seq<char>) -> Seq<Seq<char>> {
    words_from(s, seq![])
}


/// The first position at or after `i` where `needle` occurs in `hay`.
pub open spec fn find_from(hay: Seq<char>, needle: Seq<char>, i: int) -> Option<int>
    decreases hay.len() + 1 - i,
{
    if i < 0 || i + needle.len() > hay.len() {
        None
    } else if hay.subrange(i, i + needle.len()) == needle {
        Some(i)
    } else {
        find_from(hay, needle, i + 1)
    }
}

// ---------------------------------------------------------------
// Executable primitives
// ---------------------------------------------------------------

/// Appends one character to a `String` (std's `String::push`).
#[verifier::external_body]
pub(crate) fn push_char(s: &mut String, c: char)
    ensures
        final(s)@ == old(s)@.push(c),
{
    s.push(c)
}

/// The characters of `s`, in order.
pub fn chars_of(s: &str) -> (v: Vec<char>)
    ensures
        v@ == s@,
{
    let mut v: Vec<char> = Vec::new();
    for c in it: s.chars()
        invariant
            v@ == it.seq().take(it.index() as int),
    {
        v.push(c);
    }
    v
}

/// The `String` holding exactly the characters of `v`.
pub fn string_of(v: &Vec<char>) -> (s: String)
    ensures
        s@ == v@,
{
    let mut s = String::new();
    let mut i: usize = 0;
    while i < v.len()
        invariant
            i <= v.len(),
            s@ == v@.take(i as int),
        decreases v.len() - i,
    {
        push_char(&mut s, v[i]);
        assert(v@.take(i + 1) =~= v@.take(i as int).push(v@[i as int]));
        i = i + 1;
    }
    assert(v@.take(v.len() as int) =~= v@);
    s
}

/// A fresh copy of `v`.
pub fn copy_chars(v: &Vec<char>) -> (r: Vec<char>)
    ensures
        r@ == v@,
{
    let mut r: Vec<char> = Vec::new();
    let mut i: usize = 0;
    while i < v.len()
        invariant
            i <= v.len(),
            r@ == v@.take(i as int),
        decreases v.len() - i,
    {
        r.push(v[i]);
        assert(v@.take(i + 1) =~= v@.take(i as int).push(v@[i as int]));
        i = i + 1;
    }
    assert(v@.take(v.len() as int) =~= v@);
    r
}

/// The characters `v[from..to]`.
pub fn slice_chars(v: &Vec<char>, from: usize, to: usize) -> (r: Vec<char>)
    requires
        from <= to <= v.len(),
    ensures
        r@ == v@.subrange(from as int, to as int),
{
    let mut r: Vec<char> = Vec::new();
    let mut i: usize = from;
    while i < to
        invariant
            from <= i <= to <= v.len(),
            r@ == v@.subrange(from as int, i as int),
        decreases to - i,
    {
        r.push(v[i]);
        assert(v@.subrange(from as int, i + 1) =~= v@.subrange(from as int, i as int).push(
            v@[i as int],
        ));
        i = i + 1;
    }
    r
}

/// Appends every character of `src` to `dst`.
pub fn append_chars(dst: &mut Vec<char>, src: &Vec<char>)
    ensures
        final(dst)@ == old(dst)@ + src@,
{
    let mut i: usize = 0;
    while i < src.len()
        invariant
            i <= src.len(),
            dst@ == old(dst)@ + src@.take(i as int),
        decreases src.len() - i,
    {
        dst.push(src[i]);
        assert(src@.take(i + 1) =~= src@.take(i as int).push(src@[i as int]));
        i = i + 1;
    }
    assert(src@.take(src.len() as int) =~= src@);
}

/// Appends the characters of a string slice to `dst`.
pub fn append_str(dst: &mut Vec<char>, src: &str)
    ensures
        final(dst)@ == old(dst)@ + src@,
{
    let chars = chars_of(src);
    append_chars(dst, &chars);
}

/// Whether two character vectors hold the same text.
pub fn chars_eq(a: &Vec<char>, b: &Vec<char>) -> (r: bool)
    ensures
        r == (a@ == b@),
{
    if a.len() != b.len() {
        return false;
    }
    let mut i: usize = 0;
    while i < a.len()
        invariant
            a.len() == b.len(),
            i <= a.len(),
            forall|j: int| 0 <= j < i ==> a@[j] == b@[j],
        decreases a.len() - i,
    {
        if a[i] != b[i] {
            return false;
        }
        i = i + 1;
    }
    assert(a@ =~= b@);
    true
}

/// Whether two string slices hold the same text.
pub fn str_eq(a: &str, b: &str) -> (r: bool)
    ensures
        r == (a@ == b@),
{
    chars_eq(&chars_of(a), &chars_of(b))
}

/// Whether `c` is one of the characters of `set`.
pub fn in_set(c: char, set: &Vec<char>) -> (r: bool)
    ensures
        r == set@.contains(c),
{
    let mut i: usize = 0;
    while i < set.len()
        invariant
            i <= set.len(),
            forall|j: int| 0 <= j < i ==> set@[j] != c,
        decreases set.len() - i,
    {
        if set[i] == c {
            assert(set@[i as int] == c);
            return true;
        }
        i = i + 1;
    }
    false
}

/// `v` with every character from `set` stripped from both ends.
pub fn trimmed_chars(v: &Vec<char>, set: &Vec<char>) -> (r: Vec<char>)
    ensures
        r@ == trim_chars(v@, set@),
{
    let mut start: usize = 0;
    while start < v.len() && in_set(v[start], set)
        invariant
            start <= v.len(),
            forall|j: int| 0 <= j < start ==> !(not_in_set_fn(set@))(#[trigger] v@[j]),
        decreases v.len() - start,
    {
        start = start + 1;
    }
    proof {
        lemma_first_index_is(v@, not_in_set_fn(set@), start as int);
    }
    let rest = slice_chars(v, start, v.len());
    assert(rest@ == v@.skip(start as int));
    let mut n: usize = rest.len();
    while n > 0 && in_set(rest[n - 1], set)
        invariant
            n <= rest.len(),
            forall|j: int| n <= j < rest.len() ==> set@.contains(#[trigger] rest@[j]),
        decreases n,
    {
        n = n - 1;
    }
    proof {
        lemma_set_end_len_is(rest@, set@, n as int);
    }
    slice_chars(&rest, 0, n)
}

/// The whitespace-separated words of `v`.
pub fn words_of(v: &Vec<char>) -> (r: Vec<Vec<char>>)
    ensures
        lines_view(r@) == words(v@),
{
    let mut out: Vec<Vec<char>> = Vec::new();
    let mut word: Vec<char> = Vec::new();
    let mut i: usize = 0;
    assert(v@.skip(0) =~= v@);
    assert(lines_view(out@) =~= Seq::<Seq<char>>::empty());
    while i < v.len()
        invariant
            i <= v.len(),
            words(v@) == lines_view(out@) + words_from(v@.skip(i as int), word@),
        decreases v.len() - i,
    {
        let c = v[i];
        assert(v@.skip(i as int)[0] == c);
        assert(v@.skip(i as int).drop_first() =~= v@.skip(i + 1));
        if is_whitespace(c) {
            if word.len() > 0 {
                let ghost before = out@;
                let ghost w = word@;
                out.push(word);
                proof {
                    lemma_lines_view_push(before, out@[before.len() as int]);
                    assert(lines_view(before) + (seq![w] + words_from(v@.skip(i + 1), seq![]))
                        =~= lines_view(before).push(w) + words_from(v@.skip(i + 1), seq![]));
                }
                word = Vec::new();
            } else {
                assert(Seq::<Seq<char>>::empty() + words_from(v@.skip(i + 1), seq![]) =~= words_from(v@.skip(i + 1), seq![]));
            }
            assert(word@ =~= Seq::<char>::empty());
        } else {
            word.push(c);
        }
        i = i + 1;
    }
    assert(v@.skip(i as int) =~= Seq::<char>::empty());
    if word.len() > 0 {
        let ghost before = out@;
        let ghost w = word@;
        out.push(word);
        proof {
            lemma_lines_view_push(before, out@[before.len() as int]);
            assert(lines_view(before) + seq![w] =~= lines_view(before).push(w));
        }
    } else {
        assert(lines_view(out@) + Seq::<Seq<char>>::empty() =~= lines_view(out@));
    }
    out
}

/// The first position at or after `from` where `needle` occurs in `hay`.
pub fn find_seq(hay: &Vec<char>, needle: &Vec<char>, from: usize) -> (r: Option<usize>)
    ensures
        r is None <==> find_from(hay@, needle@, from as int) is None,
        r matches Some(i) ==> find_from(hay@, needle@, from as int) == Some(i as int) && i + needle@.len() <= hay@.len(),
    decreases hay.len() + 1 - from,
{
    if from > hay.len() || needle.len() > hay.len() - from {
        return None;
    }
    let mut j: usize = 0;
    while j < needle.len() && hay[from + j] == needle[j]
        invariant
            from + needle.len() <= hay.len(),
            j <= needle.len(),
            forall|m: int| 0 <= m < j ==> hay@[from + m] == needle@[m],
        decreases needle.len() - j,
    {
        j = j + 1;
    }
    if j == needle.len() {
        assert(hay@.subrange(from as int, from + needle@.len()) =~= needle@);
        return Some(from);
    }
    assert(hay@.subrange(from as int, from + needle@.len())[j as int] != needle@[j as int]);
    find_seq(hay, needle, from + 1)
}

/// Rust's `char::is_whitespace`.
pub fn is_whitespace(c: char) -> (r: bool)
    ensures
        r == is_ws(c),
{
    ('\u{9}' <= c && c <= '\u{d}') || c == ' ' || c == '\u{85}' || c == '\u{a0}' || c
        == '\u{1680}' || ('\u{2000}' <= c && c <= '\u{200a}') || c == '\u{2028}' || c
        == '\u{2029}' || c == '\u{202f}' || c == '\u{205f}' || c == '\u{3000}'
}

/// The number of leading whitespace characters of `v`.
pub fn leading_ws_len(v: &Vec<char>) -> (n: usize)
    ensures
        n == leading_ws(v@),
{
    let mut i: usize = 0;
    while i < v.len() && is_whitespace(v[i])
        invariant
            i <= v.len(),
            forall|j: int| 0 <= j < i ==> !(not_ws_fn())(#[trigger] v@[j]),
        decreases v.len() - i,
    {
        i = i + 1;
    }
    proof {
        lemma_first_index_is(v@, not_ws_fn(), i as int);
    }
    i
}

/// The length of `v[..to]` without its trailing whitespace.
pub fn trimmed_end_of(v: &Vec<char>, to: usize) -> (n: usize)
    requires
        to <= v.len(),
    ensures
        n == trimmed_end_len(v@.take(to as int)),
        n <= to,
{
    let mut n: usize = to;
    while n > 0 && is_whitespace(v[n - 1])
        invariant
            n <= to <= v.len(),
            forall|j: int| n <= j < to ==> is_ws(#[trigger] v@[j]),
        decreases n,
    {
        n = n - 1;
    }
    let ghost s = v@.take(to as int);
    assert forall|j: int| n <= j < s.len() implies is_ws(#[trigger] s[j]) by {
        assert(s[j] == v@[j]);
    }
    proof {
        lemma_trimmed_end_len_is(s, n as int);
    }
    n
}

/// The text of `v` with surrounding whitespace removed.
pub fn trimmed(v: &Vec<char>) -> (r: Vec<char>)
    ensures
        r@ == trim(v@),
{
    let start = leading_ws_len(v);
    proof {
        lemma_leading_ws(v@);
    }
    let rest = slice_chars(v, start, v.len());
    assert(rest@ == trim_start(v@));
    let end = trimmed_end_of(&rest, rest.len());
    assert(rest@.take(rest.len() as int) =~= rest@);
    proof {
        lemma_trimmed_end_len(rest@);
    }
    slice_chars(&rest, 0, end)
}

/// The first position at or after `from` holding `c`, if any.
pub fn find_char_from(v: &Vec<char>, c: char, from: usize) -> (r: Option<usize>)
    requires
        from <= v.len(),
    ensures
        match first_index(v@.skip(from as int), is_char(c)) {
            Some(i) => r == Some((from + i) as usize),
            None => r is None,
        },
        r matches Some(i) ==> from <= i < v.len() && v@[i as int] == c && forall|j: int|
            from <= j < i ==> v@[j] != c,
        r is None ==> forall|j: int| from <= j < v.len() ==> v@[j] != c,
{
    let mut i: usize = from;
    while i < v.len() && v[i] != c
        invariant
            from <= i <= v.len(),
            forall|j: int| from <= j < i ==> v@[j] != c,
        decreases v.len() - i,
    {
        i = i + 1;
    }
    let ghost s = v@.skip(from as int);
    assert forall|j: int| 0 <= j < i - from implies !(is_char(c))(#[trigger] s[j]) by {
        assert(s[j] == v@[from + j]);
    }
    proof {
        lemma_first_index_is(s, is_char(c), i - from);
    }
    if i < v.len() {
        Some(i)
    } else {
        None
    }
}

/// Splits text into lines the way `str::lines` does.
pub fn split_lines_of(s: &Vec<char>) -> (lines: Vec<Vec<char>>)
    ensures
        lines_view(lines@) == split_lines(s@),
{
    let mut lines: Vec<Vec<char>> = Vec::new();
    let mut pos: usize = 0;
    assert(s@.skip(0) =~= s@);
    assert(lines_view(lines@) + split_lines(s@) =~= split_lines(s@));
    while pos < s.len()
        invariant
            pos <= s.len(),
            lines_view(lines@) + split_lines(s@.skip(pos as int)) == split_lines(s@),
        decreases s.len() - pos,
    {
        let ghost rest = s@.skip(pos as int);
        let ghost before = lines_view(lines@);
        proof {
            assert(rest.skip(0) =~= rest);
        }
        let found = find_char_from(s, '\n', pos);
        proof {
            lemma_first_index(rest, is_char('\n'));
        }
        match found {
            Some(nl) => {
                let mut line = slice_chars(s, pos, nl);
                assert(line@ =~= rest.take(nl - pos));
                if line.len() > 0 && line[line.len() - 1] == '\r' {
                    line.pop();
                }
                assert(line@ == strip_cr(rest.take(nl - pos)));
                lines.push(line);
                assert(rest.skip(nl - pos + 1) =~= s@.skip(nl + 1));
                assert(lines_view(lines@) =~= before.push(line@));
                assert(split_lines(rest) == seq![line@] + split_lines(s@.skip(nl + 1)));
                assert(lines_view(lines@) + split_lines(s@.skip(nl + 1)) =~= before + split_lines(
                    rest,
                ));
                pos = nl + 1;
            },
            None => {
                let line = slice_chars(s, pos, s.len());
                assert(line@ =~= rest);
                lines.push(line);
                assert(split_lines(rest) == seq![rest]);
                assert(lines_view(lines@) =~= before + split_lines(rest));
                assert(s@.skip(s.len() as int) =~= Seq::<char>::empty());
                pos = s.len();
            },
        }
    }
    assert(s@.skip(pos as int) =~= Seq::<char>::empty());
    assert(lines_view(lines@) + split_lines(s@.skip(pos as int)) =~= lines_view(lines@));
    lines
}

/// Joins lines, each followed by a newline.
pub fn join_lines_of(lines: &Vec<Vec<char>>) -> (r: Vec<char>)
    ensures
        r@ == join_lines(lines_view(lines@)),
{
    let mut r: Vec<char> = Vec::new();
    let mut i: usize = 0;
    while i < lines.len()
        invariant
            i <= lines.len(),
            r@ == join_lines(lines_view(lines@).take(i as int)),
        decreases lines.len() - i,
    {
        append_chars(&mut r, &lines[i]);
        r.push('\n');
        proof {
            let t = lines_view(lines@).take(i + 1);
            assert(t.drop_last() =~= lines_view(lines@).take(i as int));
            assert(t.last() == lines[i as int]@);
        }
        i = i + 1;
    }
    assert(lines_view(lines@).take(lines.len() as int) =~= lines_view(lines@));
    r
}

/// Joins items with a separator, as `join` does.
pub fn join_with_of(items: &Vec<Vec<char>>, sep: &Vec<char>) -> (r: Vec<char>)
    ensures
        r@ == join_with(lines_view(items@), sep@),
{
    let mut r: Vec<char> = Vec::new();
    let mut i: usize = 0;
    while i < items.len()
        invariant
            i <= items.len(),
            r@ == join_with(lines_view(items@).take(i as int), sep@),
        decreases items.len() - i,
    {
        proof {
            let t = lines_view(items@).take(i + 1);
            assert(t.drop_last() =~= lines_view(items@).take(i as int));
            assert(t.last() == items[i as int]@);
            if i == 0 {
                assert(t.len() == 1);
                assert(t[0] == items[0]@);
            }
        }
        if i > 0 {
            append_chars(&mut r, sep);
        }
        append_chars(&mut r, &items[i]);
        proof {
            if i == 0 {
                assert(r@ =~= items[0]@);
            }
        }
        i = i + 1;
    }
    assert(lines_view(items@).take(items.len() as int) =~= lines_view(items@));
    r
}


/// The last position in `v` holding `c`.
pub fn last_index_in(v: &Vec<char>, c: char) -> (r: Option<usize>)
    ensures
        r is None <==> last_index_of(v@, c) is None,
        r matches Some(i) ==> last_index_of(v@, c) == Some(i as int) && i < v.len() && v@[i as int]
            == c,
{
    let mut n: usize = v.len();
    assert(v@.take(v.len() as int) =~= v@);
    while n > 0 && v[n - 1] != c
        invariant
            n <= v.len(),
            last_index_of(v@, c) == last_index_of(v@.take(n as int), c),
        decreases n,
    {
        assert(v@.take(n as int).drop_last() =~= v@.take(n - 1));
        n = n - 1;
    }
    assert(v@.take(v.len() as int) =~= v@);
    if n == 0 {
        assert(v@.take(0) =~= Seq::<char>::empty());
        None
    } else {
        assert(v@.take(n as int).last() == v@[n - 1]);
        Some(n - 1)
    }
}

/// Whether `needle` occurs in `hay`.
pub fn contains_chars(hay: &Vec<char>, needle: &Vec<char>) -> (r: bool)
    ensures
        r == contains_seq(hay@, needle@),
{
    if needle.len() > hay.len() {
        assert forall|i: int| 0 <= i && i + needle@.len() <= hay@.len() implies #[trigger] hay@.subrange(
            i,
            i + needle@.len(),
        ) != needle@ by {}
        return false;
    }
    let mut i: usize = 0;
    while i <= hay.len() - needle.len()
        invariant
            needle.len() <= hay.len(),
            i <= hay.len() - needle.len() + 1,
            forall|k: int| 0 <= k < i ==> #[trigger] hay@.subrange(k, k + needle@.len()) != needle@,
        decreases hay.len() - i,
    {
        let mut j: usize = 0;
        while j < needle.len() && hay[i + j] == needle[j]
            invariant
                i + needle.len() <= hay.len(),
                j <= needle.len(),
                forall|m: int| 0 <= m < j ==> hay@[i + m] == needle@[m],
            decreases needle.len() - j,
        {
            j = j + 1;
        }
        if j == needle.len() {
            assert(hay@.subrange(i as int, i + needle@.len()) =~= needle@);
            return true;
        }
        assert(hay@.subrange(i as int, i + needle@.len())[j as int] != needle@[j as int]);
        i = i + 1;
    }
    assert forall|k: int| 0 <= k && k + needle@.len() <= hay@.len() implies #[trigger] hay@.subrange(
        k,
        k + needle@.len(),
    ) != needle@ by {
        assert(k < i);
    }
    false
}

/// `(current + step)` wrapped into `0..count`, the way
/// `rem_euclid` wraps a selection through a list.
pub fn wrapped(current: usize, count: usize, step: i32) -> (r: usize)
    requires
        count > 0,
        current <= i64::MAX / 2,
        count <= i64::MAX / 2,
    ensures
        r as int == wrapped_spec(current as int, count as int, step as int),
        r < count,
{
    let n: i64 = current as i64 + step as i64;
    let c: i64 = count as i64;
    if n >= 0 {
        let r = (n as u64) % (c as u64);
        r as usize
    } else {
        let a: u64 = (0 - n) as u64;
        let k: u64 = a % (c as u64);
        let r: u64 = if k == 0 { 0 } else { (c as u64) - k };
        proof {
            let ni = n as int;
            let ci = c as int;
            let ki = k as int;
            let ai = a as int;
            assert(ai == -ni);
            assert(ai == (ai / ci) * ci + ki) by (nonlinear_arith)
                requires
                    ci > 0,
                    ki == ai % ci,
            ;
            let q = ai / ci;
            if ki == 0 {
                assert(ni == (-q) * ci) by (nonlinear_arith)
                    requires
                        ai == q * ci,
                        ni == -ai,
                ;
                vstd::arithmetic::div_mod::lemma_mod_multiples_basic(-q, ci);
                assert((-q) * ci == ci * (-q)) by (nonlinear_arith);
            } else {
                assert(ni == (-q - 1) * ci + (ci - ki)) by (nonlinear_arith)
                    requires
                        ai == q * ci + ki,
                        ni == -ai,
                ;
                vstd::arithmetic::div_mod::lemma_fundamental_div_mod_converse(
                    ni,
                    ci,
                    -q - 1,
                    ci - ki,
                );
            }
        }
        r as usize
    }
}


/// `char::to_ascii_lowercase`.
pub fn ascii_lower_char(c: char) -> (r: char)
    ensures
        r == ascii_lower(c),
{
    if 'A' <= c && c <= 'Z' {
        let code: u32 = c as u32;
        let lowered: u32 = code + 32;
        assert(0x61 <= lowered <= 0x7a);
        char_from_ascii(lowered as u8)
    } else {
        c
    }
}

/// The character with the ASCII code `b`.
fn char_from_ascii(b: u8) -> (c: char)
    requires
        b < 128,
    ensures
        c as u32 == b as u32,
{
    b as char
}

/// The ASCII-lowercased copy of `v`.
pub fn ascii_lowercased(v: &Vec<char>) -> (r: Vec<char>)
    ensures
        r@ == ascii_lowercase(v@),
{
    let mut r: Vec<char> = Vec::new();
    let mut i: usize = 0;
    while i < v.len()
        invariant
            i <= v.len(),
            r@ == ascii_lowercase(v@.take(i as int)),
        decreases v.len() - i,
    {
        r.push(ascii_lower_char(v[i]));
        assert(ascii_lowercase(v@.take(i + 1)) =~= ascii_lowercase(v@.take(i as int)).push(
            ascii_lower(v@[i as int]),
        ));
        i = i + 1;
    }
    assert(v@.take(v.len() as int) =~= v@);
    r
}

} // verus!
