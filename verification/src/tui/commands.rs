//! Frame statistics, the prompt's buffer and the `:`-commands' small
//! parsing helpers.
use vstd::prelude::*;

use crate::text::{append_str, chars_of, decimal, push_decimal, string_of, trim};

verus! {

broadcast use vstd::string::group_string_axioms;

/// What a patch command armed for the event loop: where to save the
/// series, or which repository to apply it in.
#[derive(Clone, Debug, PartialEq, Eq)]
pub enum PatchCommand {
    Save(String),
    Apply(String),
}

/// The largest number of whole microseconds a `Duration` can hold:
/// `u64::MAX` seconds plus 999 999 microseconds.
pub open spec fn max_duration_micros() -> int {
    18446744073709551615int * 1000000 + 999999
}

/// The whole microseconds in a duration, as `Duration::as_micros`
/// counts them: a function of the duration alone.
pub uninterp spec fn micros_of(d: std::time::Duration) -> u128;

/// `Duration::as_micros`: the total number of whole microseconds in
/// `elapsed`, named by `micros_of`; the documentation bounds it by the
/// largest duration.
#[verifier::external_body]
fn duration_micros(elapsed: &std::time::Duration) -> (micros: u128)
    ensures
        micros == micros_of(*elapsed),
        micros <= max_duration_micros(),
{
    elapsed.as_micros()
}

/// Draw timings: how many frames, the last and longest frame, and the
/// running total behind the mean.
#[derive(Clone, Copy, Debug, PartialEq)]
pub struct FrameStats {
    pub frames: u64,
    pub last_micros: u128,
    pub max_micros: u128,
    pub total_micros: u128,
}

impl Default for FrameStats {
    fn default() -> (r: FrameStats)
        ensures
            r.frames == 0,
            r.last_micros == 0,
            r.max_micros == 0,
            r.total() == 0,
    {
        FrameStats { frames: 0, last_micros: 0, max_micros: 0, total_micros: 0 }
    }
}

impl FrameStats {
    /// The total of every recorded frame's microseconds.
    pub open spec fn total(self) -> int {
        self.total_micros as int
    }

    /// Records one frame of `micros` microseconds.
    pub fn record_micros(&mut self, micros: u128)
        requires
            old(self).frames < u64::MAX,
            old(self).total() + micros <= u128::MAX,
        ensures
            final(self).frames == old(self).frames + 1,
            final(self).last_micros == micros,
            final(self).max_micros == (if old(self).max_micros < micros {
                micros
            } else {
                old(self).max_micros
            }),
            final(self).total() == old(self).total() + micros,
    {
        self.frames = self.frames + 1;
        self.last_micros = micros;
        if self.max_micros < micros {
            self.max_micros = micros;
        }
        self.total_micros = self.total_micros + micros;
    }

    /// Records one drawn frame that took `elapsed`.
    pub fn record(&mut self, elapsed: std::time::Duration)
        requires
            old(self).frames < u64::MAX,
            old(self).total() + micros_of(elapsed) <= u128::MAX,
        ensures
            final(self).frames == old(self).frames + 1,
            final(self).last_micros == micros_of(elapsed),
            final(self).max_micros == (if old(self).max_micros < micros_of(elapsed) {
                micros_of(elapsed)
            } else {
                old(self).max_micros
            }),
            final(self).total() == old(self).total() + micros_of(elapsed),
    {
        let micros = duration_micros(&elapsed);
        self.record_micros(micros);
    }

    /// Records `elapsed` when the counters have room for it, and says
    /// whether it did; a full counter leaves the statistics as they
    /// were.
    pub fn record_checked(&mut self, elapsed: std::time::Duration) -> (r: bool)
        ensures
            r == (old(self).frames < u64::MAX && old(self).total() + micros_of(elapsed) <= u128::MAX),
            r ==> final(self).frames == old(self).frames + 1 && final(self).last_micros == micros_of(elapsed)
                && final(self).max_micros == (if old(self).max_micros < micros_of(elapsed) {
                micros_of(elapsed)
            } else {
                old(self).max_micros
            }) && final(self).total() == old(self).total() + micros_of(elapsed),
            !r ==> *final(self) == *old(self),
    {
        let micros = duration_micros(&elapsed);
        if self.frames == u64::MAX || micros > u128::MAX - self.total_micros {
            return false;
        }
        self.record_micros(micros);
        true
    }

    /// The mean frame time, or zero before the first frame.
    pub fn mean_micros(&self) -> (r: u128)
        ensures
            r == (if self.frames == 0 {
                0
            } else {
                self.total() / (self.frames as int)
            }),
    {
        if self.frames == 0 {
            return 0;
        }
        self.total_micros / (self.frames as u128)
    }

    /// `frames: N drawn, last L us, mean M us, max X us`
    pub fn summary(&self) -> (r: String)
        ensures
            r@ == frame_summary(
                self.frames as nat,
                self.last_micros as nat,
                (if self.frames == 0 {
                    0
                } else {
                    self.total() / (self.frames as int)
                }) as nat,
                self.max_micros as nat,
            ),
    {
        let mut out: Vec<char> = Vec::new();
        append_str(&mut out, "frames: ");
        push_decimal(&mut out, self.frames as u128);
        append_str(&mut out, " drawn, last ");
        push_decimal(&mut out, self.last_micros);
        append_str(&mut out, " us, mean ");
        let mean = self.mean_micros();
        push_decimal(&mut out, mean);
        append_str(&mut out, " us, max ");
        push_decimal(&mut out, self.max_micros);
        append_str(&mut out, " us");
        proof {
            reveal_strlit("frames: ");
            reveal_strlit(" drawn, last ");
            reveal_strlit(" us, mean ");
            reveal_strlit(" us, max ");
            reveal_strlit(" us");
        }
        assert(out@ =~= frame_summary(
            self.frames as nat,
            self.last_micros as nat,
            mean as nat,
            self.max_micros as nat,
        ));
        string_of(&out)
    }
}

/// The frame statistics line.
pub open spec fn frame_summary(frames: nat, last: nat, mean: nat, max: nat) -> Seq<char> {
    seq!['f', 'r', 'a', 'm', 'e', 's', ':', ' '] + decimal(frames) + seq![
        ' ',
        'd',
        'r',
        'a',
        'w',
        'n',
        ',',
        ' ',
        'l',
        'a',
        's',
        't',
        ' ',
    ] + decimal(last) + seq![' ', 'u', 's', ',', ' ', 'm', 'e', 'a', 'n', ' '] + decimal(mean)
        + seq![' ', 'u', 's', ',', ' ', 'm', 'a', 'x', ' '] + decimal(max) + seq![' ', 'u', 's']
}

/// What the prompt at the bottom collects: a search or a command.
#[derive(Clone, Copy, Debug, PartialEq, Eq, Structural)]
pub enum PromptKind {
    Search,
    Command,
    /// The bulk confirm modal, answered with `y` or cancelled.
    ConfirmBulk,
}

/// An open prompt and the text typed so far.
#[derive(Clone, Debug, PartialEq, Eq)]
pub struct Prompt {
    pub kind: PromptKind,
    pub buffer: String,
}

/// The argument of `name` in `command`: empty for the bare command,
/// the trimmed rest after `name ` otherwise, and nothing when the
/// command is another one.
pub open spec fn argument_of_spec(command: Seq<char>, name: Seq<char>) -> Option<Seq<char>> {
    if command == name {
        Some(seq![])
    } else if command.len() > name.len() && command.take(name.len() as int) == name
        && command[name.len() as int] == ' ' {
        Some(trim(command.skip(name.len() + 1int)))
    } else {
        None
    }
}

/// The argument of `name` in `command`, if `command` is `name`.
pub fn argument_of(command: &str, name: &str) -> (r: Option<String>)
    ensures
        match argument_of_spec(command@, name@) {
            Some(a) => r matches Some(s) && s@ == a,
            None => r is None,
        },
{
    let c = chars_of(command);
    let n = chars_of(name);
    if crate::text::chars_eq(&c, &n) {
        return Some(String::new());
    }
    if c.len() <= n.len() {
        return None;
    }
    let mut i: usize = 0;
    while i < n.len()
        invariant
            i <= n.len() < c.len(),
            c@ == command@,
            n@ == name@,
            forall|j: int| 0 <= j < i ==> c@[j] == n@[j],
        decreases n.len() - i,
    {
        if c[i] != n[i] {
            assert(c@.take(n.len() as int)[i as int] != n@[i as int]);
            assert(c@.take(n.len() as int) != n@);
            assert(c@ != n@);
            return None;
        }
        i = i + 1;
    }
    assert(c@.take(n.len() as int) =~= n@);
    if c[n.len()] != ' ' {
        return None;
    }
    let rest = crate::text::slice_chars(&c, n.len() + 1, c.len());
    assert(rest@ =~= c@.skip(n.len() + 1));
    let t = crate::text::trimmed(&rest);
    Some(string_of(&t))
}

/// The sum of recorded frame times.
pub open spec fn sum_of(ms: Seq<u128>) -> int
    decreases ms.len(),
{
    if ms.len() == 0 {
        0
    } else {
        sum_of(ms.drop_last()) + ms.last()
    }
}

/// The longest recorded frame time, zero before any.
pub open spec fn max_of(ms: Seq<u128>) -> int
    decreases ms.len(),
{
    if ms.len() == 0 {
        0
    } else if max_of(ms.drop_last()) < ms.last() {
        ms.last() as int
    } else {
        max_of(ms.drop_last())
    }
}

impl FrameStats {
    /// The statistics hold the frames `ms` recorded so far: their
    /// count, the longest, and the total.
    pub open spec fn tracks(self, ms: Seq<u128>) -> bool {
        &&& self.frames == ms.len()
        &&& self.max_micros == max_of(ms)
        &&& self.total() == sum_of(ms)
    }
}

/// Recording a frame, as `record_micros` states it, keeps the
/// statistics tracking the frames: from the defaults (which track no
/// frames) a run of records tracks exactly the frames recorded.
pub proof fn law_record_keeps_tracking(before: FrameStats, after: FrameStats, ms: Seq<u128>, m: u128)
    requires
        before.tracks(ms),
        after.frames == before.frames + 1,
        after.max_micros == (if before.max_micros < m { m } else { before.max_micros }),
        after.total() == before.total() + m,
    ensures
        after.tracks(ms.push(m)),
{
    assert(ms.push(m).drop_last() =~= ms);
}

proof fn lemma_sum_at_most(ms: Seq<u128>)
    ensures
        0 <= sum_of(ms) <= ms.len() * max_of(ms),
        max_of(ms) >= 0,
        forall|i: int| 0 <= i < ms.len() ==> ms[i] <= max_of(ms),
    decreases ms.len(),
{
    if ms.len() > 0 {
        let rest = ms.drop_last();
        lemma_sum_at_most(rest);
        let mx = max_of(ms);
        assert(max_of(rest) <= mx);
        assert(rest.len() * max_of(rest) <= rest.len() * mx) by (nonlinear_arith)
            requires
                max_of(rest) <= mx,
                rest.len() >= 0,
        ;
        assert(ms.len() * mx == rest.len() * mx + mx) by (nonlinear_arith)
            requires
                ms.len() == rest.len() + 1,
        ;
        assert forall|i: int| 0 <= i < ms.len() implies ms[i] <= max_of(ms) by {
            if i < rest.len() {
                assert(ms[i] == rest[i]);
            }
        }
    }
}

/// The mean frame time is the total over the count (zero before any
/// frame, so no division by zero) and never exceeds the longest frame.
pub proof fn law_mean_at_most_max(s: FrameStats, ms: Seq<u128>)
    requires
        s.tracks(ms),
    ensures
        (if s.frames == 0 { 0 } else { s.total() / (s.frames as int) }) == (if ms.len() == 0 {
            0
        } else {
            sum_of(ms) / (ms.len() as int)
        }),
        (if s.frames == 0 { 0 } else { s.total() / (s.frames as int) }) <= s.max_micros,
{
    lemma_sum_at_most(ms);
    if ms.len() > 0 {
        let t = sum_of(ms);
        let n = ms.len() as int;
        let mx = max_of(ms);
        assert(t / n <= mx) by (nonlinear_arith)
            requires
                0 <= t <= n * mx,
                n > 0,
        ;
    }
}

} // verus!
