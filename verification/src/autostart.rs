//! Keeping antiphond running and of this client's build: the
//! decisions, from what the socket and the daemon's status said. The
//! probing, spawning and waiting are the caller's.
use vstd::prelude::*;

use crate::text::{append_str, chars_of, str_eq, string_of};

verus! {

broadcast use vstd::string::group_string_axioms;

/// The version a build reports when there is no git tag to describe.
pub open spec fn unversioned() -> Seq<char> {
    "unversioned"@
}

/// What to do first about the daemon.
#[derive(Clone, Copy, Debug, PartialEq, Eq, Structural)]
pub enum DaemonStep {
    /// Autostart is off: leave things as they are.
    Nothing,
    /// No daemon answers: start one and wait for it.
    Spawn,
    /// One answers: ask for its version.
    AskVersion,
}

pub open spec fn first_step_of(enabled: bool, reachable: bool) -> DaemonStep {
    if !enabled {
        DaemonStep::Nothing
    } else if !reachable {
        DaemonStep::Spawn
    } else {
        DaemonStep::AskVersion
    }
}

pub fn first_step(enabled: bool, reachable: bool) -> (r: DaemonStep)
    ensures
        r == first_step_of(enabled, reachable),
{
    if !enabled {
        DaemonStep::Nothing
    } else if !reachable {
        DaemonStep::Spawn
    } else {
        DaemonStep::AskVersion
    }
}

/// Whether a running daemon of version `running` must be restarted for
/// a client of version `ours`: only when both have real versions and
/// they differ, so a build without a git version never bounces it.
pub open spec fn needs_restart_of(running: Seq<char>, ours: Seq<char>) -> bool {
    !(running == ours || running == unversioned() || ours == unversioned())
}

/// After the version check: nothing to do when the daemon said no
/// version or matches; otherwise the notice to show once it has been
/// stopped, started again and come up.
pub open spec fn restart_notice_of(running: Option<Seq<char>>, ours: Seq<char>) -> Option<Seq<char>> {
    match running {
        Some(v) => if needs_restart_of(v, ours) {
            Some("restarted antiphond: it was "@ + v + ", this client is "@ + ours)
        } else {
            None
        },
        None => None,
    }
}

pub fn restart_notice(running: Option<String>, ours: &str) -> (r: Option<String>)
    ensures
        crate::text::opt_text(r) == restart_notice_of(crate::text::opt_text(running), ours@),
{
    let running = match running {
        Some(v) => v,
        None => {
            return None;
        },
    };
    proof {
        reveal_strlit("unversioned");
        reveal_strlit("restarted antiphond: it was ");
        reveal_strlit(", this client is ");
    }
    if str_eq(running.as_str(), ours) || str_eq(running.as_str(), "unversioned") || str_eq(ours, "unversioned") {
        return None;
    }
    let mut out = chars_of("restarted antiphond: it was ");
    append_str(&mut out, running.as_str());
    append_str(&mut out, ", this client is ");
    append_str(&mut out, ours);
    Some(string_of(&out))
}

} // verus!
