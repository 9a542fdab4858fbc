//! The shutdown protocol of the program: which shutdown request wins when
//! several arrive, and what the program does when it exits.

use vstd::prelude::*;

verus! {

/// Why the program shuts down.
#[derive(Clone, Copy, Debug, PartialEq, Eq, Structural)]
pub enum Shutdown {
    /// A normal stop, asked for by a plugin or after a failed setup.
    Normal,
    /// A termination signal.
    SigInt,
    /// A stop followed by a restart of the program.
    Restart,
}

/// The precedence of shutdown kinds: a restart yields to a normal stop, and
/// both yield to a termination signal.
pub open spec fn rank(s: Shutdown) -> int {
    match s {
        Shutdown::Restart => 0,
        Shutdown::Normal => 1,
        Shutdown::SigInt => 2,
    }
}

/// What handling a shutdown request does.
#[derive(Clone, Copy, Debug, PartialEq, Eq, Structural)]
pub struct ShutdownDecision {
    /// The shutdown kind recorded after the request.
    pub recorded: Shutdown,
    /// Whether this request starts the shutdown of the program (only the
    /// first request does; later ones only update the recorded kind).
    pub start: bool,
}

/// The kind recorded when `requested` arrives while `current` is recorded.
pub open spec fn spec_next_shutdown(current: Option<Shutdown>, requested: Shutdown) -> ShutdownDecision {
    match current {
        None => ShutdownDecision { recorded: requested, start: true },
        Some(c) => if (c != Shutdown::SigInt && requested == Shutdown::SigInt)
            || (c == Shutdown::Restart && requested == Shutdown::Normal) {
            ShutdownDecision { recorded: requested, start: false }
        } else {
            ShutdownDecision { recorded: c, start: false }
        },
    }
}

/// Handles a shutdown request: the first request is recorded and starts the
/// shutdown; a later one may only replace the recorded kind by one of higher
/// precedence.
pub fn next_shutdown(current: Option<Shutdown>, requested: Shutdown) -> (r: ShutdownDecision)
    ensures
        r == spec_next_shutdown(current, requested),
{
    match current {
        Some(c) => {
            if (c != Shutdown::SigInt && requested == Shutdown::SigInt)
                || (c == Shutdown::Restart && requested == Shutdown::Normal) {
                ShutdownDecision { recorded: requested, start: false }
            } else {
                ShutdownDecision { recorded: c, start: false }
            }
        },
        None => ShutdownDecision { recorded: requested, start: true },
    }
}

/// The kind of greater precedence of the two.
pub open spec fn spec_max_shutdown(a: Shutdown, b: Shutdown) -> Shutdown {
    if rank(b) > rank(a) {
        b
    } else {
        a
    }
}

/// The kind recorded after a sequence of requests, starting from none.
pub open spec fn spec_recorded_after(requests: Seq<Shutdown>) -> Option<Shutdown>
    decreases requests.len(),
{
    if requests.len() == 0 {
        None
    } else {
        Some(spec_next_shutdown(spec_recorded_after(requests.drop_last()), requests.last()).recorded)
    }
}

/// A request keeps the recorded kind of higher precedence: the recorded kind
/// after a request is the greater, by precedence, of the one before and the
/// requested one.
pub proof fn law_shutdown_keeps_highest_precedence(current: Shutdown, requested: Shutdown)
    ensures
        spec_next_shutdown(Some(current), requested).recorded == spec_max_shutdown(current, requested),
        !spec_next_shutdown(Some(current), requested).start,
{
}

/// After any non-empty sequence of shutdown requests, the recorded kind is
/// the one of highest precedence among them, and a termination signal, once
/// requested, is never replaced.
pub proof fn law_recorded_is_highest_request(requests: Seq<Shutdown>)
    requires
        requests.len() > 0,
    ensures
        spec_recorded_after(requests) matches Some(k) && requests.contains(k)
            && forall|i: int| 0 <= i < requests.len() ==> rank(#[trigger] requests[i]) <= rank(k),
    decreases requests.len(),
{
    let last = requests.last();
    assert(requests[requests.len() - 1] == last);
    if requests.len() > 1 {
        let prefix = requests.drop_last();
        law_recorded_is_highest_request(prefix);
        let k = spec_recorded_after(prefix)->0;
        let r = spec_next_shutdown(Some(k), last).recorded;
        assert(r == spec_max_shutdown(k, last));
        let j = choose|j: int| 0 <= j < prefix.len() && prefix[j] == k;
        assert(requests[j] == k);
        if r == k {
            assert(requests.contains(r));
        } else {
            assert(requests.contains(r));
        }
        assert forall|i: int| 0 <= i < requests.len() implies rank(#[trigger] requests[i]) <= rank(r) by {
            if i < requests.len() - 1 {
                assert(requests[i] == prefix[i]);
            }
        }
    } else {
        assert(requests.drop_last().len() == 0);
        assert(requests.contains(last));
    }
}

/// What the program does when it exits after a shutdown.
#[derive(Clone, Copy, Debug, PartialEq, Eq, Structural)]
pub enum ExitAction {
    /// Exit with this code.
    Code(u8),
    /// Start the program again.
    Restart,
}

/// Exit code 0 after a normal stop, 130 after a termination signal, and a
/// restart after a restart request.
pub fn exit_action(shutdown: Shutdown) -> (r: ExitAction)
    ensures
        shutdown == Shutdown::Normal ==> r == ExitAction::Code(0),
        shutdown == Shutdown::SigInt ==> r == ExitAction::Code(130),
        shutdown == Shutdown::Restart ==> r == ExitAction::Restart,
{
    match shutdown {
        Shutdown::Normal => ExitAction::Code(0),
        Shutdown::SigInt => ExitAction::Code(130),
        Shutdown::Restart => ExitAction::Restart,
    }
}

} // verus!
