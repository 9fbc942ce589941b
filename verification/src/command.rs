//! Deadlines for external tools. One stalled tool must not wedge the daemon
//! forever, and one that prints without end must not exhaust it.

use vstd::prelude::*;

use crate::text;

verus! {

/// Every external tool is asked for a short answer, so output past this is a
/// tool that has gone wrong. Reading stops here, and the deadline ends whatever
/// is still writing.
pub const MAX_OUTPUT: u64 = 1048576;

/// How often a running tool is looked at, in milliseconds.
pub const LOOK_MS: u64 = 10;

/// How `Duration`'s `Debug` writes so many milliseconds.
pub uninterp spec fn duration_text(ms: u64) -> Seq<char>;

/// `format!("{:?}")` of `Duration::from_millis`: the text depends on the number
/// alone.
#[verifier::external_body]
pub(crate) fn duration(ms: u64) -> (r: String)
    ensures
        r@ == duration_text(ms),
{
    format!("{:?}", std::time::Duration::from_millis(ms))
}

/// What is known of a tool that was started.
#[derive(Debug, Clone, Copy, PartialEq, Eq, Structural)]
pub enum Look {
    Running,
    Exited,
    /// It cannot be asked about.
    Lost,
}

/// What to do about a tool that was started.
#[derive(Debug, Clone, Copy, PartialEq, Eq, Structural)]
pub enum Next {
    /// It is done.
    Finish,
    /// End it, and report why it could not be asked about.
    Abandon,
    /// End it: it took too long.
    Expire,
    /// Look again in a while.
    Wait,
}

/// Decides about a tool: one that has exited is done even where it was late.
pub fn next(look: Look, late: bool) -> (r: Next)
    ensures
        r == (match look {
            Look::Exited => Next::Finish,
            Look::Lost => Next::Abandon,
            Look::Running => if late {
                Next::Expire
            } else {
                Next::Wait
            },
        }),
{
    match look {
        Look::Exited => Next::Finish,
        Look::Lost => Next::Abandon,
        Look::Running => {
            if late {
                Next::Expire
            } else {
                Next::Wait
            }
        },
    }
}

/// What is said of a tool that took too long.
pub fn timed_out(program: &str, limit_ms: u64) -> (r: String)
    ensures
        r@ == program@ + " did not finish within "@ + duration_text(limit_ms),
{
    text::of(program).concat(" did not finish within ").concat(&duration(limit_ms))
}

} // verus!
