//! Sockets: whole lines, silence that is no failure, and what follows when a connection is over.
use crate::text;
use vstd::prelude::*;

verus! {

/// Why reading brought nothing.
#[derive(Debug, Clone, Copy, PartialEq, Eq, Structural)]
pub enum ReadFailure {
    /// Reading would have had to wait.
    WouldBlock,
    /// Nothing came in time.
    TimedOut,
    /// Anything else.
    Other,
}

/// Whether a failure only says that nothing has come yet.
pub fn is_timeout(failure: ReadFailure) -> (r: bool)
    ensures
        r == (failure is WouldBlock || failure is TimedOut),
{
    match failure {
        ReadFailure::WouldBlock => true,
        ReadFailure::TimedOut => true,
        ReadFailure::Other => false,
    }
}

/// Whether a text ends with a line break.
pub open spec fn is_complete(line: Seq<char>) -> bool {
    line.len() > 0 && line.last() == '\n'
}

/// A line is whole once its line break has come, and not before.
pub proof fn lines_end_with_a_break(line: Seq<char>, c: char)
    ensures
        is_complete(line.push('\n')),
        c != '\n' ==> !is_complete(line.push(c)),
        !is_complete(Seq::empty()),
{
}

/// What a line says, once it has come whole: without its line break and the white space around
/// it. Of a line that is still coming in, nothing.
pub fn complete_line(line: &str) -> (r: Option<String>)
    ensures
        match r {
            Some(t) => is_complete(line@) && t@ == text::trimmed(line@),
            None => !is_complete(line@),
        },
{
    let chars = text::chars_of(line);
    if chars.len() > 0 && chars[chars.len() - 1] == '\n' {
        Some(text::trim(line))
    } else {
        None
    }
}

/// How a connection came to be over.
#[derive(Debug, Clone, Copy, PartialEq, Eq, Structural)]
pub enum Outcome {
    /// The other side closed it.
    Closed,
    /// It failed, or could not be made.
    Failed,
    /// Nobody here has any use for it.
    Dropped,
}

/// What to do when a connection is over.
#[derive(Debug, Clone, Copy, PartialEq, Eq, Structural)]
pub enum Next {
    /// Leave it at that.
    Stop,
    /// Wait for so many milliseconds, then connect again; first publish that nobody is there, if
    /// so told.
    Reconnect { wait_ms: u64, publish_nobody: bool },
}

} // verus!
