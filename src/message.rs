//! Compiler messages: their severity, their highlighting style, and the
//! traits a message type implements to be written out.
use vstd::prelude::*;
use vstd::slice::slice_subrange;

verus! {

/// Trait for compiler messages.
pub trait Message {
    /// Get the [`Severity`] of the message.
    fn severity(&self) -> Severity;

    /// Get a brief human-readable description of the message.
    fn brief(&self) -> &str;

    /// Get a detailed human-readable description of the message.
    fn detail(&self) -> &str;

    /// Get the highlighting style for the message, which determines how
    /// the relevant text is highlighted.
    fn highlighting(&self) -> Highlighting {
        Highlighting::Foreground
    }
}

/// Trait for compiler messages with positions.
pub trait MessagePositions<P>: Message {
    /// Get the positions of the message, each with an optional label and
    /// a severity; none by default.
    fn positions(&self) -> &[(Option<&str>, P, Severity)] {
        &[]
    }
}

/// Message severity levels, from least to most severe.
#[derive(Clone, Copy, Debug, PartialEq, Eq, Hash, PartialOrd, Ord)]
pub enum Severity {
    /// Purely informative message, not implying any sort of criticism.
    Info,
    /// A purely stylistic criticism.
    Remark,
    /// A criticism of code that is inefficient or overly verbose, but not
    /// dangerous.
    Lint,
    /// Code that is dangerous, or severely inefficient, but that does not
    /// stop compilation.
    Warning,
    /// An error, which should terminate compilation.
    Error,
    /// Internal compiler error, reporting a compiler bug.
    Internal,
}

/// Highlighting styles, which determine how relevant text is highlighted.
#[derive(Clone, Copy, Debug, PartialEq, Eq, Hash, PartialOrd, Ord)]
pub enum Highlighting {
    /// Highlight the text itself, in the foreground.
    Foreground,
    /// Highlight the background, which also shows whitespace.
    Background,
}

/// The name of a severity level, as messages show it.
pub open spec fn severity_name(s: Severity) -> Seq<char> {
    match s {
        Severity::Info => "Info"@,
        Severity::Remark => "Remark"@,
        Severity::Lint => "Lint Warning"@,
        Severity::Warning => "Warning"@,
        Severity::Error => "Error"@,
        Severity::Internal => "Internal Error"@,
    }
}

impl Severity {
    /// The name of this severity level, as messages show it.
    pub fn to_string(&self) -> (r: &'static str)
        ensures
            r@ == severity_name(*self),
    {
        match self {
            Severity::Info => "Info",
            Severity::Remark => "Remark",
            Severity::Lint => "Lint Warning",
            Severity::Warning => "Warning",
            Severity::Error => "Error",
            Severity::Internal => "Internal Error",
        }
    }
}

/// The most lines inside a selection that a message shows in full.
pub const MAX_SHOWN_LINES: usize = 6;

/// The lines of a selection that a message shows.  Up to
/// [`MAX_SHOWN_LINES`] lines are all shown; of more, the first three and
/// the last three are shown, the second part being `Some`, and the lines
/// between are elided.
pub fn shown_lines(middle: &[String]) -> (r: (&[String], Option<&[String]>))
    ensures
        middle@.len() <= MAX_SHOWN_LINES ==> r.0@ == middle@ && r.1 is None,
        middle@.len() > MAX_SHOWN_LINES ==> {
            &&& r.0@ == middle@.subrange(0, 3)
            &&& r.1 matches Some(tail) && tail@ == middle@.subrange(
                middle@.len() - 3,
                middle@.len() as int,
            )
        },
{
    let n = middle.len();
    if n > MAX_SHOWN_LINES {
        (slice_subrange(middle, 0, 3), Some(slice_subrange(middle, n - 3, n)))
    } else {
        (middle, None)
    }
}

} // verus!
