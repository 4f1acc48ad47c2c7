//! Position values: where something is, as a portion of a file, a portion
//! of an input stream, a synthetic origin, or the command line.
use crate::files::{path_debug_text, FileOffsets, Filename};
use crate::lines::{line_col, LineOffsets, Offset};
use crate::nondistinct::Nondistinct;
use crate::render::{decimal, decimal_string};
use vstd::prelude::*;
use vstd::string::StringExecFns;

verus! {

/// Trait for things that have a position of type `P`.
pub trait Positioned<P> {
    /// Get the position.
    fn position(&self) -> &P;
}

/// Component of a position describing a portion of a file, as absolute
/// offsets, to be read through a [`LineOffsets`].
#[derive(Clone, Copy, Debug, PartialEq, Eq, Hash, PartialOrd, Ord)]
pub enum OffsetPosition {
    /// A span of some length.
    Span {
        /// Starting offset.
        start: Offset,
        /// Span length.
        len: Offset,
    },
    /// A single point.
    Point {
        /// Offset of the point.
        point: Offset,
    },
}

/// A position within a single file: a portion of it, or all of it.
#[derive(Clone, Debug, PartialEq, Eq, Hash, PartialOrd)]
pub enum FilePosition<'a> {
    /// A specific portion of an input file.
    Portion {
        /// The name and line offsets of the file.
        file_offsets: &'a FileOffsets,
        /// The position of the portion of the file.
        offset: OffsetPosition,
    },
    /// A position representing an entire file.
    File {
        /// The name of the file.
        filename: Filename,
    },
}

/// Basic position structure, covering the cases seen by the front-end of
/// a compiler.
///
/// In AST and IR structures, a `BasicPosition` is best wrapped in a
/// [`Nondistinct`], so that it takes no part in their equality.
#[derive(Clone, Debug, PartialEq, Eq, Hash, PartialOrd)]
pub enum BasicPosition<'a> {
    /// A position within a source file.
    File {
        /// The file position data.
        pos: FilePosition<'a>,
    },
    /// A specific portion of the input stream, for interpreters and
    /// compilers that read code from a stream.
    Input {
        /// Position of the portion of input.
        offset: OffsetPosition,
        /// Line offsets of the input.
        line_offsets: Nondistinct<&'a LineOffsets>,
    },
    /// A synthetic position, generated internally by a compiler.
    Synthetic {
        /// Description of the origin of this position.
        desc: String,
    },
    /// A position representing the command line.
    CmdLine {
        args: Vec<usize>,
    },
}

impl OffsetPosition {
    /// Whether the end of a span fits in a `usize`; always true of a point.
    pub open spec fn in_range(&self) -> bool {
        match *self {
            OffsetPosition::Span { start, len } => start.0 + len.0 <= usize::MAX,
            OffsetPosition::Point { .. } => true,
        }
    }
}

/// The display of line `l`, column `c`: both counted from 1, as
/// `<line>.<column>`.
pub open spec fn coords_text(l: int, c: int) -> Seq<char> {
    decimal((l + 1) as nat) + "."@ + decimal((c + 1) as nat)
}

/// The display of `pos` read through line starts `s`: `<line>.<column>`
/// for a point; for a span, its start, a dash, and its end column, or its
/// end line and column when it ends on another line.
pub open spec fn offset_text(s: Seq<usize>, pos: OffsetPosition) -> Seq<char> {
    match pos {
        OffsetPosition::Point { point } => {
            let (l, c) = line_col(s, point.0 as int);
            coords_text(l, c)
        },
        OffsetPosition::Span { start, len } => {
            let (sl, sc) = line_col(s, start.0 as int);
            let (el, ec) = line_col(s, start.0 + len.0);
            if sl == el {
                coords_text(sl, sc) + "-"@ + decimal((ec + 1) as nat)
            } else {
                coords_text(sl, sc) + "-"@ + coords_text(el, ec)
            }
        },
    }
}

fn coords_string(l: usize, c: usize) -> (r: String)
    ensures
        r@ == coords_text(l as int, c as int),
{
    let mut r = decimal_string(l as u128 + 1);
    r.append(".");
    let col = decimal_string(c as u128 + 1);
    r.append(col.as_str());
    r
}

/// The display of `pos` read through `lines`.
fn offset_string(lines: &LineOffsets, pos: &OffsetPosition) -> (r: String)
    requires
        pos.in_range(),
    ensures
        r@ == offset_text(lines@, *pos),
{
    match pos {
        OffsetPosition::Point { point } => {
            let (l, c) = lines.lookup(*point);
            coords_string(l, c)
        },
        OffsetPosition::Span { start, len } => {
            let (sl, sc) = lines.lookup(*start);
            let (el, ec) = lines.lookup(Offset(start.0 + len.0));
            let mut r = coords_string(sl, sc);
            r.append("-");
            if sl == el {
                let col = decimal_string(ec as u128 + 1);
                r.append(col.as_str());
            } else {
                let end = coords_string(el, ec);
                r.append(end.as_str());
            }
            r
        },
    }
}

impl<'a> FilePosition<'a> {
    /// Whether the position can be displayed: a span's end fits in a
    /// `usize`.
    pub open spec fn in_range(&self) -> bool {
        match *self {
            FilePosition::Portion { offset, .. } => offset.in_range(),
            FilePosition::File { .. } => true,
        }
    }

    /// The display of this position.
    pub open spec fn spec_text(&self) -> Seq<char> {
        match *self {
            FilePosition::Portion { file_offsets, offset } => "at "@ + path_debug_text(
                file_offsets.spec_filename().spec_path(),
            ) + ":"@ + offset_text(file_offsets.spec_line_offsets()@, offset),
            FilePosition::File { filename } => "in "@ + path_debug_text(filename.spec_path()),
        }
    }

    /// Render this position for display: `at <file>:<place>` for a
    /// portion of a file, `in <file>` for a whole file.  Lines and columns
    /// are shown counting from 1.
    pub fn to_string(&self) -> (r: String)
        requires
            self.in_range(),
        ensures
            r@ == self.spec_text(),
    {
        match self {
            FilePosition::Portion { file_offsets, offset } => {
                let mut r = String::from_str("at ");
                let name = file_offsets.filename().to_string();
                r.append(name.as_str());
                r.append(":");
                let place = offset_string(file_offsets.line_offsets(), offset);
                r.append(place.as_str());
                r
            },
            FilePosition::File { filename } => {
                let mut r = String::from_str("in ");
                let name = filename.to_string();
                r.append(name.as_str());
                r
            },
        }
    }

    /// Narrow a [`BasicPosition`] to the [`FilePosition`] it holds; fails
    /// for positions outside any file.
    pub fn try_from(val: BasicPosition<'a>) -> (r: Result<FilePosition<'a>, ()>)
        ensures
            match val {
                BasicPosition::File { pos } => r == Ok::<FilePosition<'a>, ()>(pos),
                _ => r is Err,
            },
    {
        match val {
            BasicPosition::File { pos } => Ok(pos),
            _ => Err(()),
        }
    }

    /// Narrow a borrowed [`BasicPosition`] to the [`FilePosition`] it
    /// holds; fails for positions outside any file.
    pub fn try_from_ref(val: &'a BasicPosition<'a>) -> (r: Result<&'a FilePosition<'a>, ()>)
        ensures
            match *val {
                BasicPosition::File { pos } => r matches Ok(p) && *p == pos,
                _ => r is Err,
            },
    {
        match val {
            BasicPosition::File { pos } => Ok(pos),
            _ => Err(()),
        }
    }
}

impl<'a> BasicPosition<'a> {
    /// Whether the position can be displayed: a span's end fits in a
    /// `usize`.
    pub open spec fn in_range(&self) -> bool {
        match *self {
            BasicPosition::File { pos } => pos.in_range(),
            BasicPosition::Input { offset, .. } => offset.in_range(),
            _ => true,
        }
    }

    /// The display of this position.
    pub open spec fn spec_text(&self) -> Seq<char> {
        match *self {
            BasicPosition::File { pos } => pos.spec_text(),
            BasicPosition::Input { offset, line_offsets } => "at input "@ + offset_text(
                line_offsets.val@,
                offset,
            ),
            BasicPosition::Synthetic { desc } => desc@,
            BasicPosition::CmdLine { .. } => "from command line"@,
        }
    }

    /// Render this position for display: as [`FilePosition::to_string`]
    /// for a file, `at input <place>` for the input stream, the
    /// description of a synthetic position, and `from command line`.
    pub fn to_string(&self) -> (r: String)
        requires
            self.in_range(),
        ensures
            r@ == self.spec_text(),
    {
        match self {
            BasicPosition::File { pos } => pos.to_string(),
            BasicPosition::Input { offset, line_offsets } => {
                let mut r = String::from_str("at input ");
                let place = offset_string(line_offsets.val, offset);
                r.append(place.as_str());
                r
            },
            BasicPosition::Synthetic { desc } => desc.clone(),
            BasicPosition::CmdLine { .. } => String::from_str("from command line"),
        }
    }
}

} // verus!
