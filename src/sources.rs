//! The text of each source file, and the extraction of the text around a
//! position for display.
use crate::files::Filename;
use crate::lines::{line_col, lemma_starts_upto_bound, LineOffsets, Offset};
use crate::position::OffsetPosition;
use crate::storage::{shrink_map, shrink_vec};
use std::collections::HashMap;
use std::collections::hash_map::Entry;
use vstd::prelude::*;
use vstd::utf8::{
    encode_utf8, encode_utf8_valid_utf8, is_char_boundary, is_char_boundary_iff_not_is_continuation_byte,
    is_char_boundary_start_end_of_seq, valid_utf8, valid_utf8_split,
};
use vstd::slice::slice_subrange;
use vstd::string::StringSliceAdditionalSpecFns;

verus! {

broadcast use vstd::std_specs::hash::group_hash_axioms;

/// The UTF-8 bytes of a line of text.
pub open spec fn bytes_of(s: Seq<char>) -> Seq<u8> {
    encode_utf8(s)
}

/// The first character boundary of `b` after `c`.
pub open spec fn next_boundary(b: Seq<u8>, c: int) -> int
    decreases b.len() - c,
{
    if c + 1 >= b.len() || c < 0 {
        b.len() as int
    } else if is_char_boundary(b, c + 1) {
        c + 1
    } else {
        next_boundary(b, c + 1)
    }
}

/// A character boundary of `b` up to `k` is a character boundary of the
/// first `k` bytes of `b`, where `k` is one too.
proof fn lemma_prefix_boundary(b: Seq<u8>, k: int, c: int)
    requires
        valid_utf8(b),
        0 <= c <= k <= b.len(),
        is_char_boundary(b, k),
        is_char_boundary(b, c),
    ensures
        valid_utf8(b.subrange(0, k)),
        is_char_boundary(b.subrange(0, k), c),
{
    valid_utf8_split(b, k);
    let h = b.subrange(0, k);
    if c == k {
        is_char_boundary_start_end_of_seq(h);
    } else {
        is_char_boundary_iff_not_is_continuation_byte(b, c);
        is_char_boundary_iff_not_is_continuation_byte(h, c);
    }
}

/// The first character boundary of `s` after byte `c`.
fn next_char_boundary(s: &str, c: usize) -> (k: usize)
    requires
        c < bytes_of(s@).len(),
    ensures
        k == next_boundary(bytes_of(s@), c as int),
        c < k <= bytes_of(s@).len(),
        is_char_boundary(bytes_of(s@), k as int),
{
    let ghost b = bytes_of(s@);
    proof {
        encode_utf8_valid_utf8(s@);
        is_char_boundary_start_end_of_seq(b);
    }
    let n = s.as_bytes().len();
    assert(c < n);
    let mut j: usize = c + 1;
    while j < n && !s.is_char_boundary(j)
        invariant
            c + 1 <= j <= n,
            n == b.len(),
            b == s.spec_bytes(),
            next_boundary(b, c as int) == next_boundary(b, j - 1),
        decreases n - j,
    {
        j = j + 1;
    }
    j
}

/// The text around a position, split into the parts that
/// [`SourceContext`] holds: partial lines as UTF-8 bytes, whole middle
/// lines as text.
pub ghost enum ContextModel {
    Single { prefix: Seq<u8>, selected: Seq<u8>, suffix: Seq<u8> },
    Multiple {
        prefix: Seq<u8>,
        first: Seq<u8>,
        middle: Seq<Seq<char>>,
        last: Seq<u8>,
        suffix: Seq<u8>,
    },
}

/// The text of one file: its lines, without line terminators, and the
/// offset where each starts.
pub struct Source {
    content: Vec<String>,
    line_offsets: LineOffsets,
}

/// Source context, retrieved for an [`OffsetPosition`] in a file.
#[derive(Clone, Debug, PartialEq, Eq, Hash, PartialOrd, Ord)]
pub enum SourceContext<'a> {
    /// Source context within a single line.
    Single {
        /// Part of the line before the selected region.
        prefix: &'a str,
        /// The selected region.
        selected: &'a str,
        /// Part of the line after the selected region.
        suffix: &'a str,
    },
    /// Source context over several lines.
    Multiple {
        /// Part of the first line before the selected region.
        prefix: &'a str,
        /// The part of the selected region on the first line.
        first: &'a str,
        /// The lines wholly inside the selected region.
        middle: &'a [String],
        /// The part of the selected region on the last line.
        last: &'a str,
        /// Part of the last line after the selected region.
        suffix: &'a str,
    },
}

impl<'a> View for SourceContext<'a> {
    type V = ContextModel;

    open spec fn view(&self) -> ContextModel {
        match *self {
            SourceContext::Single { prefix, selected, suffix } => ContextModel::Single {
                prefix: bytes_of(prefix@),
                selected: bytes_of(selected@),
                suffix: bytes_of(suffix@),
            },
            SourceContext::Multiple { prefix, first, middle, last, suffix } => {
                ContextModel::Multiple {
                    prefix: bytes_of(prefix@),
                    first: bytes_of(first@),
                    middle: middle@.map_values(|s: String| s@),
                    last: bytes_of(last@),
                    suffix: bytes_of(suffix@),
                }
            },
        }
    }
}

impl Source {
    /// One start per line.
    #[verifier::type_invariant]
    spec fn one_start_per_line(&self) -> bool {
        self.content@.len() == self.line_offsets@.len()
    }

    /// The offset where each line starts.
    pub closed spec fn starts(&self) -> Seq<usize> {
        self.line_offsets@
    }

    /// The text of each line.
    pub closed spec fn lines(&self) -> Seq<Seq<char>> {
        self.content@.map_values(|s: String| s@)
    }

    /// The well-formedness of a source: one start per line.
    pub open spec fn wf(&self) -> bool {
        self.starts().len() == self.lines().len()
    }

    /// The bytes of line `i` (0-based).
    pub open spec fn line_bytes(&self, i: int) -> Seq<u8> {
        bytes_of(self.lines()[i])
    }

    /// The 1-based line of the last selected text of a span ending at `end`:
    /// a span that ends at column 0 of a line ends on the line before.
    pub open spec fn span_end_line(&self, end: int) -> int {
        let (l, c) = line_col(self.starts(), end);
        if c != 0 {
            l
        } else {
            l - 1
        }
    }

    /// Where the selection of a span ending at `end` stops on its last line,
    /// clamped to that line's length.
    pub open spec fn span_end_cut(&self, end: int) -> int {
        let (l, c) = line_col(self.starts(), end);
        let b = self.line_bytes(self.span_end_line(end) - 1);
        if c != 0 && c < b.len() {
            c
        } else {
            b.len() as int
        }
    }

    /// Whether `pos` lies within the recorded text: it does not precede
    /// the first line, its columns fall on character boundaries of the
    /// text, and a span ends no earlier than the line it starts on.
    pub open spec fn resolves(&self, pos: OffsetPosition) -> bool {
        match pos {
            OffsetPosition::Point { point } => {
                let (l, c) = line_col(self.starts(), point.0 as int);
                &&& l >= 1
                &&& c <= self.line_bytes(l - 1).len()
                &&& is_char_boundary(self.line_bytes(l - 1), c)
            },
            OffsetPosition::Span { start, len } => {
                let end = start.0 + len.0;
                let (sl, sc) = line_col(self.starts(), start.0 as int);
                let el = self.span_end_line(end);
                &&& end <= usize::MAX
                &&& sl >= 1
                &&& sl <= el
                &&& sc <= self.line_bytes(sl - 1).len()
                &&& is_char_boundary(self.line_bytes(sl - 1), sc)
                &&& is_char_boundary(self.line_bytes(el - 1), self.span_end_cut(end))
            },
        }
    }

    /// The context of `pos` in this source.
    pub open spec fn spec_context(&self, pos: OffsetPosition) -> ContextModel {
        match pos {
            OffsetPosition::Point { point } => {
                let (l, c) = line_col(self.starts(), point.0 as int);
                let b = self.line_bytes(l - 1);
                let k = if c < b.len() { next_boundary(b, c) } else { b.len() as int };
                ContextModel::Single {
                    prefix: b.subrange(0, c),
                    selected: b.subrange(c, k),
                    suffix: b.subrange(k, b.len() as int),
                }
            },
            OffsetPosition::Span { start, len } => {
                let end = start.0 + len.0;
                let (sl, sc) = line_col(self.starts(), start.0 as int);
                let el = self.span_end_line(end);
                let cut = self.span_end_cut(end);
                let bf = self.line_bytes(sl - 1);
                let bl = self.line_bytes(el - 1);
                if sl == el {
                    ContextModel::Single {
                        prefix: bf.subrange(0, sc),
                        selected: bf.subrange(sc, cut),
                        suffix: bf.subrange(cut, bf.len() as int),
                    }
                } else {
                    ContextModel::Multiple {
                        prefix: bf.subrange(0, sc),
                        first: bf.subrange(sc, bf.len() as int),
                        middle: self.lines().subrange(sl, el - 1),
                        last: bl.subrange(0, cut),
                        suffix: bl.subrange(cut, bl.len() as int),
                    }
                }
            },
        }
    }

    /// Whether `pos` lies within the recorded text, so that
    /// [`Source::context`] can extract its context.
    pub fn can_resolve(&self, pos: &OffsetPosition) -> (r: bool)
        ensures
            r == self.resolves(*pos),
    {
        proof {
            use_type_invariant(self);
        }
        match pos {
            OffsetPosition::Point { point } => {
                let (l, c) = self.line_offsets.lookup(*point);
                proof {
                    lemma_starts_upto_bound(self.starts(), point.0 as int);
                }
                if l < 1 {
                    return false;
                }
                let content = self.content[l - 1].as_str();
                proof {
                    assert(content@ == self.lines()[l - 1]);
                }
                c <= content.as_bytes().len() && content.is_char_boundary(c)
            },
            OffsetPosition::Span { start, len } => {
                let end = match start.0.checked_add(len.0) {
                    Some(e) => e,
                    None => {
                        return false;
                    },
                };
                let (sl, sc) = self.line_offsets.lookup(*start);
                let (el0, ec) = self.line_offsets.lookup(Offset(end));
                proof {
                    lemma_starts_upto_bound(self.starts(), start.0 as int);
                    lemma_starts_upto_bound(self.starts(), end as int);
                }
                if ec == 0 && el0 == 0 {
                    return false;
                }
                let el = if ec != 0 { el0 } else { el0 - 1 };
                if sl < 1 || sl > el {
                    return false;
                }
                let first_line = self.content[sl - 1].as_str();
                let last_line = self.content[el - 1].as_str();
                proof {
                    assert(first_line@ == self.lines()[sl - 1]);
                    assert(last_line@ == self.lines()[el - 1]);
                }
                let n = last_line.as_bytes().len();
                let cut = if ec != 0 && ec < n { ec } else { n };
                sc <= first_line.as_bytes().len() && first_line.is_char_boundary(sc)
                    && last_line.is_char_boundary(cut)
            },
        }
    }

    /// The context of `pos` in this source: the text of the line or lines
    /// it covers, split into the parts before, in and after it.
    ///
    /// A point selects the character at its column, or nothing at the end
    /// of a line.  A span that ends at column 0 of a line ends at the end
    /// of the line before, and its selection stops at the end of its last
    /// line.
    pub fn context(&self, pos: &OffsetPosition) -> (r: SourceContext<'_>)
        requires
            self.resolves(*pos),
        ensures
            r@ == self.spec_context(*pos),
    {
        proof {
            use_type_invariant(self);
        }
        match pos {
            OffsetPosition::Point { point } => {
                let (l, c) = self.line_offsets.lookup(*point);
                proof {
                    lemma_starts_upto_bound(self.starts(), point.0 as int);
                }
                let content = self.content[l - 1].as_str();
                let ghost b = bytes_of(content@);
                proof {
                    assert(content@ == self.lines()[l - 1]);
                    encode_utf8_valid_utf8(content@);
                }
                if c < content.as_bytes().len() {
                    let k = next_char_boundary(content, c);
                    let (head, suffix) = content.split_at(k);
                    proof {
                        lemma_prefix_boundary(b, k as int, c as int);
                        assert(head.spec_bytes() =~= b.subrange(0, k as int));
                    }
                    let (prefix, selected) = head.split_at(c);
                    proof {
                        assert(prefix.spec_bytes() =~= b.subrange(0, c as int));
                        assert(selected.spec_bytes() =~= b.subrange(c as int, k as int));
                    }
                    SourceContext::Single { prefix, selected, suffix }
                } else {
                    let (prefix, rest) = content.split_at(c);
                    proof {
                        assert(c == b.len());
                        assert(rest.spec_bytes() =~= b.subrange(c as int, c as int));
                    }
                    SourceContext::Single { prefix, selected: rest, suffix: rest }
                }
            },
            OffsetPosition::Span { start, len } => {
                let end = start.0 + len.0;
                let (sl, sc) = self.line_offsets.lookup(*start);
                let (el0, ec) = self.line_offsets.lookup(Offset(end));
                proof {
                    lemma_starts_upto_bound(self.starts(), start.0 as int);
                    lemma_starts_upto_bound(self.starts(), end as int);
                }
                let el = if ec != 0 { el0 } else { el0 - 1 };
                if sl == el {
                    let content = self.content[sl - 1].as_str();
                    let ghost b = bytes_of(content@);
                    proof {
                        assert(content@ == self.lines()[sl - 1]);
                        encode_utf8_valid_utf8(content@);
                        is_char_boundary_start_end_of_seq(b);
                    }
                    let n = content.as_bytes().len();
                    let cut = if ec != 0 && ec < n { ec } else { n };
                    let (head, suffix) = content.split_at(cut);
                    proof {
                        lemma_prefix_boundary(b, cut as int, sc as int);
                        assert(head.spec_bytes() =~= b.subrange(0, cut as int));
                    }
                    let (prefix, selected) = head.split_at(sc);
                    proof {
                        assert(prefix.spec_bytes() =~= b.subrange(0, sc as int));
                        assert(selected.spec_bytes() =~= b.subrange(sc as int, cut as int));
                    }
                    SourceContext::Single { prefix, selected, suffix }
                } else {
                    let first_line = self.content[sl - 1].as_str();
                    proof {
                        assert(first_line@ == self.lines()[sl - 1]);
                    }
                    let (prefix, first) = first_line.split_at(sc);
                    let middle = slice_subrange(self.content.as_slice(), sl, el - 1);
                    proof {
                        assert(middle@.map_values(|s: String| s@) =~= self.lines().subrange(
                            sl as int,
                            el - 1,
                        ));
                    }
                    let last_line = self.content[el - 1].as_str();
                    proof {
                        assert(last_line@ == self.lines()[el - 1]);
                    }
                    let n = last_line.as_bytes().len();
                    let cut = if ec != 0 && ec < n { ec } else { n };
                    let (last, suffix) = last_line.split_at(cut);
                    SourceContext::Multiple { prefix, first, middle, last, suffix }
                }
            },
        }
    }

    /// Create an empty `Source`.
    fn new() -> (r: Source)
        ensures
            r.starts() == Seq::<usize>::empty(),
            r.lines() == Seq::<Seq<char>>::empty(),
            r.wf(),
    {
        Source { content: Vec::new(), line_offsets: LineOffsets::new() }
    }

    /// Create an empty `Source` with room for `nlines` lines.
    fn with_capacity(nlines: usize) -> (r: Source)
        ensures
            r.starts() == Seq::<usize>::empty(),
            r.lines() == Seq::<Seq<char>>::empty(),
            r.wf(),
    {
        Source { content: Vec::with_capacity(nlines), line_offsets: LineOffsets::with_capacity(nlines) }
    }

    /// Shrink the structures of this `Source` to fit its current size.
    pub fn shrink_to_fit(&mut self)
        ensures
            final(self).starts() == old(self).starts(),
            final(self).lines() == old(self).lines(),
    {
        let mut taken = Source::new();
        std::mem::swap(&mut taken, self);
        proof {
            use_type_invariant(&taken);
        }
        let Source { mut content, mut line_offsets } = taken;
        line_offsets.shrink_to_fit();
        shrink_vec(&mut content);
        *self = Source { content, line_offsets };
    }

    /// Append the line `line`, which starts at offset `start`.
    pub fn push_line(&mut self, start: usize, line: String)
        requires
            old(self).starts().len() > 0 ==> old(self).starts().last() <= start,
        ensures
            final(self).starts() == old(self).starts().push(start),
            final(self).lines() == old(self).lines().push(line@),
            final(self).wf(),
    {
        let ghost line_view = line@;
        let mut taken = Source::new();
        std::mem::swap(&mut taken, self);
        proof {
            use_type_invariant(&taken);
        }
        let Source { mut content, mut line_offsets } = taken;
        content.push(line);
        line_offsets.push_line(start);
        *self = Source { content, line_offsets };
        proof {
            assert(self.lines() =~= old(self).lines().push(line_view));
        }
    }
}

/// The sources of all files, keyed by file name: by the key of its handle,
/// so that handles of different tables never reach each other's sources.
pub struct Sources {
    files: HashMap<u128, Source>,
}

impl View for Sources {
    type V = Map<u128, Source>;

    closed spec fn view(&self) -> Map<u128, Source> {
        self.files@
    }
}

impl Sources {
    /// Create an empty `Sources`.
    pub fn new() -> (r: Sources)
        ensures
            r@ == Map::<u128, Source>::empty(),
    {
        Sources { files: HashMap::new() }
    }

    /// Create an empty `Sources` with room for `nfiles` files.
    pub fn with_capacity(nfiles: usize) -> (r: Sources)
        ensures
            r@ == Map::<u128, Source>::empty(),
    {
        Sources { files: HashMap::with_capacity(nfiles) }
    }

    /// Shrink the structures of this `Sources` to fit its current size.
    pub fn shrink_to_fit(&mut self)
        ensures
            final(self)@ == old(self)@,
    {
        shrink_map(&mut self.files)
    }

    /// Whether [`Sources::get_ctx`] can be asked for `pos` in `file`: the
    /// store holds no source for `file`, or `pos` lies within its text.
    pub fn can_get_ctx(&self, file: &Filename, pos: &OffsetPosition) -> (r: bool)
        ensures
            r == (self@.contains_key(file.spec_id()) ==> self@[file.spec_id()].resolves(*pos)),
    {
        match self.files.get(&file.id()) {
            Some(src) => src.can_resolve(pos),
            None => true,
        }
    }

    /// Get the [`SourceContext`] for `pos` in `file`, or `None` if the
    /// store holds no source for `file`.
    pub fn get_ctx(&self, file: &Filename, pos: &OffsetPosition) -> (r: Option<SourceContext<'_>>)
        requires
            self@.contains_key(file.spec_id()) ==> self@[file.spec_id()].resolves(*pos),
        ensures
            r is None <==> !self@.contains_key(file.spec_id()),
            r matches Some(c) ==> c@ == self@[file.spec_id()].spec_context(*pos),
    {
        match self.files.get(&file.id()) {
            Some(src) => Some(src.context(pos)),
            None => None,
        }
    }

    /// Add an empty [`Source`] for `filename` if it has none yet, and
    /// return a mutable reference to it; return `None`, changing nothing,
    /// if it has one.
    pub fn add_src(&mut self, filename: &Filename) -> (r: Option<&mut Source>)
        ensures
            r is Some <==> !old(self)@.contains_key(filename.spec_id()),
            match r {
                Some(src) => {
                    &&& src.starts() == Seq::<usize>::empty()
                    &&& src.lines() == Seq::<Seq<char>>::empty()
                    &&& src.wf()
                    &&& final(self)@ == old(self)@.insert(filename.spec_id(), *final(src))
                },
                None => final(self)@ == old(self)@,
            },
    {
        match self.files.entry(filename.id()) {
            Entry::Vacant(ent) => Some(ent.insert(Source::new())),
            Entry::Occupied(_) => None,
        }
    }

    /// Add an empty [`Source`] for `filename`, with room for `nlines`
    /// lines, if it has none yet, and return a mutable reference to it;
    /// return `None`, changing nothing, if it has one.
    pub fn add_src_with_capacity(&mut self, filename: &Filename, nlines: usize) -> (r: Option<
        &mut Source,
    >)
        ensures
            r is Some <==> !old(self)@.contains_key(filename.spec_id()),
            match r {
                Some(src) => {
                    &&& src.starts() == Seq::<usize>::empty()
                    &&& src.lines() == Seq::<Seq<char>>::empty()
                    &&& src.wf()
                    &&& final(self)@ == old(self)@.insert(filename.spec_id(), *final(src))
                },
                None => final(self)@ == old(self)@,
            },
    {
        match self.files.entry(filename.id()) {
            Entry::Vacant(ent) => Some(ent.insert(Source::with_capacity(nlines))),
            Entry::Occupied(_) => None,
        }
    }
}

} // verus!
