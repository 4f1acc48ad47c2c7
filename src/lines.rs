//! Line-start tables and the conversion from absolute offsets to
//! line/column pairs.
use crate::storage::shrink_vec;
use vstd::prelude::*;

verus! {

/// An absolute byte offset in a source file or input stream.
#[derive(Clone, Copy, Debug, PartialEq, Eq, Hash, PartialOrd, Ord)]
pub struct Offset(pub usize);

impl Offset {
    /// The offset as a plain number.
    pub fn value(&self) -> (r: usize)
        ensures
            r == self.0,
    {
        self.0
    }
}

impl From<usize> for Offset {
    fn from(val: usize) -> (r: Offset) {
        Offset(val)
    }
}

impl vstd::std_specs::convert::FromSpecImpl<usize> for Offset {
    open spec fn obeys_from_spec() -> bool {
        true
    }

    open spec fn from_spec(val: usize) -> Offset {
        Offset(val)
    }
}

/// Whether `s` never decreases.
pub open spec fn nondecreasing(s: Seq<usize>) -> bool {
    forall|i: int, j: int| 0 <= i <= j < s.len() ==> s[i] <= s[j]
}

/// Whether `s` strictly increases.
pub open spec fn increasing(s: Seq<usize>) -> bool {
    forall|i: int, j: int| 0 <= i < j < s.len() ==> s[i] < s[j]
}

/// The number of recorded line starts at or before offset `o`, counted by
/// a linear scan from the end of the sequence.
pub open spec fn starts_upto(s: Seq<usize>, o: int) -> nat
    decreases s.len(),
{
    if s.len() == 0 {
        0
    } else {
        starts_upto(s.drop_last(), o) + if s.last() <= o { 1nat } else { 0nat }
    }
}

/// The line/column pair of offset `o` given the line starts `s`: the line
/// is the number of starts at or before `o` (line 0 precedes every
/// recorded start), and the column is the distance from that line's start.
pub open spec fn line_col(s: Seq<usize>, o: int) -> (int, int) {
    let n = starts_upto(s, o) as int;
    if n == 0 {
        (0, o)
    } else {
        (n, o - s[n - 1])
    }
}

/// `starts_upto` is `k` when the first `k` starts are at or before `o` and
/// the rest lie after it.
pub proof fn lemma_starts_upto_split(s: Seq<usize>, o: int, k: int)
    requires
        0 <= k <= s.len(),
        forall|j: int| 0 <= j < k ==> s[j] <= o,
        forall|j: int| k <= j < s.len() ==> s[j] > o,
    ensures
        starts_upto(s, o) == k,
    decreases s.len(),
{
    if s.len() > 0 {
        let t = s.drop_last();
        if k == s.len() {
            lemma_starts_upto_split(t, o, k - 1);
        } else {
            lemma_starts_upto_split(t, o, k);
        }
    }
}

/// `starts_upto` never exceeds the number of starts.
pub proof fn lemma_starts_upto_bound(s: Seq<usize>, o: int)
    ensures
        starts_upto(s, o) <= s.len(),
    decreases s.len(),
{
    if s.len() > 0 {
        lemma_starts_upto_bound(s.drop_last(), o);
    }
}

/// A front-to-back linear scan: the first index at or after `j` whose
/// start lies after `o`, or the length when there is none.
pub open spec fn first_after(s: Seq<usize>, o: int, j: int) -> int
    decreases s.len() - j,
{
    if j >= s.len() || j < 0 {
        s.len() as int
    } else if s[j] > o {
        j
    } else {
        first_after(s, o, j + 1)
    }
}

/// The line/column pair that a linear scan from the first start gives.
pub open spec fn scanned_line_col(s: Seq<usize>, o: int) -> (int, int) {
    let n = first_after(s, o, 0);
    if n == 0 {
        (0, o)
    } else {
        (n, o - s[n - 1])
    }
}

proof fn lemma_first_after_split(s: Seq<usize>, o: int, j: int)
    requires
        0 <= j <= s.len(),
        nondecreasing(s),
        forall|i: int| 0 <= i < j ==> s[i] <= o,
    ensures
        0 <= first_after(s, o, j) <= s.len(),
        forall|i: int| 0 <= i < first_after(s, o, j) ==> s[i] <= o,
        forall|i: int| first_after(s, o, j) <= i < s.len() ==> s[i] > o,
    decreases s.len() - j,
{
    if j < s.len() && s[j] <= o {
        lemma_first_after_split(s, o, j + 1);
    }
}

/// For every non-decreasing sequence of line starts and every offset, the
/// line/column pair that `lookup` returns agrees with a linear scan.
pub proof fn lemma_lookup_matches_scan(s: Seq<usize>, o: int)
    requires
        nondecreasing(s),
    ensures
        line_col(s, o) == scanned_line_col(s, o),
{
    lemma_first_after_split(s, o, 0);
    lemma_starts_upto_split(s, o, first_after(s, o, 0));
}

/// For strictly increasing line starts, the offset where line `i + 1`
/// starts is column 0 of that line, and the offset just before it lies on
/// the line before.
pub proof fn lemma_line_boundary(s: Seq<usize>, i: int)
    requires
        increasing(s),
        0 <= i < s.len(),
    ensures
        line_col(s, s[i] as int) == (i + 1, 0int),
        s[i] > 0 ==> line_col(s, s[i] - 1).0 == i,
{
    lemma_starts_upto_split(s, s[i] as int, i + 1);
    if s[i] > 0 {
        lemma_starts_upto_split(s, s[i] - 1, i);
    }
}

/// A structure holding the start offset of each line in a source file.
#[derive(Debug)]
pub struct LineOffsets {
    lines: Vec<usize>,
}

impl View for LineOffsets {
    type V = Seq<usize>;

    closed spec fn view(&self) -> Seq<usize> {
        self.lines@
    }
}

impl LineOffsets {
    /// The starts of a table never decrease.
    #[verifier::type_invariant]
    spec fn sorted(&self) -> bool {
        nondecreasing(self.lines@)
    }

    /// Create an empty `LineOffsets`.
    pub fn new() -> (r: Self)
        ensures
            r@ == Seq::<usize>::empty(),
    {
        LineOffsets { lines: Vec::new() }
    }

    /// Create an empty `LineOffsets` with room for `size` lines.
    pub fn with_capacity(size: usize) -> (r: Self)
        ensures
            r@ == Seq::<usize>::empty(),
    {
        LineOffsets { lines: Vec::with_capacity(size) }
    }

    /// Shrink this structure to fit its current contents.
    pub fn shrink_to_fit(&mut self)
        ensures
            final(self)@ == old(self)@,
    {
        proof {
            use_type_invariant(&*self);
        }
        let mut lines = Vec::new();
        std::mem::swap(&mut lines, &mut self.lines);
        shrink_vec(&mut lines);
        self.lines = lines;
    }

    /// The number of recorded line starts.
    pub fn len(&self) -> (r: usize)
        ensures
            r == self@.len(),
    {
        self.lines.len()
    }

    /// Convert the absolute offset `pos` into a line number and column.
    ///
    /// Offsets before the first recorded start lie on line 0; an offset
    /// equal to the `i`-th recorded start (counting from 0) is column 0 of
    /// line `i + 1`.
    pub fn lookup(&self, pos: Offset) -> (r: (usize, usize))
        ensures
            (r.0 as int, r.1 as int) == line_col(self@, pos.0 as int),
            nondecreasing(self@),
    {
        proof {
            use_type_invariant(self);
        }
        let o = pos.0;
        let n = self.lines.len();
        // Find the first index whose start lies after `o`.
        let mut lo: usize = 0;
        let mut hi: usize = n;
        while lo < hi
            invariant
                0 <= lo <= hi <= n,
                n == self@.len(),
                nondecreasing(self@),
                forall|j: int| 0 <= j < lo ==> self@[j] <= o,
                forall|j: int| hi <= j < n ==> self@[j] > o,
            decreases hi - lo,
        {
            let mid = lo + (hi - lo) / 2;
            if self.lines[mid] <= o {
                lo = mid + 1;
            } else {
                hi = mid;
            }
        }
        proof {
            lemma_starts_upto_split(self@, o as int, lo as int);
        }
        if lo == 0 {
            (0, o)
        } else {
            (lo, o - self.lines[lo - 1])
        }
    }

    /// Record a line starting at `start`, after every line recorded so far.
    pub fn push_line(&mut self, start: usize)
        requires
            old(self)@.len() > 0 ==> old(self)@.last() <= start,
        ensures
            final(self)@ == old(self)@.push(start),
    {
        proof {
            use_type_invariant(&*self);
        }
        let mut lines = Vec::new();
        std::mem::swap(&mut lines, &mut self.lines);
        lines.push(start);
        self.lines = lines;
    }
}

} // verus!
