//! Interned file names, and the pairing of a file name with its line
//! starts.
use crate::intern::{
    compare_keys, distinct, find_text, handle_key, interned, key_order, lemma_handle_key_injective,
    extends, lemma_interned_distinct, lemma_same_table_positions, make_key, texts, TableTags,
};
use std::cmp::Ordering;
use vstd::std_specs::cmp::{PartialEqSpec, PartialOrdSpec};
use crate::lines::LineOffsets;
use crate::nondistinct::Nondistinct;
use crate::storage::shrink_vec;
use vstd::prelude::*;

verus! {

/// The text of a path as its `Debug` rendering gives it: quoted, with
/// special characters escaped.
pub uninterp spec fn path_debug_text(p: Seq<char>) -> Seq<char>;

/// Relies on the `Debug` rendering of `std::path::Path`, which depends on
/// the path's characters alone.
#[verifier::external_body]
fn debug_path(p: &str) -> (r: String)
    ensures
        r@ == path_debug_text(p@),
{
    format!("{:?}", std::path::Path::new(p))
}

/// A handle for an interned file path.
///
/// A handle's identity, its id, is the tag of the table that made it
/// together with its position in that table.  Handles compare, order and
/// hash by that identity; the canonical path they stand for takes no part
/// in it, and stays readable through the handle.
#[derive(Clone, Debug, Hash)]
pub struct Filename {
    tag: u64,
    position: usize,
    path: Nondistinct<String>,
}

impl Filename {
    /// The tag of the table that made this handle.
    pub closed spec fn spec_tag(&self) -> u64 {
        self.tag
    }

    /// The position of this handle in its table.
    pub closed spec fn spec_position(&self) -> usize {
        self.position
    }

    /// The identity of this handle.
    pub open spec fn spec_id(&self) -> u128 {
        handle_key(self.spec_tag(), self.spec_position())
    }

    /// The path this handle stands for.
    pub closed spec fn spec_path(&self) -> Seq<char> {
        self.path.val@
    }

    /// The tag of the table that made this handle.
    pub fn tag(&self) -> (r: u64)
        ensures
            r == self.spec_tag(),
    {
        self.tag
    }

    /// The position of this handle in its table.
    pub fn position(&self) -> (r: usize)
        ensures
            r == self.spec_position(),
    {
        self.position
    }

    /// Get the id number for this `Filename`: its identity, which two
    /// handles share exactly when they are equal.
    pub fn id(&self) -> (r: u128)
        ensures
            r == self.spec_id(),
    {
        make_key(self.tag, self.position)
    }

    /// The path as a string slice.
    pub fn to_str(&self) -> (r: &str)
        ensures
            r@ == self.spec_path(),
    {
        self.path.val.as_str()
    }

    /// The path as an owned string.
    pub fn to_string_lossy(&self) -> (r: String)
        ensures
            r@ == self.spec_path(),
    {
        self.path.val.clone()
    }

    /// The path, for display.
    pub fn display(&self) -> (r: String)
        ensures
            r@ == self.spec_path(),
    {
        self.path.val.clone()
    }

    /// The path as it is shown in positions: quoted, with special
    /// characters escaped.
    pub fn to_string(&self) -> (r: String)
        ensures
            r@ == path_debug_text(self.spec_path()),
    {
        debug_path(self.path.val.as_str())
    }

    /// A copy of this handle.
    pub fn duplicate(&self) -> (r: Filename)
        ensures
            r.spec_tag() == self.spec_tag(),
            r.spec_position() == self.spec_position(),
            r.spec_path() == self.spec_path(),
    {
        Filename {
            tag: self.tag,
            position: self.position,
            path: Nondistinct { val: self.path.val.clone() },
        }
    }
}

impl PartialEq for Filename {
    fn eq(&self, other: &Filename) -> (r: bool) {
        self.id() == other.id()
    }
}

impl vstd::std_specs::cmp::PartialEqSpecImpl for Filename {
    open spec fn obeys_eq_spec() -> bool {
        true
    }

    open spec fn eq_spec(&self, other: &Filename) -> bool {
        self.spec_id() == other.spec_id()
    }
}

impl Eq for Filename {
}

impl PartialOrd for Filename {
    fn partial_cmp(&self, other: &Filename) -> (r: Option<Ordering>) {
        Some(compare_keys(self.id(), other.id()))
    }
}

impl vstd::std_specs::cmp::PartialOrdSpecImpl for Filename {
    open spec fn obeys_partial_cmp_spec() -> bool {
        true
    }

    open spec fn partial_cmp_spec(&self, other: &Filename) -> Option<Ordering> {
        Some(key_order(self.spec_id(), other.spec_id()))
    }
}

/// Two handles are equal exactly when they come from tables with the same
/// tag and sit at the same position; so handles of tables with different
/// tags are never equal.
pub proof fn lemma_filename_identity(a: Filename, b: Filename)
    ensures
        PartialEqSpec::eq_spec(&a, &b) == (a.spec_tag() == b.spec_tag() && a.spec_position()
            == b.spec_position()),
        a.spec_tag() != b.spec_tag() ==> !PartialEqSpec::eq_spec(&a, &b),
{
    lemma_handle_key_injective(a.spec_tag(), a.spec_position(), b.spec_tag(), b.spec_position());
}

/// Two handles of one table, the second made after any number of further
/// internings, are equal exactly when they stand for equal values:
/// interning a value again gives the handle it got the first time.  Here
/// `t` is the table when `a` was made, and `u` the table when `b` was.
pub proof fn lemma_same_table_filenames(t: Seq<Seq<char>>, u: Seq<Seq<char>>, a: Filename, b: Filename)
    requires
        distinct(u),
        extends(u, t),
        a.spec_tag() == b.spec_tag(),
        a.spec_position() < t.len(),
        t[a.spec_position() as int] == a.spec_path(),
        b.spec_position() < u.len(),
        u[b.spec_position() as int] == b.spec_path(),
    ensures
        PartialEqSpec::eq_spec(&a, &b) == (a.spec_path() == b.spec_path()),
{
    lemma_filename_identity(a, b);
    lemma_same_table_positions(
        t,
        u,
        a.spec_path(),
        b.spec_path(),
        a.spec_position() as int,
        b.spec_position() as int,
    );
}

/// Interned file names table, for producing [`Filename`]s.
///
/// The table holds canonical paths, each at most once.  Its tag, issued by
/// a [`TableTags`] source, goes into every handle it gives out, so that
/// tables made from one source never give out equal handles.
pub struct Filenames {
    tag: u64,
    paths: Vec<String>,
}

impl View for Filenames {
    type V = Seq<Seq<char>>;

    closed spec fn view(&self) -> Seq<Seq<char>> {
        texts(self.paths@)
    }
}

impl Filenames {
    /// No path is held twice.
    #[verifier::type_invariant]
    spec fn no_repeats(&self) -> bool {
        distinct(texts(self.paths@))
    }

    /// The well-formedness of a table: no path is held twice.
    pub open spec fn wf(&self) -> bool {
        distinct(self@)
    }

    /// The tag that this table puts into its handles.
    pub closed spec fn spec_tag(&self) -> u64 {
        self.tag
    }

    /// Create an empty `Filenames` with a fresh tag from `tags`.
    pub fn new(tags: &mut TableTags) -> (r: Filenames)
        requires
            !old(tags).spec_exhausted(),
        ensures
            r@ == Seq::<Seq<char>>::empty(),
            r.wf(),
            !old(tags).issued().contains(r.spec_tag()),
            final(tags).issued() == old(tags).issued().insert(r.spec_tag()),
    {
        Filenames { tag: tags.next(), paths: Vec::new() }
    }

    /// Create an empty `Filenames` with a fresh tag from `tags`, and with
    /// room for `size` paths.
    pub fn with_capacity(tags: &mut TableTags, size: usize) -> (r: Filenames)
        requires
            !old(tags).spec_exhausted(),
        ensures
            r@ == Seq::<Seq<char>>::empty(),
            r.wf(),
            !old(tags).issued().contains(r.spec_tag()),
            final(tags).issued() == old(tags).issued().insert(r.spec_tag()),
    {
        Filenames { tag: tags.next(), paths: Vec::with_capacity(size) }
    }

    /// The tag that this table puts into its handles.
    pub fn tag(&self) -> (r: u64)
        ensures
            r == self.spec_tag(),
    {
        self.tag
    }

    /// Shrink this table to fit its current contents.
    pub fn shrink_to_fit(&mut self)
        ensures
            final(self)@ == old(self)@,
            final(self).spec_tag() == old(self).spec_tag(),
    {
        proof {
            use_type_invariant(&*self);
        }
        let mut paths = Vec::new();
        std::mem::swap(&mut paths, &mut self.paths);
        shrink_vec(&mut paths);
        self.paths = paths;
    }

    /// Intern the canonical path `path`, and return its handle.
    ///
    /// A path already held gives the handle it was given the first time;
    /// a new path is appended to the table.
    pub fn filename(&mut self, path: &str) -> (r: Filename)
        ensures
            old(self).wf(),
            final(self).wf(),
            final(self)@ == interned(old(self)@, path@),
            r.spec_position() < final(self)@.len(),
            final(self)@[r.spec_position() as int] == path@,
            r.spec_path() == path@,
            final(self).spec_tag() == old(self).spec_tag(),
            r.spec_tag() == old(self).spec_tag(),
    {
        proof {
            use_type_invariant(&*self);
            lemma_interned_distinct(self@, path@);
        }
        let key = path.to_owned();
        match find_text(&self.paths, &key) {
            Some(i) => {
                proof {
                    assert(texts(self.paths@)[i as int] == path@);
                }
                Filename { tag: self.tag, position: i, path: Nondistinct { val: key } }
            },
            None => {
                let position = self.paths.len();
                let handle = key.clone();
                let mut paths = Vec::new();
                std::mem::swap(&mut paths, &mut self.paths);
                paths.push(key);
                proof {
                    assert(texts(paths@) =~= texts(old(self).paths@).push(path@));
                }
                self.paths = paths;
                Filename { tag: self.tag, position, path: Nondistinct { val: handle } }
            },
        }
    }
}

/// Line offsets for a given file.
///
/// The offsets are assumed to be determined by the file name, so two
/// `FileOffsets` for the same file are equal, ordered alike and hashed
/// alike, whatever offsets they hold.
#[derive(Debug, Hash)]
pub struct FileOffsets {
    filename: Filename,
    line_offsets: Nondistinct<LineOffsets>,
}

impl FileOffsets {
    /// The file name this value pairs with its offsets.
    pub closed spec fn spec_filename(&self) -> Filename {
        self.filename
    }

    /// The line offsets of the file.
    pub closed spec fn spec_line_offsets(&self) -> LineOffsets {
        self.line_offsets.val
    }

    /// Create a `FileOffsets` from its components.
    pub fn new(filename: Filename, line_offsets: LineOffsets) -> (r: FileOffsets)
        ensures
            r.spec_filename() == filename,
            r.spec_line_offsets() == line_offsets,
    {
        FileOffsets { filename, line_offsets: Nondistinct { val: line_offsets } }
    }

    /// Get the [`Filename`] for this `FileOffsets`.
    pub fn filename(&self) -> (r: &Filename)
        ensures
            *r == self.spec_filename(),
    {
        &self.filename
    }

    /// Get the [`LineOffsets`] for this `FileOffsets`.
    pub fn line_offsets(&self) -> (r: &LineOffsets)
        ensures
            *r == self.spec_line_offsets(),
    {
        &self.line_offsets.val
    }
}

impl PartialEq for FileOffsets {
    fn eq(&self, other: &FileOffsets) -> (r: bool) {
        self.filename == other.filename
    }
}

impl vstd::std_specs::cmp::PartialEqSpecImpl for FileOffsets {
    open spec fn obeys_eq_spec() -> bool {
        true
    }

    open spec fn eq_spec(&self, other: &FileOffsets) -> bool {
        PartialEqSpec::eq_spec(&self.spec_filename(), &other.spec_filename())
    }
}

impl Eq for FileOffsets {
}

impl PartialOrd for FileOffsets {
    fn partial_cmp(&self, other: &FileOffsets) -> (r: Option<Ordering>) {
        self.filename.partial_cmp(&other.filename)
    }
}

impl vstd::std_specs::cmp::PartialOrdSpecImpl for FileOffsets {
    open spec fn obeys_partial_cmp_spec() -> bool {
        true
    }

    open spec fn partial_cmp_spec(&self, other: &FileOffsets) -> Option<Ordering> {
        PartialOrdSpec::partial_cmp_spec(&self.spec_filename(), &other.spec_filename())
    }
}

} // verus!
