//! Interned symbols: identifiers and other strings with cheap identity.
use crate::intern::{
    compare_keys, distinct, find_text, handle_key, interned, key_order, lemma_handle_key_injective,
    extends, lemma_interned_distinct, lemma_same_table_positions, make_key, texts, TableTags,
};
use crate::nondistinct::Nondistinct;
use crate::sources::bytes_of;
use crate::storage::shrink_vec;
use std::cmp::Ordering;
use vstd::prelude::*;
use vstd::std_specs::cmp::PartialEqSpec;
use vstd::string::StringSliceAdditionalSpecFns;
use vstd::utf8::is_char_boundary;

verus! {

/// A handle for an interned string.
///
/// A symbol's identity, its id, is the tag of the table that made it
/// together with the position of its string in that table.  Symbols
/// compare, order and hash by that identity; the string takes no part in
/// it, and stays readable through the symbol.  The empty string has the one
/// symbol with tag 0 at position 0, whatever the table.
#[derive(Clone, Debug, Hash)]
pub struct Symbol {
    tag: u64,
    position: usize,
    text: Nondistinct<String>,
}

/// The ASCII lower case of a byte.
pub open spec fn ascii_lower(b: u8) -> u8 {
    if 65 <= b <= 90 {
        (b + 32) as u8
    } else {
        b
    }
}

/// Whether two byte strings are equal up to ASCII case.
pub open spec fn eq_ignoring_ascii_case(a: Seq<u8>, b: Seq<u8>) -> bool {
    &&& a.len() == b.len()
    &&& forall|i: int| 0 <= i < a.len() ==> ascii_lower(a[i]) == ascii_lower(b[i])
}

fn to_ascii_lower(b: u8) -> (r: u8)
    ensures
        r == ascii_lower(b),
{
    if 65 <= b && b <= 90 {
        b + 32
    } else {
        b
    }
}

impl Symbol {
    /// The tag of the table that made this symbol; 0 for the empty symbol.
    pub closed spec fn spec_tag(&self) -> u64 {
        self.tag
    }

    /// The tag of the table that made this symbol; 0 for the empty symbol.
    pub fn tag(&self) -> (r: u64)
        ensures
            r == self.spec_tag(),
    {
        self.tag
    }

    /// The position of this symbol's string in its table.
    pub closed spec fn spec_position(&self) -> usize {
        self.position
    }

    /// The identity of this symbol.
    pub open spec fn spec_id(&self) -> u128 {
        handle_key(self.spec_tag(), self.spec_position())
    }

    /// The position of this symbol's string in its table.
    pub fn position(&self) -> (r: usize)
        ensures
            r == self.spec_position(),
    {
        self.position
    }

    /// The string this symbol stands for.
    pub closed spec fn spec_text(&self) -> Seq<char> {
        self.text.val@
    }

    /// The designated symbol for the empty string.
    pub fn null() -> (r: Symbol)
        ensures
            r.spec_tag() == 0,
            r.spec_position() == 0,
            r.spec_text() == Seq::<char>::empty(),
    {
        Symbol { tag: 0, position: 0, text: Nondistinct { val: String::new() } }
    }

    /// Get the id number for this `Symbol`: its identity, which two
    /// symbols share exactly when they are equal.
    pub fn id(&self) -> (r: u128)
        ensures
            r == self.spec_id(),
    {
        make_key(self.tag, self.position)
    }

    /// The string this symbol stands for.
    pub fn as_str(&self) -> (r: &str)
        ensures
            r@ == self.spec_text(),
    {
        self.text.val.as_str()
    }

    /// The string this symbol stands for, as an owned string.
    pub fn to_string(&self) -> (r: String)
        ensures
            r@ == self.spec_text(),
    {
        self.text.val.clone()
    }

    /// The length of the string in bytes.
    pub fn len(&self) -> (r: usize)
        ensures
            r == bytes_of(self.spec_text()).len(),
    {
        self.text.val.as_str().as_bytes().len()
    }

    /// Whether the string is empty.
    pub fn is_empty(&self) -> (r: bool)
        ensures
            r == (self.spec_text().len() == 0),
    {
        self.text.val.as_str().is_empty()
    }

    /// Whether byte `idx` of the string starts a character or ends the
    /// string.
    pub fn is_char_boundary(&self, idx: usize) -> (r: bool)
        ensures
            r == is_char_boundary(bytes_of(self.spec_text()), idx as int),
    {
        self.text.val.as_str().is_char_boundary(idx)
    }

    /// The UTF-8 bytes of the string.
    pub fn as_bytes(&self) -> (r: &[u8])
        ensures
            r@ == bytes_of(self.spec_text()),
    {
        self.text.val.as_str().as_bytes()
    }

    /// Whether every character of the string is ASCII.
    pub fn is_ascii(&self) -> (r: bool)
        ensures
            r == vstd::utf8::is_ascii_chars(self.spec_text()),
    {
        self.text.val.as_str().is_ascii()
    }

    /// Whether the two strings are equal up to ASCII case.
    pub fn eq_ignore_ascii_case(&self, other: &Symbol) -> (r: bool)
        ensures
            r == eq_ignoring_ascii_case(bytes_of(self.spec_text()), bytes_of(other.spec_text())),
    {
        let a = self.text.val.as_str().as_bytes();
        let b = other.text.val.as_str().as_bytes();
        if a.len() != b.len() {
            return false;
        }
        let n = a.len();
        let mut i: usize = 0;
        while i < n
            invariant
                0 <= i <= n,
                n == a@.len(),
                n == b@.len(),
                a@ == bytes_of(self.spec_text()),
                b@ == bytes_of(other.spec_text()),
                forall|j: int| 0 <= j < i ==> ascii_lower(a@[j]) == ascii_lower(b@[j]),
            decreases n - i,
        {
            if to_ascii_lower(a[i]) != to_ascii_lower(b[i]) {
                assert(ascii_lower(a@[i as int]) != ascii_lower(b@[i as int]));
                return false;
            }
            i = i + 1;
        }
        true
    }
}

impl Default for Symbol {
    fn default() -> (r: Symbol)
        ensures
            r.spec_tag() == 0,
            r.spec_position() == 0,
            r.spec_text() == Seq::<char>::empty(),
    {
        Symbol::null()
    }
}

impl PartialEq for Symbol {
    fn eq(&self, other: &Symbol) -> (r: bool) {
        self.id() == other.id()
    }
}

impl vstd::std_specs::cmp::PartialEqSpecImpl for Symbol {
    open spec fn obeys_eq_spec() -> bool {
        true
    }

    open spec fn eq_spec(&self, other: &Symbol) -> bool {
        self.spec_id() == other.spec_id()
    }
}

impl Eq for Symbol {
}

impl PartialOrd for Symbol {
    fn partial_cmp(&self, other: &Symbol) -> (r: Option<Ordering>) {
        Some(compare_keys(self.id(), other.id()))
    }
}

impl vstd::std_specs::cmp::PartialOrdSpecImpl for Symbol {
    open spec fn obeys_partial_cmp_spec() -> bool {
        true
    }

    open spec fn partial_cmp_spec(&self, other: &Symbol) -> Option<Ordering> {
        Some(key_order(self.spec_id(), other.spec_id()))
    }
}

/// Two symbols are equal exactly when they have the same tag and the same
/// position; so symbols of non-empty strings from tables with different
/// tags are never equal.  (The empty symbol has tag 0 whatever the table,
/// so it is shared by all tables.)
pub proof fn lemma_symbol_identity(a: Symbol, b: Symbol)
    ensures
        PartialEqSpec::eq_spec(&a, &b) == (a.spec_tag() == b.spec_tag() && a.spec_position()
            == b.spec_position()),
        a.spec_tag() != b.spec_tag() ==> !PartialEqSpec::eq_spec(&a, &b),
{
    lemma_handle_key_injective(a.spec_tag(), a.spec_position(), b.spec_tag(), b.spec_position());
}

/// Two handles of one table, the second made after any number of further
/// internings, are equal exactly when they stand for equal values:
/// interning a value again gives the handle it got the first time.  Here
/// `t` is the table when `a` was made, and `u` the table when `b` was.
pub proof fn lemma_same_table_symbols(t: Seq<Seq<char>>, u: Seq<Seq<char>>, a: Symbol, b: Symbol)
    requires
        distinct(u),
        extends(u, t),
        a.spec_tag() == b.spec_tag(),
        a.spec_position() < t.len(),
        t[a.spec_position() as int] == a.spec_text(),
        b.spec_position() < u.len(),
        u[b.spec_position() as int] == b.spec_text(),
    ensures
        PartialEqSpec::eq_spec(&a, &b) == (a.spec_text() == b.spec_text()),
{
    lemma_symbol_identity(a, b);
    lemma_same_table_positions(
        t,
        u,
        a.spec_text(),
        b.spec_text(),
        a.spec_position() as int,
        b.spec_position() as int,
    );
}

/// A name list that holds only the empty string.
fn reserved_names() -> (r: Vec<String>)
    ensures
        texts(r@) == seq![Seq::<char>::empty()],
        r@.len() == 1,
        r@[0]@ == Seq::<char>::empty(),
        distinct(texts(r@)),
{
    let mut names = Vec::new();
    names.push(String::new());
    proof {
        assert(texts(names@) =~= seq![Seq::<char>::empty()]);
    }
    names
}

/// Interned symbols table, for producing [`Symbol`]s.
///
/// The table holds strings, each at most once, and the string at position
/// `i` has the symbol at position `i`.  Position 0 holds the empty string
/// from the start.  The table's tag, issued by a [`TableTags`] source, goes
/// into the symbols of non-empty strings, so that tables made from one
/// source never give out equal symbols for them.
pub struct Symbols {
    tag: u64,
    names: Vec<String>,
}

impl View for Symbols {
    type V = Seq<Seq<char>>;

    closed spec fn view(&self) -> Seq<Seq<char>> {
        texts(self.names@)
    }
}

impl Symbols {
    /// The strings are distinct, and the first is the empty string.
    #[verifier::type_invariant]
    spec fn reserved_and_distinct(&self) -> bool {
        &&& distinct(texts(self.names@))
        &&& self.names@.len() > 0
        &&& self.names@[0]@ == Seq::<char>::empty()
    }

    /// The well-formedness of a table: its strings are distinct, and the
    /// first is the empty string.
    pub open spec fn wf(&self) -> bool {
        &&& distinct(self@)
        &&& self@.len() > 0
        &&& self@[0] == Seq::<char>::empty()
    }

    /// The tag that this table puts into the symbols of non-empty strings.
    pub closed spec fn spec_tag(&self) -> u64 {
        self.tag
    }

    /// The tag that this table puts into the symbols of non-empty strings.
    pub fn tag(&self) -> (r: u64)
        ensures
            r == self.spec_tag(),
    {
        self.tag
    }

    /// Create a `Symbols` that holds only the empty string, with a fresh
    /// tag from `tags`.
    pub fn new(tags: &mut TableTags) -> (r: Symbols)
        requires
            !old(tags).spec_exhausted(),
        ensures
            r@ == seq![Seq::<char>::empty()],
            r.wf(),
            r.spec_tag() != 0,
            !old(tags).issued().contains(r.spec_tag()),
            final(tags).issued() == old(tags).issued().insert(r.spec_tag()),
    {
        Symbols { tag: tags.next(), names: reserved_names() }
    }

    /// Create a `Symbols` that holds only the empty string, with a fresh
    /// tag from `tags`, and with room for `size` more strings.
    pub fn with_capacity(tags: &mut TableTags, size: usize) -> (r: Symbols)
        requires
            !old(tags).spec_exhausted(),
        ensures
            r@ == seq![Seq::<char>::empty()],
            r.wf(),
            r.spec_tag() != 0,
            !old(tags).issued().contains(r.spec_tag()),
            final(tags).issued() == old(tags).issued().insert(r.spec_tag()),
    {
        let tag = tags.next();
        let mut names = Vec::with_capacity(size);
        names.push(String::new());
        proof {
            assert(texts(names@) =~= seq![Seq::<char>::empty()]);
            assert(distinct(texts(names@)));
        }
        Symbols { tag, names }
    }

    /// Shrink this table to fit its current contents.
    pub fn shrink_to_fit(&mut self)
        ensures
            final(self)@ == old(self)@,
            final(self).spec_tag() == old(self).spec_tag(),
    {
        proof {
            use_type_invariant(&*self);
        }
        let mut names = reserved_names();
        std::mem::swap(&mut names, &mut self.names);
        shrink_vec(&mut names);
        self.names = names;
    }

    /// Create a `Symbol` from a non-empty string.
    pub fn symbol_nonnull(&mut self, s: &str) -> (r: Symbol)
        requires
            s@.len() > 0,
        ensures
            old(self).wf(),
            final(self).wf(),
            final(self)@ == interned(old(self)@, s@),
            r.spec_position() < final(self)@.len(),
            final(self)@[r.spec_position() as int] == s@,
            r.spec_text() == s@,
            r.spec_position() > 0,
            r.spec_tag() == old(self).spec_tag(),
            final(self).spec_tag() == old(self).spec_tag(),
    {
        proof {
            use_type_invariant(&*self);
            lemma_interned_distinct(self@, s@);
        }
        let key = s.to_owned();
        match find_text(&self.names, &key) {
            Some(i) => {
                proof {
                    assert(texts(self.names@)[i as int] == s@);
                }
                Symbol { tag: self.tag, position: i, text: Nondistinct { val: key } }
            },
            None => {
                let position = self.names.len();
                let handle = key.clone();
                let mut names = reserved_names();
                std::mem::swap(&mut names, &mut self.names);
                names.push(key);
                proof {
                    assert(texts(names@) =~= texts(old(self).names@).push(s@));
                    assert(names@[0] == old(self).names@[0]);
                }
                self.names = names;
                Symbol { tag: self.tag, position, text: Nondistinct { val: handle } }
            },
        }
    }

    /// Create a `Symbol` from a string; the empty string gives the
    /// designated empty symbol and leaves the table as it was.
    pub fn symbol(&mut self, s: &str) -> (r: Symbol)
        ensures
            old(self).wf(),
            final(self).wf(),
            r.spec_text() == s@,
            s@.len() == 0 ==> final(self)@ == old(self)@ && r.spec_position() == 0 && r.spec_tag()
                == 0,
            s@.len() > 0 ==> r.spec_position() > 0 && r.spec_tag() == old(self).spec_tag(),
            final(self).spec_tag() == old(self).spec_tag(),
            s@.len() > 0 ==> final(self)@ == interned(old(self)@, s@),
            r.spec_position() < final(self)@.len(),
            final(self)@[r.spec_position() as int] == s@,
    {
        proof {
            use_type_invariant(&*self);
        }
        if !s.is_empty() {
            self.symbol_nonnull(s)
        } else {
            Symbol::null()
        }
    }
}

} // verus!
