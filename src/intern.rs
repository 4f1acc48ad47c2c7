//! The content model shared by the interning tables: a table is the
//! sequence of the distinct values it holds, and a value's handle is its
//! position in that sequence.
use std::cmp::Ordering;
use vstd::prelude::*;

verus! {

/// Whether no value occurs twice in `t`.
pub open spec fn distinct(t: Seq<Seq<char>>) -> bool {
    forall|i: int, j: int| 0 <= i < t.len() && 0 <= j < t.len() && t[i] == t[j] ==> i == j
}

/// The table after interning `v` into `t`: unchanged when `v` is already
/// held, else `v` appended.
pub open spec fn interned(t: Seq<Seq<char>>, v: Seq<char>) -> Seq<Seq<char>> {
    if t.contains(v) {
        t
    } else {
        t.push(v)
    }
}

/// Interning keeps a table free of repeats, and the value ends up in it.
pub proof fn lemma_interned_distinct(t: Seq<Seq<char>>, v: Seq<char>)
    requires
        distinct(t),
    ensures
        distinct(interned(t, v)),
        interned(t, v).contains(v),
{
    if !t.contains(v) {
        let u = t.push(v);
        assert(u[t.len() as int] == v);
        assert forall|i: int, j: int|
            0 <= i < u.len() && 0 <= j < u.len() && u[i] == u[j] implies i == j by {
            if i < t.len() && j == t.len() {
                assert(t[i] == v);
            } else if j < t.len() && i == t.len() {
                assert(t[j] == v);
            }
        }
    }
}

/// Interning a value twice into the same table gives the same position
/// both times, and the second interning leaves the table as it was.
pub proof fn lemma_intern_twice(t: Seq<Seq<char>>, v: Seq<char>, i: int, j: int)
    requires
        distinct(t),
        0 <= i < interned(t, v).len(),
        interned(t, v)[i] == v,
        0 <= j < interned(interned(t, v), v).len(),
        interned(interned(t, v), v)[j] == v,
    ensures
        i == j,
        interned(interned(t, v), v) == interned(t, v),
{
    lemma_interned_distinct(t, v);
}

/// The identity of a handle: the tag of the table that made it and its
/// position in that table, as one number.
pub open spec fn handle_key(tag: u64, position: usize) -> u128 {
    (tag as int * 0x1_0000_0000_0000_0000 + position as int) as u128
}

/// The identity of a handle with table tag `tag` at `position`.
pub(crate) fn make_key(tag: u64, position: usize) -> (r: u128)
    ensures
        r == handle_key(tag, position),
{
    (tag as u128) * 0x1_0000_0000_0000_0000 + position as u128
}

/// Two handles have the same identity exactly when they have the same
/// table tag and the same position.
pub proof fn lemma_handle_key_injective(tag1: u64, position1: usize, tag2: u64, position2: usize)
    ensures
        (handle_key(tag1, position1) == handle_key(tag2, position2)) == (tag1 == tag2 && position1
            == position2),
{
    assert(usize::MAX < 0x1_0000_0000_0000_0000);
    let k1 = tag1 as int * 0x1_0000_0000_0000_0000 + position1 as int;
    let k2 = tag2 as int * 0x1_0000_0000_0000_0000 + position2 as int;
    assert(0 <= k1 < 0x1_0000_0000_0000_0000_0000_0000_0000_0000);
    assert(0 <= k2 < 0x1_0000_0000_0000_0000_0000_0000_0000_0000);
    if k1 == k2 {
        assert(tag1 == tag2 && position1 == position2) by (nonlinear_arith)
            requires
                k1 == tag1 as int * 0x1_0000_0000_0000_0000 + position1 as int,
                k2 == tag2 as int * 0x1_0000_0000_0000_0000 + position2 as int,
                k1 == k2,
                0 <= position1 < 0x1_0000_0000_0000_0000,
                0 <= position2 < 0x1_0000_0000_0000_0000,
        ;
    }
}

/// The order of two handle identities.
pub open spec fn key_order(a: u128, b: u128) -> Ordering {
    if a < b {
        Ordering::Less
    } else if a == b {
        Ordering::Equal
    } else {
        Ordering::Greater
    }
}

/// Compare two handle identities.
pub(crate) fn compare_keys(a: u128, b: u128) -> (r: Ordering)
    ensures
        r == key_order(a, b),
{
    if a < b {
        Ordering::Less
    } else if a == b {
        Ordering::Equal
    } else {
        Ordering::Greater
    }
}

/// A source of table tags: each tag it issues differs from every tag it
/// issued before, and none is 0.  Tables made with tags from one source
/// never give out equal handles.
pub struct TableTags {
    next: u64,
}

impl TableTags {
    /// The tags issued so far.
    pub closed spec fn issued(&self) -> Set<u64> {
        Set::new(|t: u64| 1 <= t < self.next)
    }

    /// Whether every tag has been issued.
    pub closed spec fn spec_exhausted(&self) -> bool {
        self.next == u64::MAX
    }

    /// The next tag to be issued is not 0.
    #[verifier::type_invariant]
    spec fn starts_at_one(&self) -> bool {
        self.next >= 1
    }

    /// A source that has issued no tag.
    pub fn new() -> (r: TableTags)
        ensures
            r.issued() == Set::<u64>::empty(),
            !r.spec_exhausted(),
    {
        let r = TableTags { next: 1 };
        proof {
            assert(r.issued() =~= Set::<u64>::empty());
        }
        r
    }

    /// Whether every tag has been issued.
    pub fn exhausted(&self) -> (r: bool)
        ensures
            r == self.spec_exhausted(),
    {
        self.next == u64::MAX
    }

    /// Issue a tag that differs from every tag issued before.
    pub fn next(&mut self) -> (r: u64)
        requires
            !old(self).spec_exhausted(),
        ensures
            r != 0,
            !old(self).issued().contains(r),
            final(self).issued() == old(self).issued().insert(r),
    {
        proof {
            use_type_invariant(&*self);
        }
        let r = self.next;
        self.next = self.next + 1;
        proof {
            assert(final(self).issued() =~= old(self).issued().insert(r));
        }
        r
    }
}

/// A later table extends an earlier one when it holds the earlier one's
/// values at the same positions.
pub open spec fn extends(u: Seq<Seq<char>>, t: Seq<Seq<char>>) -> bool {
    &&& t.len() <= u.len()
    &&& forall|k: int| 0 <= k < t.len() ==> u[k] == t[k]
}

/// Interning extends a table.
pub proof fn lemma_interned_extends(t: Seq<Seq<char>>, v: Seq<char>)
    ensures
        extends(interned(t, v), t),
{
}

/// Extension is transitive, so any number of internings extends a table.
pub proof fn lemma_extends_transitive(w: Seq<Seq<char>>, u: Seq<Seq<char>>, t: Seq<Seq<char>>)
    requires
        extends(w, u),
        extends(u, t),
    ensures
        extends(w, t),
{
}

/// In one table, after any number of internings in between, two handles
/// are at the same position exactly when their values are equal: interning
/// a value again gives the handle it got the first time.
pub proof fn lemma_same_table_positions(
    t: Seq<Seq<char>>,
    u: Seq<Seq<char>>,
    x: Seq<char>,
    y: Seq<char>,
    i: int,
    j: int,
)
    requires
        distinct(u),
        extends(u, t),
        0 <= i < t.len(),
        t[i] == x,
        0 <= j < u.len(),
        u[j] == y,
    ensures
        (i == j) == (x == y),
{
    assert(u[i] == x);
}

/// The values held by a vector of strings.
pub open spec fn texts(v: Seq<String>) -> Seq<Seq<char>> {
    v.map_values(|s: String| s@)
}

/// The position of `key` in `v`, if it occurs there.
pub(crate) fn find_text(v: &Vec<String>, key: &String) -> (r: Option<usize>)
    ensures
        match r {
            Some(i) => i < v@.len() && v@[i as int]@ == key@,
            None => !texts(v@).contains(key@),
        },
{
    let n = v.len();
    let mut i: usize = 0;
    while i < n
        invariant
            0 <= i <= n,
            n == v@.len(),
            forall|j: int| 0 <= j < i ==> v@[j]@ != key@,
        decreases n - i,
    {
        if v[i] == *key {
            return Some(i);
        }
        i = i + 1;
    }
    proof {
        if texts(v@).contains(key@) {
            let j = choose|j: int| 0 <= j < texts(v@).len() && texts(v@)[j] == key@;
            assert(v@[j]@ == key@);
        }
    }
    None
}

} // verus!
