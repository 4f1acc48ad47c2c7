//! A wrapper for values that take no part in the equality of what holds
//! them.
use crate::position::Positioned;
use std::cmp::Ordering;
use std::hash::{Hash, Hasher};
use vstd::prelude::*;

verus! {

/// Wrapper for values that are excluded from normal notions of
/// distinctness in the context of another type.
///
/// All `Nondistinct` values are equal to each other, so a field of this
/// type is ignored by the equality of the type that holds it.  This is
/// meant for positions in an AST or IR, which carry no meaning for
/// equality.
#[derive(Clone, Debug)]
pub struct Nondistinct<T> {
    pub val: T,
}

impl<T> Nondistinct<T> {
    /// Wrap `val`.
    pub fn from(val: T) -> (r: Nondistinct<T>)
        ensures
            r.val == val,
    {
        Nondistinct { val }
    }
}

impl<T> PartialEq for Nondistinct<T> {
    fn eq(&self, _other: &Nondistinct<T>) -> (r: bool) {
        true
    }
}

impl<T> vstd::std_specs::cmp::PartialEqSpecImpl for Nondistinct<T> {
    open spec fn obeys_eq_spec() -> bool {
        true
    }

    open spec fn eq_spec(&self, _other: &Nondistinct<T>) -> bool {
        true
    }
}

impl<T> Eq for Nondistinct<T> {
}

impl<T> PartialOrd for Nondistinct<T> {
    fn partial_cmp(&self, _other: &Nondistinct<T>) -> (r: Option<Ordering>) {
        Some(Ordering::Equal)
    }
}

impl<T> vstd::std_specs::cmp::PartialOrdSpecImpl for Nondistinct<T> {
    open spec fn obeys_partial_cmp_spec() -> bool {
        true
    }

    open spec fn partial_cmp_spec(&self, _other: &Nondistinct<T>) -> Option<Ordering> {
        Some(Ordering::Equal)
    }
}

impl<T> Hash for Nondistinct<T> {
    fn hash<H: Hasher>(&self, _state: &mut H) {
    }
}

impl<P> Positioned<P> for Nondistinct<P> {
    fn position(&self) -> (r: &P) {
        &self.val
    }
}

} // verus!
