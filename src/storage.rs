//! Capacity management for the library's backing collections.
use std::collections::HashMap;
use vstd::prelude::*;

verus! {

/// Relies on `Vec::shrink_to_fit`: it lowers the capacity and leaves the
/// elements as they were.
#[verifier::external_body]
pub(crate) fn shrink_vec<T>(v: &mut Vec<T>)
    ensures
        final(v)@ == old(v)@,
{
    v.shrink_to_fit()
}

/// Relies on `HashMap::shrink_to_fit`: it lowers the capacity and leaves
/// the entries as they were.
#[verifier::external_body]
pub(crate) fn shrink_map<V>(m: &mut HashMap<u128, V>)
    ensures
        final(m)@ == old(m)@,
{
    m.shrink_to_fit()
}

} // verus!
