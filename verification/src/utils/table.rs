//! Table/collection utilities.

use vstd::prelude::*;

verus! {

/// Get length of a vector.
pub fn length<T>(vec: &[T]) -> (n: usize)
    ensures
        n == vec@.len(),
{
    vec.len()
}

/// Push value to vector.
pub fn push<T>(vec: &mut Vec<T>, value: T)
    ensures
        final(vec)@ == old(vec)@.push(value),
{
    vec.push(value);
}

/// Remove value at index: the value, with the later ones moved down, or
/// `None` (and the vector unchanged) when the index is out of range.
pub fn remove<T>(vec: &mut Vec<T>, index: usize) -> (r: Option<T>)
    ensures
        if index < old(vec)@.len() {
            r == Some(old(vec)@[index as int]) && final(vec)@ == old(vec)@.remove(index as int)
        } else {
            r is None && final(vec)@ == old(vec)@
        },
{
    if index < vec.len() {
        Some(vec.remove(index))
    } else {
        None
    }
}

} // verus!
