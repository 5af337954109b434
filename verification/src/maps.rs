//! Access to standard collections that the specification library leaves out.
use std::collections::HashMap;
use vstd::prelude::*;

verus! {

/// Mutable access to the value behind an integer key, through [`HashMap::get_mut`].
///
/// Trusted: the reference is to the value stored under the key, exactly when the key is present,
/// and what is written through it is what the map holds under that key afterwards. Every other
/// key keeps its value. Looking up an integer does not panic.
#[verifier::external_body]
pub(crate) fn value_mut<V>(map: &mut HashMap<u64, V>, key: u64) -> (value: Option<&mut V>)
    ensures
        match value {
            Some(v) => {
                &&& old(map)@.contains_key(key)
                &&& *v == old(map)@[key]
                &&& final(map)@ == old(map)@.insert(key, *final(v))
            },
            None => !old(map)@.contains_key(key) && final(map)@ == old(map)@,
        },
    no_unwind
{
    map.get_mut(&key)
}

} // verus!
