//! Hashes of the parts that items are told apart by.

use smol_str::SmolStr;
use std::hash::{Hash, Hasher};
use vstd::prelude::*;

verus! {

/// Calls `String::hash`, which feeds the text to the hasher. What a hasher makes of
/// it is not stated.
#[verifier::external_body]
pub fn hash_text<H: Hasher>(text: &String, state: &mut H) {
    text.hash(state)
}

/// Calls `SmolStr::hash`, which feeds the text to the hasher. What a hasher makes of
/// it is not stated.
#[verifier::external_body]
pub fn hash_name<H: Hasher>(name: &SmolStr, state: &mut H) {
    name.hash(state)
}

} // verus!
