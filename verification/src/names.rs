//! Names of declared items, kept as `SmolStr`.

use smol_str::SmolStr;
use vstd::prelude::*;

verus! {

/// The string type of the `smol_str` crate. Nothing is known of its inside.
#[verifier::external_type_specification]
#[verifier::external_body]
pub struct ExSmolStr(SmolStr);

/// The characters that a `SmolStr` holds.
pub uninterp spec fn name_text(name: SmolStr) -> Seq<char>;

/// Calls `SmolStr::new`, which keeps the characters of the text that it is given.
#[verifier::external_body]
pub(crate) fn new_name(text: &str) -> (r: SmolStr)
    ensures
        name_text(r) == text@,
{
    SmolStr::new(text)
}

/// Calls `SmolStr::as_str`, which hands out the characters that the name holds.
#[verifier::external_body]
pub(crate) fn name_str(name: &SmolStr) -> (r: &str)
    ensures
        r@ == name_text(*name),
{
    name.as_str()
}

/// `SmolStr::clone` gives a string of the same characters.
pub assume_specification[ <SmolStr as Clone>::clone ](name: &SmolStr) -> (r: SmolStr)
    ensures
        name_text(r) == name_text(*name),
;

/// Calls `==` of `SmolStr`, which compares the characters.
#[verifier::external_body]
pub(crate) fn same_name(a: &SmolStr, b: &SmolStr) -> (r: bool)
    ensures
        r == (name_text(*a) == name_text(*b)),
{
    a == b
}

/// The name as an owned string.
pub fn name_string(name: &SmolStr) -> (r: String)
    ensures
        r@ == name_text(*name),
{
    name_str(name).to_owned()
}

/// The texts of a list of names.
pub open spec fn name_texts(names: Seq<SmolStr>) -> Seq<Seq<char>> {
    names.map_values(|n: SmolStr| name_text(n))
}

} // verus!
