//! Vendored files (`vendor.yml`).
use vstd::prelude::*;
use crate::Linguist;
use crate::regex::regex_set_matches;

verus! {

/// Detects if the path is vendored under the rules of `vendor.yml`.
pub fn is_vendored(ling: &Linguist, path: &str) -> (b: bool)
    ensures
        b == regex_set_matches(ling@.vendored, false, path@),
{
    ling.vendored().is_match(path)
}

} // verus!
