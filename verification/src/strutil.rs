use vstd::prelude::*;

verus! {

/// Character-for-character equality of two string slices, decided through
/// owned copies so that the comparison carries a full specification.
pub fn str_equal(a: &str, b: &str) -> (r: bool)
    ensures
        r == (a@ == b@),
{
    let owned_a: String = a.to_owned();
    let owned_b: String = b.to_owned();
    owned_a == owned_b
}

} // verus!
