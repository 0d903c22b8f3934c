//! Locations of the fixture trees used when exercising the library, as
//! paths relative to the crate root.

use vstd::prelude::*;

verus! {

/// The directory that holds fixture trees.
pub fn get_test_path() -> (r: String)
    ensures
        r@ == "tests/"@,
{
    "tests/".to_owned()
}

/// A path under the fixture directory.
pub fn get_path_under_tests(path: &str) -> (r: String)
    ensures
        r@ == "tests/"@ + path@,
{
    let mut s = get_test_path();
    s.append(path);
    s
}

} // verus!
