//! Small helpers shared by the database layer.

use vstd::prelude::*;

verus! {

/// The textual form a boolean takes in an insert statement: `"1"` for
/// true and `"0"` for false.
pub fn bool_to_insert_string(value: bool) -> (r: String)
    ensures
        value ==> r@ == "1"@,
        !value ==> r@ == "0"@,
{
    let s: &str = if value {
        "1"
    } else {
        "0"
    };
    s.to_owned()
}

} // verus!
