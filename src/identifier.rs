use vstd::prelude::*;

verus! {

/// Relies on `cuid::cuid2`: a new collision-resistant identifier, built as one
/// lowercase letter followed by at most 23 base-36 digits. It is drawn from
/// the clock, a counter and random numbers, so nothing is stated of which
/// identifier comes back.
#[verifier::external_body]
pub(crate) fn new_todo_id() -> (r: String)
    ensures
        1 <= r@.len() <= 24,
{
    cuid::cuid2()
}

} // verus!
