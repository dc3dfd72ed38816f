//! HTTP status classes.

use vstd::prelude::*;

verus! {

/// Whether a status code reports success.
pub open spec fn success_status(status: u16) -> bool {
    200 <= status < 300
}

/// Whether `status` reports success.
pub fn is_success(status: u16) -> (r: bool)
    ensures
        r == success_status(status),
{
    200 <= status && status < 300
}

/// Success is the class of statuses that start with a two.
pub proof fn lemma_success_is_a_class(status: u16)
    ensures
        success_status(status) <==> status as int / 100 == 2,
{
}

} // verus!
