//! The pool as a whole: the status line it prints.

use vstd::prelude::*;

verus! {

/// The pool's status line: the endpoint's status, a space, and the shares
/// service's status.
pub fn status_line(rpc_status: &str, shares_status: &str) -> (r: String)
    ensures
        r@ == rpc_status@ + " "@ + shares_status@,
{
    let mut r = String::from_str(rpc_status);
    r.append(" ");
    r.append(shares_status);
    r
}

} // verus!
