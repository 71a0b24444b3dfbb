//! The network-oracle reply convention.  The host answers both
//! introspection requests — resolve a hostname, give the local address —
//! with a single string, where the empty string stands for "no answer".
//! Inside the script environment that empty reply must become the absence
//! value, and any other reply the string itself.

use vstd::prelude::*;

verus! {

/// Turns a raw oracle reply into what the script sees: `None` (the
/// script-level absence value) exactly when the reply is empty, otherwise
/// the reply unchanged.
pub fn oracle_response(reply: String) -> (r: Option<String>)
    ensures
        r is None <==> reply@.len() == 0,
        r matches Some(t) ==> t@ == reply@,
{
    if reply.as_str().is_empty() {
        None
    } else {
        Some(reply)
    }
}

} // verus!
