//! Test fixtures.
use vstd::prelude::*;

verus! {

/// The stable session id fixtures use.
pub fn fixture_session_id() -> (id: &'static str)
    ensures
        id@ == "fixture-session"@,
{
    "fixture-session"
}

} // verus!
