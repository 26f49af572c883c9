//! The liveness endpoint.
use vstd::prelude::*;
use vstd::string::StringExecFns;

verus! {

/// Answers the liveness probe: plain success with the fixed status body.
pub fn health_handler() -> (r: (u16, String))
    ensures
        r.0 == 200,
        r.1@ == "{\"status\":\"UP\"}"@,
{
    (200, String::from_str("{\"status\":\"UP\"}"))
}

} // verus!
