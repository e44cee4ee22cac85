use vstd::prelude::*;
use crate::method::{selection_matches, validate_call, Method, SplineError};

verus! {

/// A validated request to sample a spline: the query points, the method, the
/// optional value for out-of-domain queries, and whether the first and last
/// queries snap to the end control points.
#[derive(Debug)]
pub struct SampleRequest<V> {
    pub xi: Vec<V>,
    pub method: Method,
    pub fill_value: Option<V>,
    pub snap_endpoints: bool,
}

impl<V> SampleRequest<V> {
    /// Validates a call's configuration and builds its request: a call with
    /// other than one control-point structure fails with `InvalidArity`, and
    /// then a missing or unknown method name with `InvalidMethod`.
    pub fn new(
        n_inputs: usize,
        method: Option<&str>,
        xi: Vec<V>,
        fill_value: Option<V>,
        snap_endpoints: bool,
    ) -> (r: Result<SampleRequest<V>, SplineError>)
        ensures
            n_inputs != 1 ==> (r matches Err(SplineError::InvalidArity(n)) && n == n_inputs),
            n_inputs == 1 ==> match r {
                Ok(req) => selection_matches(method, Ok(req.method)) && req.xi@ == xi@
                    && req.fill_value == fill_value && req.snap_endpoints == snap_endpoints,
                Err(e) => selection_matches(method, Err(e)),
            },
    {
        match validate_call(n_inputs, method) {
            Ok(m) => Ok(SampleRequest { xi, method: m, fill_value, snap_endpoints }),
            Err(e) => Err(e),
        }
    }
}

} // verus!
