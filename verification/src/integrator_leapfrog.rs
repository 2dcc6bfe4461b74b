//! The drift-kick-drift leapfrog: not available in this library; a step
//! reports that and stops the simulation with an error status.
use vstd::prelude::*;

use crate::tools::reb_simulation_error;
use crate::types::{reb_simulation, REB_STATUS_GENERIC_ERROR};

verus! {

/// The error that a step of the leapfrog integrator reports.
pub open spec fn leapfrog_unavailable_text() -> Seq<char> {
    "Integrator 'leapfrog' is not available in this library."@
}

/// Takes one step with the leapfrog integrator: it is not available, so the step
/// reports an error and sets the status to `REB_STATUS_GENERIC_ERROR`.
pub fn reb_integrator_leapfrog_step(r: &mut reb_simulation)
    ensures
        old(r).failed_with(final(r), leapfrog_unavailable_text()),
{
    reb_simulation_error(r, "Integrator 'leapfrog' is not available in this library.");
    r.status = REB_STATUS_GENERIC_ERROR;
}

} // verus!
