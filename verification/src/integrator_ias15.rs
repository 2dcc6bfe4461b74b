//! IAS15, the 15th-order adaptive integrator: not available in this library; a step
//! reports that and stops the simulation with an error status.
use vstd::prelude::*;

use crate::tools::reb_simulation_error;
use crate::types::{reb_simulation, REB_STATUS_GENERIC_ERROR};

verus! {

/// The error that a step of the ias15 integrator reports.
pub open spec fn ias15_unavailable_text() -> Seq<char> {
    "Integrator 'ias15' is not available in this library."@
}

/// Takes one step with the ias15 integrator: it is not available, so the step
/// reports an error and sets the status to `REB_STATUS_GENERIC_ERROR`.
pub fn reb_integrator_ias15_step(r: &mut reb_simulation)
    ensures
        old(r).failed_with(final(r), ias15_unavailable_text()),
{
    reb_simulation_error(r, "Integrator 'ias15' is not available in this library.");
    r.status = REB_STATUS_GENERIC_ERROR;
}

} // verus!
