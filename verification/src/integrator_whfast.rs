//! WHFast, the Wisdom-Holman integrator: not available in this library; a step
//! reports that and stops the simulation with an error status.
use vstd::prelude::*;

use crate::tools::reb_simulation_error;
use crate::types::{reb_simulation, REB_STATUS_GENERIC_ERROR};

verus! {

/// Settings and state of WHFast: the order of the symplectic corrector
/// and of the second corrector, the kernel, the coordinate system, and
/// the flags that govern recalculating coordinates, synchronization and
/// the warnings that were given.
#[derive(Clone, Copy, Debug)]
pub struct reb_integrator_whfast_state {
    pub corrector: u32,
    pub corrector2: u32,
    pub kernel: u32,
    pub coordinates: u32,
    pub recalculate_coordinates_this_timestep: u32,
    pub safe_mode: u32,
    pub keep_unsynchronized: u32,
    pub is_synchronized: u32,
    pub timestep_warning: u32,
    pub recalculate_coordinates_but_not_synchronized_warning: u32,
}

impl Default for reb_integrator_whfast_state {
    /// Every setting and flag zero.
    fn default() -> (s: Self)
        ensures
            s.corrector == 0,
            s.corrector2 == 0,
            s.kernel == 0,
            s.coordinates == 0,
            s.recalculate_coordinates_this_timestep == 0,
            s.safe_mode == 0,
            s.keep_unsynchronized == 0,
            s.is_synchronized == 0,
            s.timestep_warning == 0,
            s.recalculate_coordinates_but_not_synchronized_warning == 0,
    {
        reb_integrator_whfast_state {
            corrector: 0,
            corrector2: 0,
            kernel: 0,
            coordinates: 0,
            recalculate_coordinates_this_timestep: 0,
            safe_mode: 0,
            keep_unsynchronized: 0,
            is_synchronized: 0,
            timestep_warning: 0,
            recalculate_coordinates_but_not_synchronized_warning: 0,
        }
    }
}

/// The error that a step of the whfast integrator reports.
pub open spec fn whfast_unavailable_text() -> Seq<char> {
    "Integrator 'whfast' is not available in this library."@
}

/// Takes one step with the whfast integrator: it is not available, so the step
/// reports an error and sets the status to `REB_STATUS_GENERIC_ERROR`.
pub fn reb_integrator_whfast_step(r: &mut reb_simulation)
    ensures
        old(r).failed_with(final(r), whfast_unavailable_text()),
{
    reb_simulation_error(r, "Integrator 'whfast' is not available in this library.");
    r.status = REB_STATUS_GENERIC_ERROR;
}

} // verus!
