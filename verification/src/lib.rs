//! rebound_rs: the integer core of the REBOUND N-body code, verified.
#![allow(non_snake_case)]
#![allow(non_camel_case_types)]
#![allow(non_upper_case_globals)]

pub mod integrator_ias15;
pub mod integrator_leapfrog;
pub mod integrator_whfast;
pub mod tools;
pub mod types;
pub mod variational;

pub use integrator_ias15::reb_integrator_ias15_step;
pub use integrator_leapfrog::reb_integrator_leapfrog_step;
pub use integrator_whfast::{reb_integrator_whfast_state, reb_integrator_whfast_step};
pub use tools::{
    rand_r, reb_hash, reb_message, reb_simulation_error, reb_simulation_info,
    reb_simulation_particle_counts_match, reb_simulation_warning, reb_tools_rand_seed_from,
    REB_RAND_MAX,
};
pub use types::{
    reb_messages_max_N, reb_simulation, reb_variational_configuration, REB_MESSAGE_TYPE,
    REB_STATUS_GENERIC_ERROR, REB_STATUS_RUNNING,
};
pub use variational::{
    reb_simulation_add_variation_1st_order, reb_simulation_add_variation_2nd_order,
    reb_simulation_com_shift_sets,
    reb_simulation_init_megno, reb_simulation_init_megno_seed, reb_simulation_rescale_var,
};
