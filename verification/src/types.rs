//! The simulation record that the verified routines work on, and the
//! small types and constants around it.
use vstd::prelude::*;

verus! {

/// Kind of a message that a routine reports about a simulation.
#[derive(Clone, Copy, Debug, PartialEq, Eq, Structural)]
pub enum REB_MESSAGE_TYPE {
    INFO,
    WARNING,
    ERROR,
}

/// How many messages a simulation keeps when it stores them.
pub const reb_messages_max_N: usize = 10;

/// Status of a simulation that is running normally.
pub const REB_STATUS_RUNNING: i32 = -1;

/// Status of a simulation that stopped because of an error.
pub const REB_STATUS_GENERIC_ERROR: i32 = 1;

/// One set of variational equations: their order, where their particles
/// start among the variational particles, whether they follow a single
/// test particle (`testparticle >= 0`) or all particles, and, for second
/// order equations, the first order sets they are built on.
#[derive(Clone, Copy, Debug, PartialEq, Eq, Structural)]
pub struct reb_variational_configuration {
    pub order: i32,
    pub index: usize,
    pub testparticle: i32,
    pub index_1st_order_a: usize,
    pub index_1st_order_b: usize,
}

/// The bookkeeping state of a simulation: particle counts, the sets of
/// variational equations, status flags, the random seed and the message
/// log. Messages that are not stored wait in `stderr_queue` until the
/// caller writes them to standard error.
pub struct reb_simulation {
    pub N: usize,
    pub N_var: usize,
    pub var_config: Vec<reb_variational_configuration>,
    pub status: i32,
    pub rand_seed: u32,
    pub save_messages: i32,
    pub messages: Vec<(REB_MESSAGE_TYPE, String)>,
    pub stderr_queue: Vec<(REB_MESSAGE_TYPE, String)>,
    pub messages_var_rescale_warning: i32,
    pub is_synchronized: i32,
    pub did_modify_particles: i32,
    pub calculate_megno: i32,
    pub megno_n: i64,
}

/// A message log as kinds and texts.
pub open spec fn message_view(log: Seq<(REB_MESSAGE_TYPE, String)>) -> Seq<(REB_MESSAGE_TYPE, Seq<char>)> {
    log.map_values(|m: (REB_MESSAGE_TYPE, String)| (m.0, m.1@))
}

/// The log after storing one more message: when the log is full, its
/// oldest message makes room for the new one.
pub open spec fn store_message(
    log: Seq<(REB_MESSAGE_TYPE, Seq<char>)>,
    m: (REB_MESSAGE_TYPE, Seq<char>),
) -> Seq<(REB_MESSAGE_TYPE, Seq<char>)> {
    if log.len() == reb_messages_max_N {
        log.drop_first().push(m)
    } else {
        log.push(m)
    }
}

impl reb_simulation {
    /// Stored messages, as kinds and texts.
    pub open spec fn log(&self) -> Seq<(REB_MESSAGE_TYPE, Seq<char>)> {
        message_view(self.messages@)
    }

    /// Messages waiting to be written to standard error.
    pub open spec fn pending(&self) -> Seq<(REB_MESSAGE_TYPE, Seq<char>)> {
        message_view(self.stderr_queue@)
    }

    /// The message log and queue of `post` are those of `self` after
    /// reporting one message of kind `t` with text `text`: stored when the
    /// simulation keeps its messages, queued for standard error otherwise.
    pub open spec fn reported(&self, post: &reb_simulation, t: REB_MESSAGE_TYPE, text: Seq<char>) -> bool {
        if self.save_messages == 0 {
            &&& post.pending() == self.pending().push((t, text))
            &&& post.log() == self.log()
        } else {
            &&& post.log() == store_message(self.log(), (t, text))
            &&& post.pending() == self.pending()
        }
    }

    /// Everything but the message log and the queue is the same in `post`.
    pub open spec fn same_but_messages(&self, post: &reb_simulation) -> bool {
        &&& post.N == self.N
        &&& post.N_var == self.N_var
        &&& post.var_config@ == self.var_config@
        &&& post.status == self.status
        &&& post.rand_seed == self.rand_seed
        &&& post.save_messages == self.save_messages
        &&& post.messages_var_rescale_warning == self.messages_var_rescale_warning
        &&& post.is_synchronized == self.is_synchronized
        &&& post.did_modify_particles == self.did_modify_particles
        &&& post.calculate_megno == self.calculate_megno
        &&& post.megno_n == self.megno_n
    }

    /// `post` is `self` after an integrator reported the error `text` and
    /// set the status to `REB_STATUS_GENERIC_ERROR`.
    pub open spec fn failed_with(&self, post: &reb_simulation, text: Seq<char>) -> bool {
        &&& self.reported(post, REB_MESSAGE_TYPE::ERROR, text)
        &&& post.status == REB_STATUS_GENERIC_ERROR
        &&& post.N == self.N
        &&& post.N_var == self.N_var
        &&& post.var_config@ == self.var_config@
        &&& post.rand_seed == self.rand_seed
        &&& post.save_messages == self.save_messages
        &&& post.messages_var_rescale_warning == self.messages_var_rescale_warning
        &&& post.is_synchronized == self.is_synchronized
        &&& post.did_modify_particles == self.did_modify_particles
        &&& post.calculate_megno == self.calculate_megno
        &&& post.megno_n == self.megno_n
    }

    /// A simulation with no particles, no variational equations, no
    /// messages, synchronized, running, and the given random seed.
    pub fn new(rand_seed: u32) -> (r: reb_simulation)
        ensures
            r.N == 0,
            r.N_var == 0,
            r.var_config@.len() == 0,
            r.status == REB_STATUS_RUNNING,
            r.rand_seed == rand_seed,
            r.save_messages == 0,
            r.log().len() == 0,
            r.pending().len() == 0,
            r.messages_var_rescale_warning == 0,
            r.is_synchronized == 1,
            r.did_modify_particles == 0,
            r.calculate_megno == 0,
            r.megno_n == 0,
    {
        reb_simulation {
            N: 0,
            N_var: 0,
            var_config: Vec::new(),
            status: REB_STATUS_RUNNING,
            rand_seed,
            save_messages: 0,
            messages: Vec::new(),
            stderr_queue: Vec::new(),
            messages_var_rescale_warning: 0,
            is_synchronized: 1,
            did_modify_particles: 0,
            calculate_megno: 0,
            megno_n: 0,
        }
    }
}

} // verus!
