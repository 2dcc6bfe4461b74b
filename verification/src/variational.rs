//! Sets of variational equations: adding them, starting MEGNO, deciding
//! which sets get rescaled when their particles grow too large, and which
//! sets follow a move to the center of mass.
use vstd::prelude::*;

use crate::tools::{reb_simulation_error, reb_simulation_warning};
use crate::types::{reb_simulation, reb_variational_configuration, store_message, REB_MESSAGE_TYPE};

verus! {

/// How many variational particles a set takes: one when it follows a
/// single test particle, one per particle otherwise.
pub open spec fn variational_block_len(N: usize, testparticle: i32) -> nat {
    if testparticle >= 0 {
        1
    } else {
        N as nat
    }
}

/// Every set starts inside the variational particles, and the sets are
/// in the order of their starting indices.
pub open spec fn variational_layout_ok(r: &reb_simulation) -> bool {
    &&& forall|v: int| 0 <= v < r.var_config@.len() ==> #[trigger] r.var_config@[v].index <= r.N_var
    &&& forall|v: int, w: int|
        0 <= v < w < r.var_config@.len() ==> #[trigger] r.var_config@[v].index
            <= #[trigger] r.var_config@[w].index
}

/// Everything but the variational particle count and the sets is the
/// same in `post`.
pub open spec fn same_but_variational(pre: &reb_simulation, post: &reb_simulation) -> bool {
    &&& post.N == pre.N
    &&& post.status == pre.status
    &&& post.rand_seed == pre.rand_seed
    &&& post.save_messages == pre.save_messages
    &&& post.messages@ == pre.messages@
    &&& post.stderr_queue@ == pre.stderr_queue@
    &&& post.messages_var_rescale_warning == pre.messages_var_rescale_warning
    &&& post.is_synchronized == pre.is_synchronized
    &&& post.did_modify_particles == pre.did_modify_particles
    &&& post.calculate_megno == pre.calculate_megno
    &&& post.megno_n == pre.megno_n
}

/// `post` is `pre` after adding the set `cfg` of variational equations
/// that follows `testparticle`: the set is appended, it starts at the old
/// end of the variational particles, and they grow by its block.
pub open spec fn variational_set_added(
    pre: &reb_simulation,
    post: &reb_simulation,
    cfg: reb_variational_configuration,
) -> bool {
    &&& cfg.index == pre.N_var
    &&& post.N_var == pre.N_var + variational_block_len(pre.N, cfg.testparticle)
    &&& post.var_config@ == pre.var_config@.push(cfg)
    &&& same_but_variational(pre, post)
}

/// Law: two sets added one after the other get adjacent blocks of
/// variational particles that do not overlap: the second starts where the
/// first ends, each set's recorded index is the start of its own block,
/// and the variational particles end where the second block ends.
pub proof fn lemma_consecutive_sets_are_contiguous(
    r0: &reb_simulation,
    r1: &reb_simulation,
    r2: &reb_simulation,
    c1: reb_variational_configuration,
    c2: reb_variational_configuration,
)
    requires
        variational_set_added(r0, r1, c1),
        variational_set_added(r1, r2, c2),
    ensures
        c2.index == c1.index + variational_block_len(r0.N, c1.testparticle),
        c1.index + variational_block_len(r0.N, c1.testparticle) <= c2.index,
        r2.N_var == c2.index + variational_block_len(r1.N, c2.testparticle),
        r2.var_config@[r2.var_config@.len() - 2] == c1,
        r2.var_config@[r2.var_config@.len() - 1] == c2,
        r2.var_config@.len() == r0.var_config@.len() + 2,
{
}

/// Law: a set that follows a test particle takes exactly one variational
/// particle, whatever the number of particles; a set that follows all
/// particles takes one per particle. The set starts at the old end of the
/// variational particles, and the sets before it are kept.
pub proof fn lemma_variational_set_size(
    pre: &reb_simulation,
    post: &reb_simulation,
    cfg: reb_variational_configuration,
)
    requires
        variational_set_added(pre, post, cfg),
    ensures
        cfg.testparticle >= 0 ==> post.N_var == pre.N_var + 1,
        cfg.testparticle < 0 ==> post.N_var == pre.N_var + pre.N,
        cfg.index == pre.N_var,
        post.var_config@.len() == pre.var_config@.len() + 1,
        forall|v: int| 0 <= v < pre.var_config@.len() ==> #[trigger] post.var_config@[v] == pre.var_config@[v],
        post.var_config@[pre.var_config@.len() as int] == cfg,
{
}

fn reb_simulation_add_var_particle_local(r: &mut reb_simulation, N_var_add: usize)
    requires
        old(r).N_var + N_var_add <= usize::MAX,
    ensures
        final(r).N_var == old(r).N_var + N_var_add,
        final(r).var_config@ == old(r).var_config@,
        same_but_variational(old(r), final(r)),
{
    r.N_var = r.N_var + N_var_add;
}

/// Adds a set of first order variational equations, following the test
/// particle `testparticle` when it is not negative and all particles
/// otherwise. Its particles are appended to the variational particles;
/// the index of the first of them is returned.
pub fn reb_simulation_add_variation_1st_order(r: &mut reb_simulation, testparticle: i32) -> (index: usize)
    requires
        old(r).N_var + variational_block_len(old(r).N, testparticle) <= usize::MAX,
    ensures
        index == old(r).N_var,
        variational_set_added(
            old(r),
            final(r),
            (reb_variational_configuration {
                order: 1,
                index: old(r).N_var,
                testparticle,
                index_1st_order_a: 0,
                index_1st_order_b: 0,
            }),
        ),
        testparticle >= 0 ==> final(r).N_var == old(r).N_var + 1,
        testparticle < 0 ==> final(r).N_var == old(r).N_var + old(r).N,
        variational_layout_ok(old(r)) ==> variational_layout_ok(final(r)),
{
    let index = r.N_var;
    r.var_config.push(
        reb_variational_configuration {
            order: 1,
            index,
            testparticle,
            index_1st_order_a: 0,
            index_1st_order_b: 0,
        },
    );
    if testparticle >= 0 {
        reb_simulation_add_var_particle_local(r, 1);
    } else {
        let n = r.N;
        reb_simulation_add_var_particle_local(r, n);
    }
    index
}

/// Adds a set of second order variational equations built on the first
/// order sets starting at `index_1st_order_a` and `index_1st_order_b`,
/// following the test particle `testparticle` when it is not negative
/// and all particles otherwise. Returns the index of its first particle.
pub fn reb_simulation_add_variation_2nd_order(
    r: &mut reb_simulation,
    testparticle: i32,
    index_1st_order_a: usize,
    index_1st_order_b: usize,
) -> (index: usize)
    requires
        old(r).N_var + variational_block_len(old(r).N, testparticle) <= usize::MAX,
    ensures
        index == old(r).N_var,
        variational_set_added(
            old(r),
            final(r),
            (reb_variational_configuration {
                order: 2,
                index: old(r).N_var,
                testparticle,
                index_1st_order_a,
                index_1st_order_b,
            }),
        ),
        testparticle >= 0 ==> final(r).N_var == old(r).N_var + 1,
        testparticle < 0 ==> final(r).N_var == old(r).N_var + old(r).N,
        variational_layout_ok(old(r)) ==> variational_layout_ok(final(r)),
{
    let index = r.N_var;
    r.var_config.push(
        reb_variational_configuration {
            order: 2,
            index,
            testparticle,
            index_1st_order_a,
            index_1st_order_b,
        },
    );
    if testparticle >= 0 {
        reb_simulation_add_var_particle_local(r, 1);
    } else {
        let n = r.N;
        reb_simulation_add_var_particle_local(r, n);
    }
    index
}

/// `post` is `pre` after starting MEGNO: the MEGNO sample count is reset,
/// MEGNO is switched on, and a set of first order variational equations
/// for all particles is added at the end of the variational particles.
pub open spec fn megno_started(pre: &reb_simulation, post: &reb_simulation) -> bool {
    &&& post.megno_n == 0
    &&& post.calculate_megno == 1
    &&& post.N_var == pre.N_var + pre.N
    &&& post.var_config@ == pre.var_config@.push(
        (reb_variational_configuration {
            order: 1,
            index: pre.N_var,
            testparticle: -1i32,
            index_1st_order_a: 0,
            index_1st_order_b: 0,
        }),
    )
    &&& post.N == pre.N
    &&& post.status == pre.status
    &&& post.save_messages == pre.save_messages
    &&& post.messages@ == pre.messages@
    &&& post.stderr_queue@ == pre.stderr_queue@
    &&& post.messages_var_rescale_warning == pre.messages_var_rescale_warning
    &&& post.is_synchronized == pre.is_synchronized
    &&& post.did_modify_particles == pre.did_modify_particles
}

/// Two simulations hold the same bookkeeping in every field.
pub open spec fn same_bookkeeping(a: &reb_simulation, b: &reb_simulation) -> bool {
    &&& a.N == b.N
    &&& a.N_var == b.N_var
    &&& a.var_config@ == b.var_config@
    &&& a.status == b.status
    &&& a.rand_seed == b.rand_seed
    &&& a.save_messages == b.save_messages
    &&& a.messages@ == b.messages@
    &&& a.stderr_queue@ == b.stderr_queue@
    &&& a.messages_var_rescale_warning == b.messages_var_rescale_warning
    &&& a.is_synchronized == b.is_synchronized
    &&& a.did_modify_particles == b.did_modify_particles
    &&& a.calculate_megno == b.calculate_megno
    &&& a.megno_n == b.megno_n
}

/// Law: starting MEGNO with a seed does not depend on the seed held
/// before. Two simulations that agree in everything but their seeds end
/// in the same state when both start MEGNO with the same seed `seed`, and
/// so draw the same random offsets afterwards.
pub proof fn lemma_init_megno_seed_forgets_old_seed(
    pre1: &reb_simulation,
    post1: &reb_simulation,
    pre2: &reb_simulation,
    post2: &reb_simulation,
    seed: u32,
)
    requires
        same_bookkeeping(pre1, &reb_simulation_with_seed(pre2, pre1.rand_seed)),
        megno_started(pre1, post1),
        post1.rand_seed == seed,
        megno_started(pre2, post2),
        post2.rand_seed == seed,
    ensures
        same_bookkeeping(post1, post2),
{
}

/// `r` with its seed replaced by `seed`.
pub open spec fn reb_simulation_with_seed(r: &reb_simulation, seed: u32) -> reb_simulation {
    reb_simulation { rand_seed: seed, ..*r }
}

/// Law: starting MEGNO adds exactly one set, of first order equations that
/// follow all particles, at the end of the variational particles, which
/// grow by one per particle; it resets the sample count and switches MEGNO
/// on, and keeps the earlier sets, the messages and the flags.
pub proof fn lemma_megno_started(pre: &reb_simulation, post: &reb_simulation)
    requires
        megno_started(pre, post),
    ensures
        post.var_config@.len() == pre.var_config@.len() + 1,
        forall|v: int| 0 <= v < pre.var_config@.len() ==> #[trigger] post.var_config@[v] == pre.var_config@[v],
        post.var_config@.last().order == 1,
        post.var_config@.last().testparticle < 0,
        post.var_config@.last().index == pre.N_var,
        post.N_var == pre.N_var + pre.N,
        post.megno_n == 0,
        post.calculate_megno == 1,
        post.messages@ == pre.messages@,
        post.stderr_queue@ == pre.stderr_queue@,
        post.messages_var_rescale_warning == pre.messages_var_rescale_warning,
{
}

/// Starts the MEGNO chaos indicator: resets its sample count, adds the
/// first order variational equations for all particles that it follows,
/// and switches it on. The caller initialises the floating-point MEGNO
/// running sums and draws the variational particles' starting values.
pub fn reb_simulation_init_megno(r: &mut reb_simulation)
    requires
        old(r).N_var + old(r).N <= usize::MAX,
    ensures
        megno_started(old(r), final(r)),
        final(r).rand_seed == old(r).rand_seed,
{
    r.megno_n = 0;
    reb_simulation_add_variation_1st_order(r, -1);
    r.calculate_megno = 1;
}

/// Sets the random seed, then starts MEGNO as `reb_simulation_init_megno`
/// does.
pub fn reb_simulation_init_megno_seed(r: &mut reb_simulation, seed: u32)
    requires
        old(r).N_var + old(r).N <= usize::MAX,
    ensures
        megno_started(old(r), final(r)),
        final(r).rand_seed == seed,
{
    r.rand_seed = seed;
    reb_simulation_init_megno(r);
}

/// Warning given when a first order set that a second order set is built
/// on gets rescaled.
pub open spec fn rescale_text_used_by_2nd_order() -> Seq<char> {
    "Rescaling a set of variational equations of order 1 which are being used by a set of variational equations of order 2. Order 2 equations will no longer be valid."@
}

/// Warning given when a second order set grows too large.
pub open spec fn rescale_text_2nd_order() -> Seq<char> {
    "Variational particles which are part of a second order variational equation have now large coordinates which might exceed range of floating point number range. REBOUND cannot rescale a second order variational equation as it is non-linear."@
}

/// Warning given when a set grows too large while the integrator is not
/// synchronized.
pub open spec fn rescale_text_not_synchronized() -> Seq<char> {
    "Variational particles have large coordinates which might exceed range of floating point numbers. Rescaling failed because integrator was not synchronized. Turn on safe_mode or manually synchronize. Then rescale."@
}

/// The text of the rescaling warning that goes with flag `flag` of
/// `messages_var_rescale_warning`.
pub open spec fn rescale_warning_text(flag: i32) -> Seq<char> {
    if flag == 4 {
        rescale_text_used_by_2nd_order()
    } else if flag == 2 {
        rescale_text_2nd_order()
    } else {
        rescale_text_not_synchronized()
    }
}

/// Some second order set among `cfgs` is built on the first order set
/// that starts at `index`.
pub open spec fn used_by_2nd_order(cfgs: Seq<reb_variational_configuration>, index: usize) -> bool {
    exists|w: int|
        0 <= w < cfgs.len() && (#[trigger] cfgs[w]).order == 2 && (cfgs[w].index_1st_order_a
            == index || cfgs[w].index_1st_order_b == index)
}

/// The state of a rescaling pass: the warning flags, the warnings given so
/// far (by their flags), the sets chosen for rescaling so far, and whether
/// the pass stopped.
pub type RescaleState = (i32, Seq<i32>, Seq<usize>, bool);

/// What a rescaling pass does with set `v`: nothing when it does not need
/// rescaling; for a first order set, warn once (flag 4) if a second order
/// set is built on it, then choose it for rescaling if the integrator is
/// synchronized, and otherwise warn once (flag 1) and stop; for any other
/// set, warn once (flag 2) and stop.
pub open spec fn rescale_step(
    cfgs: Seq<reb_variational_configuration>,
    needs: Seq<bool>,
    synchronized: i32,
    s: RescaleState,
    v: int,
) -> RescaleState {
    if !needs[v] {
        s
    } else if cfgs[v].order == 1 {
        let s1: RescaleState = if used_by_2nd_order(cfgs, cfgs[v].index) && s.0 & 4 == 0 {
            (s.0 | 4, s.1.push(4), s.2, s.3)
        } else {
            s
        };
        if synchronized == 0 {
            if s1.0 & 1 == 0 {
                (s1.0 | 1, s1.1.push(1), s1.2, true)
            } else {
                (s1.0, s1.1, s1.2, true)
            }
        } else {
            (s1.0, s1.1, s1.2.push(v as usize), false)
        }
    } else {
        if s.0 & 2 == 0 {
            (s.0 | 2, s.1.push(2), s.2, true)
        } else {
            (s.0, s.1, s.2, true)
        }
    }
}

/// The state of a rescaling pass after the first `n` sets, starting from
/// the warning flags `flags`; once the pass stops, later sets are not
/// looked at.
pub open spec fn rescale_pass(
    cfgs: Seq<reb_variational_configuration>,
    needs: Seq<bool>,
    synchronized: i32,
    flags: i32,
    n: nat,
) -> RescaleState
    decreases n,
{
    if n == 0 {
        (flags, Seq::empty(), Seq::empty(), false)
    } else {
        let s = rescale_pass(cfgs, needs, synchronized, flags, (n - 1) as nat);
        if s.3 {
            s
        } else {
            rescale_step(cfgs, needs, synchronized, s, n - 1)
        }
    }
}

/// The message log and the standard error queue after reporting the
/// rescaling warnings with flags `flags` in turn, starting from `log` and
/// `pending`.
pub open spec fn report_warnings(
    save_messages: i32,
    log: Seq<(REB_MESSAGE_TYPE, Seq<char>)>,
    pending: Seq<(REB_MESSAGE_TYPE, Seq<char>)>,
    flags: Seq<i32>,
) -> (Seq<(REB_MESSAGE_TYPE, Seq<char>)>, Seq<(REB_MESSAGE_TYPE, Seq<char>)>)
    decreases flags.len(),
{
    if flags.len() == 0 {
        (log, pending)
    } else {
        let prev = report_warnings(save_messages, log, pending, flags.drop_last());
        let m = (REB_MESSAGE_TYPE::WARNING, rescale_warning_text(flags.last()));
        if save_messages == 0 {
            (prev.0, prev.1.push(m))
        } else {
            (store_message(prev.0, m), prev.1)
        }
    }
}

proof fn lemma_rescale_pass_stays_stopped(
    cfgs: Seq<reb_variational_configuration>,
    needs: Seq<bool>,
    synchronized: i32,
    flags: i32,
    k: nat,
    n: nat,
)
    requires
        k <= n,
        rescale_pass(cfgs, needs, synchronized, flags, k).3,
    ensures
        rescale_pass(cfgs, needs, synchronized, flags, n) == rescale_pass(
            cfgs,
            needs,
            synchronized,
            flags,
            k,
        ),
    decreases n - k,
{
    if k < n {
        lemma_rescale_pass_stays_stopped(cfgs, needs, synchronized, flags, k, (n - 1) as nat);
    }
}

proof fn lemma_flag_set(x: i32, k: i32)
    requires
        k == 1 || k == 2 || k == 4,
    ensures
        (x | k) & k == k,
{
    assert((x | 1) & 1 == 1) by (bit_vector);
    assert((x | 2) & 2 == 2) by (bit_vector);
    assert((x | 4) & 4 == 4) by (bit_vector);
}

proof fn lemma_flag_kept(x: i32, k: i32, j: i32)
    requires
        k == 1 || k == 2 || k == 4,
        j == 1 || j == 2 || j == 4,
        x & j != 0,
    ensures
        (x | k) & j != 0,
{
    assert((x | k) & j != 0) by (bit_vector)
        requires
            k == 1 || k == 2 || k == 4,
            j == 1 || j == 2 || j == 4,
            x & j != 0,
    ;
}

/// Law: a rescaling pass chooses a set only if it needs rescaling, is of
/// first order, and the integrator is synchronized; it chooses sets in
/// increasing order, each at most once.
pub proof fn lemma_rescale_chooses_first_order_when_synchronized(
    cfgs: Seq<reb_variational_configuration>,
    needs: Seq<bool>,
    synchronized: i32,
    flags: i32,
    n: nat,
)
    requires
        n <= cfgs.len() <= usize::MAX,
        n <= needs.len(),
    ensures
        ({
            let p = rescale_pass(cfgs, needs, synchronized, flags, n);
            &&& forall|i: int|
                0 <= i < p.2.len() ==> {
                    &&& #[trigger] p.2[i] < n
                    &&& needs[p.2[i] as int]
                    &&& cfgs[p.2[i] as int].order == 1
                    &&& synchronized != 0
                }
            &&& forall|i: int, j: int| 0 <= i < j < p.2.len() ==> #[trigger] p.2[i] < #[trigger] p.2[j]
        }),
    decreases n,
{
    if n > 0 {
        lemma_rescale_chooses_first_order_when_synchronized(
            cfgs,
            needs,
            synchronized,
            flags,
            (n - 1) as nat,
        );
        let s = rescale_pass(cfgs, needs, synchronized, flags, (n - 1) as nat);
        let p = rescale_pass(cfgs, needs, synchronized, flags, n);
        if p.2.len() > s.2.len() {
            let v = n - 1;
            let s1: RescaleState = if used_by_2nd_order(cfgs, cfgs[v].index) && s.0 & 4 == 0 {
                (s.0 | 4, s.1.push(4), s.2, s.3)
            } else {
                s
            };
            assert(needs[v] && cfgs[v].order == 1 && synchronized != 0);
            assert(p.2 == s.2.push(v as usize));
            assert((v as usize) as int == v);
            assert forall|i: int| 0 <= i < s.2.len() implies #[trigger] p.2[i] < p.2[s.2.len() as int] by {
                assert(p.2[i] == s.2[i]);
            }
        } else {
            assert(p.2 == s.2);
        }
    }
}

/// Law: each rescaling warning is given at most once per simulation. A
/// pass gives the warning that goes with a flag of
/// `messages_var_rescale_warning` only when that flag is clear, sets the
/// flag when it gives the warning, never clears a flag, and gives each
/// warning at most once.
pub proof fn lemma_rescale_warns_once(
    cfgs: Seq<reb_variational_configuration>,
    needs: Seq<bool>,
    synchronized: i32,
    flags: i32,
    n: nat,
)
    requires
        n <= cfgs.len(),
        n <= needs.len(),
    ensures
        ({
            let p = rescale_pass(cfgs, needs, synchronized, flags, n);
            &&& forall|k: i32| (k == 1 || k == 2 || k == 4) && flags & k != 0 ==> #[trigger] (p.0 & k) != 0
            &&& forall|i: int|
                0 <= i < p.1.len() ==> {
                    &&& (p.1[i] == 1 || p.1[i] == 2 || p.1[i] == 4)
                    &&& flags & #[trigger] p.1[i] == 0
                    &&& p.0 & p.1[i] != 0
                }
            &&& forall|i: int, j: int| 0 <= i < j < p.1.len() ==> #[trigger] p.1[i] != #[trigger] p.1[j]
        }),
    decreases n,
{
    if n > 0 {
        lemma_rescale_warns_once(cfgs, needs, synchronized, flags, (n - 1) as nat);
        let s = rescale_pass(cfgs, needs, synchronized, flags, (n - 1) as nat);
        if !s.3 && needs[n - 1] {
            let v = n - 1;
            let s1: RescaleState = if cfgs[v].order == 1 && used_by_2nd_order(cfgs, cfgs[v].index)
                && s.0 & 4 == 0 {
                (s.0 | 4, s.1.push(4), s.2, s.3)
            } else {
                s
            };
            assert forall|k: i32| (k == 1 || k == 2 || k == 4) && s.0 & k != 0 implies #[trigger] (
            s1.0 & k) != 0 by {
                if s1.0 != s.0 {
                    lemma_flag_kept(s.0, 4, k);
                }
            }
            assert forall|i: int| 0 <= i < s1.1.len() implies s1.0 & #[trigger] s1.1[i] != 0 by {
                if i < s.1.len() {
                    if s1.0 != s.0 {
                        lemma_flag_kept(s.0, 4, s.1[i]);
                    }
                } else {
                    lemma_flag_set(s.0, 4);
                }
            }
            let p = rescale_pass(cfgs, needs, synchronized, flags, n);
            let k: i32 = if cfgs[v].order == 1 {
                1
            } else {
                2
            };
            let base: RescaleState = if cfgs[v].order == 1 {
                s1
            } else {
                s
            };
            if p.1.len() > base.1.len() {
                assert(p.0 == base.0 | k && p.1 == base.1.push(k));
                assert forall|j: i32| (j == 1 || j == 2 || j == 4) && base.0 & j != 0 implies #[trigger] (
                p.0 & j) != 0 by {
                    lemma_flag_kept(base.0, k, j);
                }
                assert forall|i: int| 0 <= i < p.1.len() implies p.0 & #[trigger] p.1[i] != 0 by {
                    if i < base.1.len() {
                        lemma_flag_kept(base.0, k, base.1[i]);
                    } else {
                        lemma_flag_set(base.0, k);
                    }
                }
            }
        }
    }
}

/// Set `w` stops a rescaling pass when it is reached: it needs rescaling
/// and is not a first order set, or the integrator is not synchronized.
pub open spec fn rescale_stops_at(
    cfgs: Seq<reb_variational_configuration>,
    needs: Seq<bool>,
    synchronized: i32,
    w: int,
) -> bool {
    needs[w] && (cfgs[w].order != 1 || synchronized == 0)
}

/// A rescaling pass reaches set `v`: no earlier set stops it.
pub open spec fn rescale_reaches(
    cfgs: Seq<reb_variational_configuration>,
    needs: Seq<bool>,
    synchronized: i32,
    v: int,
) -> bool {
    forall|w: int| 0 <= w < v ==> !#[trigger] rescale_stops_at(cfgs, needs, synchronized, w)
}

/// Law: a rescaling pass over the first `n` sets stops exactly when one of
/// them needs rescaling and is not a first order set, or needs rescaling
/// while the integrator is not synchronized; it chooses exactly the first
/// order sets that need rescaling, while the integrator is synchronized,
/// and that come before every set that stops it. Sets that do not need
/// rescaling neither are chosen nor stop the pass.
pub proof fn lemma_rescale_chooses_law(
    cfgs: Seq<reb_variational_configuration>,
    needs: Seq<bool>,
    synchronized: i32,
    flags: i32,
    n: nat,
)
    requires
        n <= cfgs.len() <= usize::MAX,
        n <= needs.len(),
    ensures
        ({
            let p = rescale_pass(cfgs, needs, synchronized, flags, n);
            &&& p.3 <==> exists|w: int|
                0 <= w < n && #[trigger] rescale_stops_at(cfgs, needs, synchronized, w)
            &&& forall|v: int|
                0 <= v < n ==> (#[trigger] p.2.contains(v as usize) <==> {
                    &&& needs[v]
                    &&& cfgs[v].order == 1
                    &&& synchronized != 0
                    &&& rescale_reaches(cfgs, needs, synchronized, v)
                })
        }),
    decreases n,
{
    if n > 0 {
        let m = (n - 1) as nat;
        lemma_rescale_chooses_law(cfgs, needs, synchronized, flags, m);
        lemma_rescale_chooses_first_order_when_synchronized(cfgs, needs, synchronized, flags, m);
        let s = rescale_pass(cfgs, needs, synchronized, flags, m);
        let p = rescale_pass(cfgs, needs, synchronized, flags, n);
        let chosen_now = !s.3 && needs[m as int] && cfgs[m as int].order == 1 && synchronized != 0;
        if chosen_now {
            assert(p.2 == s.2.push(m as usize));
        } else {
            assert(p.2 == s.2);
        }
        if !s.3 {
            assert forall|w: int| 0 <= w < m implies !#[trigger] rescale_stops_at(
                cfgs,
                needs,
                synchronized,
                w,
            ) by {}
            assert(rescale_reaches(cfgs, needs, synchronized, m as int));
        } else {
            let w0 = choose|w: int| 0 <= w < m && #[trigger] rescale_stops_at(cfgs, needs, synchronized, w);
            assert(!rescale_reaches(cfgs, needs, synchronized, m as int));
        }
        assert(p.3 == (s.3 || rescale_stops_at(cfgs, needs, synchronized, m as int)));
        if p.3 && !s.3 {
            assert(rescale_stops_at(cfgs, needs, synchronized, m as int));
        }
        assert forall|v: int| 0 <= v < n implies (#[trigger] p.2.contains(v as usize) <==> {
            &&& needs[v]
            &&& cfgs[v].order == 1
            &&& synchronized != 0
            &&& rescale_reaches(cfgs, needs, synchronized, v)
        }) by {
            if v < m {
                if s.2.contains(v as usize) {
                    let i = choose|i: int| 0 <= i < s.2.len() && s.2[i] == v as usize;
                    assert(p.2[i] == s.2[i]);
                }
                if p.2.contains(v as usize) {
                    let i = choose|i: int| 0 <= i < p.2.len() && p.2[i] == v as usize;
                    if i == s.2.len() {
                        assert(p.2[i] == m as usize);
                    } else {
                        assert(p.2[i] == s.2[i]);
                    }
                }
            } else {
                if s.2.contains(v as usize) {
                    let i = choose|i: int| 0 <= i < s.2.len() && s.2[i] == v as usize;
                    assert(s.2[i] < m);
                }
                if chosen_now {
                    assert(p.2[s.2.len() as int] == v as usize);
                }
            }
        }
    }
}

/// A rescaling pass over the first `n` sets reaches a first order set that
/// needs rescaling and that a second order set is built on.
pub open spec fn rescale_meets_used_set(
    cfgs: Seq<reb_variational_configuration>,
    needs: Seq<bool>,
    synchronized: i32,
    n: int,
) -> bool {
    exists|v: int|
        0 <= v < n && needs[v] && cfgs[v].order == 1 && used_by_2nd_order(cfgs, cfgs[v].index)
            && #[trigger] rescale_reaches(cfgs, needs, synchronized, v)
}

/// A rescaling pass over the first `n` sets reaches a set of another order
/// than the first that needs rescaling.
pub open spec fn rescale_meets_2nd_order(
    cfgs: Seq<reb_variational_configuration>,
    needs: Seq<bool>,
    synchronized: i32,
    n: int,
) -> bool {
    exists|v: int|
        0 <= v < n && needs[v] && cfgs[v].order != 1 && #[trigger] rescale_reaches(
            cfgs,
            needs,
            synchronized,
            v,
        )
}

/// A rescaling pass over the first `n` sets reaches a first order set that
/// needs rescaling while the integrator is not synchronized.
pub open spec fn rescale_meets_unsynchronized(
    cfgs: Seq<reb_variational_configuration>,
    needs: Seq<bool>,
    synchronized: i32,
    n: int,
) -> bool {
    exists|v: int|
        0 <= v < n && needs[v] && cfgs[v].order == 1 && synchronized == 0
            && #[trigger] rescale_reaches(cfgs, needs, synchronized, v)
}

/// `x` with flag `k` set when `b` holds.
pub open spec fn flag_if(x: i32, b: bool, k: i32) -> i32 {
    if b {
        x | k
    } else {
        x
    }
}

/// The warning with flag `k` when `b` holds, nothing otherwise.
pub open spec fn warning_if(b: bool, k: i32) -> Seq<i32> {
    if b {
        seq![k]
    } else {
        Seq::empty()
    }
}

proof fn lemma_flag_bits(x: i32)
    ensures
        (x | 4) & 2 == x & 2,
        (x | 4) & 1 == x & 1,
        x & 4 != 0 ==> x | 4 == x,
        x & 2 != 0 ==> x | 2 == x,
        x & 1 != 0 ==> x | 1 == x,
        (x | 4) & 4 != 0,
        (x | 2) & 2 != 0,
        (x | 1) & 1 != 0,
{
    assert((x | 4) & 2 == x & 2) by (bit_vector);
    assert((x | 4) & 1 == x & 1) by (bit_vector);
    assert(x & 4 != 0 ==> x | 4 == x) by (bit_vector);
    assert(x & 2 != 0 ==> x | 2 == x) by (bit_vector);
    assert(x & 1 != 0 ==> x | 1 == x) by (bit_vector);
    assert((x | 4) & 4 != 0) by (bit_vector);
    assert((x | 2) & 2 != 0) by (bit_vector);
    assert((x | 1) & 1 != 0) by (bit_vector);
}

/// Law: the warnings of a rescaling pass, and the flags it leaves. The
/// warning about a set used by a second order set (flag 4) is given when
/// the pass reaches such a set that needs rescaling and the flag was
/// clear; the second order warning (flag 2) when the pass stops at a set of
/// another order than the first and the flag was clear; the not
/// synchronized warning (flag 1) when the pass stops at a first order set
/// because the integrator is not synchronized and the flag was clear. They
/// come in this order, and each of the three situations sets its flag.
pub proof fn lemma_rescale_warnings_law(
    cfgs: Seq<reb_variational_configuration>,
    needs: Seq<bool>,
    synchronized: i32,
    flags: i32,
    n: nat,
)
    requires
        n <= cfgs.len() <= usize::MAX,
        n <= needs.len(),
    ensures
        ({
            let p = rescale_pass(cfgs, needs, synchronized, flags, n);
            let u = rescale_meets_used_set(cfgs, needs, synchronized, n as int);
            let w2 = rescale_meets_2nd_order(cfgs, needs, synchronized, n as int);
            let w1 = rescale_meets_unsynchronized(cfgs, needs, synchronized, n as int);
            &&& p.0 == flag_if(flag_if(flag_if(flags, u, 4), w2, 2), w1, 1)
            &&& p.1 == warning_if(u && flags & 4 == 0, 4) + warning_if(w2 && flags & 2 == 0, 2)
                + warning_if(w1 && flags & 1 == 0, 1)
        }),
    decreases n,
{
    let p = rescale_pass(cfgs, needs, synchronized, flags, n);
    let u = rescale_meets_used_set(cfgs, needs, synchronized, n as int);
    let w2 = rescale_meets_2nd_order(cfgs, needs, synchronized, n as int);
    let w1 = rescale_meets_unsynchronized(cfgs, needs, synchronized, n as int);
    if n == 0 {
        assert(p.1 =~= warning_if(u && flags & 4 == 0, 4) + warning_if(w2 && flags & 2 == 0, 2)
            + warning_if(w1 && flags & 1 == 0, 1));
    } else {
        let m = (n - 1) as nat;
        let mi = m as int;
        lemma_rescale_warnings_law(cfgs, needs, synchronized, flags, m);
        lemma_rescale_chooses_law(cfgs, needs, synchronized, flags, m);
        lemma_flag_bits(flags);
        lemma_flag_bits(flags | 4);
        let s = rescale_pass(cfgs, needs, synchronized, flags, m);
        let um = rescale_meets_used_set(cfgs, needs, synchronized, mi);
        let w2m = rescale_meets_2nd_order(cfgs, needs, synchronized, mi);
        let w1m = rescale_meets_unsynchronized(cfgs, needs, synchronized, mi);
        if s.3 {
            let w0 = choose|w: int|
                0 <= w < m && #[trigger] rescale_stops_at(cfgs, needs, synchronized, w);
            assert(!rescale_reaches(cfgs, needs, synchronized, mi));
            assert(u == um);
            assert(w2 == w2m);
            assert(w1 == w1m);
            assert(p == s);
        } else {
            assert forall|w: int| 0 <= w < m implies !#[trigger] rescale_stops_at(
                cfgs,
                needs,
                synchronized,
                w,
            ) by {}
            assert(rescale_reaches(cfgs, needs, synchronized, mi));
            if w2m {
                let v = choose|v: int|
                    0 <= v < mi && needs[v] && cfgs[v].order != 1 && #[trigger] rescale_reaches(
                        cfgs,
                        needs,
                        synchronized,
                        v,
                    );
                assert(rescale_stops_at(cfgs, needs, synchronized, v));
            }
            if w1m {
                let v = choose|v: int|
                    0 <= v < mi && needs[v] && cfgs[v].order == 1 && synchronized == 0
                        && #[trigger] rescale_reaches(cfgs, needs, synchronized, v);
                assert(rescale_stops_at(cfgs, needs, synchronized, v));
            }
            assert(!w2m && !w1m);
            assert(s.0 == flag_if(flags, um, 4));
            assert(s.1 =~= warning_if(um && flags & 4 == 0, 4));
            let used_here = needs[mi] && cfgs[mi].order == 1 && used_by_2nd_order(
                cfgs,
                cfgs[mi].index,
            );
            assert(u == (um || used_here)) by {
                if u && !um {
                    let v = choose|v: int|
                        0 <= v < n && needs[v] && cfgs[v].order == 1 && used_by_2nd_order(
                            cfgs,
                            cfgs[v].index,
                        ) && #[trigger] rescale_reaches(cfgs, needs, synchronized, v);
                    assert(v == mi);
                }
                if used_here {
                    assert(rescale_reaches(cfgs, needs, synchronized, mi));
                }
            }
            let second_here = needs[mi] && cfgs[mi].order != 1;
            assert(w2 == second_here) by {
                if w2 {
                    let v = choose|v: int|
                        0 <= v < n && needs[v] && cfgs[v].order != 1 && #[trigger] rescale_reaches(
                            cfgs,
                            needs,
                            synchronized,
                            v,
                        );
                    assert(v == mi);
                }
                if second_here {
                    assert(rescale_reaches(cfgs, needs, synchronized, mi));
                }
            }
            let unsync_here = needs[mi] && cfgs[mi].order == 1 && synchronized == 0;
            assert(w1 == unsync_here) by {
                if w1 {
                    let v = choose|v: int|
                        0 <= v < n && needs[v] && cfgs[v].order == 1 && synchronized == 0
                            && #[trigger] rescale_reaches(cfgs, needs, synchronized, v);
                    assert(v == mi);
                }
                if unsync_here {
                    assert(rescale_reaches(cfgs, needs, synchronized, mi));
                }
            }
            if !needs[mi] {
                assert(p == s);
                assert(p.1 =~= warning_if(u && flags & 4 == 0, 4) + warning_if(w2 && flags & 2 == 0, 2)
                    + warning_if(w1 && flags & 1 == 0, 1));
            } else if cfgs[mi].order == 1 {
                let s1: RescaleState = if used_by_2nd_order(cfgs, cfgs[mi].index) && s.0 & 4 == 0 {
                    (s.0 | 4, s.1.push(4), s.2, s.3)
                } else {
                    s
                };
                assert(s1.0 == flag_if(flags, u, 4));
                assert(s1.1 =~= warning_if(u && flags & 4 == 0, 4));
                assert(s1.0 & 1 == flags & 1);
                assert(p.1 =~= warning_if(u && flags & 4 == 0, 4) + warning_if(w2 && flags & 2 == 0, 2)
                    + warning_if(w1 && flags & 1 == 0, 1));
            } else {
                assert(s.0 & 2 == flags & 2);
                assert(p.1 =~= warning_if(u && flags & 4 == 0, 4) + warning_if(w2 && flags & 2 == 0, 2)
                    + warning_if(w1 && flags & 1 == 0, 1));
            }
        }
    }
}

proof fn lemma_rescale_laws(
    cfgs: Seq<reb_variational_configuration>,
    needs: Seq<bool>,
    synchronized: i32,
    flags: i32,
)
    requires
        cfgs.len() <= usize::MAX,
        cfgs.len() <= needs.len(),
    ensures
        ({
            let n = cfgs.len() as int;
            let p = rescale_pass(cfgs, needs, synchronized, flags, cfgs.len());
            let u = rescale_meets_used_set(cfgs, needs, synchronized, n);
            let w2 = rescale_meets_2nd_order(cfgs, needs, synchronized, n);
            let w1 = rescale_meets_unsynchronized(cfgs, needs, synchronized, n);
            &&& forall|v: int|
                0 <= v < n ==> (#[trigger] p.2.contains(v as usize) <==> {
                    &&& needs[v]
                    &&& cfgs[v].order == 1
                    &&& synchronized != 0
                    &&& rescale_reaches(cfgs, needs, synchronized, v)
                })
            &&& p.0 == flag_if(flag_if(flag_if(flags, u, 4), w2, 2), w1, 1)
            &&& p.1 == warning_if(u && flags & 4 == 0, 4) + warning_if(w2 && flags & 2 == 0, 2)
                + warning_if(w1 && flags & 1 == 0, 1)
        }),
{
    lemma_rescale_chooses_law(cfgs, needs, synchronized, flags, cfgs.len());
    lemma_rescale_warnings_law(cfgs, needs, synchronized, flags, cfgs.len());
}

/// Law: a simulation that does not keep its messages queues every
/// rescaling warning for standard error, in order, after the messages
/// already queued, and leaves its log alone; one that keeps them leaves the
/// queue alone.
pub proof fn lemma_rescale_warnings_queued(
    save_messages: i32,
    log: Seq<(REB_MESSAGE_TYPE, Seq<char>)>,
    pending: Seq<(REB_MESSAGE_TYPE, Seq<char>)>,
    flags: Seq<i32>,
)
    ensures
        save_messages == 0 ==> report_warnings(save_messages, log, pending, flags) == (
            log,
            pending + flags.map_values(
                |k: i32| (REB_MESSAGE_TYPE::WARNING, rescale_warning_text(k)),
            ),
        ),
        save_messages != 0 ==> report_warnings(save_messages, log, pending, flags).1 == pending,
    decreases flags.len(),
{
    if flags.len() > 0 {
        lemma_rescale_warnings_queued(save_messages, log, pending, flags.drop_last());
        let f = |k: i32| (REB_MESSAGE_TYPE::WARNING, rescale_warning_text(k));
        assert(flags.map_values(f) =~= flags.drop_last().map_values(f).push(f(flags.last())));
        assert(pending + flags.map_values(f) =~= (pending + flags.drop_last().map_values(f)).push(
            f(flags.last()),
        ));
    } else {
        assert(pending + flags.map_values(
            |k: i32| (REB_MESSAGE_TYPE::WARNING, rescale_warning_text(k)),
        ) =~= pending);
    }
}

fn warn_rescale(
    r: &mut reb_simulation,
    msg: &str,
    Ghost(flag): Ghost<i32>,
    Ghost(given): Ghost<Seq<i32>>,
    Ghost(log0): Ghost<Seq<(REB_MESSAGE_TYPE, Seq<char>)>>,
    Ghost(pending0): Ghost<Seq<(REB_MESSAGE_TYPE, Seq<char>)>>,
)
    requires
        msg@ == rescale_warning_text(flag),
        (old(r).log(), old(r).pending()) == report_warnings(old(r).save_messages, log0, pending0, given),
    ensures
        (final(r).log(), final(r).pending()) == report_warnings(
            old(r).save_messages,
            log0,
            pending0,
            given.push(flag),
        ),
        old(r).same_but_messages(final(r)),
{
    reb_simulation_warning(r, msg);
    assert(given.push(flag).drop_last() =~= given);
}

/// Decides which sets of variational equations get rescaled.
/// `needs_rescale[v]` says whether set `v` must be looked at: its
/// `lrescale` is not negative and its largest coordinate or velocity
/// component in absolute value exceeds 1e100. Sets are looked at in order.
/// A first order set is chosen for rescaling when the integrator is
/// synchronized; a warning is given once per simulation (flag 4 of
/// `messages_var_rescale_warning`) if a second order set is built on it.
/// The pass stops at a second order set that needs rescaling (warning
/// once, flag 2) and, when the integrator is not synchronized, at the
/// first set that needs it (warning once, flag 1). Returns the sets chosen,
/// in order; the caller adds the logarithm of each one's scale to its
/// `lrescale` and divides its particles by that scale. When a set is
/// chosen, `did_modify_particles` becomes 1.
#[verifier::spinoff_prover]
pub fn reb_simulation_rescale_var(r: &mut reb_simulation, needs_rescale: &Vec<bool>) -> (rescaled: Vec<usize>)
    requires
        needs_rescale@.len() == old(r).var_config@.len(),
    ensures
        ({
            let pass = rescale_pass(
                old(r).var_config@,
                needs_rescale@,
                old(r).is_synchronized,
                old(r).messages_var_rescale_warning,
                old(r).var_config@.len(),
            );
            &&& rescaled@ == pass.2
            &&& final(r).messages_var_rescale_warning == pass.0
            &&& (final(r).log(), final(r).pending()) == report_warnings(
                old(r).save_messages,
                old(r).log(),
                old(r).pending(),
                pass.1,
            )
            &&& final(r).did_modify_particles == (if pass.2.len() > 0 {
                1
            } else {
                old(r).did_modify_particles
            })
        }),
        forall|v: int|
            0 <= v < old(r).var_config@.len() ==> (#[trigger] rescaled@.contains(v as usize) <==> {
                &&& needs_rescale@[v]
                &&& old(r).var_config@[v].order == 1
                &&& old(r).is_synchronized != 0
                &&& rescale_reaches(old(r).var_config@, needs_rescale@, old(r).is_synchronized, v)
            }),
        ({
            let cfgs = old(r).var_config@;
            let sync = old(r).is_synchronized;
            let flags = old(r).messages_var_rescale_warning;
            let len = cfgs.len() as int;
            let u = rescale_meets_used_set(cfgs, needs_rescale@, sync, len);
            let w2 = rescale_meets_2nd_order(cfgs, needs_rescale@, sync, len);
            let w1 = rescale_meets_unsynchronized(cfgs, needs_rescale@, sync, len);
            &&& final(r).messages_var_rescale_warning == flag_if(
                flag_if(flag_if(flags, u, 4), w2, 2),
                w1,
                1,
            )
            &&& (final(r).log(), final(r).pending()) == report_warnings(
                old(r).save_messages,
                old(r).log(),
                old(r).pending(),
                warning_if(u && flags & 4 == 0, 4) + warning_if(w2 && flags & 2 == 0, 2)
                    + warning_if(w1 && flags & 1 == 0, 1),
            )
        }),
        final(r).N == old(r).N,
        final(r).N_var == old(r).N_var,
        final(r).var_config@ == old(r).var_config@,
        final(r).status == old(r).status,
        final(r).rand_seed == old(r).rand_seed,
        final(r).save_messages == old(r).save_messages,
        final(r).is_synchronized == old(r).is_synchronized,
        final(r).calculate_megno == old(r).calculate_megno,
        final(r).megno_n == old(r).megno_n,
{
    let ghost cfgs = r.var_config@;
    let ghost needs = needs_rescale@;
    let ghost sync = r.is_synchronized;
    let ghost flags0 = r.messages_var_rescale_warning;
    let ghost log0 = r.log();
    let ghost pending0 = r.pending();
    let ghost pre = *r;
    let mut rescaled: Vec<usize> = Vec::new();
    let n = r.var_config.len();
    proof {
        lemma_rescale_laws(cfgs, needs, sync, flags0);
    }
    if n == 0 {
        return rescaled;
    }
    let mut v: usize = 0;
    while v < n
        invariant
            n == cfgs.len(),
            v <= n,
            needs.len() == n,
            r.var_config@ == cfgs,
            r.is_synchronized == sync,
            r.save_messages == pre.save_messages,
            r.N == pre.N,
            r.N_var == pre.N_var,
            r.status == pre.status,
            r.rand_seed == pre.rand_seed,
            r.calculate_megno == pre.calculate_megno,
            r.megno_n == pre.megno_n,
            needs == needs_rescale@,
            pre == *old(r),
            cfgs == pre.var_config@,
            sync == pre.is_synchronized,
            flags0 == pre.messages_var_rescale_warning,
            log0 == pre.log(),
            pending0 == pre.pending(),
            ({
                let s = rescale_pass(cfgs, needs, sync, flags0, v as nat);
                &&& !s.3
                &&& r.messages_var_rescale_warning == s.0
                &&& rescaled@ == s.2
                &&& (r.log(), r.pending()) == report_warnings(pre.save_messages, log0, pending0, s.1)
                &&& r.did_modify_particles == (if s.2.len() > 0 {
                    1
                } else {
                    pre.did_modify_particles
                })
            }),
        decreases n - v,
    {
        let ghost s = rescale_pass(cfgs, needs, sync, flags0, v as nat);
        if needs_rescale[v] {
            let vc = r.var_config[v];
            if vc.order == 1 {
                let mut w: usize = 0;
                while w < n
                    invariant
                        n == cfgs.len(),
                        w <= n,
                        v < n,
                        vc == cfgs[v as int],
                        pre == *old(r),
                        cfgs == pre.var_config@,
                        sync == pre.is_synchronized,
                        flags0 == pre.messages_var_rescale_warning,
                        log0 == pre.log(),
                        pending0 == pre.pending(),
                        r.var_config@ == cfgs,
                        r.is_synchronized == sync,
                        r.save_messages == pre.save_messages,
                        r.N == pre.N,
                        r.N_var == pre.N_var,
                        r.status == pre.status,
                        r.rand_seed == pre.rand_seed,
                        r.calculate_megno == pre.calculate_megno,
                        r.megno_n == pre.megno_n,
                        r.did_modify_particles == (if s.2.len() > 0 {
                            1
                        } else {
                            pre.did_modify_particles
                        }),
                        ({
                            let hit = exists|u: int|
                                0 <= u < w && (#[trigger] cfgs[u]).order == 2 && (
                                cfgs[u].index_1st_order_a == vc.index
                                    || cfgs[u].index_1st_order_b == vc.index);
                            if hit && s.0 & 4 == 0 {
                                &&& r.messages_var_rescale_warning == s.0 | 4
                                &&& (r.log(), r.pending()) == report_warnings(
                                    pre.save_messages,
                                    log0,
                                    pending0,
                                    s.1.push(4),
                                )
                            } else {
                                &&& r.messages_var_rescale_warning == s.0
                                &&& (r.log(), r.pending()) == report_warnings(
                                    pre.save_messages,
                                    log0,
                                    pending0,
                                    s.1,
                                )
                            }
                        }),
                    decreases n - w,
                {
                    let wc = r.var_config[w];
                    assert(wc == cfgs[w as int]);
                    proof {
                        lemma_flag_set(s.0, 4);
                    }
                    if wc.order == 2 && (wc.index_1st_order_a == vc.index
                        || wc.index_1st_order_b == vc.index) && (r.messages_var_rescale_warning
                        & 4) == 0 {
                        r.messages_var_rescale_warning = r.messages_var_rescale_warning | 4;
                        warn_rescale(
                            r,
                            "Rescaling a set of variational equations of order 1 which are being used by a set of variational equations of order 2. Order 2 equations will no longer be valid.",
                            Ghost(4),
                            Ghost(s.1),
                            Ghost(log0),
                            Ghost(pending0),
                        );
                    }
                    w = w + 1;
                }
                let ghost s1: RescaleState = if used_by_2nd_order(cfgs, vc.index) && s.0 & 4 == 0 {
                    (s.0 | 4, s.1.push(4), s.2, s.3)
                } else {
                    s
                };
                if r.is_synchronized == 0 {
                    if (r.messages_var_rescale_warning & 1) == 0 {
                        r.messages_var_rescale_warning = r.messages_var_rescale_warning | 1;
                        warn_rescale(
                            r,
                            "Variational particles have large coordinates which might exceed range of floating point numbers. Rescaling failed because integrator was not synchronized. Turn on safe_mode or manually synchronize. Then rescale.",
                            Ghost(1),
                            Ghost(s1.1),
                            Ghost(log0),
                            Ghost(pending0),
                        );
                    }
                    proof {
                        lemma_rescale_pass_stays_stopped(cfgs, needs, sync, flags0, (v + 1) as nat, n as nat);
                        lemma_rescale_laws(cfgs, needs, sync, flags0);
                        assert(rescaled@ == rescale_pass(cfgs, needs, sync, flags0, n as nat).2);
                    }
                    return rescaled;
                }
                rescaled.push(v);
                r.did_modify_particles = 1;
            } else {
                if (r.messages_var_rescale_warning & 2) == 0 {
                    r.messages_var_rescale_warning = r.messages_var_rescale_warning | 2;
                    warn_rescale(
                        r,
                        "Variational particles which are part of a second order variational equation have now large coordinates which might exceed range of floating point number range. REBOUND cannot rescale a second order variational equation as it is non-linear.",
                        Ghost(2),
                        Ghost(s.1),
                        Ghost(log0),
                        Ghost(pending0),
                    );
                }
                proof {
                    lemma_rescale_pass_stays_stopped(cfgs, needs, sync, flags0, (v + 1) as nat, n as nat);
                    lemma_rescale_laws(cfgs, needs, sync, flags0);
                    assert(rescaled@ == rescale_pass(cfgs, needs, sync, flags0, n as nat).2);
                }
                return rescaled;
            }
        }
        v = v + 1;
    }
    proof {
        lemma_rescale_laws(cfgs, needs, sync, flags0);
    }
    rescaled
}

/// The error reported when the center of mass cannot be moved because of
/// second order variational equations.
pub open spec fn com_second_order_text() -> Seq<char> {
    "move_to_com with 2nd order variational particles is not carried in rebound_rs."@
}

/// The sets whose variational particles are shifted when the simulation
/// moves to its center of mass, after looking at the first `n` sets, and
/// whether the move stopped: first order sets that follow all particles
/// are shifted, sets that follow a test particle are left alone, and the
/// first second order set that follows all particles stops the move.
pub open spec fn com_shift_pass(cfgs: Seq<reb_variational_configuration>, n: nat) -> (Seq<usize>, bool)
    decreases n,
{
    if n == 0 {
        (Seq::empty(), false)
    } else {
        let s = com_shift_pass(cfgs, (n - 1) as nat);
        let c = cfgs[n - 1];
        if s.1 || c.testparticle >= 0 {
            s
        } else if c.order == 2 {
            (s.0, true)
        } else if c.order == 1 {
            (s.0.push((n - 1) as usize), false)
        } else {
            s
        }
    }
}

/// Decides how the variational particles follow a move of the simulation
/// to its center of mass. Returns the sets whose particles the caller
/// shifts, in order, and whether the move goes on to the particles
/// themselves. A second order set that follows all particles stops the
/// move: an error is reported, and only the sets before it are shifted.
#[verifier::spinoff_prover]
pub fn reb_simulation_com_shift_sets(r: &mut reb_simulation) -> (res: (Vec<usize>, bool))
    ensures
        ({
            let p = com_shift_pass(old(r).var_config@, old(r).var_config@.len());
            &&& res.0@ == p.0
            &&& res.1 == !p.1
            &&& if p.1 {
                old(r).reported(final(r), REB_MESSAGE_TYPE::ERROR, com_second_order_text())
            } else {
                final(r).log() == old(r).log() && final(r).pending() == old(r).pending()
            }
        }),
        res.1 <==> !exists|w: int|
            0 <= w < old(r).var_config@.len() && stops_com_move(#[trigger] old(r).var_config@[w]),
        forall|v: int|
            0 <= v < old(r).var_config@.len() ==> (#[trigger] res.0@.contains(v as usize)
                <==> follows_com_move(old(r).var_config@, v)),
        old(r).same_but_messages(final(r)),
{
    let ghost cfgs = r.var_config@;
    let ghost pre = *r;
    let n = r.var_config.len();
    proof {
        lemma_com_shift_sets_law(cfgs, n as nat);
    }
    let mut sets: Vec<usize> = Vec::new();
    let mut v: usize = 0;
    while v < n
        invariant
            n == cfgs.len(),
            v <= n,
            r.var_config@ == cfgs,
            pre == *old(r),
            cfgs == pre.var_config@,
            *r == pre,
            ({
                let s = com_shift_pass(cfgs, v as nat);
                &&& !s.1
                &&& sets@ == s.0
            }),
        decreases n - v,
    {
        let vc = r.var_config[v];
        if vc.testparticle >= 0 {
        } else if vc.order == 2 {
            reb_simulation_error(r, "move_to_com with 2nd order variational particles is not carried in rebound_rs.");
            proof {
                lemma_com_shift_pass_stays_stopped(cfgs, (v + 1) as nat, n as nat);
                lemma_com_shift_sets_law(cfgs, n as nat);
            }
            return (sets, false);
        } else if vc.order == 1 {
            sets.push(v);
        }
        v = v + 1;
    }
    (sets, true)
}

/// A set that stops a move to the center of mass: second order equations
/// that follow all particles.
pub open spec fn stops_com_move(c: reb_variational_configuration) -> bool {
    c.order == 2 && c.testparticle < 0
}

/// Among the first `n` sets, set `v` is one whose particles follow a move
/// to the center of mass: first order, following all particles, and no
/// earlier set stops the move.
pub open spec fn follows_com_move(cfgs: Seq<reb_variational_configuration>, v: int) -> bool {
    &&& cfgs[v].order == 1
    &&& cfgs[v].testparticle < 0
    &&& forall|w: int| 0 <= w < v ==> !stops_com_move(#[trigger] cfgs[w])
}

/// Law: a move to the center of mass shifts exactly the first order sets
/// that follow all particles and come before every second order set that
/// follows all particles, in increasing order; sets that follow a test
/// particle, of any order, neither are shifted nor stop the move; the move
/// stops exactly when some second order set follows all particles.
pub proof fn lemma_com_shift_sets_law(cfgs: Seq<reb_variational_configuration>, n: nat)
    requires
        n <= cfgs.len() <= usize::MAX,
    ensures
        ({
            let p = com_shift_pass(cfgs, n);
            &&& p.1 <==> exists|w: int| 0 <= w < n && stops_com_move(#[trigger] cfgs[w])
            &&& forall|v: int|
                0 <= v < n ==> (#[trigger] p.0.contains(v as usize) <==> follows_com_move(cfgs, v))
            &&& forall|i: int| 0 <= i < p.0.len() ==> #[trigger] p.0[i] < n
            &&& forall|i: int, j: int| 0 <= i < j < p.0.len() ==> #[trigger] p.0[i] < #[trigger] p.0[j]
        }),
    decreases n,
{
    if n > 0 {
        let m = (n - 1) as nat;
        lemma_com_shift_sets_law(cfgs, m);
        let s = com_shift_pass(cfgs, m);
        let p = com_shift_pass(cfgs, n);
        let c = cfgs[m as int];
        if s.1 || c.testparticle >= 0 || c.order != 1 {
            assert(p.0 == s.0);
        } else {
            assert(p.0 == s.0.push(m as usize));
        }
        assert forall|v: int| 0 <= v < n implies (#[trigger] p.0.contains(v as usize)
            <==> follows_com_move(cfgs, v)) by {
            if v < m {
                if p.0.contains(v as usize) && !s.0.contains(v as usize) {
                    assert(p.0 == s.0.push(m as usize));
                    let i = choose|i: int| 0 <= i < p.0.len() && p.0[i] == v as usize;
                    if i < s.0.len() {
                        assert(s.0[i] == p.0[i]);
                    }
                }
                if s.0.contains(v as usize) {
                    let i = choose|i: int| 0 <= i < s.0.len() && s.0[i] == v as usize;
                    assert(p.0[i] == s.0[i]);
                }
            } else {
                if s.0.contains(v as usize) {
                    let i = choose|i: int| 0 <= i < s.0.len() && s.0[i] == v as usize;
                }
                if follows_com_move(cfgs, v) {
                    assert(!s.1);
                    assert(p.0 == s.0.push(m as usize));
                    assert(p.0[s.0.len() as int] == v as usize);
                }
                if s.1 {
                    let w = choose|w: int| 0 <= w < m && stops_com_move(#[trigger] cfgs[w]);
                }
            }
        }
        if !s.1 && stops_com_move(c) {
            assert(stops_com_move(cfgs[m as int]));
        }
    }
}

proof fn lemma_com_shift_pass_stays_stopped(cfgs: Seq<reb_variational_configuration>, k: nat, n: nat)
    requires
        k <= n,
        com_shift_pass(cfgs, k).1,
    ensures
        com_shift_pass(cfgs, n) == com_shift_pass(cfgs, k),
    decreases n - k,
{
    if k < n {
        lemma_com_shift_pass_stays_stopped(cfgs, k, (n - 1) as nat);
    }
}

} // verus!
