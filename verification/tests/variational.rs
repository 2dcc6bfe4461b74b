use rebound_rs::{
    reb_integrator_whfast_state, reb_simulation, reb_simulation_add_variation_1st_order,
    reb_simulation_com_shift_sets,
    reb_simulation_add_variation_2nd_order, reb_simulation_init_megno,
    reb_simulation_init_megno_seed, reb_simulation_rescale_var, reb_variational_configuration,
    REB_MESSAGE_TYPE,
};

fn three_particles() -> reb_simulation {
    let mut r = reb_simulation::new(1);
    r.N = 3;
    r
}

#[test]
fn first_order_set_for_all_particles() {
    let mut r = three_particles();
    let index = reb_simulation_add_variation_1st_order(&mut r, -1);
    assert_eq!(index, 0);
    assert_eq!(r.N_var, 3);
    assert_eq!(
        r.var_config,
        vec![reb_variational_configuration {
            order: 1,
            index: 0,
            testparticle: -1,
            index_1st_order_a: 0,
            index_1st_order_b: 0,
        }]
    );
}

#[test]
fn test_particle_set_takes_one_particle() {
    let mut r = three_particles();
    reb_simulation_add_variation_1st_order(&mut r, -1);
    let index = reb_simulation_add_variation_1st_order(&mut r, 2);
    assert_eq!(index, 3);
    assert_eq!(r.N_var, 4);
    assert_eq!(r.var_config[1].testparticle, 2);
}

#[test]
fn second_order_set_records_its_first_order_sets() {
    let mut r = three_particles();
    let a = reb_simulation_add_variation_1st_order(&mut r, -1);
    let b = reb_simulation_add_variation_1st_order(&mut r, -1);
    let c = reb_simulation_add_variation_2nd_order(&mut r, -1, a, b);
    assert_eq!((a, b, c), (0, 3, 6));
    assert_eq!(r.N_var, 9);
    assert_eq!(r.var_config[2].order, 2);
    assert_eq!(r.var_config[2].index_1st_order_a, 0);
    assert_eq!(r.var_config[2].index_1st_order_b, 3);
}

#[test]
fn sets_follow_one_another() {
    let mut r = three_particles();
    let mut expected = 0;
    for tp in [-1, 0, -1, 1] {
        let index = reb_simulation_add_variation_1st_order(&mut r, tp);
        assert_eq!(index, expected);
        expected += if tp >= 0 { 1 } else { 3 };
    }
    assert_eq!(r.N_var, expected);
}

#[test]
fn init_megno_adds_a_set_and_switches_megno_on() {
    let mut r = three_particles();
    r.megno_n = 12;
    reb_simulation_init_megno(&mut r);
    assert_eq!(r.megno_n, 0);
    assert_eq!(r.calculate_megno, 1);
    assert_eq!(r.N_var, 3);
    assert_eq!(r.var_config.len(), 1);
    assert_eq!(r.var_config[0].testparticle, -1);
    assert_eq!(r.rand_seed, 1);
}

#[test]
fn init_megno_seed_sets_the_seed() {
    let mut r = three_particles();
    reb_simulation_init_megno_seed(&mut r, 99);
    assert_eq!(r.rand_seed, 99);
    assert_eq!(r.calculate_megno, 1);
    assert_eq!(r.N_var, 3);
}

#[test]
fn rescale_nothing_without_sets() {
    let mut r = three_particles();
    let chosen = reb_simulation_rescale_var(&mut r, &vec![]);
    assert!(chosen.is_empty());
    assert_eq!(r.did_modify_particles, 0);
}

#[test]
fn rescale_chooses_large_first_order_sets() {
    let mut r = three_particles();
    reb_simulation_add_variation_1st_order(&mut r, -1);
    reb_simulation_add_variation_1st_order(&mut r, -1);
    reb_simulation_add_variation_1st_order(&mut r, 0);
    let chosen = reb_simulation_rescale_var(&mut r, &vec![true, false, true]);
    assert_eq!(chosen, vec![0, 2]);
    assert_eq!(r.did_modify_particles, 1);
    assert!(r.stderr_queue.is_empty());
    assert_eq!(r.messages_var_rescale_warning, 0);
}

#[test]
fn rescale_warns_once_about_sets_used_by_second_order() {
    let mut r = three_particles();
    let a = reb_simulation_add_variation_1st_order(&mut r, -1);
    let b = reb_simulation_add_variation_1st_order(&mut r, -1);
    reb_simulation_add_variation_2nd_order(&mut r, -1, a, b);
    let chosen = reb_simulation_rescale_var(&mut r, &vec![true, true, false]);
    assert_eq!(chosen, vec![0, 1]);
    assert_eq!(r.messages_var_rescale_warning, 4);
    assert_eq!(r.stderr_queue.len(), 1);
    assert_eq!(r.stderr_queue[0].0, REB_MESSAGE_TYPE::WARNING);
    assert!(r.stderr_queue[0].1.starts_with("Rescaling a set of variational equations of order 1"));
    let again = reb_simulation_rescale_var(&mut r, &vec![true, false, false]);
    assert_eq!(again, vec![0]);
    assert_eq!(r.stderr_queue.len(), 1);
}

#[test]
fn rescale_stops_at_second_order_set() {
    let mut r = three_particles();
    let a = reb_simulation_add_variation_1st_order(&mut r, -1);
    reb_simulation_add_variation_2nd_order(&mut r, -1, a, a);
    reb_simulation_add_variation_1st_order(&mut r, -1);
    let chosen = reb_simulation_rescale_var(&mut r, &vec![false, true, true]);
    assert!(chosen.is_empty());
    assert_eq!(r.messages_var_rescale_warning, 2);
    assert_eq!(r.stderr_queue.len(), 1);
    assert!(r.stderr_queue[0].1.contains("second order variational equation"));
    assert_eq!(r.did_modify_particles, 0);
    let again = reb_simulation_rescale_var(&mut r, &vec![false, true, true]);
    assert!(again.is_empty());
    assert_eq!(r.stderr_queue.len(), 1);
}

#[test]
fn rescale_refuses_when_not_synchronized() {
    let mut r = three_particles();
    reb_simulation_add_variation_1st_order(&mut r, -1);
    reb_simulation_add_variation_1st_order(&mut r, -1);
    r.is_synchronized = 0;
    let chosen = reb_simulation_rescale_var(&mut r, &vec![true, true]);
    assert!(chosen.is_empty());
    assert_eq!(r.messages_var_rescale_warning, 1);
    assert_eq!(r.stderr_queue.len(), 1);
    assert!(r.stderr_queue[0].1.contains("not synchronized"));
}

#[test]
fn rescale_warnings_are_stored_when_saving() {
    let mut r = three_particles();
    r.save_messages = 1;
    reb_simulation_add_variation_1st_order(&mut r, -1);
    r.is_synchronized = 0;
    reb_simulation_rescale_var(&mut r, &vec![true]);
    assert!(r.stderr_queue.is_empty());
    assert_eq!(r.messages.len(), 1);
    assert_eq!(r.messages[0].0, REB_MESSAGE_TYPE::WARNING);
}

#[test]
fn whfast_state_default_is_all_zero() {
    let s = reb_integrator_whfast_state::default();
    assert_eq!(s.corrector, 0);
    assert_eq!(s.corrector2, 0);
    assert_eq!(s.kernel, 0);
    assert_eq!(s.coordinates, 0);
    assert_eq!(s.safe_mode, 0);
    assert_eq!(s.is_synchronized, 0);
    assert_eq!(s.recalculate_coordinates_but_not_synchronized_warning, 0);
}

#[test]
fn com_shift_sets_are_first_order_sets_for_all_particles() {
    let mut r = three_particles();
    reb_simulation_add_variation_1st_order(&mut r, -1);
    reb_simulation_add_variation_1st_order(&mut r, 1);
    reb_simulation_add_variation_1st_order(&mut r, -1);
    let (sets, proceed) = reb_simulation_com_shift_sets(&mut r);
    assert_eq!(sets, vec![0, 2]);
    assert!(proceed);
    assert!(r.stderr_queue.is_empty());
}

#[test]
fn com_shift_stops_at_second_order_set() {
    let mut r = three_particles();
    let a = reb_simulation_add_variation_1st_order(&mut r, -1);
    reb_simulation_add_variation_2nd_order(&mut r, -1, a, a);
    reb_simulation_add_variation_1st_order(&mut r, -1);
    let (sets, proceed) = reb_simulation_com_shift_sets(&mut r);
    assert_eq!(sets, vec![0]);
    assert!(!proceed);
    assert_eq!(r.stderr_queue.len(), 1);
    assert_eq!(r.stderr_queue[0].0, REB_MESSAGE_TYPE::ERROR);
    assert_eq!(
        r.stderr_queue[0].1,
        "move_to_com with 2nd order variational particles is not carried in rebound_rs."
    );
}

#[test]
fn com_shift_ignores_second_order_test_particle_sets() {
    let mut r = three_particles();
    let a = reb_simulation_add_variation_1st_order(&mut r, 0);
    reb_simulation_add_variation_2nd_order(&mut r, 0, a, a);
    let (sets, proceed) = reb_simulation_com_shift_sets(&mut r);
    assert!(sets.is_empty());
    assert!(proceed);
    assert!(r.stderr_queue.is_empty());
}
