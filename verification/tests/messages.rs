use rebound_rs::{
    reb_integrator_ias15_step, reb_integrator_leapfrog_step, reb_integrator_whfast_step,
    reb_message, reb_messages_max_N, reb_simulation, reb_simulation_error, reb_simulation_info,
    reb_simulation_warning, REB_MESSAGE_TYPE, REB_STATUS_GENERIC_ERROR, REB_STATUS_RUNNING,
};

#[test]
fn new_simulation_is_empty_and_running() {
    let r = reb_simulation::new(7);
    assert_eq!(r.N, 0);
    assert_eq!(r.N_var, 0);
    assert!(r.var_config.is_empty());
    assert_eq!(r.status, REB_STATUS_RUNNING);
    assert_eq!(r.rand_seed, 7);
    assert_eq!(r.is_synchronized, 1);
    assert!(r.messages.is_empty());
    assert!(r.stderr_queue.is_empty());
}

#[test]
fn unsaved_messages_go_to_stderr_queue() {
    let mut r = reb_simulation::new(0);
    reb_simulation_warning(&mut r, "careful");
    reb_simulation_error(&mut r, "broken");
    reb_simulation_info(&mut r, "note");
    assert!(r.messages.is_empty());
    assert_eq!(
        r.stderr_queue,
        vec![
            (REB_MESSAGE_TYPE::WARNING, "careful".to_string()),
            (REB_MESSAGE_TYPE::ERROR, "broken".to_string()),
            (REB_MESSAGE_TYPE::INFO, "note".to_string()),
        ]
    );
}

#[test]
fn saved_messages_are_stored_in_order() {
    let mut r = reb_simulation::new(0);
    r.save_messages = 1;
    reb_message(&mut r, REB_MESSAGE_TYPE::INFO, "first");
    reb_simulation_warning(&mut r, "second");
    assert!(r.stderr_queue.is_empty());
    assert_eq!(
        r.messages,
        vec![
            (REB_MESSAGE_TYPE::INFO, "first".to_string()),
            (REB_MESSAGE_TYPE::WARNING, "second".to_string()),
        ]
    );
}

#[test]
fn full_log_drops_its_oldest_message() {
    let mut r = reb_simulation::new(0);
    r.save_messages = 1;
    for i in 0..(reb_messages_max_N + 3) {
        reb_simulation_info(&mut r, &format!("message {}", i));
    }
    assert_eq!(r.messages.len(), reb_messages_max_N);
    assert_eq!(r.messages[0].1, "message 3");
    assert_eq!(r.messages[reb_messages_max_N - 1].1, format!("message {}", reb_messages_max_N + 2));
}

#[test]
fn log_keeps_exactly_max_messages_before_dropping() {
    let mut r = reb_simulation::new(0);
    r.save_messages = 1;
    for i in 0..reb_messages_max_N {
        reb_simulation_info(&mut r, &format!("m{}", i));
    }
    assert_eq!(r.messages.len(), reb_messages_max_N);
    assert_eq!(r.messages[0].1, "m0");
}

#[test]
fn ias15_step_reports_error_and_sets_status() {
    let mut r = reb_simulation::new(0);
    reb_integrator_ias15_step(&mut r);
    assert_eq!(r.status, REB_STATUS_GENERIC_ERROR);
    assert_eq!(r.stderr_queue.len(), 1);
    assert_eq!(r.stderr_queue[0].0, REB_MESSAGE_TYPE::ERROR);
    assert!(r.stderr_queue[0].1.contains("ias15"));
}

#[test]
fn leapfrog_step_reports_error_and_sets_status() {
    let mut r = reb_simulation::new(0);
    r.save_messages = 1;
    reb_integrator_leapfrog_step(&mut r);
    assert_eq!(r.status, REB_STATUS_GENERIC_ERROR);
    assert_eq!(r.messages.len(), 1);
    assert_eq!(r.messages[0].0, REB_MESSAGE_TYPE::ERROR);
    assert!(r.messages[0].1.contains("leapfrog"));
    assert!(r.stderr_queue.is_empty());
}

#[test]
fn whfast_step_reports_error_and_sets_status() {
    let mut r = reb_simulation::new(0);
    reb_integrator_whfast_step(&mut r);
    assert_eq!(r.status, REB_STATUS_GENERIC_ERROR);
    assert!(r.stderr_queue[0].1.contains("whfast"));
}

#[test]
fn integrator_steps_report_exact_error_texts() {
    for (step, name) in [
        (reb_integrator_ias15_step as fn(&mut reb_simulation), "ias15"),
        (reb_integrator_leapfrog_step, "leapfrog"),
        (reb_integrator_whfast_step, "whfast"),
    ] {
        let mut r = reb_simulation::new(0);
        step(&mut r);
        assert_eq!(
            r.stderr_queue,
            vec![(
                REB_MESSAGE_TYPE::ERROR,
                format!("Integrator '{}' is not available in this library.", name)
            )]
        );
        assert!(r.messages.is_empty());
    }
}
