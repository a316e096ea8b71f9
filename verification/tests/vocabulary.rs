use nvw::proto::{
    parse_status_arg, result_outcome_from_text, result_outcome_text, task_status_from_text,
    task_status_text, ResultOutcome, TaskStatus,
};
use nvw::swarm::{
    dihitoi, payload_shape_is_valid, solver_failed_metrics, Particle, SteppedParticleSwarm,
    SwarmError, D_VALS_LEN, H_VALS_LEN,
};

#[test]
fn status_texts_read_back() {
    for s in [TaskStatus::Pending, TaskStatus::Running, TaskStatus::Succeeded, TaskStatus::Failed] {
        assert_eq!(task_status_from_text(task_status_text(s)), s);
    }
    assert_eq!(task_status_text(TaskStatus::Succeeded), "succeeded");
    assert_eq!(task_status_from_text("Running"), TaskStatus::Pending);
}

#[test]
fn outcome_texts_read_back() {
    for o in [ResultOutcome::Succeeded, ResultOutcome::Failed] {
        assert_eq!(result_outcome_from_text(result_outcome_text(o)), Some(o));
    }
    assert_eq!(result_outcome_text(ResultOutcome::Failed), "failed");
    assert_eq!(result_outcome_from_text("pending"), None);
}

#[test]
fn command_line_status_ignores_case() {
    assert_eq!(parse_status_arg("PENDING").ok(), Some(TaskStatus::Pending));
    assert_eq!(parse_status_arg("Running").ok(), Some(TaskStatus::Running));
    assert_eq!(parse_status_arg("succeeded").ok(), Some(TaskStatus::Succeeded));
    assert_eq!(parse_status_arg("FaIlEd").ok(), Some(TaskStatus::Failed));
    let e = parse_status_arg("Done").err().unwrap();
    assert_eq!(e.given, "Done");
    assert_eq!(e.message(), "Invalid status: Done. Must be pending, running, succeeded, or failed.");
}

#[test]
fn grid_index_layout() {
    assert_eq!(dihitoi(3, 2), 23);
    assert_eq!(dihitoi(0, 0), 0);
    assert_eq!(dihitoi(D_VALS_LEN - 1, H_VALS_LEN - 1), D_VALS_LEN * H_VALS_LEN - 1);
    assert_eq!(dihitoi(0, H_VALS_LEN), 100);
}

#[test]
fn new_particle_starts_at_its_best() {
    let p = Particle::new(vec![0.0, 1.4], 12.0f64, vec![0.1, 0.5]);
    assert_eq!(p.position, vec![0.0, 1.4]);
    assert_eq!(p.cost, 12.0);
    assert_eq!(p.velocity(), &vec![0.1, 0.5]);
    assert_eq!(p.best_position(), &vec![0.0, 1.4]);
    assert_eq!(p.best_cost(), 12.0);
}

#[test]
fn swarm_weights_reject_negative_factors() {
    let swarm = SteppedParticleSwarm::from_parts(0.7f64, 1.2, 1.2, (vec![0.0], vec![1.0]), 40, 0u8);
    let swarm = swarm.with_inertia_factor(0.5, false).ok().unwrap();
    let swarm = swarm.with_cognitive_factor(1.1, false).ok().unwrap();
    let swarm = swarm.with_social_factor(1.3, false).ok().unwrap();
    assert_eq!(swarm.num_particles(), 40);
    let e = swarm.with_social_factor(-1.0, true).err().unwrap();
    assert_eq!(e, SwarmError::NegativeSocial);
    assert_eq!(e.message(), "`ParticleSwarm`: social factor must be >=0.");
    assert_eq!(SwarmError::NegativeInertia.message(), "`ParticleSwarm`: inertia factor must be >=0.");
    let s2 = SteppedParticleSwarm::from_parts(0.7f64, 1.2, 1.2, (vec![0.0], vec![1.0]), 3, 0u8)
        .with_rng_generator("other");
    assert_eq!(s2.bounds(), &(vec![0.0], vec![1.0]));
}

#[test]
fn payload_shape_and_failure_counters() {
    assert!(payload_shape_is_valid(128, 96, 96));
    assert!(!payload_shape_is_valid(0, 6, 6));
    assert!(!payload_shape_is_valid(128, 6, 5));
    let m = solver_failed_metrics();
    assert_eq!((m.iters, m.best_iters, m.termination.as_str()), (0, 0, "solver_failed"));
}
