use ret::probes::{
    output_within_limit, probe_step, shutdown_probes, ProbeRegistry, ProbeStep, MAX_OUTPUT_BYTES,
    POLL_INTERVAL_MS, PROBE_TIMEOUT_MS,
};

#[test]
fn probe_with_too_much_output_fails() {
    assert_eq!(probe_step(MAX_OUTPUT_BYTES + 1, 0, false, 0, PROBE_TIMEOUT_MS), ProbeStep::OutputTooLarge);
    assert_eq!(probe_step(0, MAX_OUTPUT_BYTES + 1, true, 0, PROBE_TIMEOUT_MS), ProbeStep::OutputTooLarge);
}

#[test]
fn probe_that_exited_is_finished() {
    assert_eq!(probe_step(MAX_OUTPUT_BYTES, 10, true, 50_000, PROBE_TIMEOUT_MS), ProbeStep::Finished);
}

#[test]
fn probe_past_its_deadline_times_out() {
    assert_eq!(probe_step(0, 0, false, PROBE_TIMEOUT_MS, PROBE_TIMEOUT_MS), ProbeStep::TimedOut);
    assert_eq!(probe_step(0, 0, false, 31_000, PROBE_TIMEOUT_MS), ProbeStep::TimedOut);
}

#[test]
fn probe_sleeps_a_poll_or_what_is_left() {
    assert_eq!(probe_step(0, 0, false, 0, PROBE_TIMEOUT_MS), ProbeStep::Sleep(POLL_INTERVAL_MS));
    assert_eq!(probe_step(0, 0, false, 29_996, PROBE_TIMEOUT_MS), ProbeStep::Sleep(4));
}

#[test]
fn output_limit_is_inclusive() {
    assert!(output_within_limit(MAX_OUTPUT_BYTES));
    assert!(!output_within_limit(MAX_OUTPUT_BYTES + 1));
    assert!(output_within_limit(0));
}

#[test]
fn registry_keeps_live_probes_and_refuses_after_shutdown() {
    let mut registry = ProbeRegistry::new();
    assert!(registry.register(1, &vec![]));
    assert!(registry.register(2, &vec![1]));
    assert_eq!(registry.children, vec![1, 2]);
    // probe 1 has exited since: it is dropped when the next one registers
    assert!(registry.register(3, &vec![2]));
    assert_eq!(registry.children, vec![2, 3]);
    let to_stop = shutdown_probes(&mut registry, &vec![3]);
    assert_eq!(to_stop, vec![3]);
    assert!(registry.stopped);
    assert!(registry.children.is_empty());
    assert!(!registry.register(4, &vec![4]));
    assert!(registry.children.is_empty());
    assert!(shutdown_probes(&mut registry, &vec![3, 4]).is_empty());
}

#[test]
fn shutdown_hands_back_live_probes_and_refuses_later_ones() {
    let mut registry = ProbeRegistry::new();
    assert!(registry.register(7, &vec![]));
    assert!(registry.register(8, &vec![7]));
    assert_eq!(shutdown_probes(&mut registry, &vec![8]), vec![8]);
    assert!(!registry.register(9, &vec![]));
    assert!(shutdown_probes(&mut registry, &vec![8, 9]).is_empty());
}
