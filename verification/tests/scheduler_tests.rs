use sshscan::counts::AttemptState;
use sshscan::enumerate::enumerate_attempts;
use sshscan::scheduler::Scheduler;

fn strings(v: &[&str]) -> Vec<String> {
    v.iter().map(|s| s.to_string()).collect()
}

#[test]
fn global_ceiling_blocks_admission() {
    // 4 attempts over 4 distinct hosts, but only 2 global slots.
    let targets = strings(&["h1", "h2", "h3", "h4"]);
    let usernames = strings(&["alice"]);
    let descs = enumerate_attempts(&targets, &usernames);
    let mut sched = Scheduler::new(2, 1, 4, &descs);

    let a = sched.try_start();
    let b = sched.try_start();
    assert_eq!(a, Some(0));
    assert_eq!(b, Some(1));
    assert_eq!(sched.slots_held, 2);
    // The ceiling is saturated: no third admission.
    assert_eq!(sched.try_start(), None);

    // Completing one attempt frees a slot for the next pending one.
    assert!(sched.try_acquire_gate(0));
    sched.complete(0);
    assert_eq!(sched.slots_held, 1);
    assert_eq!(sched.try_start(), Some(2));
}

#[test]
fn host_gate_blocks_second_attempt() {
    // Two usernames against one host, cap 1: both attempts are admitted,
    // yet only one at a time may hold the host's gate.
    let targets = strings(&["h1"]);
    let usernames = strings(&["alice", "bob"]);
    let descs = enumerate_attempts(&targets, &usernames);
    let mut sched = Scheduler::new(4, 1, 1, &descs);

    assert_eq!(sched.try_start(), Some(0));
    assert_eq!(sched.try_start(), Some(1));
    assert!(sched.try_acquire_gate(0));
    assert!(!sched.try_acquire_gate(1));
    assert_eq!(sched.gate_held[0], 1);

    // The timed-out or resolved attempt releases its gate slot and
    // unblocks the waiter on the same host.
    sched.complete(0);
    assert_eq!(sched.gate_held[0], 0);
    assert!(sched.try_acquire_gate(1));
    sched.complete(1);
    assert!(sched.is_done());
}

#[test]
fn host_gate_admits_up_to_cap() {
    // Cap 2 on one host: two run at once, the third waits.
    let targets = strings(&["h1"]);
    let usernames = strings(&["alice", "bob", "carol"]);
    let descs = enumerate_attempts(&targets, &usernames);
    let mut sched = Scheduler::new(8, 2, 1, &descs);

    assert_eq!(sched.try_start(), Some(0));
    assert_eq!(sched.try_start(), Some(1));
    assert_eq!(sched.try_start(), Some(2));
    assert!(sched.try_acquire_gate(0));
    assert!(sched.try_acquire_gate(1));
    assert_eq!(sched.gate_held[0], 2);
    assert!(!sched.try_acquire_gate(2));
    sched.complete(1);
    assert!(sched.try_acquire_gate(2));
}

#[test]
fn distinct_hosts_run_in_parallel_under_cap_one() {
    // maxconns = 1 serializes per host but not across hosts.
    let targets = strings(&["h1", "h2"]);
    let usernames = strings(&["alice"]);
    let descs = enumerate_attempts(&targets, &usernames);
    let mut sched = Scheduler::new(4, 1, 2, &descs);

    assert_eq!(sched.try_start(), Some(0));
    assert_eq!(sched.try_start(), Some(1));
    assert!(sched.try_acquire_gate(0));
    assert!(sched.try_acquire_gate(1));
    assert!(matches!(sched.states[0], AttemptState::Running));
    assert!(matches!(sched.states[1], AttemptState::Running));
    sched.complete(0);
    sched.complete(1);
    assert!(sched.is_done());
}

#[test]
fn empty_scan_is_done_immediately() {
    let targets = strings(&[]);
    let usernames = strings(&["alice", "bob"]);
    let descs = enumerate_attempts(&targets, &usernames);
    let mut sched = Scheduler::new(20, 1, 0, &descs);
    assert!(sched.is_done());
    assert_eq!(sched.try_start(), None);
}

#[test]
fn every_descriptor_resolves_exactly_once() {
    // Drive a 2x2 scan to completion; each attempt produces one result.
    let targets = strings(&["h1", "h2"]);
    let usernames = strings(&["alice", "bob"]);
    let descs = enumerate_attempts(&targets, &usernames);
    let mut sched = Scheduler::new(2, 1, 2, &descs);
    let mut results: usize = 0;
    let mut waiting: Vec<usize> = Vec::new();
    let mut running: Vec<usize> = Vec::new();
    while !sched.is_done() {
        while let Some(i) = sched.try_start() {
            waiting.push(i);
        }
        let mut still_waiting = Vec::new();
        for i in waiting.drain(..) {
            if sched.try_acquire_gate(i) {
                running.push(i);
            } else {
                still_waiting.push(i);
            }
        }
        waiting = still_waiting;
        // Complete in reverse admission order: completion order is free.
        let i = running.pop().expect("an attempt must be runnable");
        sched.complete(i);
        results += 1;
    }
    assert_eq!(results, 4);
    assert_eq!(sched.completed, 4);
    assert!(sched.states.iter().all(|s| matches!(s, AttemptState::Completed)));
}
