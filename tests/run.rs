use race_runner::gate::{Policy, WinnerGate};
use race_runner::run::{Actions, ExecutionResult, RunCoordinator, RunError};

fn ok(s: &str) -> Result<String, String> {
    Ok(s.to_string())
}

fn err(s: &str) -> Result<String, String> {
    Err(s.to_string())
}

/// Feeds completions in the given order and returns every step's actions.
fn drive(
    c: &mut RunCoordinator,
    events: Vec<(usize, Result<String, String>)>,
) -> Vec<Actions> {
    let mut out = Vec::new();
    for (unit, outcome) in events {
        out.push(c.complete(unit, outcome).expect("completion accepted"));
    }
    out
}

fn first_count(actions: &[Actions]) -> usize {
    actions.iter().filter(|a| a.fire_first).count()
}

fn all_count(actions: &[Actions]) -> usize {
    actions.iter().filter(|a| a.fire_all).count()
}

fn units(summary: &[ExecutionResult]) -> Vec<usize> {
    summary.iter().map(|r| r.unit).collect()
}

#[test]
fn gate_fires_once_for_any_result() {
    let mut g = WinnerGate::new(Policy::AnyResult);
    assert!(!g.is_fired());
    assert!(g.observe(false));
    assert!(g.is_fired());
    assert!(!g.observe(true));
    assert!(!g.observe(false));
    assert!(g.is_fired());
}

#[test]
fn gate_first_success_skips_failures() {
    let mut g = WinnerGate::new(Policy::FirstSuccess);
    assert!(!g.observe(false));
    assert!(!g.is_fired());
    assert!(g.observe(true));
    assert!(!g.observe(true));
    assert_eq!(g.policy(), Policy::FirstSuccess);
}

#[test]
fn default_policy_is_any_result() {
    assert_eq!(Policy::default(), Policy::AnyResult);
}

#[test]
fn exactly_one_first_completion_for_every_order() {
    let orders: Vec<Vec<usize>> = vec![
        vec![0, 1, 2, 3],
        vec![3, 2, 1, 0],
        vec![2, 0, 3, 1],
        vec![1, 3, 0, 2],
    ];
    for order in orders {
        let mut c = RunCoordinator::new(4, Policy::AnyResult);
        let s = c.start().unwrap();
        assert!(!s.fire_first);
        assert!(!s.fire_all);
        let events = order
            .iter()
            .map(|&u| (u, if u % 2 == 0 { ok("x") } else { err("y") }))
            .collect();
        let acts = drive(&mut c, events);
        assert_eq!(first_count(&acts), 1);
        assert!(acts[0].fire_first);
        assert_eq!(all_count(&acts), 1);
        assert!(acts[3].fire_all);
        assert!(c.first_fired());
    }
}

#[test]
fn single_unit_fires_both_hooks_on_its_completion() {
    let mut c = RunCoordinator::new(1, Policy::AnyResult);
    c.start().unwrap();
    let a = c.complete(0, ok("done")).unwrap();
    assert_eq!(a, Actions { fire_first: true, fire_all: true });
}

#[test]
fn summary_follows_completion_order_not_launch_order() {
    // Units launched 0, 1, 2 with delays 3, 1, 2: they finish 1, 2, 0.
    let mut c = RunCoordinator::new(3, Policy::AnyResult);
    c.start().unwrap();
    drive(&mut c, vec![(1, ok("b")), (2, ok("c")), (0, ok("a"))]);
    let summary = c.into_summary();
    assert_eq!(units(&summary), vec![1, 2, 0]);
    let orders: Vec<usize> = summary.iter().map(|r| r.completion_order).collect();
    assert_eq!(orders, vec![0, 1, 2]);
    assert_eq!(summary[2].outcome, ok("a"));
}

#[test]
fn failure_is_isolated_to_its_unit() {
    let mut c = RunCoordinator::new(5, Policy::AnyResult);
    c.start().unwrap();
    let acts = drive(
        &mut c,
        vec![
            (2, err("exit status: 1")),
            (0, ok("0")),
            (4, ok("4")),
            (1, ok("1")),
            (3, ok("3")),
        ],
    );
    // The failing unit finished first and still fired the hook.
    assert!(acts[0].fire_first);
    assert_eq!(first_count(&acts), 1);
    let summary = c.summary();
    assert_eq!(summary.len(), 5);
    let errs: Vec<usize> = summary.iter().filter(|r| r.outcome.is_err()).map(|r| r.unit).collect();
    assert_eq!(errs, vec![2]);
    assert_eq!(summary.iter().filter(|r| r.outcome.is_ok()).count(), 4);
}

#[test]
fn first_success_policy_waits_past_failures() {
    let mut c = RunCoordinator::new(3, Policy::FirstSuccess);
    c.start().unwrap();
    let acts = drive(&mut c, vec![(2, err("e")), (0, ok("a")), (1, ok("b"))]);
    assert_eq!(
        acts.iter().map(|a| a.fire_first).collect::<Vec<bool>>(),
        vec![false, true, false]
    );
}

#[test]
fn first_success_policy_never_fires_when_all_fail() {
    let mut c = RunCoordinator::new(2, Policy::FirstSuccess);
    c.start().unwrap();
    let acts = drive(&mut c, vec![(1, err("e")), (0, err("f"))]);
    assert_eq!(first_count(&acts), 0);
    assert!(acts[1].fire_all);
    assert!(!c.first_fired());
}

#[test]
fn all_completion_only_after_the_slowest_unit() {
    // Unit 0 has the longest delay and completes last.
    let mut c = RunCoordinator::new(3, Policy::AnyResult);
    c.start().unwrap();
    let a1 = c.complete(2, ok("c")).unwrap();
    assert!(!a1.fire_all);
    assert!(!c.is_complete());
    let a2 = c.complete(1, ok("b")).unwrap();
    assert!(!a2.fire_all);
    let a3 = c.complete(0, ok("a")).unwrap();
    assert!(a3.fire_all);
    assert!(c.is_complete());
    assert_eq!(units(c.summary()), vec![2, 1, 0]);
}

#[test]
fn zero_units_complete_immediately_without_first_completion() {
    let mut c = RunCoordinator::new(0, Policy::AnyResult);
    let a = c.start().unwrap();
    assert_eq!(a, Actions { fire_first: false, fire_all: true });
    assert!(c.is_complete());
    assert!(!c.first_fired());
    assert_eq!(c.complete(0, ok("x")), Err(RunError::UnknownUnit));
    assert!(c.into_summary().is_empty());
}

#[test]
fn concrete_three_command_scenario() {
    // "sleep 0; echo a", "sleep 0; echo b", "exit 1"
    for order in [vec![0usize, 1, 2], vec![2, 1, 0], vec![1, 2, 0]] {
        let mut c = RunCoordinator::new(3, Policy::AnyResult);
        c.start().unwrap();
        let events = order
            .iter()
            .map(|&u| match u {
                0 => (0, ok("a\n")),
                1 => (1, ok("b\n")),
                _ => (2, err("exit exit status: 1: ")),
            })
            .collect();
        let acts = drive(&mut c, events);
        assert_eq!(first_count(&acts), 1);
        assert!(acts[0].fire_first);
        let summary = c.into_summary();
        assert_eq!(summary.len(), 3);
        let errs: Vec<usize> = summary.iter().filter(|r| r.outcome.is_err()).map(|r| r.unit).collect();
        assert_eq!(errs, vec![2]);
        let mut oks: Vec<String> = summary
            .iter()
            .filter_map(|r| r.outcome.clone().ok())
            .collect();
        oks.sort();
        assert_eq!(oks, vec!["a\n".to_string(), "b\n".to_string()]);
    }
}

#[test]
fn completion_before_start_is_refused() {
    let mut c = RunCoordinator::new(2, Policy::AnyResult);
    assert_eq!(c.complete(0, ok("a")), Err(RunError::NotStarted));
    assert!(c.summary().is_empty());
}

#[test]
fn second_start_is_refused() {
    let mut c = RunCoordinator::new(2, Policy::AnyResult);
    c.start().unwrap();
    assert_eq!(c.start(), Err(RunError::AlreadyStarted));
}

#[test]
fn unknown_and_duplicate_units_are_refused() {
    let mut c = RunCoordinator::new(2, Policy::AnyResult);
    c.start().unwrap();
    assert_eq!(c.complete(2, ok("a")), Err(RunError::UnknownUnit));
    assert!(c.complete(1, ok("b")).is_ok());
    assert_eq!(c.complete(1, ok("b")), Err(RunError::DuplicateUnit));
    assert_eq!(c.summary().len(), 1);
    let a = c.complete(0, ok("a")).unwrap();
    assert_eq!(a, Actions { fire_first: false, fire_all: true });
    assert_eq!(c.complete(0, ok("a")), Err(RunError::DuplicateUnit));
}
