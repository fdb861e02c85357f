use wasmcloud_test_util::runner::{run_tests, RunAction, RunEvent, TestResult};

fn names(n: &[&str]) -> Vec<String> {
    n.iter().map(|s| s.to_string()).collect()
}

fn run(cases: &[(&str, bool)]) -> Vec<TestResult> {
    let all: Vec<&str> = cases.iter().map(|c| c.0).collect();
    let (mut state, mut action) = run_tests(names(&all));
    let mut steps: Vec<usize> = Vec::new();
    loop {
        let event = match action {
            RunAction::Run(i) => {
                steps.push(2 * i);
                RunEvent::Ended(cases[i].1)
            }
            RunAction::ShutDown(i) => {
                steps.push(2 * i + 1);
                RunEvent::ShutDown
            }
            RunAction::Finish(results) => {
                assert_eq!(steps, (0..2 * cases.len()).collect::<Vec<usize>>());
                return results;
            }
            RunAction::Abort(cause) => panic!("aborted: {}", cause),
        };
        assert!(state.can_accept(&event));
        let moved = state.next(event);
        state = moved.0;
        action = moved.1;
    }
}

#[test]
fn results_follow_the_tests() {
    let results = run(&[("a", true), ("b", false), ("a", true)]);
    assert_eq!(results.len(), 3);
    assert_eq!(results[0].name, "a");
    assert!(results[0].passed);
    assert_eq!(results[1].name, "b");
    assert!(!results[1].passed);
    assert_eq!(results[2].name, "a");
    assert!(results[2].passed);
    assert!(results.iter().all(|r| r.snap_data.is_none()));
}

#[test]
fn no_tests_no_results() {
    assert!(run(&[]).is_empty());
}

#[test]
fn lost_test_ends_the_run() {
    let (state, action) = run_tests(names(&["a", "b"]));
    assert!(matches!(action, RunAction::Run(0)));
    assert!(!state.can_accept(&RunEvent::ShutDown));
    let (state, action) = state.next(RunEvent::Lost("panicked".to_string()));
    assert!(matches!(action, RunAction::Abort(cause) if cause == "panicked"));
    assert!(!state.can_accept(&RunEvent::Ended(true)));
    assert!(!state.can_accept(&RunEvent::ShutDown));
}
