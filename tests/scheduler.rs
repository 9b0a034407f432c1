use std::collections::VecDeque;

use xtask::scheduler::{initial_queue, next_step, Step};
use xtask::tasks::{task_names, task_table, Action, Leaf, Task};

fn render(action: &Action) -> String {
    match action {
        Action::Cargo(cmd, args) => {
            let mut s = cmd.clone();
            for a in args {
                s.push(' ');
                s.push_str(a);
            }
            s
        }
        Action::Call(Leaf::LcovCoverage) => "<lcov-coverage>".to_string(),
        Action::Call(Leaf::HtmlCoverage) => "<html-coverage>".to_string(),
        Action::Run(n) => format!("run {n}"),
    }
}

/// Runs the scheduler to the end, recording each executed action, and the
/// unknown task that aborted the run, if any.
fn drive(table: &Vec<Task>, names: &[&str]) -> (Vec<String>, Option<String>) {
    let names: Vec<String> = names.iter().map(|s| s.to_string()).collect();
    let mut queue: VecDeque<Action> = initial_queue(table, &names).expect("known tasks");
    let mut done = Vec::new();
    for _ in 0..10_000 {
        match next_step(table, &mut queue) {
            Step::Done => return (done, None),
            Step::Expanded => {}
            Step::Execute(a) => done.push(render(&a)),
            Step::UnknownTask(n) => return (done, Some(n)),
        }
    }
    panic!("scheduler did not finish");
}

fn strings(items: &[&str]) -> Vec<String> {
    items.iter().map(|s| s.to_string()).collect()
}

fn custom_table() -> Vec<Task> {
    vec![
        Task {
            name: "a".to_string(),
            actions: vec![
                Action::Cargo("a1".to_string(), vec![]),
                Action::Run("t".to_string()),
                Action::Cargo("a2".to_string(), vec![]),
            ],
        },
        Task {
            name: "b".to_string(),
            actions: vec![Action::Run("t".to_string()), Action::Cargo("b1".to_string(), vec![])],
        },
        Task {
            name: "t".to_string(),
            actions: vec![
                Action::Cargo("t1".to_string(), vec!["x".to_string()]),
                Action::Cargo("t2".to_string(), vec![]),
            ],
        },
        Task {
            name: "broken".to_string(),
            actions: vec![
                Action::Cargo("before".to_string(), vec![]),
                Action::Run("t".to_string()),
                Action::Run("missing".to_string()),
                Action::Cargo("after".to_string(), vec![]),
            ],
        },
        Task {
            name: "t".to_string(),
            actions: vec![Action::Cargo("shadowed".to_string(), vec![])],
        },
    ]
}

#[test]
fn lints_expands_to_two_invocations() {
    let table = task_table();
    let (done, err) = drive(&table, &["lints"]);
    assert_eq!(done, strings(&["fmt --check", "clippy --workspace"]));
    assert_eq!(err, None);
}

#[test]
fn before_pr_expands_depth_first() {
    let table = task_table();
    let (done, err) = drive(&table, &["before-pr"]);
    assert_eq!(
        done,
        strings(&[
            "update",
            "fmt --check",
            "clippy --workspace",
            "build --workspace",
            "build --workspace --tests",
            "build --workspace --release",
            "test --workspace",
            "deny check",
            "semver-checks",
            "outdated --exit-code 1",
        ])
    );
    assert_eq!(err, None);
}

#[test]
fn every_builtin_task_expands_fully() {
    let table = task_table();
    let expected: Vec<(&str, Vec<&str>)> = vec![
        ("all-checks", vec!["deny check", "semver-checks", "outdated --exit-code 1"]),
        ("lints", vec!["fmt --check", "clippy --workspace"]),
        (
            "build-all",
            vec!["build --workspace", "build --workspace --tests", "build --workspace --release"],
        ),
        ("all-tests", vec!["test --workspace"]),
        ("lcov-coverage", vec!["<lcov-coverage>"]),
        ("html-coverage", vec!["<html-coverage>"]),
    ];
    for (name, actions) in expected {
        let (done, err) = drive(&table, &[name]);
        assert_eq!(done, strings(&actions), "task {name}");
        assert_eq!(err, None);
    }
}

#[test]
fn shared_subtask_runs_once_per_request() {
    let table = custom_table();
    let (done, err) = drive(&table, &["a", "b"]);
    assert_eq!(done, strings(&["a1", "t1 x", "t2", "a2", "t1 x", "t2", "b1"]));
    assert_eq!(err, None);
}

#[test]
fn requesting_a_task_twice_runs_it_twice() {
    let table = task_table();
    let (done, err) = drive(&table, &["before-pr", "lints"]);
    assert_eq!(done.len(), 12);
    assert_eq!(&done[10..], &strings(&["fmt --check", "clippy --workspace"])[..]);
    assert_eq!(done.iter().filter(|s| s.as_str() == "fmt --check").count(), 2);
    assert_eq!(err, None);
}

#[test]
fn nested_unknown_task_aborts_after_preceding_actions() {
    let table = custom_table();
    let (done, err) = drive(&table, &["broken", "a"]);
    assert_eq!(done, strings(&["before", "t1 x", "t2"]));
    assert_eq!(err, Some("missing".to_string()));
}

#[test]
fn unknown_requested_task_fails_before_anything_runs() {
    let table = task_table();
    let r = initial_queue(&table, &strings(&["lints", "nope", "other"]));
    assert_eq!(r.unwrap_err(), "nope".to_string());
}

#[test]
fn initial_queue_appends_in_request_order() {
    let table = task_table();
    let q = initial_queue(&table, &strings(&["all-tests", "lints"])).unwrap();
    let rendered: Vec<String> = q.iter().map(render).collect();
    assert_eq!(rendered, strings(&["test --workspace", "fmt --check", "clippy --workspace"]));
}

#[test]
fn empty_queue_is_done() {
    let table = task_table();
    let mut q: VecDeque<Action> = VecDeque::new();
    assert!(matches!(next_step(&table, &mut q), Step::Done));
    assert!(q.is_empty());
}

#[test]
fn expansion_goes_to_the_front() {
    let table = task_table();
    let mut q: VecDeque<Action> = VecDeque::new();
    q.push_back(Action::Run("lints".to_string()));
    q.push_back(Action::Cargo("last".to_string(), vec![]));
    assert!(matches!(next_step(&table, &mut q), Step::Expanded));
    let rendered: Vec<String> = q.iter().map(render).collect();
    assert_eq!(rendered, strings(&["fmt --check", "clippy --workspace", "last"]));
}

#[test]
fn first_entry_of_a_name_wins() {
    let table = custom_table();
    let (done, _) = drive(&table, &["t"]);
    assert_eq!(done, strings(&["t1 x", "t2"]));
}

#[test]
fn task_names_in_table_order() {
    let table = task_table();
    assert_eq!(
        task_names(&table),
        strings(&[
            "before-pr",
            "all-checks",
            "lints",
            "build-all",
            "all-tests",
            "lcov-coverage",
            "html-coverage",
        ])
    );
}
