use xtask::cli::{parse_args, ArgError};
use xtask::command::{cargo_banner, cargo_cmd};
use xtask::context::Vars;
use xtask::tasks::task_table;

fn strings(items: &[&str]) -> Vec<String> {
    items.iter().map(|s| s.to_string()).collect()
}

fn vars(verbose: bool) -> Vars {
    Vars { cwd: "/work".to_string(), target_dir: "/work/target".to_string(), verbose }
}

#[test]
fn unknown_argument_is_rejected() {
    let table = task_table();
    match parse_args(&table, &strings(&["lints", "bogus", "--verbose"])) {
        Err(ArgError::InvalidArgument(a)) => assert_eq!(a, "bogus"),
        other => panic!("unexpected {other:?}"),
    }
}

#[test]
fn no_task_is_missing_action() {
    let table = task_table();
    assert!(matches!(parse_args(&table, &strings(&[])), Err(ArgError::MissingAction)));
    assert!(matches!(parse_args(&table, &strings(&["-v"])), Err(ArgError::MissingAction)));
}

#[test]
fn verbose_flag_count_does_not_matter() {
    let table = task_table();
    let once = parse_args(&table, &strings(&["lints", "--verbose"])).unwrap();
    let twice = parse_args(&table, &strings(&["-v", "lints", "--verbose", "-v"])).unwrap();
    let none = parse_args(&table, &strings(&["lints"])).unwrap();
    assert_eq!(once.tasks, strings(&["lints"]));
    assert_eq!(twice.tasks, once.tasks);
    assert_eq!(none.tasks, once.tasks);
    assert!(once.verbose);
    assert!(twice.verbose);
    assert!(!none.verbose);
}

#[test]
fn task_names_keep_their_order() {
    let table = task_table();
    let r = parse_args(&table, &strings(&["all-tests", "lints", "all-tests"])).unwrap();
    assert_eq!(r.tasks, strings(&["all-tests", "lints", "all-tests"]));
}

#[test]
fn verbose_flag_precedes_subcommand() {
    let inv = cargo_cmd(&"build".to_string(), &strings(&["--workspace", "--tests"]), &vars(true));
    assert_eq!(inv.program, "cargo");
    assert_eq!(inv.args, strings(&["--verbose", "build", "--workspace", "--tests"]));
    assert!(inv.env.is_empty());
    let quiet = cargo_cmd(&"build".to_string(), &strings(&["--workspace"]), &vars(false));
    assert_eq!(quiet.args, strings(&["build", "--workspace"]));
}

#[test]
fn verbose_arg_values() {
    assert_eq!(vars(true).verbose_arg(), strings(&["--verbose"]));
    assert!(vars(false).verbose_arg().is_empty());
}

#[test]
fn banner_lists_arguments() {
    assert_eq!(
        cargo_banner(&"outdated".to_string(), &strings(&["--exit-code", "1"])),
        "Running cargo outdated --exit-code 1"
    );
    assert_eq!(cargo_banner(&"update".to_string(), &strings(&[])), "Running cargo update");
}
