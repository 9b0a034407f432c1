use xtask::context::Vars;
use xtask::coverage::{
    code_coverage, coverage_dir, grcov, run_html_coverage, run_lcov_coverage, CoverageFormat,
    CoverageStep,
};
use xtask::paths::join;

fn strings(items: &[&str]) -> Vec<String> {
    items.iter().map(|s| s.to_string()).collect()
}

fn vars() -> Vars {
    Vars { cwd: "/work".to_string(), target_dir: "/work/target".to_string(), verbose: false }
}

fn describe(step: &CoverageStep) -> String {
    match step {
        CoverageStep::RemoveDir(d) => format!("rm {d}"),
        CoverageStep::Exec(i) => {
            let mut s = i.program.clone();
            for a in &i.args {
                s.push(' ');
                s.push_str(a);
            }
            s
        }
        CoverageStep::Print(p) => format!("print {p}"),
    }
}

#[test]
fn join_paths() {
    assert_eq!(join("/a/b", "c"), "/a/b/c");
    assert_eq!(join("/a/b/", "c"), "/a/b/c");
    assert_eq!(join("/a/b", "/abs"), "/abs");
    assert_eq!(join("", "c"), "c");
}

#[test]
fn coverage_directory_per_format() {
    assert_eq!(coverage_dir(&vars(), CoverageFormat::Lcov), "/work/target/coverage-lcov");
    assert_eq!(coverage_dir(&vars(), CoverageFormat::Html), "/work/target/coverage-html");
}

#[test]
fn grcov_arguments() {
    let inv = grcov(&"/t/coverage-html".to_string(), CoverageFormat::Html);
    assert_eq!(inv.program, "grcov");
    assert_eq!(
        inv.args,
        strings(&[
            ".",
            "--binary-path",
            "/t/coverage-html/debug/deps",
            "-s",
            ".",
            "-t",
            "html",
            "--branch",
            "--ignore-not-existing",
            "-o",
            "/t/coverage-html/html",
            "--keep-only",
            "src/*",
            "--keep-only",
            "derive/src/*",
        ])
    );
}

#[test]
fn lcov_coverage_plan() {
    let steps: Vec<String> = run_lcov_coverage(&vars(), false).iter().map(describe).collect();
    assert_eq!(steps.len(), 2);
    assert_eq!(steps[0], "cargo test --workspace");
    assert!(steps[1].starts_with("grcov . --binary-path /work/target/coverage-lcov/debug/deps"));
    assert!(steps[1].contains("-t lcov"));
}

#[test]
fn test_run_environment() {
    let steps = run_lcov_coverage(&vars(), false);
    match &steps[0] {
        CoverageStep::Exec(i) => assert_eq!(
            i.env,
            vec![
                ("CARGO_TARGET_DIR".to_string(), "/work/target/coverage-lcov".to_string()),
                ("CARGO_INCREMENTAL".to_string(), "0".to_string()),
                ("RUSTFLAGS".to_string(), "-Cinstrument-coverage".to_string()),
                (
                    "LLVM_PROFILE_FILE".to_string(),
                    "/work/target/coverage-lcov/cargo-test-%p-%m.profraw".to_string()
                ),
            ]
        ),
        other => panic!("unexpected {other:?}"),
    }
}

#[test]
fn html_coverage_also_produces_lcov() {
    let steps: Vec<String> = run_html_coverage(&vars(), false).iter().map(describe).collect();
    let d = "/work/target/coverage-html";
    assert_eq!(steps.len(), 7);
    assert_eq!(steps[0], "cargo test --workspace");
    assert!(steps[1].contains(&format!("-t html --branch --ignore-not-existing -o {d}/html ")));
    assert!(steps[2].contains(&format!("-t lcov --branch --ignore-not-existing -o {d}/lcov ")));
    assert_eq!(
        steps[3],
        format!(
            "genhtml -o {d}/html2 --show-details --highlight --ignore-errors source --legend {d}/lcov"
        )
    );
    assert_eq!(steps[4], "print Now open:");
    assert_eq!(steps[5], format!("print   file://{d}/html/index.html"));
    assert_eq!(steps[6], format!("print   file://{d}/html2/index.html"));
}

#[test]
fn stale_directory_removed_before_test_run() {
    let stale: Vec<String> =
        code_coverage(&vars(), CoverageFormat::Lcov, true).iter().map(describe).collect();
    let fresh: Vec<String> =
        code_coverage(&vars(), CoverageFormat::Lcov, false).iter().map(describe).collect();
    assert_eq!(stale[0], "rm /work/target/coverage-lcov");
    assert_eq!(&stale[1..], &fresh[..]);
    assert!(fresh.iter().all(|s| !s.starts_with("rm ")));
}

#[test]
fn relative_target_dir_links_from_cwd() {
    let v = Vars { cwd: "/work".to_string(), target_dir: "target".to_string(), verbose: false };
    let steps: Vec<String> = run_html_coverage(&v, false).iter().map(describe).collect();
    assert_eq!(steps[5], "print   file:///work/target/coverage-html/html/index.html");
}
