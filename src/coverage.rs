use vstd::prelude::*;
use vstd::string::StringExecFns;

use crate::command::{Invocation, InvocationView, env_view, push_str, push_string};
use crate::context::Vars;
use crate::paths::{join, join_spec};
use crate::tasks::strs_view;

verus! {

/// The two coverage report formats.
#[derive(Clone, Copy, Debug, PartialEq, Eq, Structural)]
pub enum CoverageFormat {
    Lcov,
    Html,
}

pub open spec fn format_name(format: CoverageFormat) -> Seq<char> {
    match format {
        CoverageFormat::Lcov => "lcov"@,
        CoverageFormat::Html => "html"@,
    }
}

pub fn format_str(format: CoverageFormat) -> (r: &'static str)
    ensures
        r@ == format_name(format),
{
    match format {
        CoverageFormat::Lcov => "lcov",
        CoverageFormat::Html => "html",
    }
}

/// One step of producing a coverage report.
#[derive(Debug)]
pub enum CoverageStep {
    /// Remove this directory and all it holds.
    RemoveDir(String),
    /// Start this program and require that it succeeds.
    Exec(Invocation),
    /// Print this line.
    Print(String),
}

pub ghost enum CoverageStepView {
    RemoveDir(Seq<char>),
    Exec(InvocationView),
    Print(Seq<char>),
}

impl View for CoverageStep {
    type V = CoverageStepView;

    open spec fn view(&self) -> CoverageStepView {
        match self {
            CoverageStep::RemoveDir(d) => CoverageStepView::RemoveDir(d@),
            CoverageStep::Exec(i) => CoverageStepView::Exec(i@),
            CoverageStep::Print(s) => CoverageStepView::Print(s@),
        }
    }
}

pub open spec fn steps_view(v: Seq<CoverageStep>) -> Seq<CoverageStepView> {
    v.map_values(|s: CoverageStep| s@)
}

/// The directory under the build-output directory that a format's coverage run uses.
pub open spec fn coverage_dir_spec(target_dir: Seq<char>, format: CoverageFormat) -> Seq<char> {
    join_spec(target_dir, "coverage-"@ + format_name(format))
}

pub fn coverage_dir(vars: &Vars, format: CoverageFormat) -> (r: String)
    ensures
        r@ == coverage_dir_spec(vars.target_dir@, format),
{
    let mut name = String::from_str("coverage-");
    name.append(format_str(format));
    join(vars.target_dir.as_str(), name.as_str())
}

/// The coverage aggregator's invocation over the profiling data under `dir`,
/// writing `format` output to `dir/<format>`; only the project's own sources count.
pub open spec fn grcov_spec(dir: Seq<char>, format: CoverageFormat) -> InvocationView {
    InvocationView {
        program: "grcov"@,
        args: seq![
            "."@,
            "--binary-path"@,
            join_spec(dir, "debug/deps"@),
            "-s"@,
            "."@,
            "-t"@,
            format_name(format),
            "--branch"@,
            "--ignore-not-existing"@,
            "-o"@,
            join_spec(dir, format_name(format)),
            "--keep-only"@,
            "src/*"@,
            "--keep-only"@,
            "derive/src/*"@,
        ],
        env: Seq::empty(),
    }
}

fn no_env() -> (r: Vec<(String, String)>)
    ensures
        env_view(r@) == Seq::<(Seq<char>, Seq<char>)>::empty(),
{
    let r: Vec<(String, String)> = Vec::new();
    proof {
        assert(env_view(r@) =~= Seq::<(Seq<char>, Seq<char>)>::empty());
    }
    r
}

pub fn grcov(dir: &String, format: CoverageFormat) -> (r: Invocation)
    ensures
        r@ == grcov_spec(dir@, format),
{
    let fmt = format_str(format);
    let mut a: Vec<String> = Vec::new();
    push_str(&mut a, ".");
    push_str(&mut a, "--binary-path");
    push_string(&mut a, join(dir.as_str(), "debug/deps"));
    push_str(&mut a, "-s");
    push_str(&mut a, ".");
    push_str(&mut a, "-t");
    push_str(&mut a, fmt);
    push_str(&mut a, "--branch");
    push_str(&mut a, "--ignore-not-existing");
    push_str(&mut a, "-o");
    push_string(&mut a, join(dir.as_str(), fmt));
    push_str(&mut a, "--keep-only");
    push_str(&mut a, "src/*");
    push_str(&mut a, "--keep-only");
    push_str(&mut a, "derive/src/*");
    proof {
        assert(strs_view(a@) =~= grcov_spec(dir@, format).args);
    }
    Invocation { program: String::from_str("grcov"), args: a, env: no_env() }
}

/// The instrumented test run, building into `dir`.
pub open spec fn test_run_spec(dir: Seq<char>) -> InvocationView {
    InvocationView {
        program: "cargo"@,
        args: seq!["test"@, "--workspace"@],
        env: seq![
            ("CARGO_TARGET_DIR"@, dir),
            ("CARGO_INCREMENTAL"@, "0"@),
            ("RUSTFLAGS"@, "-Cinstrument-coverage"@),
            ("LLVM_PROFILE_FILE"@, join_spec(dir, "cargo-test-%p-%m.profraw"@)),
        ],
    }
}

fn env_pair(key: &str, value: String) -> (r: (String, String))
    ensures
        r.0@ == key@,
        r.1@ == value@,
{
    (String::from_str(key), value)
}

fn test_run(dir: &String) -> (r: Invocation)
    ensures
        r@ == test_run_spec(dir@),
{
    let mut a: Vec<String> = Vec::new();
    push_str(&mut a, "test");
    push_str(&mut a, "--workspace");
    let mut env: Vec<(String, String)> = Vec::new();
    env.push(env_pair("CARGO_TARGET_DIR", dir.clone()));
    env.push(env_pair("CARGO_INCREMENTAL", String::from_str("0")));
    env.push(env_pair("RUSTFLAGS", String::from_str("-Cinstrument-coverage")));
    env.push(env_pair("LLVM_PROFILE_FILE", join(dir.as_str(), "cargo-test-%p-%m.profraw")));
    proof {
        assert(strs_view(a@) =~= test_run_spec(dir@).args);
        assert(env_view(env@) =~= test_run_spec(dir@).env);
    }
    Invocation { program: String::from_str("cargo"), args: a, env }
}

/// The HTML report generator's invocation over the lcov data under `dir`.
pub open spec fn genhtml_spec(dir: Seq<char>) -> InvocationView {
    InvocationView {
        program: "genhtml"@,
        args: seq![
            "-o"@,
            join_spec(dir, "html2"@),
            "--show-details"@,
            "--highlight"@,
            "--ignore-errors"@,
            "source"@,
            "--legend"@,
            join_spec(dir, "lcov"@),
        ],
        env: Seq::empty(),
    }
}

fn genhtml(dir: &String) -> (r: Invocation)
    ensures
        r@ == genhtml_spec(dir@),
{
    let mut a: Vec<String> = Vec::new();
    push_str(&mut a, "-o");
    push_string(&mut a, join(dir.as_str(), "html2"));
    push_str(&mut a, "--show-details");
    push_str(&mut a, "--highlight");
    push_str(&mut a, "--ignore-errors");
    push_str(&mut a, "source");
    push_str(&mut a, "--legend");
    push_string(&mut a, join(dir.as_str(), "lcov"));
    proof {
        assert(strs_view(a@) =~= genhtml_spec(dir@).args);
    }
    Invocation { program: String::from_str("genhtml"), args: a, env: no_env() }
}

/// The line pointing at one generated HTML report.
pub open spec fn report_link_spec(cwd: Seq<char>, dir: Seq<char>, sub: Seq<char>) -> Seq<char> {
    "  file://"@ + join_spec(cwd, dir) + sub
}

fn report_link(cwd: &String, dir: &String, sub: &str) -> (r: String)
    ensures
        r@ == report_link_spec(cwd@, dir@, sub@),
{
    let mut r = String::from_str("  file://");
    let full = join(cwd.as_str(), dir.as_str());
    r.append(full.as_str());
    r.append(sub);
    r
}

/// Everything a coverage run of `format` does, in order. `stale` tells whether
/// the format's coverage directory exists beforehand.
pub open spec fn coverage_plan(
    cwd: Seq<char>,
    target_dir: Seq<char>,
    format: CoverageFormat,
    stale: bool,
) -> Seq<CoverageStepView> {
    let dir = coverage_dir_spec(target_dir, format);
    let clear = if stale {
        seq![CoverageStepView::RemoveDir(dir)]
    } else {
        Seq::empty()
    };
    let report = match format {
        CoverageFormat::Lcov => seq![CoverageStepView::Exec(grcov_spec(dir, CoverageFormat::Lcov))],
        CoverageFormat::Html => seq![
            CoverageStepView::Exec(grcov_spec(dir, CoverageFormat::Html)),
            CoverageStepView::Exec(grcov_spec(dir, CoverageFormat::Lcov)),
            CoverageStepView::Exec(genhtml_spec(dir)),
            CoverageStepView::Print("Now open:"@),
            CoverageStepView::Print(report_link_spec(cwd, dir, "/html/index.html"@)),
            CoverageStepView::Print(report_link_spec(cwd, dir, "/html2/index.html"@)),
        ],
    };
    clear + seq![CoverageStepView::Exec(test_run_spec(dir))] + report
}

pub fn code_coverage(vars: &Vars, format: CoverageFormat, stale: bool) -> (r: Vec<CoverageStep>)
    ensures
        steps_view(r@) == coverage_plan(vars.cwd@, vars.target_dir@, format, stale),
{
    let dir = coverage_dir(vars, format);
    let mut steps: Vec<CoverageStep> = Vec::new();
    if stale {
        steps.push(CoverageStep::RemoveDir(dir.clone()));
    }
    steps.push(CoverageStep::Exec(test_run(&dir)));
    match format {
        CoverageFormat::Html => {
            steps.push(CoverageStep::Exec(grcov(&dir, CoverageFormat::Html)));
            steps.push(CoverageStep::Exec(grcov(&dir, CoverageFormat::Lcov)));
            steps.push(CoverageStep::Exec(genhtml(&dir)));
            steps.push(CoverageStep::Print(String::from_str("Now open:")));
            steps.push(CoverageStep::Print(report_link(&vars.cwd, &dir, "/html/index.html")));
            steps.push(CoverageStep::Print(report_link(&vars.cwd, &dir, "/html2/index.html")));
        },
        CoverageFormat::Lcov => {
            steps.push(CoverageStep::Exec(grcov(&dir, CoverageFormat::Lcov)));
        },
    }
    proof {
        assert(steps_view(steps@) =~= coverage_plan(vars.cwd@, vars.target_dir@, format, stale));
    }
    steps
}

/// The lcov coverage task.
pub fn run_lcov_coverage(vars: &Vars, stale: bool) -> (r: Vec<CoverageStep>)
    ensures
        steps_view(r@) == coverage_plan(vars.cwd@, vars.target_dir@, CoverageFormat::Lcov, stale),
{
    code_coverage(vars, CoverageFormat::Lcov, stale)
}

/// The HTML coverage task.
pub fn run_html_coverage(vars: &Vars, stale: bool) -> (r: Vec<CoverageStep>)
    ensures
        steps_view(r@) == coverage_plan(vars.cwd@, vars.target_dir@, CoverageFormat::Html, stale),
{
    code_coverage(vars, CoverageFormat::Html, stale)
}

/// An HTML coverage run aggregates the data twice, as HTML and as lcov, then
/// generates the second HTML report from the lcov data.
pub proof fn lemma_html_coverage_also_aggregates_lcov(cwd: Seq<char>, target_dir: Seq<char>, stale: bool)
    ensures
        ({
            let plan = coverage_plan(cwd, target_dir, CoverageFormat::Html, stale);
            let dir = coverage_dir_spec(target_dir, CoverageFormat::Html);
            exists|i: int, j: int, k: int|
                0 <= i < j < k < plan.len() && plan[i] == CoverageStepView::Exec(
                    grcov_spec(dir, CoverageFormat::Html),
                ) && plan[j] == CoverageStepView::Exec(grcov_spec(dir, CoverageFormat::Lcov))
                    && plan[k] == CoverageStepView::Exec(genhtml_spec(dir))
        }),
{
    let plan = coverage_plan(cwd, target_dir, CoverageFormat::Html, stale);
    let dir = coverage_dir_spec(target_dir, CoverageFormat::Html);
    let s: int = if stale { 1 } else { 0 };
    assert(plan[s + 1] == CoverageStepView::Exec(grcov_spec(dir, CoverageFormat::Html)));
    assert(plan[s + 2] == CoverageStepView::Exec(grcov_spec(dir, CoverageFormat::Lcov)));
    assert(plan[s + 3] == CoverageStepView::Exec(genhtml_spec(dir)));
}

/// A coverage directory that exists beforehand is removed before the test run,
/// and that removal is all that differs from a run without one; a run without
/// one removes nothing.
pub proof fn lemma_stale_directory_removed_first(
    cwd: Seq<char>,
    target_dir: Seq<char>,
    format: CoverageFormat,
)
    ensures
        coverage_plan(cwd, target_dir, format, true) == seq![
            CoverageStepView::RemoveDir(coverage_dir_spec(target_dir, format)),
        ] + coverage_plan(cwd, target_dir, format, false),
        coverage_plan(cwd, target_dir, format, false)[0] == CoverageStepView::Exec(
            test_run_spec(coverage_dir_spec(target_dir, format)),
        ),
        forall|i: int|
            0 <= i < coverage_plan(cwd, target_dir, format, false).len() ==> !(#[trigger] coverage_plan(
                cwd,
                target_dir,
                format,
                false,
            )[i] is RemoveDir),
{
    let dir = coverage_dir_spec(target_dir, format);
    let with = coverage_plan(cwd, target_dir, format, true);
    let without = coverage_plan(cwd, target_dir, format, false);
    assert(with =~= seq![CoverageStepView::RemoveDir(dir)] + without);
}

} // verus!
