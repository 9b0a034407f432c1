use vstd::prelude::*;
use vstd::string::StringExecFns;

verus! {

/// The built-in operations that a task can call directly.
#[derive(Clone, Copy, Debug, PartialEq, Eq, Structural)]
pub enum Leaf {
    LcovCoverage,
    HtmlCoverage,
}

/// One step of a task.
#[derive(Debug)]
pub enum Action {
    /// Invoke the build tool with a subcommand and its arguments.
    Cargo(String, Vec<String>),
    /// Run a built-in operation.
    Call(Leaf),
    /// Expand another task, by name, at this point.
    Run(String),
}

/// What an action means, with its strings as character sequences.
pub ghost enum ActionView {
    Cargo(Seq<char>, Seq<Seq<char>>),
    Call(Leaf),
    Run(Seq<char>),
}

pub open spec fn strs_view(v: Seq<String>) -> Seq<Seq<char>> {
    v.map_values(|s: String| s@)
}

impl View for Action {
    type V = ActionView;

    open spec fn view(&self) -> ActionView {
        match self {
            Action::Cargo(c, a) => ActionView::Cargo(c@, strs_view(a@)),
            Action::Call(l) => ActionView::Call(*l),
            Action::Run(n) => ActionView::Run(n@),
        }
    }
}

pub open spec fn actions_view(v: Seq<Action>) -> Seq<ActionView> {
    v.map_values(|a: Action| a@)
}

/// A named task and its ordered actions.
#[derive(Debug)]
pub struct Task {
    pub name: String,
    pub actions: Vec<Action>,
}

impl View for Task {
    type V = (Seq<char>, Seq<ActionView>);

    open spec fn view(&self) -> (Seq<char>, Seq<ActionView>) {
        (self.name@, actions_view(self.actions@))
    }
}

pub type TableView = Seq<(Seq<char>, Seq<ActionView>)>;

pub open spec fn table_view(t: Seq<Task>) -> TableView {
    t.map_values(|t: Task| t@)
}

/// The actions of the first entry at or after `i` named `name`.
pub open spec fn lookup_from(table: TableView, name: Seq<char>, i: int) -> Option<Seq<ActionView>>
    decreases table.len() - i,
{
    if i < 0 || i >= table.len() {
        None
    } else if table[i].0 == name {
        Some(table[i].1)
    } else {
        lookup_from(table, name, i + 1)
    }
}

/// Lookup by name; the first entry of that name wins.
pub open spec fn lookup(table: TableView, name: Seq<char>) -> Option<Seq<ActionView>> {
    lookup_from(table, name, 0)
}

pub fn copy_strings(v: &Vec<String>) -> (r: Vec<String>)
    ensures
        strs_view(r@) == strs_view(v@),
{
    let mut r: Vec<String> = Vec::new();
    let mut i: usize = 0;
    while i < v.len()
        invariant
            i <= v@.len(),
            r@.len() == i,
            forall|j: int| 0 <= j < i ==> r@[j]@ == v@[j]@,
        decreases v@.len() - i,
    {
        let s = v[i].clone();
        r.push(s);
        i += 1;
    }
    proof {
        assert(strs_view(r@) =~= strs_view(v@));
    }
    r
}

impl Action {
    pub fn clone_action(&self) -> (r: Action)
        ensures
            r@ == self@,
    {
        match self {
            Action::Cargo(c, a) => Action::Cargo(c.clone(), copy_strings(a)),
            Action::Call(l) => Action::Call(*l),
            Action::Run(n) => Action::Run(n.clone()),
        }
    }
}

/// Finds the position of the task named `name`: the first one, if any.
pub fn find_task(table: &Vec<Task>, name: &String) -> (r: Option<usize>)
    ensures
        match r {
            Some(i) => i < table@.len() && table@[i as int].name@ == name@
                && lookup(table_view(table@), name@) == Some(table@[i as int]@.1),
            None => lookup(table_view(table@), name@) is None,
        },
{
    let ghost tv = table_view(table@);
    let mut i: usize = 0;
    while i < table.len()
        invariant
            i <= table@.len(),
            tv == table_view(table@),
            lookup(tv, name@) == lookup_from(tv, name@, i as int),
        decreases table@.len() - i,
    {
        if table[i].name == *name {
            return Some(i);
        }
        i += 1;
    }
    None
}

pub open spec fn cargo_view(cmd: &str, args: Seq<Seq<char>>) -> ActionView {
    ActionView::Cargo(cmd@, args)
}

/// The built-in tasks, in order.
pub open spec fn default_table() -> TableView {
    seq![
        ("before-pr"@, seq![
            cargo_view("update", seq![]),
            ActionView::Run("lints"@),
            ActionView::Run("build-all"@),
            ActionView::Run("all-tests"@),
            ActionView::Run("all-checks"@),
        ]),
        ("all-checks"@, seq![
            cargo_view("deny", seq!["check"@]),
            cargo_view("semver-checks", seq![]),
            cargo_view("outdated", seq!["--exit-code"@, "1"@]),
        ]),
        ("lints"@, seq![
            cargo_view("fmt", seq!["--check"@]),
            cargo_view("clippy", seq!["--workspace"@]),
        ]),
        ("build-all"@, seq![
            cargo_view("build", seq!["--workspace"@]),
            cargo_view("build", seq!["--workspace"@, "--tests"@]),
            cargo_view("build", seq!["--workspace"@, "--release"@]),
        ]),
        ("all-tests"@, seq![cargo_view("test", seq!["--workspace"@])]),
        ("lcov-coverage"@, seq![ActionView::Call(Leaf::LcovCoverage)]),
        ("html-coverage"@, seq![ActionView::Call(Leaf::HtmlCoverage)]),
    ]
}

fn cargo0(cmd: &str) -> (r: Action)
    ensures
        r@ == cargo_view(cmd, seq![]),
{
    let args: Vec<String> = Vec::new();
    proof {
        assert(strs_view(args@) =~= seq![]);
    }
    Action::Cargo(String::from_str(cmd), args)
}

fn cargo1(cmd: &str, a: &str) -> (r: Action)
    ensures
        r@ == cargo_view(cmd, seq![a@]),
{
    let mut args: Vec<String> = Vec::new();
    args.push(String::from_str(a));
    proof {
        assert(strs_view(args@) =~= seq![a@]);
    }
    Action::Cargo(String::from_str(cmd), args)
}

fn cargo2(cmd: &str, a: &str, b: &str) -> (r: Action)
    ensures
        r@ == cargo_view(cmd, seq![a@, b@]),
{
    let mut args: Vec<String> = Vec::new();
    args.push(String::from_str(a));
    args.push(String::from_str(b));
    proof {
        assert(strs_view(args@) =~= seq![a@, b@]);
    }
    Action::Cargo(String::from_str(cmd), args)
}

fn run(name: &str) -> (r: Action)
    ensures
        r@ == ActionView::Run(name@),
{
    Action::Run(String::from_str(name))
}

fn task(name: &str, actions: Vec<Action>) -> (r: Task)
    ensures
        r@ == (name@, actions_view(actions@)),
{
    Task { name: String::from_str(name), actions }
}

/// The built-in task table.
pub fn task_table() -> (r: Vec<Task>)
    ensures
        table_view(r@) == default_table(),
{
    let mut t: Vec<Task> = Vec::new();
    let a = vec![cargo0("update"), run("lints"), run("build-all"), run("all-tests"), run("all-checks")];
    assert(actions_view(a@) =~= default_table()[0].1);
    t.push(task("before-pr", a));
    let a = vec![cargo1("deny", "check"), cargo0("semver-checks"), cargo2("outdated", "--exit-code", "1")];
    assert(actions_view(a@) =~= default_table()[1].1);
    t.push(task("all-checks", a));
    let a = vec![cargo1("fmt", "--check"), cargo1("clippy", "--workspace")];
    assert(actions_view(a@) =~= default_table()[2].1);
    t.push(task("lints", a));
    let a = vec![
        cargo1("build", "--workspace"),
        cargo2("build", "--workspace", "--tests"),
        cargo2("build", "--workspace", "--release"),
    ];
    assert(actions_view(a@) =~= default_table()[3].1);
    t.push(task("build-all", a));
    let a = vec![cargo1("test", "--workspace")];
    assert(actions_view(a@) =~= default_table()[4].1);
    t.push(task("all-tests", a));
    let a = vec![Action::Call(Leaf::LcovCoverage)];
    assert(actions_view(a@) =~= default_table()[5].1);
    t.push(task("lcov-coverage", a));
    let a = vec![Action::Call(Leaf::HtmlCoverage)];
    assert(actions_view(a@) =~= default_table()[6].1);
    t.push(task("html-coverage", a));
    assert(table_view(t@) =~= default_table());
    t
}

/// The names of the tasks of `table`, in table order.
pub fn task_names(table: &Vec<Task>) -> (r: Vec<String>)
    ensures
        strs_view(r@) == table_view(table@).map_values(|e: (Seq<char>, Seq<ActionView>)| e.0),
{
    let mut r: Vec<String> = Vec::new();
    let mut i: usize = 0;
    while i < table.len()
        invariant
            i <= table@.len(),
            r@.len() == i,
            forall|j: int| 0 <= j < i ==> r@[j]@ == table@[j].name@,
        decreases table@.len() - i,
    {
        r.push(table[i].name.clone());
        i += 1;
    }
    proof {
        assert(strs_view(r@) =~= table_view(table@).map_values(|e: (Seq<char>, Seq<ActionView>)| e.0));
    }
    r
}

} // verus!
