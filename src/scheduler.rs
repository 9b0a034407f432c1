use vstd::prelude::*;
use std::collections::VecDeque;

use crate::tasks::{
    Action, ActionView, Task, TableView, actions_view, default_table, find_task, lookup, lookup_from, strs_view, table_view,
};

verus! {

/// What one scheduler step did.
#[derive(Debug)]
pub enum Step {
    /// The queue is empty: the run is complete.
    Done,
    /// A task reference was expanded at the front of the queue.
    Expanded,
    /// This action is to be executed now.
    Execute(Action),
    /// A task reference named a task that the table lacks: the run aborts.
    UnknownTask(String),
}

pub ghost enum StepView {
    Done,
    Expanded,
    Execute(ActionView),
    UnknownTask(Seq<char>),
}

impl View for Step {
    type V = StepView;

    open spec fn view(&self) -> StepView {
        match self {
            Step::Done => StepView::Done,
            Step::Expanded => StepView::Expanded,
            Step::Execute(a) => StepView::Execute(a@),
            Step::UnknownTask(n) => StepView::UnknownTask(n@),
        }
    }
}

/// One step on the work queue `q`: the queue after it, and what it did.
/// A task reference is replaced, at the front, by the referenced task's actions.
pub open spec fn step_spec(table: TableView, q: Seq<ActionView>) -> (Seq<ActionView>, StepView) {
    if q.len() == 0 {
        (q, StepView::Done)
    } else {
        match q[0] {
            ActionView::Run(n) => match lookup(table, n) {
                Some(acts) => (acts + q.drop_first(), StepView::Expanded),
                None => (q.drop_first(), StepView::UnknownTask(n)),
            },
            a => (q.drop_first(), StepView::Execute(a)),
        }
    }
}

/// Takes one step on the work queue.
pub fn next_step(table: &Vec<Task>, queue: &mut VecDeque<Action>) -> (r: Step)
    ensures
        step_spec(table_view(table@), actions_view(old(queue)@)) == (
        actions_view(final(queue)@),
        r@,
        ),
{
    let ghost q0 = actions_view(queue@);
    let front = queue.pop_front();
    match front {
        None => {
            proof {
                assert(q0 =~= actions_view(queue@));
            }
            Step::Done
        },
        Some(action) => {
            proof {
                assert(actions_view(queue@) =~= q0.drop_first());
            }
            match action {
                Action::Run(name) => {
                    match find_task(table, &name) {
                        None => Step::UnknownTask(name),
                        Some(i) => {
                            let acts = &table[i].actions;
                            let ghost rest = actions_view(queue@);
                            let mut k: usize = acts.len();
                            while k > 0
                                invariant
                                    k <= acts@.len(),
                                    actions_view(queue@) == actions_view(acts@).subrange(
                                        k as int,
                                        acts@.len() as int,
                                    ) + rest,
                                decreases k,
                            {
                                k -= 1;
                                let a = acts[k].clone_action();
                                let ghost before = actions_view(queue@);
                                queue.push_front(a);
                                proof {
                                    assert(actions_view(queue@) =~= seq![a@] + before);
                                    assert(actions_view(acts@).subrange(k as int, acts@.len() as int)
                                        =~= seq![a@] + actions_view(acts@).subrange(
                                        k + 1,
                                        acts@.len() as int,
                                    ));
                                }
                            }
                            proof {
                                assert(actions_view(acts@).subrange(0, acts@.len() as int)
                                    =~= actions_view(acts@));
                            }
                            Step::Expanded
                        },
                    }
                },
                other => Step::Execute(other),
            }
        },
    }
}

/// The initial work queue for the requested task names, in order: each task's
/// actions appended in turn; or the first name that the table lacks.
pub open spec fn seed_spec(table: TableView, names: Seq<Seq<char>>) -> Result<
    Seq<ActionView>,
    Seq<char>,
>
    decreases names.len(),
{
    if names.len() == 0 {
        Ok(Seq::empty())
    } else {
        match seed_spec(table, names.drop_last()) {
            Err(e) => Err(e),
            Ok(q) => match lookup(table, names.last()) {
                Some(acts) => Ok(q + acts),
                None => Err(names.last()),
            },
        }
    }
}

/// Once a prefix of the names fails, the whole list fails with the same name.
proof fn lemma_seed_error_persists(table: TableView, names: Seq<Seq<char>>, i: int)
    requires
        0 <= i <= names.len(),
        seed_spec(table, names.subrange(0, i)) is Err,
    ensures
        seed_spec(table, names) == seed_spec(table, names.subrange(0, i)),
    decreases names.len() - i,
{
    if i == names.len() {
        assert(names.subrange(0, i) =~= names);
    } else {
        assert(names.subrange(0, i + 1).drop_last() =~= names.subrange(0, i));
        lemma_seed_error_persists(table, names, i + 1);
    }
}

/// Builds the initial work queue from the requested task names, before any
/// action runs; fails with the first name that is not a task.
pub fn initial_queue(table: &Vec<Task>, names: &Vec<String>) -> (r: Result<VecDeque<Action>, String>)
    ensures
        match r {
            Ok(q) => seed_spec(table_view(table@), strs_view(names@)) == Ok::<
                Seq<ActionView>,
                Seq<char>,
            >(actions_view(q@)),
            Err(n) => seed_spec(table_view(table@), strs_view(names@)) == Err::<
                Seq<ActionView>,
                Seq<char>,
            >(n@),
        },
{
    let ghost tv = table_view(table@);
    let ghost nv = strs_view(names@);
    let mut q: VecDeque<Action> = VecDeque::new();
    let mut i: usize = 0;
    proof {
        assert(nv.subrange(0, 0).len() == 0);
        assert(actions_view(q@) =~= Seq::<ActionView>::empty());
    }
    while i < names.len()
        invariant
            i <= names@.len(),
            tv == table_view(table@),
            nv == strs_view(names@),
            seed_spec(tv, nv.subrange(0, i as int)) == Ok::<Seq<ActionView>, Seq<char>>(
                actions_view(q@),
            ),
        decreases names@.len() - i,
    {
        proof {
            assert(nv.subrange(0, i + 1).drop_last() =~= nv.subrange(0, i as int));
            assert(nv.subrange(0, i + 1).last() == names@[i as int]@);
        }
        match find_task(table, &names[i]) {
            None => {
                proof {
                    lemma_seed_error_persists(tv, nv, (i + 1) as int);
                }
                return Err(names[i].clone());
            },
            Some(t) => {
                let acts = &table[t].actions;
                let ghost before = actions_view(q@);
                let mut k: usize = 0;
                while k < acts.len()
                    invariant
                        k <= acts@.len(),
                        actions_view(q@) == before + actions_view(acts@).subrange(0, k as int),
                    decreases acts@.len() - k,
                {
                    let a = acts[k].clone_action();
                    let ghost prev = actions_view(q@);
                    q.push_back(a);
                    k += 1;
                    proof {
                        assert(actions_view(q@) =~= prev.push(a@));
                        assert(actions_view(q@) =~= before + actions_view(acts@).subrange(
                            0,
                            k as int,
                        ));
                    }
                }
                proof {
                    assert(actions_view(acts@).subrange(0, acts@.len() as int) =~= actions_view(
                        acts@,
                    ));
                }
            },
        }
        i += 1;
    }
    proof {
        assert(nv.subrange(0, i as int) =~= nv);
    }
    Ok(q)
}

/// How a run of the scheduler ended.
pub ghost enum Outcome {
    /// The queue emptied.
    Completed,
    /// A task reference named a task that the table lacks.
    Failed(Seq<char>),
    /// The steps allowed ran out first.
    Unfinished,
}

/// Runs the scheduler on `q` for at most `fuel` steps: the actions executed,
/// in order, how the run ended, and the steps left over.
pub open spec fn run_spec(table: TableView, q: Seq<ActionView>, fuel: nat) -> (
    Seq<ActionView>,
    Outcome,
    nat,
)
    decreases fuel,
{
    if q.len() == 0 {
        (Seq::empty(), Outcome::Completed, fuel)
    } else if fuel == 0 {
        (Seq::empty(), Outcome::Unfinished, 0)
    } else {
        let (q2, s) = step_spec(table, q);
        match s {
            StepView::Execute(a) => {
                let (t, o, f) = run_spec(table, q2, (fuel - 1) as nat);
                (seq![a] + t, o, f)
            },
            StepView::UnknownTask(n) => (Seq::empty(), Outcome::Failed(n), (fuel - 1) as nat),
            _ => run_spec(table, q2, (fuel - 1) as nat),
        }
    }
}

/// The depth-first expansion of `q`: every task reference replaced, where it
/// stands, by the expansion of the referenced task's actions, nesting at most
/// `depth` deep. `None` where a reference is unknown or nests deeper.
pub open spec fn expand(table: TableView, q: Seq<ActionView>, depth: nat) -> Option<
    Seq<ActionView>,
>
    decreases depth, q.len(),
{
    if q.len() == 0 {
        Some(Seq::empty())
    } else {
        let rest = expand(table, q.drop_first(), depth);
        match q[0] {
            ActionView::Run(n) => {
                if depth == 0 {
                    None
                } else {
                    match lookup(table, n) {
                        None => None,
                        Some(acts) => match (expand(table, acts, (depth - 1) as nat), rest) {
                            (Some(x), Some(y)) => Some(x + y),
                            _ => None,
                        },
                    }
                }
            },
            a => match rest {
                Some(y) => Some(seq![a] + y),
                None => None,
            },
        }
    }
}

/// A run that empties `q1` first goes on with `q2` on the steps left over.
pub proof fn lemma_run_append(table: TableView, q1: Seq<ActionView>, q2: Seq<ActionView>, fuel: nat)
    requires
        run_spec(table, q1, fuel).1 == Outcome::Completed,
    ensures
        ({
            let (t1, _, k) = run_spec(table, q1, fuel);
            let (t2, o2, k2) = run_spec(table, q2, k);
            run_spec(table, q1 + q2, fuel) == (t1 + t2, o2, k2)
        }),
    decreases fuel,
{
    if q1.len() == 0 {
        assert(q1 + q2 =~= q2);
        let (t2, o2, k2) = run_spec(table, q2, fuel);
        assert(Seq::<ActionView>::empty() + t2 =~= t2);
    } else {
        let q = q1 + q2;
        assert(q[0] == q1[0]);
        assert(q.drop_first() =~= q1.drop_first() + q2);
        match q1[0] {
            ActionView::Run(n) => {
                match lookup(table, n) {
                    Some(acts) => {
                        assert(acts + q.drop_first() =~= (acts + q1.drop_first()) + q2);
                        lemma_run_append(table, acts + q1.drop_first(), q2, (fuel - 1) as nat);
                    },
                    None => {},
                }
            },
            a => {
                lemma_run_append(table, q1.drop_first(), q2, (fuel - 1) as nat);
                let (t1, _, k) = run_spec(table, q1.drop_first(), (fuel - 1) as nat);
                let (t2, o2, k2) = run_spec(table, q2, k);
                assert(seq![a] + (t1 + t2) =~= (seq![a] + t1) + t2);
            },
        }
    }
}

/// More steps than a complete run needs are left over, unused.
pub proof fn lemma_run_extra_fuel(table: TableView, q: Seq<ActionView>, fuel: nat, extra: nat)
    requires
        run_spec(table, q, fuel).1 == Outcome::Completed,
    ensures
        run_spec(table, q, fuel + extra) == (
            run_spec(table, q, fuel).0,
            Outcome::Completed,
            run_spec(table, q, fuel).2 + extra,
        ),
    decreases fuel,
{
    if q.len() > 0 {
        let (q2, s) = step_spec(table, q);
        assert((fuel + extra - 1) as nat == (fuel - 1) as nat + extra);
        lemma_run_extra_fuel(table, q2, (fuel - 1) as nat, extra);
    }
}

/// Two complete runs of one queue execute the same actions.
pub proof fn lemma_complete_runs_agree(table: TableView, q: Seq<ActionView>, f1: nat, f2: nat)
    requires
        run_spec(table, q, f1).1 == Outcome::Completed,
        run_spec(table, q, f2).1 == Outcome::Completed,
    ensures
        run_spec(table, q, f1).0 == run_spec(table, q, f2).0,
    decreases f1,
{
    if q.len() > 0 {
        let (q2, s) = step_spec(table, q);
        lemma_complete_runs_agree(table, q2, (f1 - 1) as nat, (f2 - 1) as nat);
    }
}

proof fn lemma_expansion_is_run(table: TableView, q: Seq<ActionView>, depth: nat) -> (fuel: nat)
    requires
        expand(table, q, depth) is Some,
    ensures
        run_spec(table, q, fuel) == (expand(table, q, depth).unwrap(), Outcome::Completed, 0nat),
    decreases depth, q.len(),
{
    if q.len() == 0 {
        0
    } else {
        let f2 = lemma_expansion_is_run(table, q.drop_first(), depth);
        match q[0] {
            ActionView::Run(n) => {
                let acts = lookup(table, n).unwrap();
                let f1 = lemma_expansion_is_run(table, acts, (depth - 1) as nat);
                lemma_run_extra_fuel(table, acts, f1, f2);
                lemma_run_append(table, acts, q.drop_first(), f1 + f2);
                assert(step_spec(table, q).0 == acts + q.drop_first());
                assert((f1 + f2 + 1 - 1) as nat == f1 + f2);
                f1 + f2 + 1
            },
            a => {
                assert((f2 + 1 - 1) as nat == f2);
                f2 + 1
            },
        }
    }
}

/// The scheduler executes exactly the depth-first expansion of its queue:
/// a run that is given enough steps completes, having executed the expansion's
/// actions in order, and every complete run executes those same actions.
pub proof fn lemma_run_is_depth_first_expansion(table: TableView, q: Seq<ActionView>, depth: nat)
    requires
        expand(table, q, depth) is Some,
    ensures
        exists|fuel: nat| #[trigger]
            run_spec(table, q, fuel) == (
                expand(table, q, depth).unwrap(),
                Outcome::Completed,
                0nat,
            ),
        forall|fuel: nat| #[trigger]
            run_spec(table, q, fuel).1 == Outcome::Completed ==> run_spec(table, q, fuel).0
                == expand(table, q, depth).unwrap(),
{
    let f = lemma_expansion_is_run(table, q, depth);
    assert forall|fuel: nat| #[trigger]
        run_spec(table, q, fuel).1 == Outcome::Completed implies run_spec(table, q, fuel).0
        == expand(table, q, depth).unwrap() by {
        lemma_complete_runs_agree(table, q, fuel, f);
    }
}

/// The expansion of two queues one after the other is the one expansion
/// followed by the other.
pub proof fn lemma_expand_concat(table: TableView, q1: Seq<ActionView>, q2: Seq<ActionView>, depth: nat)
    requires
        expand(table, q1, depth) is Some,
        expand(table, q2, depth) is Some,
    ensures
        expand(table, q1 + q2, depth) == Some(
            expand(table, q1, depth).unwrap() + expand(table, q2, depth).unwrap(),
        ),
    decreases q1.len(),
{
    let e2 = expand(table, q2, depth).unwrap();
    if q1.len() == 0 {
        assert(q1 + q2 =~= q2);
        assert(Seq::<ActionView>::empty() + e2 =~= e2);
    } else {
        let q = q1 + q2;
        assert(q[0] == q1[0]);
        assert(q.drop_first() =~= q1.drop_first() + q2);
        lemma_expand_concat(table, q1.drop_first(), q2, depth);
        let r1 = expand(table, q1.drop_first(), depth).unwrap();
        match q1[0] {
            ActionView::Run(n) => {
                let x = expand(table, lookup(table, n).unwrap(), (depth - 1) as nat).unwrap();
                assert(x + (r1 + e2) =~= (x + r1) + e2);
            },
            a => {
                assert(seq![a] + (r1 + e2) =~= (seq![a] + r1) + e2);
            },
        }
    }
}

/// Requesting two tasks runs the whole expansion of the first, then the whole
/// expansion of the second, with no sharing between them: a sub-task that both
/// reference runs once within each.
pub proof fn lemma_two_requests(table: TableView, a: Seq<char>, b: Seq<char>, depth: nat)
    requires
        lookup(table, a) is Some,
        lookup(table, b) is Some,
        expand(table, lookup(table, a).unwrap(), depth) is Some,
        expand(table, lookup(table, b).unwrap(), depth) is Some,
    ensures
        seed_spec(table, seq![a, b]) == Ok::<Seq<ActionView>, Seq<char>>(
            lookup(table, a).unwrap() + lookup(table, b).unwrap(),
        ),
        expand(table, lookup(table, a).unwrap() + lookup(table, b).unwrap(), depth) == Some(
            expand(table, lookup(table, a).unwrap(), depth).unwrap() + expand(
                table,
                lookup(table, b).unwrap(),
                depth,
            ).unwrap(),
        ),
{
    let names = seq![a, b];
    assert(names.drop_last() =~= seq![a]);
    assert(names.drop_last().drop_last() =~= Seq::<Seq<char>>::empty());
    let la = lookup(table, a).unwrap();
    assert(names.last() == b);
    assert(seq![a].last() == a);
    assert(seq![a].drop_last() =~= Seq::<Seq<char>>::empty());
    assert(seed_spec(table, Seq::<Seq<char>>::empty()) == Ok::<Seq<ActionView>, Seq<char>>(
        Seq::empty(),
    ));
    assert(Seq::<ActionView>::empty() + la =~= la);
    assert(seed_spec(table, seq![a]) == Ok::<Seq<ActionView>, Seq<char>>(la));
    lemma_expand_concat(table, lookup(table, a).unwrap(), lookup(table, b).unwrap(), depth);
}

/// A reference to an unknown task aborts the run right there: every action
/// before it has been executed, and none after it.
pub proof fn lemma_unknown_reference_aborts(
    table: TableView,
    before: Seq<ActionView>,
    name: Seq<char>,
    after: Seq<ActionView>,
    depth: nat,
)
    requires
        expand(table, before, depth) is Some,
        lookup(table, name) is None,
    ensures
        exists|fuel: nat| #[trigger]
            run_spec(table, before + seq![ActionView::Run(name)] + after, fuel) == (
                expand(table, before, depth).unwrap(),
                Outcome::Failed(name),
                0nat,
            ),
{
    let f = lemma_expansion_is_run(table, before, depth);
    let tail = seq![ActionView::Run(name)] + after;
    lemma_run_extra_fuel(table, before, f, 1);
    lemma_run_append(table, before, tail, f + 1);
    assert(before + seq![ActionView::Run(name)] + after =~= before + tail);
    assert(tail[0] == ActionView::Run(name));
    let t = expand(table, before, depth).unwrap();
    assert(t + Seq::<ActionView>::empty() =~= t);
    assert(run_spec(table, before + tail, f + 1) == (t, Outcome::Failed(name), 0nat));
}

/// A queue without task references expands to itself.
proof fn lemma_expand_without_references(table: TableView, q: Seq<ActionView>, depth: nat)
    requires
        forall|k: int| 0 <= k < q.len() ==> !(#[trigger] q[k] is Run),
    ensures
        expand(table, q, depth) == Some(q),
    decreases q.len(),
{
    if q.len() > 0 {
        assert(!(q[0] is Run));
        assert forall|k: int| 0 <= k < q.drop_first().len() implies !(#[trigger] q.drop_first()[k] is Run) by {
            assert(q.drop_first()[k] == q[k + 1]);
        }
        lemma_expand_without_references(table, q.drop_first(), depth);
        assert(seq![q[0]] + q.drop_first() =~= q);
    }
}

/// What a successful lookup finds is the action list of an entry.
proof fn lemma_lookup_finds_entry(table: TableView, name: Seq<char>, i: int)
    requires
        0 <= i,
        lookup_from(table, name, i) is Some,
    ensures
        exists|j: int|
            i <= j < table.len() && lookup_from(table, name, i) == Some(#[trigger] table[j].1),
    decreases table.len() - i,
{
    if table[i].0 != name {
        lemma_lookup_finds_entry(table, name, i + 1);
    } else {
        assert(lookup_from(table, name, i) == Some(table[i].1));
    }
}

/// Every built-in task expands completely, with task references nesting one
/// level deep: requesting it alone executes exactly that expansion.
pub proof fn lemma_builtin_tasks_expand(name: Seq<char>)
    requires
        lookup(default_table(), name) is Some,
    ensures
        expand(default_table(), lookup(default_table(), name).unwrap(), 1) is Some,
{
    let t = default_table();
    lemma_lookup_finds_entry(t, name, 0);
    let j = choose|j: int| 0 <= j < t.len() && lookup_from(t, name, 0) == Some(#[trigger] t[j].1);
    assert forall|e: int| 1 <= e < 7 implies expand(t, #[trigger] t[e].1, 0) is Some by {
        assert forall|k: int| 0 <= k < t[e].1.len() implies !(#[trigger] t[e].1[k] is Run) by {}
        lemma_expand_without_references(t, t[e].1, 0);
    }
    if j == 0 {
        reveal_strlit("before-pr");
        reveal_strlit("all-checks");
        reveal_strlit("lints");
        reveal_strlit("build-all");
        reveal_strlit("all-tests");
        reveal_with_fuel(lookup_from, 6);
        let q = t[0].1;
        assert(t[0].0.len() != "lints"@.len());
        assert(t[1].0.len() != "lints"@.len());
        assert(lookup(t, "lints"@) == Some(t[2].1));
        assert(t[0].0[1] != "build-all"@[1]);
        assert(t[1].0.len() != "build-all"@.len());
        assert(t[2].0.len() != "build-all"@.len());
        assert(t[0].0[0] != "all-tests"@[0]);
        assert(t[1].0.len() != "all-tests"@.len());
        assert(t[2].0.len() != "all-tests"@.len());
        assert(t[3].0[0] != "all-tests"@[0]);
        assert(t[0].0.len() != "all-checks"@.len());
        assert(lookup(t, "build-all"@) == Some(t[3].1));
        assert(lookup(t, "all-tests"@) == Some(t[4].1));
        assert(lookup(t, "all-checks"@) == Some(t[1].1));
        assert(expand(t, t[2].1, 0) is Some);
        assert(expand(t, t[3].1, 0) is Some);
        assert(expand(t, t[4].1, 0) is Some);
        assert(expand(t, t[1].1, 0) is Some);
        assert(q.subrange(5, 5).len() == 0);
        assert(q.subrange(4, 5).drop_first() =~= q.subrange(5, 5));
        assert(expand(t, q.subrange(5, 5), 1) is Some);
        assert(q.subrange(4, 5)[0] == ActionView::Run("all-checks"@));
        assert(q.subrange(3, 5)[0] == ActionView::Run("all-tests"@));
        assert(q.subrange(2, 5)[0] == ActionView::Run("build-all"@));
        assert(q.subrange(1, 5)[0] == ActionView::Run("lints"@));
        assert(expand(t, q.subrange(4, 5), 1) is Some);
        assert(q.subrange(3, 5).drop_first() =~= q.subrange(4, 5));
        assert(expand(t, q.subrange(3, 5), 1) is Some);
        assert(q.subrange(2, 5).drop_first() =~= q.subrange(3, 5));
        assert(expand(t, q.subrange(2, 5), 1) is Some);
        assert(q.subrange(1, 5).drop_first() =~= q.subrange(2, 5));
        assert(expand(t, q.subrange(1, 5), 1) is Some);
        assert(q.drop_first() =~= q.subrange(1, 5));
        assert(expand(t, q, 1) is Some);
    } else {
        assert forall|k: int| 0 <= k < t[j].1.len() implies !(#[trigger] t[j].1[k] is Run) by {}
        lemma_expand_without_references(t, t[j].1, 1);
    }
}

} // verus!
