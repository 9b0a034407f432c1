use vstd::prelude::*;
use vstd::string::StringExecFns;

use crate::tasks::{Task, TableView, find_task, lookup, strs_view, table_view};

verus! {

pub open spec fn is_verbose_flag(a: Seq<char>) -> bool {
    a == "--verbose"@ || a == "-v"@
}

/// Reads the arguments in order: the requested task names, in order, and
/// whether a verbosity flag was given; or the first argument that is neither.
pub open spec fn parse_spec(table: TableView, args: Seq<Seq<char>>) -> Result<
    (Seq<Seq<char>>, bool),
    Seq<char>,
>
    decreases args.len(),
{
    if args.len() == 0 {
        Ok((Seq::empty(), false))
    } else {
        match parse_spec(table, args.drop_last()) {
            Err(e) => Err(e),
            Ok((names, verbose)) => {
                let a = args.last();
                if is_verbose_flag(a) {
                    Ok((names, true))
                } else if lookup(table, a) is Some {
                    Ok((names.push(a), verbose))
                } else {
                    Err(a)
                }
            },
        }
    }
}

/// What the command line asks for.
#[derive(Debug)]
pub struct Request {
    pub tasks: Vec<String>,
    pub verbose: bool,
}

/// Why the command line was refused.
#[derive(Debug)]
pub enum ArgError {
    /// An argument that is neither a verbosity flag nor a task name.
    InvalidArgument(String),
    /// No task name was given.
    MissingAction,
}

/// Parses the command-line arguments (without the program name) against the
/// task table.
pub fn parse_args(table: &Vec<Task>, args: &Vec<String>) -> (r: Result<Request, ArgError>)
    ensures
        match r {
            Ok(req) => parse_spec(table_view(table@), strs_view(args@)) == Ok::<
                (Seq<Seq<char>>, bool),
                Seq<char>,
            >((strs_view(req.tasks@), req.verbose)) && req.tasks@.len() > 0,
            Err(ArgError::InvalidArgument(a)) => parse_spec(table_view(table@), strs_view(args@))
                == Err::<(Seq<Seq<char>>, bool), Seq<char>>(a@),
            Err(ArgError::MissingAction) => parse_spec(table_view(table@), strs_view(args@))
                == Ok::<(Seq<Seq<char>>, bool), Seq<char>>((Seq::empty(), false))
                || parse_spec(table_view(table@), strs_view(args@)) == Ok::<
                (Seq<Seq<char>>, bool),
                Seq<char>,
            >((Seq::empty(), true)),
        },
{
    let ghost tv = table_view(table@);
    let ghost av = strs_view(args@);
    let long_flag = String::from_str("--verbose");
    let short_flag = String::from_str("-v");
    let mut tasks: Vec<String> = Vec::new();
    let mut verbose = false;
    let mut i: usize = 0;
    proof {
        assert(av.subrange(0, 0).len() == 0);
        assert(strs_view(tasks@) =~= Seq::<Seq<char>>::empty());
    }
    while i < args.len()
        invariant
            i <= args@.len(),
            tv == table_view(table@),
            av == strs_view(args@),
            long_flag@ == "--verbose"@,
            short_flag@ == "-v"@,
            parse_spec(tv, av.subrange(0, i as int)) == Ok::<(Seq<Seq<char>>, bool), Seq<char>>(
                (strs_view(tasks@), verbose),
            ),
        decreases args@.len() - i,
    {
        proof {
            assert(av.subrange(0, i + 1).drop_last() =~= av.subrange(0, i as int));
            assert(av.subrange(0, i + 1).last() == args@[i as int]@);
        }
        let arg = &args[i];
        if *arg == long_flag || *arg == short_flag {
            verbose = true;
        } else {
            match find_task(table, arg) {
                None => {
                    proof {
                        lemma_parse_error_persists(tv, av, (i + 1) as int);
                    }
                    return Err(ArgError::InvalidArgument(arg.clone()));
                },
                Some(_) => {
                    let ghost prev = strs_view(tasks@);
                    tasks.push(arg.clone());
                    proof {
                        assert(strs_view(tasks@) =~= prev.push(args@[i as int]@));
                    }
                },
            }
        }
        i += 1;
    }
    proof {
        assert(av.subrange(0, i as int) =~= av);
    }
    if tasks.len() == 0 {
        proof {
            assert(strs_view(tasks@) =~= Seq::<Seq<char>>::empty());
        }
        return Err(ArgError::MissingAction);
    }
    Ok(Request { tasks, verbose })
}

proof fn lemma_parse_error_persists(table: TableView, args: Seq<Seq<char>>, i: int)
    requires
        0 <= i <= args.len(),
        parse_spec(table, args.subrange(0, i)) is Err,
    ensures
        parse_spec(table, args) == parse_spec(table, args.subrange(0, i)),
    decreases args.len() - i,
{
    if i == args.len() {
        assert(args.subrange(0, i) =~= args);
    } else {
        assert(args.subrange(0, i + 1).drop_last() =~= args.subrange(0, i));
        lemma_parse_error_persists(table, args, i + 1);
    }
}

/// A verbosity flag, inserted anywhere, sets verbosity and changes nothing
/// else: giving it zero, one or several times differs only in that setting.
pub proof fn lemma_verbose_flag_anywhere(
    table: TableView,
    before: Seq<Seq<char>>,
    flag: Seq<char>,
    after: Seq<Seq<char>>,
)
    requires
        is_verbose_flag(flag),
    ensures
        parse_spec(table, before + seq![flag] + after) == match parse_spec(table, before + after) {
            Ok((names, _)) => Ok((names, true)),
            Err(e) => Err(e),
        },
    decreases after.len(),
{
    let with = before + seq![flag] + after;
    let without = before + after;
    if after.len() == 0 {
        assert(with.drop_last() =~= before);
        assert(without =~= before);
    } else {
        assert(with.drop_last() =~= before + seq![flag] + after.drop_last());
        assert(without.drop_last() =~= before + after.drop_last());
        assert(with.last() == after.last());
        assert(without.last() == after.last());
        lemma_verbose_flag_anywhere(table, before, flag, after.drop_last());
    }
}

} // verus!
