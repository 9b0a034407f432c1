use vstd::prelude::*;
use vstd::string::StringExecFns;

use crate::context::{Vars, verbose_args_of};
use crate::tasks::strs_view;

verus! {

/// An external program to start: its name, its arguments, and the
/// environment variables set for it on top of the inherited ones.
#[derive(Debug)]
pub struct Invocation {
    pub program: String,
    pub args: Vec<String>,
    pub env: Vec<(String, String)>,
}

pub ghost struct InvocationView {
    pub program: Seq<char>,
    pub args: Seq<Seq<char>>,
    pub env: Seq<(Seq<char>, Seq<char>)>,
}

pub open spec fn env_view(v: Seq<(String, String)>) -> Seq<(Seq<char>, Seq<char>)> {
    v.map_values(|p: (String, String)| (p.0@, p.1@))
}

impl View for Invocation {
    type V = InvocationView;

    open spec fn view(&self) -> InvocationView {
        InvocationView { program: self.program@, args: strs_view(self.args@), env: env_view(self.env@) }
    }
}

pub fn push_str(v: &mut Vec<String>, s: &str)
    ensures
        strs_view(final(v)@) == strs_view(old(v)@).push(s@),
{
    let ghost prev = strs_view(v@);
    v.push(String::from_str(s));
    proof {
        assert(strs_view(v@) =~= prev.push(s@));
    }
}

pub fn push_string(v: &mut Vec<String>, s: String)
    ensures
        strs_view(final(v)@) == strs_view(old(v)@).push(s@),
{
    let ghost prev = strs_view(v@);
    let ghost sv = s@;
    v.push(s);
    proof {
        assert(strs_view(v@) =~= prev.push(sv));
    }
}

pub fn push_all(v: &mut Vec<String>, items: &Vec<String>)
    ensures
        strs_view(final(v)@) == strs_view(old(v)@) + strs_view(items@),
{
    let ghost start = strs_view(v@);
    let mut i: usize = 0;
    while i < items.len()
        invariant
            i <= items@.len(),
            strs_view(v@) == start + strs_view(items@).subrange(0, i as int),
        decreases items@.len() - i,
    {
        let ghost prev = strs_view(v@);
        v.push(items[i].clone());
        proof {
            assert(strs_view(v@) =~= prev.push(items@[i as int]@));
        }
        i += 1;
        proof {
            assert(strs_view(v@) =~= start + strs_view(items@).subrange(0, i as int));
        }
    }
    proof {
        assert(strs_view(items@).subrange(0, i as int) =~= strs_view(items@));
    }
}

/// The build tool's invocation for a subcommand: the verbosity flag, if set,
/// comes first, then the subcommand, then its own arguments.
pub open spec fn cargo_spec(command: Seq<char>, args: Seq<Seq<char>>, verbose: bool) -> InvocationView {
    InvocationView {
        program: "cargo"@,
        args: verbose_args_of(verbose) + seq![command] + args,
        env: Seq::empty(),
    }
}

pub fn cargo_cmd(command: &String, args: &Vec<String>, vars: &Vars) -> (r: Invocation)
    ensures
        r@ == cargo_spec(command@, strs_view(args@), vars.verbose),
{
    let mut all = vars.verbose_arg();
    proof {
        assert(strs_view(all@) =~= all@.map_values(|s: String| s@));
    }
    let ghost prev = strs_view(all@);
    all.push(command.clone());
    proof {
        assert(strs_view(all@) =~= prev.push(command@));
    }
    push_all(&mut all, args);
    let env: Vec<(String, String)> = Vec::new();
    proof {
        assert(env_view(env@) =~= Seq::<(Seq<char>, Seq<char>)>::empty());
        assert(strs_view(all@) =~= verbose_args_of(vars.verbose) + seq![command@] + strs_view(args@));
    }
    Invocation { program: String::from_str("cargo"), args: all, env }
}

/// The arguments, each preceded by one space.
pub open spec fn spaced(args: Seq<Seq<char>>) -> Seq<char>
    decreases args.len(),
{
    if args.len() == 0 {
        Seq::empty()
    } else {
        spaced(args.drop_last()) + " "@ + args.last()
    }
}

/// The line announcing a build-tool invocation.
pub fn cargo_banner(command: &String, args: &Vec<String>) -> (r: String)
    ensures
        r@ == "Running cargo "@ + command@ + spaced(strs_view(args@)),
{
    let ghost av = strs_view(args@);
    let mut r = String::from_str("Running cargo ");
    r.append(command.as_str());
    let ghost head = r@;
    let mut i: usize = 0;
    proof {
        assert(av.subrange(0, 0).len() == 0);
        assert(head =~= head + spaced(av.subrange(0, 0)));
    }
    while i < args.len()
        invariant
            i <= args@.len(),
            av == strs_view(args@),
            r@ == head + spaced(av.subrange(0, i as int)),
        decreases args@.len() - i,
    {
        r.append(" ");
        r.append(args[i].as_str());
        proof {
            assert(av.subrange(0, i + 1).drop_last() =~= av.subrange(0, i as int));
            assert(av.subrange(0, i + 1).last() == args@[i as int]@);
        }
        i += 1;
    }
    proof {
        assert(av.subrange(0, i as int) =~= av);
    }
    r
}

} // verus!
