use vstd::prelude::*;
use vstd::string::StringExecFns;

verus! {

/// The shared, read-only execution context: the working directory, the
/// build-output directory (both absolute paths) and the verbosity flag.
pub struct Vars {
    pub cwd: String,
    pub target_dir: String,
    pub verbose: bool,
}

/// The arguments that the verbosity flag adds to a build-tool invocation.
pub open spec fn verbose_args_of(verbose: bool) -> Seq<Seq<char>> {
    if verbose {
        seq!["--verbose"@]
    } else {
        Seq::empty()
    }
}

impl Vars {
    pub fn verbose_arg(&self) -> (r: Vec<String>)
        ensures
            r@.map_values(|s: String| s@) == verbose_args_of(self.verbose),
    {
        let mut r: Vec<String> = Vec::new();
        if self.verbose {
            r.push(String::from_str("--verbose"));
        }
        proof {
            assert(r@.map_values(|s: String| s@) =~= verbose_args_of(self.verbose));
        }
        r
    }
}

} // verus!
