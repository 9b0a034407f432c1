//! A small task runner for a project's build, lint, test and coverage
//! workflows. Named tasks expand, depth-first and lazily, into a queue of
//! build-tool invocations and built-in coverage operations; the scheduler
//! takes one step at a time, and the caller performs what each step asks for.
use vstd::prelude::*;

pub mod cli;
pub mod command;
pub mod context;
pub mod coverage;
pub mod paths;
pub mod scheduler;
pub mod tasks;

verus! {

} // verus!
