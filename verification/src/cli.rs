//! The command line of the compiler.

use vstd::prelude::*;

verus! {
/// What the command line asks for: the source file, the name of the
/// executable, whether to dump every stage, and whether to stop once the
/// source has been checked.
#[derive(Debug, PartialEq, Eq)]
pub struct Cli {
    pub input: String,
    pub output: Option<String>,
    pub debug: bool,
    pub parse_only: bool,
}

impl Clone for Cli {
    fn clone(&self) -> (r: Cli)
        ensures
            r.input@ == self.input@,
            crate::global::opt_text(r.output) == crate::global::opt_text(self.output),
            r.debug == self.debug,
            r.parse_only == self.parse_only,
    {
        Cli {
            input: self.input.clone(),
            output: crate::global::clone_opt_text(&self.output),
            debug: self.debug,
            parse_only: self.parse_only,
        }
    }
}
} // verus!
