//! The capability through which hooks are executed.

use vstd::prelude::*;

verus! {

/// A system error raised while trying to execute a hook: the script could
/// not be spawned at all, as opposed to a hook that ran and exited
/// non-zero (which is a normal outcome, returned as data).
#[derive(Clone, Debug)]
pub struct ExecError {
    pub message: String,
}

/// The narrow capability the dispatch engine executes hooks through: spawn
/// a script with arguments in a working directory and report its exit
/// code, relaying the child's output.  Implementations live outside this
/// library (a real spawning executor, or a scripted double in tests);
/// `outcome` is each implementation's own account of what `execute`
/// returns, and nothing here checks an implementation against it.
pub trait Executor {
    /// What this executor's `execute` returns for the given invocation:
    /// `Some(code)` for an exit code, `None` for a system error.  An
    /// implementation that does not say otherwise leaves it unspecified.
    open spec fn outcome(
        &self,
        working_dir: Seq<char>,
        hook_path: Seq<char>,
        args: Seq<Seq<char>>,
    ) -> Option<i32> {
        arbitrary()
    }

    /// Runs `hook_path` with `args`, with the current directory set to
    /// `working_dir`, and returns the child's exit code.
    fn execute(&self, working_dir: &String, hook_path: &String, args: &Vec<String>) -> (r: Result<
        i32,
        ExecError,
    >)
        ensures
            match r {
                Ok(code) => self.outcome(working_dir@, hook_path@, args.deep_view()) == Some(code),
                Err(_) => self.outcome(working_dir@, hook_path@, args.deep_view()) is None,
            },
    ;
}

} // verus!
