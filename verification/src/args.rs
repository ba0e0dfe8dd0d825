//! The configuration one invocation runs with.

use vstd::prelude::*;

verus! {

/// Configuration inputs, read once at process start and passed down as
/// plain data.
pub struct Opt {
    /// Name of the hook to dispatch (e.g. `pre-commit`).
    pub hook: String,
    /// Optional override for the hooks-directory name list.
    pub hooks_dir: Option<String>,
    /// Whether each dispatched hook's location is echoed before execution.
    pub verbose: bool,
    /// Trailing arguments forwarded verbatim to every executed hook.
    pub args: Vec<String>,
}

impl Opt {
    /// The ordered list of hooks-directory names to try: the configured
    /// override alone when one is given, else the conventional names, in
    /// priority order.
    pub fn hooks_dir_names(&self) -> (r: Vec<String>)
        ensures
            match self.hooks_dir {
                Some(d) => r@.len() == 1 && r@[0]@ == d@,
                None => r@.len() == 2 && r@[0]@ == "git-hooks"@ && r@[1]@ == ".git-hooks"@,
            },
    {
        let mut v: Vec<String> = Vec::new();
        match &self.hooks_dir {
            Some(d) => {
                v.push(d.clone());
            },
            None => {
                v.push("git-hooks".to_owned());
                v.push(".git-hooks".to_owned());
            },
        }
        v
    }
}

} // verus!
