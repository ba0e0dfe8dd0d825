//! Dispatches a named hook (such as `pre-commit`) to the hook scripts that
//! the changed paths of a repository make applicable: for every changed
//! path, the ancestor directories up to (but excluding) the repository
//! root are probed for a hooks directory holding a script with the hook's
//! name, and the de-duplicated list of scripts found runs in order,
//! closest directory first, stopping at the first non-zero exit code.

pub mod args;
pub mod change;
pub mod executor;
pub mod hook;
pub mod laws;
pub mod paths;
mod probe;
pub mod run;
