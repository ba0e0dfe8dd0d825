//! Filesystem probes.
//!
//! Discovery asks the filesystem two yes/no questions.  What is on disk can
//! change between any two calls, so neither probe promises anything about
//! its answer: every caller's contract holds whatever the probes return.

use vstd::prelude::*;

verus! {

/// Relies on `std::path::Path::is_dir`: whether `p` names a directory that
/// exists on disk at the moment of the call.
#[verifier::external_body]
pub(crate) fn path_is_dir(p: &str) -> bool {
    std::path::Path::new(p).is_dir()
}

/// Relies on `std::path::Path::exists`: whether `p` names anything that
/// exists on disk at the moment of the call.
#[verifier::external_body]
pub(crate) fn path_exists(p: &str) -> bool {
    std::path::Path::new(p).exists()
}

} // verus!
