//! The unit of dispatch and its locator.
//!
//! The locator separates what the filesystem decides from what the library
//! decides.  The probes' answers are collected as plain values first; which
//! configured name wins ([`pick_first_hooks_dir`]) and whether a hook comes
//! back at all ([`decide_hook`]) are then verified functions of those
//! values, with if-and-only-if contracts.

use vstd::prelude::*;

use crate::paths::join_path;
use crate::paths::join_seq;
use crate::probe::path_exists;
use crate::probe::path_is_dir;

verus! {

/// A hook script paired with the directory it belongs to.  Identity is the
/// pair of both fields: two values name the same hook exactly when both
/// the script path and the base directory agree.  Verified code compares
/// hooks through [`Hook::same_hook`]; the derived `PartialEq` serves
/// callers outside the library.
#[derive(PartialEq, Eq, Hash, Clone, Debug)]
pub struct Hook {
    /// Absolute path of the hook script.
    pub path: String,
    /// Absolute path of the directory this hook belongs to
    /// (`/foo/bar` for `/foo/bar/git-hooks/pre-commit`).
    pub base_dir: String,
}

impl Hook {
    /// The identity by which hooks are de-duplicated.
    pub open spec fn identity(self) -> (Seq<char>, Seq<char>) {
        (self.path@, self.base_dir@)
    }

    /// Whether `self` and `other` name the same hook.
    pub fn same_hook(&self, other: &Hook) -> (r: bool)
        ensures
            r == (self.identity() == other.identity()),
    {
        self.path == other.path && self.base_dir == other.base_dir
    }

    /// Probes `path` for a runnable hook script named `hook_type`.
    ///
    /// Whether anything is found depends on the filesystem; the probes'
    /// answers are gathered first and every decision over them is made by
    /// [`decide_hook`] and [`pick_first_hooks_dir`], whose contracts pin
    /// it exactly.  Any hook returned belongs to the probed directory, and
    /// its script path is that directory, one of the configured
    /// hooks-directory names, and the hook name, joined in that order.
    pub fn find_hook(path: &String, hook_type: &str, hooks_dir_names: &Vec<String>) -> (r: Option<
        Hook,
    >)
        ensures
            r matches Some(h) ==> {
                &&& h.base_dir@ == path@
                &&& exists|i: int|
                    0 <= i < hooks_dir_names@.len() && h.path@ == join_seq(
                        join_seq(path@, hooks_dir_names@[i]@),
                        hook_type@,
                    )
            },
            hooks_dir_names@.len() == 0 ==> r is None,
    {
        let dir_ok = path_is_dir(path.as_str());
        let located: Option<String> = if dir_ok {
            find_hooks_dir(path, hooks_dir_names)
        } else {
            None
        };
        let file_ok: bool = match &located {
            Some(hooks_dir) => {
                let hook_file = join_path(hooks_dir.as_str(), hook_type);
                path_exists(hook_file.as_str())
            },
            None => false,
        };
        decide_hook(path, hook_type, dir_ok, &located, file_ok)
    }
}

/// The locator's decision, taken on the probe answers alone: whether the
/// probed directory exists (`dir_ok`), which hooks directory (if any) was
/// located under it, and whether the hook script inside that directory
/// exists (`file_ok`).  A hook comes back if and only if all three are
/// positive, and it is assembled from the probed directory and the located
/// hooks directory by joins alone.
pub fn decide_hook(
    path: &String,
    hook_type: &str,
    dir_ok: bool,
    located: &Option<String>,
    file_ok: bool,
) -> (r: Option<Hook>)
    ensures
        r is Some <==> (dir_ok && located is Some && file_ok),
        r matches Some(h) ==> {
            &&& h.base_dir@ == path@
            &&& located matches Some(hooks_dir) && h.path@ == join_seq(hooks_dir@, hook_type@)
        },
{
    if !dir_ok {
        return None;
    }
    match located {
        None => None,
        Some(hooks_dir) => {
            if file_ok {
                Some(
                    Hook {
                        path: join_path(hooks_dir.as_str(), hook_type),
                        base_dir: path.clone(),
                    },
                )
            } else {
                None
            }
        },
    }
}

/// The probe answer for each configured name: whether `path` joined with
/// that name exists as a directory, in the names' own order.
fn probe_names(path: &String, names: &Vec<String>) -> (found: Vec<bool>)
    ensures
        found@.len() == names@.len(),
{
    let mut found: Vec<bool> = Vec::new();
    let mut i: usize = 0;
    while i < names.len()
        invariant
            i <= names@.len(),
            found@.len() == i,
        decreases names@.len() - i,
    {
        let candidate = join_path(path.as_str(), names[i].as_str());
        found.push(path_is_dir(candidate.as_str()));
        i = i + 1;
    }
    found
}

/// Which configured name wins, decided on the probe answers alone: the
/// first name whose directory was found, joined onto `path`; `None` if and
/// only if no name's directory was found.  This is where a configured
/// override name takes priority over the defaults.
pub fn pick_first_hooks_dir(path: &String, names: &Vec<String>, found: &Vec<bool>) -> (r: Option<
    String,
>)
    requires
        found@.len() == names@.len(),
    ensures
        r is Some <==> exists|i: int| 0 <= i < names@.len() && found@[i],
        r matches Some(d) ==> exists|i: int|
            0 <= i < names@.len() && found@[i] && d@ == join_seq(path@, names@[i]@) && (forall|
                k: int,
            |
                0 <= k < i ==> !found@[k]),
{
    let mut i: usize = 0;
    while i < names.len()
        invariant
            i <= names@.len(),
            found@.len() == names@.len(),
            forall|k: int| 0 <= k < i ==> !found@[k],
        decreases names@.len() - i,
    {
        if found[i] {
            let d = join_path(path.as_str(), names[i].as_str());
            return Some(d);
        }
        i = i + 1;
    }
    None
}

/// The first of the configured hooks-directory names that exists as a
/// directory under `path`, joined onto `path`.  The filesystem's answers
/// are collected by the probes; the selection over them is
/// [`pick_first_hooks_dir`], whose contract pins first-match-wins.
pub fn find_hooks_dir(path: &String, names: &Vec<String>) -> (r: Option<String>)
    ensures
        r matches Some(d) ==> exists|i: int|
            0 <= i < names@.len() && d@ == join_seq(path@, names@[i]@),
        names@.len() == 0 ==> r is None,
{
    let found = probe_names(path, names);
    pick_first_hooks_dir(path, names, &found)
}

} // verus!
