//! Discovery and dispatch of hooks for one invocation.

use vstd::prelude::*;

use crate::change::ChangeEntry;
use crate::change::is_changed;
use crate::change::spec_is_changed;
use crate::executor::ExecError;
use crate::executor::Executor;
use crate::hook::Hook;
use crate::paths::ancestor_dirs;
use crate::paths::is_absolute_path;
use crate::paths::is_dir_prefix;
use crate::paths::join_path;
use crate::paths::join_seq;
use crate::paths::lemma_join_preserves_prefix;
use crate::paths::lemma_join_under_base;
use crate::paths::parent_dir_spec;
use crate::probe::path_exists;

verus! {

/// `a` is one of the directories probed for the changed path `p`: the
/// directory containing `p` or a higher ancestor of it, never the
/// repository root itself (the empty relative path).
pub open spec fn probes_dir_of(a: Seq<char>, p: Seq<char>) -> bool {
    &&& a.len() > 0
    &&& match parent_dir_spec(p) {
        Some(q) => a == q || is_dir_prefix(a, q),
        None => false,
    }
}

/// Where a discovered hook is allowed to come from: some changed entry has
/// a probed ancestor directory `a` such that the hook's base directory is
/// `a` joined under the repository root, and the script path is the base
/// directory, one of the hooks-directory names, and the hook name, joined
/// in that order.
pub open spec fn hook_provenance(
    repo_dir: Seq<char>,
    hook_name: Seq<char>,
    names: Seq<String>,
    changes: Seq<ChangeEntry>,
    h: Hook,
) -> bool {
    &&& exists|e: int, a: Seq<char>|
        0 <= e < changes.len() && spec_is_changed(changes[e].flags) && probes_dir_of(
            a,
            changes[e].path@,
        ) && h.base_dir@ == join_seq(repo_dir, a)
    &&& exists|i: int|
        0 <= i < names.len() && h.path@ == join_seq(join_seq(h.base_dir@, names[i]@), hook_name)
}

/// No two hooks in the list share identity.
pub open spec fn no_dup_hooks(hooks: Seq<Hook>) -> bool {
    forall|j1: int, j2: int|
        0 <= j1 < j2 < hooks.len() ==> hooks[j1].identity() != hooks[j2].identity()
}

/// Every later hook belongs to a strictly higher directory than every
/// earlier one: execution order is closest-ancestor first.
pub open spec fn ordered_by_depth(hooks: Seq<Hook>) -> bool {
    forall|j1: int, j2: int|
        0 <= j1 < j2 < hooks.len() ==> is_dir_prefix(hooks[j2].base_dir@, hooks[j1].base_dir@)
}

/// Everything discovery promises of its result: every hook is traceable to
/// a changed entry and lies strictly inside the repository; no identity
/// repeats; and for a single changed path the list runs closest-first.
/// With several changed paths the ordering clause is deliberately not
/// claimed: de-duplication keeps the first-seen position, so a shared
/// ancestor's hook scheduled by an earlier path may stand ahead of a later
/// path's deeper hook.
pub open spec fn well_gathered(
    repo_dir: Seq<char>,
    hook_name: Seq<char>,
    names: Seq<String>,
    changes: Seq<ChangeEntry>,
    hooks: Seq<Hook>,
) -> bool {
    &&& no_dup_hooks(hooks)
    &&& forall|j: int|
        0 <= j < hooks.len() ==> hook_provenance(
            repo_dir,
            hook_name,
            names,
            changes,
            #[trigger] hooks[j],
        )
    &&& forall|j: int|
        0 <= j < hooks.len() ==> is_dir_prefix(repo_dir, (#[trigger] hooks[j]).base_dir@)
    &&& changes.len() <= 1 ==> ordered_by_depth(hooks)
}

/// The scheduling step, decided on the list and the found hook alone: `h`
/// is appended if and only if no hook of its identity is already
/// scheduled; the list is otherwise left exactly as it was.
pub fn schedule_hook(hooks: &mut Vec<Hook>, h: Hook)
    ensures
        (exists|j: int|
            0 <= j < old(hooks)@.len() && (#[trigger] old(hooks)@[j]).identity() == h.identity())
            ==> final (hooks)@ == old(hooks)@,
        !(exists|j: int|
            0 <= j < old(hooks)@.len() && (#[trigger] old(hooks)@[j]).identity() == h.identity())
            ==> final (hooks)@ == old(hooks)@.push(h),
{
    if !contains_hook(hooks, &h) {
        hooks.push(h);
    }
}

/// Whether some hook in the list has the identity of `h`.
fn contains_hook(hooks: &Vec<Hook>, h: &Hook) -> (r: bool)
    ensures
        r == exists|j: int|
            0 <= j < hooks@.len() && (#[trigger] hooks@[j]).identity() == h.identity(),
{
    let mut j: usize = 0;
    while j < hooks.len()
        invariant
            j <= hooks@.len(),
            forall|t: int| 0 <= t < j ==> (#[trigger] hooks@[t]).identity() != h.identity(),
        decreases hooks@.len() - j,
    {
        if hooks[j].same_hook(h) {
            return true;
        }
        j = j + 1;
    }
    false
}

/// Discovers the ordered, de-duplicated list of hooks to run: for every
/// changed entry, walks the ancestor directories of its path closest-first
/// (never reaching the repository root), probes each for a hook, and
/// appends each hook found whose identity is not already scheduled.
#[verifier::loop_isolation(false)]
pub fn gather_hooks(
    repo_dir: &String,
    hook_name: &str,
    changes: &Vec<ChangeEntry>,
    hooks_dir_names: &Vec<String>,
) -> (r: Vec<Hook>)
    requires
        is_absolute_path(repo_dir@),
    ensures
        well_gathered(repo_dir@, hook_name@, hooks_dir_names@, changes@, r@),
        changes@.len() == 0 ==> r@.len() == 0,
        hooks_dir_names@.len() == 0 ==> r@.len() == 0,
{
    let mut hooks: Vec<Hook> = Vec::new();
    let mut e: usize = 0;
    while e < changes.len()
        invariant
            e <= changes@.len(),
            hooks_dir_names@.len() == 0 ==> hooks@.len() == 0,
            no_dup_hooks(hooks@),
            forall|j: int|
                0 <= j < hooks@.len() ==> hook_provenance(
                    repo_dir@,
                    hook_name@,
                    hooks_dir_names@,
                    changes@,
                    #[trigger] hooks@[j],
                ),
            forall|j: int|
                0 <= j < hooks@.len() ==> is_dir_prefix(repo_dir@, (#[trigger] hooks@[j]).base_dir@),
            changes@.len() <= 1 && e == 0 ==> hooks@.len() == 0,
            changes@.len() <= 1 ==> ordered_by_depth(hooks@),
        decreases changes@.len() - e,
    {
        let entry = &changes[e];
        if is_changed(&entry.flags) {
            let chain = ancestor_dirs(entry.path.as_str());
            let mut k: usize = 0;
            while k < chain.len()
                invariant
                    k <= chain@.len(),
                    hooks_dir_names@.len() == 0 ==> hooks@.len() == 0,
                    no_dup_hooks(hooks@),
                    forall|j: int|
                        0 <= j < hooks@.len() ==> hook_provenance(
                            repo_dir@,
                            hook_name@,
                            hooks_dir_names@,
                            changes@,
                            #[trigger] hooks@[j],
                        ),
                    forall|j: int|
                        0 <= j < hooks@.len() ==> is_dir_prefix(
                            repo_dir@,
                            (#[trigger] hooks@[j]).base_dir@,
                        ),
                    changes@.len() <= 1 ==> ordered_by_depth(hooks@),
                    changes@.len() <= 1 ==> forall|j: int|
                        0 <= j < hooks@.len() ==> exists|kk: int|
                            0 <= kk < k && (#[trigger] hooks@[j]).base_dir@ == join_seq(
                                repo_dir@,
                                chain@[kk]@,
                            ),
                decreases chain@.len() - k,
            {
                let abs = join_path(repo_dir.as_str(), chain[k].as_str());
                if path_exists(abs.as_str()) {
                    match Hook::find_hook(&abs, hook_name, hooks_dir_names) {
                        None => {},
                        Some(h) => {
                            let ghost hsnap = h;
                            let ghost pre = hooks@;
                            proof {
                                assert(probes_dir_of(chain@[k as int]@, entry.path@));
                                assert(hook_provenance(
                                    repo_dir@,
                                    hook_name@,
                                    hooks_dir_names@,
                                    changes@,
                                    hsnap,
                                ));
                                lemma_join_under_base(repo_dir@, chain@[k as int]@);
                                if changes@.len() <= 1 {
                                    assert forall|j: int| 0 <= j < pre.len() implies is_dir_prefix(
                                        hsnap.base_dir@,
                                        (#[trigger] pre[j]).base_dir@,
                                    ) by {
                                        let kk = choose|kk: int|
                                            0 <= kk < k && pre[j].base_dir@ == join_seq(
                                                repo_dir@,
                                                chain@[kk]@,
                                            );
                                        lemma_join_preserves_prefix(
                                            repo_dir@,
                                            chain@[k as int]@,
                                            chain@[kk]@,
                                        );
                                    }
                                }
                            }
                            schedule_hook(&mut hooks, h);
                            proof {
                                if exists|j: int|
                                    0 <= j < pre.len() && (#[trigger] pre[j]).identity()
                                        == hsnap.identity() {
                                    assert(hooks@ == pre);
                                } else {
                                    assert(hooks@ == pre.push(hsnap));
                                    assert forall|j1: int, j2: int|
                                        0 <= j1 < j2 < hooks@.len() implies hooks@[j1].identity()
                                        != hooks@[j2].identity() by {
                                        if j2 == hooks@.len() - 1 {
                                            assert(pre[j1].identity() != hsnap.identity());
                                        }
                                    }
                                }
                                if changes@.len() <= 1 {
                                    assert forall|j: int| 0 <= j < hooks@.len() implies exists|
                                        kk: int,
                                    |
                                        0 <= kk < k + 1 && (#[trigger] hooks@[j]).base_dir@
                                            == join_seq(repo_dir@, chain@[kk]@) by {
                                        if j < pre.len() {
                                            assert(hooks@[j] == pre[j]);
                                            let kk = choose|kk: int|
                                                0 <= kk < k && pre[j].base_dir@ == join_seq(
                                                    repo_dir@,
                                                    chain@[kk]@,
                                                );
                                            assert(0 <= kk < k + 1 && hooks@[j].base_dir@
                                                == join_seq(repo_dir@, chain@[kk]@));
                                        } else {
                                            assert(hooks@[j] == hsnap);
                                            assert(0 <= k < k + 1 && hooks@[j].base_dir@
                                                == join_seq(repo_dir@, chain@[k as int]@));
                                        }
                                    }
                                }
                            }
                        },
                    }
                }
                k = k + 1;
            }
        }
        e = e + 1;
    }
    hooks
}

/// The aggregate status the dispatch of `hooks` returns under executor
/// `ex`: zero when the list is exhausted, the first non-zero exit code
/// (with no later hook considered), and no status at all when an executor
/// error cuts the run short.
pub open spec fn dispatch_outcome<E: Executor>(
    ex: &E,
    hooks: Seq<Hook>,
    args: Seq<Seq<char>>,
) -> Option<i32>
    decreases hooks.len(),
{
    if hooks.len() == 0 {
        Some(0i32)
    } else {
        match ex.outcome(hooks[0].base_dir@, hooks[0].path@, args) {
            None => None,
            Some(code) => if code != 0 {
                Some(code)
            } else {
                dispatch_outcome(ex, hooks.drop_first(), args)
            },
        }
    }
}

/// Runs the hooks in order, stopping at the first non-zero exit code and
/// returning it; zero when every hook (or none) succeeds.
#[verifier::loop_isolation(false)]
pub fn execute_hooks<E: Executor>(hooks: &Vec<Hook>, args: &Vec<String>, executor: &E) -> (r:
    Result<i32, ExecError>)
    ensures
        match r {
            Ok(code) => dispatch_outcome(executor, hooks@, args.deep_view()) == Some(code),
            Err(_) => dispatch_outcome(executor, hooks@, args.deep_view()) is None,
        },
{
    let mut i: usize = 0;
    proof {
        assert(hooks@.skip(0) =~= hooks@);
    }
    while i < hooks.len()
        invariant
            i <= hooks@.len(),
            dispatch_outcome(executor, hooks@, args.deep_view()) == dispatch_outcome(
                executor,
                hooks@.skip(i as int),
                args.deep_view(),
            ),
        decreases hooks@.len() - i,
    {
        let hook = &hooks[i];
        proof {
            assert(hooks@.skip(i as int)[0] == hooks@[i as int]);
        }
        let status = executor.execute(&hook.base_dir, &hook.path, args);
        match status {
            Err(err) => {
                return Err(err);
            },
            Ok(code) => {
                if code != 0 {
                    return Ok(code);
                }
                proof {
                    assert(hooks@.skip(i as int).drop_first() =~= hooks@.skip(i as int + 1));
                }
                i = i + 1;
            },
        }
    }
    proof {
        assert(hooks@.skip(hooks@.len() as int) =~= Seq::<Hook>::empty());
    }
    Ok(0)
}

/// One full run: discovers the hooks for the changed entries and executes
/// them in order.  The result is the dispatch outcome of a hook list with
/// every discovery guarantee of [`well_gathered`].  The repository root
/// must be absolute — it is the boundary the ancestor walk never crosses;
/// that it also exists on disk is not modeled, and its absence only makes
/// every probe come up empty.
pub fn run<E: Executor>(
    repo_dir: &String,
    hook_name: &str,
    args: &Vec<String>,
    executor: &E,
    hooks_dir_names: Vec<String>,
    changes: &Vec<ChangeEntry>,
) -> (r: Result<i32, ExecError>)
    requires
        is_absolute_path(repo_dir@),
    ensures
        exists|hooks: Seq<Hook>|
            {
                &&& #[trigger] well_gathered(
                    repo_dir@,
                    hook_name@,
                    hooks_dir_names@,
                    changes@,
                    hooks,
                )
                &&& match r {
                    Ok(code) => dispatch_outcome(executor, hooks, args.deep_view()) == Some(code),
                    Err(_) => dispatch_outcome(executor, hooks, args.deep_view()) is None,
                }
            },
        changes@.len() == 0 ==> r == Ok::<i32, ExecError>(0i32),
{
    let hooks = gather_hooks(repo_dir, hook_name, changes, &hooks_dir_names);
    let status_code = execute_hooks(&hooks, args, executor);
    proof {
        assert(well_gathered(repo_dir@, hook_name@, hooks_dir_names@, changes@, hooks@));
    }
    status_code
}

} // verus!
