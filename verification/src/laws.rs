//! Properties of discovery and dispatch, stated and proved once.

use vstd::prelude::*;

use crate::change::ChangeEntry;
use crate::executor::Executor;
use crate::hook::Hook;
use crate::paths::is_dir_prefix;
use crate::run::dispatch_outcome;
use crate::run::no_dup_hooks;
use crate::run::well_gathered;

verus! {

/// De-duplication of a hook list by identity, keeping the first
/// occurrence of each identity in place.
///
/// Discovery's stability under re-deduplication is stated through this
/// function: `gather_hooks` ensures its output satisfies
/// [`no_dup_hooks`], so by [`lemma_no_dup_fixed_under_dedup`] the output
/// is a fixpoint of `dedup_hooks`.  That two *runs* of discovery over one
/// unchanged tree agree is a statement about the filesystem holding
/// still, which the probes deliberately promise nothing about; it is
/// exercised by an integration test instead.
pub open spec fn dedup_hooks(hooks: Seq<Hook>) -> Seq<Hook>
    decreases hooks.len(),
{
    if hooks.len() == 0 {
        Seq::empty()
    } else if exists|j: int|
        0 <= j < hooks.len() - 1 && hooks[j].identity() == hooks.last().identity() {
        dedup_hooks(hooks.drop_last())
    } else {
        dedup_hooks(hooks.drop_last()).push(hooks.last())
    }
}

/// Every hook of the de-duplicated list stands in the list it came from.
proof fn lemma_dedup_elements(hooks: Seq<Hook>)
    ensures
        forall|k: int|
            0 <= k < dedup_hooks(hooks).len() ==> exists|j: int|
                0 <= j < hooks.len() && hooks[j] == #[trigger] dedup_hooks(hooks)[k],
    decreases hooks.len(),
{
    if hooks.len() > 0 {
        lemma_dedup_elements(hooks.drop_last());
        let d = dedup_hooks(hooks);
        assert forall|k: int| 0 <= k < d.len() implies exists|j: int|
            0 <= j < hooks.len() && hooks[j] == #[trigger] d[k] by {
            if k < dedup_hooks(hooks.drop_last()).len() {
                let j = choose|j: int|
                    0 <= j < hooks.drop_last().len() && hooks.drop_last()[j] == dedup_hooks(
                        hooks.drop_last(),
                    )[k];
                assert(hooks[j] == d[k]);
            } else {
                assert(hooks[hooks.len() - 1] == d[k]);
            }
        }
    }
}

/// De-duplication leaves no two hooks of one identity.
pub proof fn lemma_dedup_no_dup(hooks: Seq<Hook>)
    ensures
        no_dup_hooks(dedup_hooks(hooks)),
    decreases hooks.len(),
{
    if hooks.len() > 0 {
        lemma_dedup_no_dup(hooks.drop_last());
        let prior = dedup_hooks(hooks.drop_last());
        let d = dedup_hooks(hooks);
        if !(exists|j: int|
            0 <= j < hooks.len() - 1 && hooks[j].identity() == hooks.last().identity()) {
            lemma_dedup_elements(hooks.drop_last());
            assert forall|j1: int, j2: int| 0 <= j1 < j2 < d.len() implies d[j1].identity()
                != d[j2].identity() by {
                if j2 == d.len() - 1 {
                    let j = choose|j: int|
                        0 <= j < hooks.drop_last().len() && hooks.drop_last()[j] == prior[j1];
                    assert(hooks[j].identity() != hooks.last().identity());
                }
            }
        }
    }
}

/// A list already free of duplicate identities is unchanged by
/// de-duplication.  Discovery output is such a list (`gather_hooks`
/// ensures [`no_dup_hooks`]), so de-duplicating it again gives the
/// identical ordered list back.
pub proof fn lemma_no_dup_fixed_under_dedup(hooks: Seq<Hook>)
    requires
        no_dup_hooks(hooks),
    ensures
        dedup_hooks(hooks) == hooks,
    decreases hooks.len(),
{
    if hooks.len() == 0 {
        assert(dedup_hooks(hooks) =~= hooks);
    } else {
        assert forall|j1: int, j2: int|
            0 <= j1 < j2 < hooks.drop_last().len() implies hooks.drop_last()[j1].identity()
            != hooks.drop_last()[j2].identity() by {
            assert(hooks[j1].identity() != hooks[j2].identity());
        }
        lemma_no_dup_fixed_under_dedup(hooks.drop_last());
        assert forall|j: int| 0 <= j < hooks.len() - 1 implies hooks[j].identity()
            != hooks.last().identity() by {
            assert(hooks[j].identity() != hooks[hooks.len() - 1].identity());
        }
        assert(dedup_hooks(hooks) =~= hooks);
    }
}

/// De-duplication is idempotent: applying it twice equals applying it
/// once.
pub proof fn lemma_dedup_idempotent(hooks: Seq<Hook>)
    ensures
        dedup_hooks(dedup_hooks(hooks)) == dedup_hooks(hooks),
{
    lemma_dedup_no_dup(hooks);
    lemma_no_dup_fixed_under_dedup(dedup_hooks(hooks));
}

/// A non-zero exit code of the first hook is the whole dispatch outcome:
/// no later hook contributes anything to it.
pub proof fn lemma_failure_short_circuits<E: Executor>(
    ex: &E,
    hooks: Seq<Hook>,
    args: Seq<Seq<char>>,
    code: i32,
)
    requires
        hooks.len() > 0,
        ex.outcome(hooks[0].base_dir@, hooks[0].path@, args) == Some(code),
        code != 0,
    ensures
        dispatch_outcome(ex, hooks, args) == Some(code),
{
}

/// When every hook of the list exits zero, the dispatch outcome is zero.
pub proof fn lemma_all_zero_succeeds<E: Executor>(ex: &E, hooks: Seq<Hook>, args: Seq<Seq<char>>)
    requires
        forall|j: int|
            0 <= j < hooks.len() ==> ex.outcome(
                (#[trigger] hooks[j]).base_dir@,
                hooks[j].path@,
                args,
            ) == Some(0i32),
    ensures
        dispatch_outcome(ex, hooks, args) == Some(0i32),
    decreases hooks.len(),
{
    if hooks.len() > 0 {
        assert forall|j: int| 0 <= j < hooks.drop_first().len() implies ex.outcome(
            (#[trigger] hooks.drop_first()[j]).base_dir@,
            hooks.drop_first()[j].path@,
            args,
        ) == Some(0i32) by {
            assert(hooks.drop_first()[j] == hooks[j + 1]);
        }
        lemma_all_zero_succeeds(ex, hooks.drop_first(), args);
    }
}

/// An executor error on the first hook aborts the whole dispatch: the run
/// has no exit status, as opposed to a hook that ran and failed.
pub proof fn lemma_error_aborts_dispatch<E: Executor>(ex: &E, hooks: Seq<Hook>, args: Seq<Seq<char>>)
    requires
        hooks.len() > 0,
        ex.outcome(hooks[0].base_dir@, hooks[0].path@, args) is None,
    ensures
        dispatch_outcome(ex, hooks, args) is None,
{
}

/// No discovered hook belongs to the repository root itself: every base
/// directory lies strictly below it.
pub proof fn lemma_root_never_dispatched(
    repo_dir: Seq<char>,
    hook_name: Seq<char>,
    names: Seq<String>,
    changes: Seq<ChangeEntry>,
    hooks: Seq<Hook>,
)
    requires
        well_gathered(repo_dir, hook_name, names, changes, hooks),
    ensures
        forall|j: int| 0 <= j < hooks.len() ==> (#[trigger] hooks[j]).base_dir@ != repo_dir,
{
    assert forall|j: int| 0 <= j < hooks.len() implies (#[trigger] hooks[j]).base_dir@
        != repo_dir by {
        assert(is_dir_prefix(repo_dir, hooks[j].base_dir@));
        assert(hooks[j].base_dir@.len() != repo_dir.len());
    }
}

} // verus!
