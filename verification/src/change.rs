//! Changed entries as reported by the version-control collaborator.

use vstd::prelude::*;

verus! {

/// The change-kind flags of one status entry, each tracked independently
/// for the indexed (staged) state and for the working tree.
#[derive(Clone, Copy, Debug, PartialEq, Eq, Structural)]
pub struct ChangeFlags {
    pub index_new: bool,
    pub index_modified: bool,
    pub index_deleted: bool,
    pub index_renamed: bool,
    pub index_typechange: bool,
    pub wt_new: bool,
    pub wt_modified: bool,
    pub wt_deleted: bool,
    pub wt_renamed: bool,
    pub wt_typechange: bool,
}

impl Default for ChangeFlags {
    /// No change recorded anywhere.
    fn default() -> (r: ChangeFlags)
        ensures
            !r.index_new && !r.index_modified && !r.index_deleted && !r.index_renamed
                && !r.index_typechange,
            !r.wt_new && !r.wt_modified && !r.wt_deleted && !r.wt_renamed && !r.wt_typechange,
    {
        ChangeFlags {
            index_new: false,
            index_modified: false,
            index_deleted: false,
            index_renamed: false,
            index_typechange: false,
            wt_new: false,
            wt_modified: false,
            wt_deleted: false,
            wt_renamed: false,
            wt_typechange: false,
        }
    }
}

/// One status entry: a repository-relative path and its change flags.
#[derive(Clone, Debug)]
pub struct ChangeEntry {
    pub path: String,
    pub flags: ChangeFlags,
}

/// An entry is *changed* when the index or the working tree records a
/// modification, deletion, rename or type change, or the index records a
/// new file.  A working-tree-new (untracked) entry is deliberately not
/// changed: a never-added file does not trigger hooks on its own.
pub open spec fn spec_is_changed(f: ChangeFlags) -> bool {
    ||| f.index_deleted
    ||| f.index_modified
    ||| f.index_new
    ||| f.index_renamed
    ||| f.index_typechange
    ||| f.wt_deleted
    ||| f.wt_modified
    ||| f.wt_renamed
    ||| f.wt_typechange
}

/// Whether this entry's flags make it eligible to trigger hooks.
pub fn is_changed(flags: &ChangeFlags) -> (r: bool)
    ensures
        r == spec_is_changed(*flags),
{
    flags.index_deleted || flags.index_modified || flags.index_new || flags.index_renamed
        || flags.index_typechange || flags.wt_deleted || flags.wt_modified || flags.wt_renamed
        || flags.wt_typechange
}

} // verus!
