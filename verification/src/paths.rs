//! Path strings and their ancestor structure.
//!
//! A changed path reported by the version-control collaborator is a
//! repository-relative string whose components are separated by `/`.  The
//! spec-level model of "the directory containing this path" is
//! [`parent_dir_spec`]: everything up to (excluding) the last separator.
//! The ancestor relation between directory strings is [`is_dir_prefix`].

use vstd::prelude::*;
use vstd::string::StrSliceExecFns;
use vstd::string::StringExecFns;

verus! {

/// The directory part of a path string: everything before the last `/`,
/// or `None` when the string holds no separator at all (the path sits
/// directly in the root).
pub open spec fn parent_dir_spec(p: Seq<char>) -> Option<Seq<char>>
    decreases p.len(),
{
    if p.len() == 0 {
        None
    } else if p.last() == '/' {
        Some(p.drop_last())
    } else {
        parent_dir_spec(p.drop_last())
    }
}

/// `a` names a strictly higher directory on the way to `b`: `a` is a proper
/// prefix of `b` and the next character of `b` is a separator.
pub open spec fn is_dir_prefix(a: Seq<char>, b: Seq<char>) -> bool {
    &&& a.len() < b.len()
    &&& b.subrange(0, a.len() as int) == a
    &&& b[a.len() as int] == '/'
}

/// Joining a base directory and a relative path with a single separator.
pub open spec fn join_seq(base: Seq<char>, rel: Seq<char>) -> Seq<char> {
    base + seq!['/'] + rel
}

/// An absolute path in this library's model of the host filesystem: it
/// starts at the root.  That the directory also exists on disk is the
/// filesystem's business and is not modeled; the probes tolerate absence.
pub open spec fn is_absolute_path(p: Seq<char>) -> bool {
    p.len() > 0 && p[0] == '/'
}

/// The parent is always strictly shorter than the path itself.
pub proof fn lemma_parent_shorter(p: Seq<char>)
    ensures
        parent_dir_spec(p) matches Some(q) ==> q.len() < p.len(),
    decreases p.len(),
{
    if p.len() > 0 && p.last() != '/' {
        lemma_parent_shorter(p.drop_last());
    }
}

/// The parent returned by `parent_dir_spec` is exactly the prefix of `p`
/// that stops at the last separator.
pub proof fn lemma_parent_is_prefix(p: Seq<char>)
    ensures
        parent_dir_spec(p) matches Some(q) ==> is_dir_prefix(q, p),
    decreases p.len(),
{
    if p.len() > 0 {
        if p.last() == '/' {
            assert(p.subrange(0, p.len() - 1) =~= p.drop_last());
        } else {
            lemma_parent_is_prefix(p.drop_last());
            if parent_dir_spec(p.drop_last()) is Some {
                let q = parent_dir_spec(p.drop_last()).unwrap();
                assert(p.drop_last().subrange(0, q.len() as int) =~= p.subrange(
                    0,
                    q.len() as int,
                ));
            }
        }
    }
}

/// If `p` has a separator at position `j` and none after it, then the
/// directory part of `p` is precisely `p` up to `j`.
pub proof fn lemma_parent_at_last_slash(p: Seq<char>, j: int)
    requires
        0 <= j < p.len(),
        p[j] == '/',
        forall|k: int| j < k < p.len() ==> p[k] != '/',
    ensures
        parent_dir_spec(p) == Some(p.subrange(0, j)),
    decreases p.len(),
{
    if j == p.len() - 1 {
        assert(p.drop_last() =~= p.subrange(0, j));
    } else {
        lemma_parent_at_last_slash(p.drop_last(), j);
        assert(p.drop_last().subrange(0, j) =~= p.subrange(0, j));
    }
}

/// A path without any separator has no directory part.
pub proof fn lemma_parent_none(p: Seq<char>)
    requires
        forall|k: int| 0 <= k < p.len() ==> p[k] != '/',
    ensures
        parent_dir_spec(p) is None,
    decreases p.len(),
{
    if p.len() > 0 {
        lemma_parent_none(p.drop_last());
    }
}

/// The directory-prefix relation is transitive.
pub proof fn lemma_dir_prefix_trans(a: Seq<char>, b: Seq<char>, c: Seq<char>)
    requires
        is_dir_prefix(a, b),
        is_dir_prefix(b, c),
    ensures
        is_dir_prefix(a, c),
{
    assert(c.subrange(0, a.len() as int) =~= b.subrange(0, a.len() as int));
    assert(b.subrange(0, a.len() as int) =~= a);
    assert(c[a.len() as int] == b[a.len() as int]);
}

/// Joining the same base onto two relative paths preserves the ancestor
/// relation between them.
pub proof fn lemma_join_preserves_prefix(base: Seq<char>, a: Seq<char>, b: Seq<char>)
    requires
        is_dir_prefix(a, b),
    ensures
        is_dir_prefix(join_seq(base, a), join_seq(base, b)),
{
    let ja = join_seq(base, a);
    let jb = join_seq(base, b);
    assert(jb.subrange(0, ja.len() as int) =~= ja);
    assert(jb[ja.len() as int] == b[a.len() as int]);
}

/// The base directory is an ancestor of anything joined under it.
pub proof fn lemma_join_under_base(base: Seq<char>, rel: Seq<char>)
    ensures
        is_dir_prefix(base, join_seq(base, rel)),
{
    let j = join_seq(base, rel);
    assert(j.subrange(0, base.len() as int) =~= base);
}

/// Joins a base directory and a relative path with a `/` separator.
pub fn join_path(base: &str, rel: &str) -> (r: String)
    ensures
        r@ == join_seq(base@, rel@),
{
    let mut s = base.to_owned();
    s.append("/");
    s.append(rel);
    proof {
        reveal_strlit("/");
        assert(s@ =~= join_seq(base@, rel@));
    }
    s
}

/// The directory containing `p`, as an owned string, or `None` when `p`
/// holds no separator.  Agrees with [`parent_dir_spec`].
pub fn parent_dir(p: &str) -> (r: Option<String>)
    ensures
        match r {
            Some(q) => parent_dir_spec(p@) == Some(q@),
            None => parent_dir_spec(p@) is None,
        },
{
    let len = p.unicode_len();
    let mut i: usize = len;
    while i > 0
        invariant
            i <= len,
            len == p@.len(),
            forall|k: int| i <= k < p@.len() ==> p@[k] != '/',
        decreases i,
    {
        let c = p.get_char(i - 1);
        if c == '/' {
            let q = p.substring_char(0, i - 1);
            proof {
                lemma_parent_at_last_slash(p@, i - 1);
            }
            return Some(q.to_owned());
        }
        i = i - 1;
    }
    proof {
        lemma_parent_none(p@);
    }
    None
}

/// Every directory to probe for a changed path `p`, closest first: the
/// directory containing `p`, then each further ancestor, stopping before
/// the repository root (the empty relative path).
pub fn ancestor_dirs(p: &str) -> (r: Vec<String>)
    ensures
        r@.len() > 0 ==> parent_dir_spec(p@) == Some(r@[0]@),
        forall|k: int| 0 <= k < r@.len() - 1 ==> parent_dir_spec(r@[k]@) == Some(r@[k + 1]@),
        forall|k: int| 0 <= k < r@.len() ==> r@[k]@.len() > 0,
        forall|k1: int, k2: int|
            0 <= k1 < k2 < r@.len() ==> is_dir_prefix(r@[k2]@, r@[k1]@),
        forall|k: int|
            #![trigger r@[k]]
            0 <= k < r@.len() ==> (r@[k]@ == r@[0]@ || is_dir_prefix(r@[k]@, r@[0]@)),
        r@.len() == 0 ==> (parent_dir_spec(p@) is None || parent_dir_spec(p@) == Some(
            Seq::<char>::empty(),
        )),
        r@.len() > 0 ==> (parent_dir_spec(r@[r@.len() - 1]@) is None || parent_dir_spec(
            r@[r@.len() - 1]@,
        ) == Some(Seq::<char>::empty())),
{
    let mut r: Vec<String> = Vec::new();
    let mut cur: String = p.to_owned();
    proof {
        lemma_parent_shorter(p@);
    }
    loop
        invariant
            r@.len() == 0 ==> cur@ == p@,
            r@.len() > 0 ==> parent_dir_spec(p@) == Some(r@[0]@),
            r@.len() > 0 ==> cur@ == r@[r@.len() - 1]@,
            forall|k: int| 0 <= k < r@.len() - 1 ==> parent_dir_spec(r@[k]@) == Some(r@[k + 1]@),
            forall|k: int| 0 <= k < r@.len() ==> r@[k]@.len() > 0,
            forall|k1: int, k2: int|
                0 <= k1 < k2 < r@.len() ==> is_dir_prefix(r@[k2]@, r@[k1]@),
        ensures
            r@.len() == 0 ==> cur@ == p@,
            r@.len() > 0 ==> parent_dir_spec(p@) == Some(r@[0]@),
            r@.len() > 0 ==> cur@ == r@[r@.len() - 1]@,
            forall|k: int| 0 <= k < r@.len() - 1 ==> parent_dir_spec(r@[k]@) == Some(r@[k + 1]@),
            forall|k: int| 0 <= k < r@.len() ==> r@[k]@.len() > 0,
            forall|k1: int, k2: int|
                0 <= k1 < k2 < r@.len() ==> is_dir_prefix(r@[k2]@, r@[k1]@),
            parent_dir_spec(cur@) is None || parent_dir_spec(cur@) == Some(Seq::<char>::empty()),
        decreases cur@.len(),
    {
        proof {
            lemma_parent_shorter(cur@);
        }
        match parent_dir(cur.as_str()) {
            None => {
                break ;
            },
            Some(q) => {
                if q.as_str().unicode_len() == 0 {
                    proof {
                        assert(q@ =~= Seq::<char>::empty());
                    }
                    break ;
                }
                proof {
                    lemma_parent_is_prefix(cur@);
                    assert forall|k: int| 0 <= k < r@.len() implies is_dir_prefix(
                        q@,
                        r@[k]@,
                    ) by {
                        if k < r@.len() - 1 {
                            lemma_dir_prefix_trans(q@, cur@, r@[k]@);
                        }
                    }
                }
                cur = q;
                r.push(cur.clone());
            },
        }
    }
    proof {
        assert forall|k: int| #![trigger r@[k]] 0 <= k < r@.len() implies (r@[k]@ == r@[0]@
            || is_dir_prefix(r@[k]@, r@[0]@)) by {}
    }
    r
}

} // verus!

