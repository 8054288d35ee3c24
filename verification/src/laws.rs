//! Laws of the registry's state machine, stated over its transition
//! relations and proved once and for all.

use vstd::prelude::*;
use crate::paths::is_bundle_path;
use crate::registry::{
    admit_transition, other_than, release_transition, AdmitOutcome, ReleaseOutcome,
};

verus! {

broadcast use vstd::seq_lib::group_filter_ensures;

/// How many entries of `s` hold exactly the path `p`.
pub open spec fn occurrences(s: Seq<Seq<char>>, p: Seq<char>) -> nat
    decreases s.len(),
{
    if s.len() == 0 {
        0
    } else {
        occurrences(s.drop_last(), p) + (if s.last() == p {
            1nat
        } else {
            0nat
        })
    }
}

/// A sequence without `p` holds no occurrence of it.
proof fn lemma_no_occurrence(s: Seq<Seq<char>>, p: Seq<char>)
    requires
        !s.contains(p),
    ensures
        occurrences(s, p) == 0,
    decreases s.len(),
{
    if s.len() > 0 {
        assert(!s.drop_last().contains(p)) by {
            if s.drop_last().contains(p) {
                let i = choose|i: int|
                    0 <= i < s.drop_last().len() && s.drop_last()[i] == p;
                assert(s[i] == p);
            }
        }
        lemma_no_occurrence(s.drop_last(), p);
        assert(s.last() != p);
    }
}

/// A path that does not carry the recognized bundle extension is always
/// rejected as `RejectedNotBundle`, and the registry is unchanged.
pub proof fn lemma_admit_rejects_non_bundle(
    pre: Seq<Seq<char>>,
    p: Seq<char>,
    outcome: AdmitOutcome,
    post: Seq<Seq<char>>,
)
    requires
        !is_bundle_path(p),
        admit_transition(pre, p, outcome, post),
    ensures
        outcome == AdmitOutcome::RejectedNotBundle,
        post == pre,
{
}

/// Admitting a path and, immediately after, admitting it again yields
/// `Added` and then `RejectedDuplicate` whenever the first admit went
/// through, and the registry then holds exactly one entry for the path.
pub proof fn lemma_admit_twice(
    s0: Seq<Seq<char>>,
    p: Seq<char>,
    o1: AdmitOutcome,
    s1: Seq<Seq<char>>,
    o2: AdmitOutcome,
    s2: Seq<Seq<char>>,
)
    requires
        admit_transition(s0, p, o1, s1),
        o1 == AdmitOutcome::Added,
        admit_transition(s1, p, o2, s2),
    ensures
        o2 == AdmitOutcome::RejectedDuplicate,
        s2 == s1,
        occurrences(s2, p) == 1,
{
    assert(s1[s0.len() as int] == p);
    assert(s1.contains(p));
    lemma_no_occurrence(s0, p);
    assert(s1.drop_last() =~= s0);
    assert(s1.last() == p);
}

/// Filtering a distinct sequence on "everything but `p`" drops exactly the
/// one entry for `p` when there is one, and is the identity when there is
/// none.
proof fn lemma_filter_other_len(s: Seq<Seq<char>>, p: Seq<char>)
    requires
        forall|i: int, j: int| 0 <= i < j < s.len() ==> s[i] != s[j],
    ensures
        s.contains(p) ==> s.filter(other_than(p)).len() == s.len() - 1,
        !s.contains(p) ==> s.filter(other_than(p)) == s,
    decreases s.len(),
{
    reveal(Seq::filter);
    let pr = other_than(p);
    if s.len() == 0 {
        assert(s.filter(pr) =~= s);
    } else {
        let rest = s.drop_last();
        assert forall|i: int, j: int| 0 <= i < j < rest.len() implies rest[i] != rest[j] by {
            assert(rest[i] == s[i] && rest[j] == s[j]);
        }
        lemma_filter_other_len(rest, p);
        if s.last() == p {
            assert(!rest.contains(p)) by {
                if rest.contains(p) {
                    let k = choose|k: int| 0 <= k < rest.len() && rest[k] == p;
                    assert(s[k] == s[s.len() - 1]);
                }
            }
            assert(s.filter(pr) == rest.filter(pr));
            assert(s.contains(p)) by {
                assert(s[s.len() - 1] == p);
            }
        } else {
            assert(s.filter(pr) == rest.filter(pr).push(s.last()));
            if s.contains(p) {
                assert(rest.contains(p)) by {
                    let k = choose|k: int| 0 <= k < s.len() && s[k] == p;
                    assert(rest[k] == p);
                }
            } else {
                assert(!rest.contains(p)) by {
                    if rest.contains(p) {
                        let k = choose|k: int| 0 <= k < rest.len() && rest[k] == p;
                        assert(s[k] == p);
                    }
                }
                assert(rest.push(s.last()) =~= s);
            }
        }
    }
}

/// Filtering out `p` keeps the count of every other path.
proof fn lemma_filter_other_occurrences(s: Seq<Seq<char>>, p: Seq<char>, q: Seq<char>)
    requires
        q != p,
    ensures
        occurrences(s.filter(other_than(p)), q) == occurrences(s, q),
    decreases s.len(),
{
    reveal(Seq::filter);
    let pr = other_than(p);
    if s.len() == 0 {
        assert(s.filter(pr) =~= s);
    } else {
        let rest = s.drop_last();
        lemma_filter_other_occurrences(rest, p, q);
        if pr(s.last()) {
            assert(s.filter(pr) == rest.filter(pr).push(s.last()));
            let f = rest.filter(pr);
            assert(f.push(s.last()).drop_last() =~= f);
            assert(f.push(s.last()).last() == s.last());
        } else {
            assert(s.filter(pr) == rest.filter(pr));
            assert(s.last() == p);
        }
    }
}

/// A release that went through removes exactly the one entry for its path:
/// under the registry's no-duplicate invariant the length drops by one, the
/// path is gone, and every other path keeps its count.
pub proof fn lemma_release_removes_exactly_one(
    s0: Seq<Seq<char>>,
    p: Seq<char>,
    s1: Seq<Seq<char>>,
)
    requires
        forall|i: int, j: int| 0 <= i < j < s0.len() ==> s0[i] != s0[j],
        release_transition(s0, p, ReleaseOutcome::Removed, s1),
    ensures
        s1.len() == s0.len() - 1,
        !s1.contains(p),
        forall|q: Seq<char>| q != p ==> occurrences(s1, q) == occurrences(s0, q),
{
    lemma_filter_other_len(s0, p);
    assert(!s1.contains(p)) by {
        if s1.contains(p) {
            let i = choose|i: int| 0 <= i < s1.len() && s1[i] == p;
            assert(other_than(p)(s1[i]));
        }
    }
    assert forall|q: Seq<char>| q != p implies occurrences(s1, q) == occurrences(s0, q) by {
        lemma_filter_other_occurrences(s0, p, q);
    }
}

/// Releasing a managed path removes it whenever the mutation went through,
/// and a second release of the same path is then rejected as
/// `RejectedNotManaged`, with the registry unchanged.
pub proof fn lemma_release_twice(
    s0: Seq<Seq<char>>,
    p: Seq<char>,
    o1: ReleaseOutcome,
    s1: Seq<Seq<char>>,
    o2: ReleaseOutcome,
    s2: Seq<Seq<char>>,
)
    requires
        release_transition(s0, p, o1, s1),
        o1 == ReleaseOutcome::Removed,
        release_transition(s1, p, o2, s2),
    ensures
        !s1.contains(p),
        o2 == ReleaseOutcome::RejectedNotManaged,
        s2 == s1,
{
    assert(!s1.contains(p)) by {
        if s1.contains(p) {
            let i = choose|i: int| 0 <= i < s1.len() && s1[i] == p;
            assert(other_than(p)(s1[i]));
        }
    }
}

} // verus!
