//! The app registry: the ordered collection of bundles whose Dock presence
//! is currently suppressed.  It preserves insertion order, holds no duplicate
//! path, and is mutated only by admitting and releasing a path.

use vstd::prelude::*;
use crate::metadata::{set_suppressed, MutationError};
use crate::paths::{is_app_bundle, is_bundle_path};
use crate::strings::str_eq;

verus! {

broadcast use vstd::seq_lib::group_filter_ensures;

/// One managed bundle; the path is the entry's identity.
#[derive(Debug)]
pub struct ManagedApp {
    pub path: String,
}

impl View for ManagedApp {
    type V = Seq<char>;

    open spec fn view(&self) -> Seq<char> {
        self.path@
    }
}

impl DeepView for ManagedApp {
    type V = Seq<char>;

    open spec fn deep_view(&self) -> Seq<char> {
        self.path@
    }
}

/// What admitting a path can yield.
#[derive(Clone, Copy, Debug, PartialEq, Eq, Structural)]
pub enum AdmitOutcome {
    Added,
    RejectedNotBundle,
    RejectedDuplicate,
    RejectedMutationFailed(MutationError),
}

/// What releasing a path can yield.
#[derive(Clone, Copy, Debug, PartialEq, Eq, Structural)]
pub enum ReleaseOutcome {
    Removed,
    RejectedNotManaged,
    RejectedMutationFailed(MutationError),
}

/// How one admit call relates the registry before (`pre`) to the registry
/// after (`post`): an entry is appended exactly on `Added`, and every
/// rejection says why it applies and leaves the registry unchanged.
pub open spec fn admit_transition(
    pre: Seq<Seq<char>>,
    p: Seq<char>,
    outcome: AdmitOutcome,
    post: Seq<Seq<char>>,
) -> bool {
    match outcome {
        AdmitOutcome::Added => is_bundle_path(p) && !pre.contains(p) && post == pre.push(p),
        AdmitOutcome::RejectedNotBundle => !is_bundle_path(p) && post == pre,
        AdmitOutcome::RejectedDuplicate => is_bundle_path(p) && pre.contains(p) && post == pre,
        AdmitOutcome::RejectedMutationFailed(_) => is_bundle_path(p) && !pre.contains(p) && post
            == pre,
    }
}

/// The predicate over paths that keeps every path other than `p`.
pub open spec fn other_than(p: Seq<char>) -> spec_fn(Seq<char>) -> bool {
    |q: Seq<char>| q != p
}

/// How one release call relates the registry before to the registry after:
/// on `Removed` every entry for `p` is gone and all others keep their order;
/// every rejection says why it applies and leaves the registry unchanged.
pub open spec fn release_transition(
    pre: Seq<Seq<char>>,
    p: Seq<char>,
    outcome: ReleaseOutcome,
    post: Seq<Seq<char>>,
) -> bool {
    match outcome {
        ReleaseOutcome::Removed => pre.contains(p) && post == pre.filter(other_than(p)),
        ReleaseOutcome::RejectedNotManaged => !pre.contains(p) && post == pre,
        ReleaseOutcome::RejectedMutationFailed(_) => pre.contains(p) && post == pre,
    }
}

/// The registry.  Its view is the sequence of managed paths in insertion
/// order.
pub struct Registry {
    apps: Vec<ManagedApp>,
}

impl View for Registry {
    type V = Seq<Seq<char>>;

    closed spec fn view(&self) -> Seq<Seq<char>> {
        self.apps@.map_values(|a: ManagedApp| a.path@)
    }
}

/// A filtered sequence of distinct elements is distinct, and each of its
/// elements comes from the source.
proof fn lemma_filter_keeps_distinct(s: Seq<Seq<char>>, pred: spec_fn(Seq<char>) -> bool)
    requires
        forall|i: int, j: int| 0 <= i < j < s.len() ==> s[i] != s[j],
    ensures
        forall|i: int|
            0 <= i < s.filter(pred).len() ==> s.contains(#[trigger] s.filter(pred)[i]),
        forall|i: int, j: int|
            0 <= i < j < s.filter(pred).len() ==> s.filter(pred)[i] != s.filter(pred)[j],
    decreases s.len(),
{
    reveal(Seq::filter);
    if s.len() > 0 {
        let rest = s.drop_last();
        lemma_filter_keeps_distinct(rest, pred);
        assert forall|i: int|
            0 <= i < s.filter(pred).len() implies s.contains(#[trigger] s.filter(pred)[i]) by {
            if i < rest.filter(pred).len() {
                assert(rest.contains(rest.filter(pred)[i]));
                let k = choose|k: int| 0 <= k < rest.len() && rest[k] == rest.filter(pred)[i];
                assert(s[k] == s.filter(pred)[i]);
            } else {
                assert(s.filter(pred)[i] == s.last());
            }
        }
        assert forall|i: int, j: int|
            0 <= i < j < s.filter(pred).len() implies s.filter(pred)[i] != s.filter(pred)[j] by {
            if j >= rest.filter(pred).len() {
                assert(s.filter(pred)[j] == s.last());
                assert(rest.contains(s.filter(pred)[i]));
                let k = choose|k: int| 0 <= k < rest.len() && rest[k] == s.filter(pred)[i];
                assert(s[k] != s[s.len() - 1]);
            }
        }
    }
}

impl Registry {
    /// No two entries share a path.
    pub open spec fn wf(&self) -> bool {
        forall|i: int, j: int| 0 <= i < j < self@.len() ==> self@[i] != self@[j]
    }

    /// A fresh, empty registry.
    pub fn new() -> (r: Registry)
        ensures
            r@ == Seq::<Seq<char>>::empty(),
            r.wf(),
    {
        let r = Registry { apps: Vec::new() };
        proof {
            assert(r@ =~= Seq::<Seq<char>>::empty());
        }
        r
    }

    /// A registry holding exactly these paths, in order; the paths must be
    /// distinct, as a loaded snapshot's promoted entries are.
    pub fn from_paths(paths: &Vec<String>) -> (r: Registry)
        requires
            forall|i: int, j: int|
                0 <= i < j < paths.deep_view().len() ==> paths.deep_view()[i]
                    != paths.deep_view()[j],
        ensures
            r@ == paths.deep_view(),
            r.wf(),
    {
        let mut apps: Vec<ManagedApp> = Vec::new();
        let mut i: usize = 0;
        while i < paths.len()
            invariant
                i <= paths@.len(),
                apps@.len() == i,
                forall|j: int| 0 <= j < i ==> (#[trigger] apps@[j]).path@ == paths.deep_view()[j],
            decreases paths@.len() - i,
        {
            proof {
                assert(paths.deep_view()[i as int] == paths@[i as int]@);
            }
            apps.push(ManagedApp { path: paths[i].clone() });
            i = i + 1;
        }
        let r = Registry { apps };
        proof {
            assert forall|j: int| 0 <= j < r@.len() implies r@[j] == paths.deep_view()[j] by {
                assert(r@[j] == r.apps@[j].path@);
            }
            assert(r@ =~~= paths.deep_view());
        }
        r
    }

    /// How many bundles are managed.
    pub fn len(&self) -> (n: usize)
        ensures
            n == self@.len(),
    {
        self.apps.len()
    }

    /// Whether an entry with exactly this path exists.
    pub fn is_managed(&self, path: &str) -> (r: bool)
        ensures
            r == self@.contains(path@),
    {
        let mut i: usize = 0;
        while i < self.apps.len()
            invariant
                i <= self.apps.len(),
                forall|j: int| 0 <= j < i ==> self@[j] != path@,
            decreases self.apps.len() - i,
        {
            if str_eq(self.apps[i].path.as_str(), path) {
                proof {
                    assert(self@[i as int] == path@);
                }
                return true;
            }
            i = i + 1;
        }
        proof {
            if self@.contains(path@) {
                let j = choose|j: int| 0 <= j < self@.len() && self@[j] == path@;
                assert(self@[j] != path@);
            }
        }
        false
    }

    /// A read-only, order-preserving copy of the managed paths, for
    /// persistence and rendering.
    pub fn snapshot(&self) -> (r: Vec<String>)
        ensures
            r.deep_view() == self@,
    {
        let mut out: Vec<String> = Vec::new();
        let mut i: usize = 0;
        while i < self.apps.len()
            invariant
                i <= self.apps.len(),
                out@.len() == i,
                forall|j: int| 0 <= j < i ==> (#[trigger] out@[j])@ == self@[j],
            decreases self.apps.len() - i,
        {
            out.push(self.apps[i].path.clone());
            i = i + 1;
        }
        proof {
            assert forall|j: int| 0 <= j < out@.len() implies out.deep_view()[j] == self@[j] by {
                assert(out.deep_view()[j] == out@[j]@);
            }
            assert(out.deep_view() =~~= self@);
        }
        out
    }

    /// Finishes an admit whose checks have passed, once the metadata mutation
    /// for `path` has come back: appends the entry exactly on success, and
    /// leaves the registry unchanged otherwise.
    pub fn finish_admit(&mut self, path: &str, mutation: Result<(), MutationError>) -> (outcome:
        AdmitOutcome)
        requires
            old(self).wf(),
            is_bundle_path(path@),
            !old(self)@.contains(path@),
        ensures
            final(self).wf(),
            admit_transition(old(self)@, path@, outcome, final(self)@),
            mutation matches Ok(()) ==> outcome == AdmitOutcome::Added,
            mutation matches Err(e) ==> outcome == AdmitOutcome::RejectedMutationFailed(e),
    {
        match mutation {
            Ok(()) => {
                self.apps.push(ManagedApp { path: path.to_owned() });
                proof {
                    assert(self@ =~= old(self)@.push(path@));
                    assert forall|i: int, j: int|
                        0 <= i < j < self@.len() implies self@[i] != self@[j] by {
                        if j == self@.len() - 1 {
                            assert(old(self)@[i] != path@);
                        }
                    }
                }
                AdmitOutcome::Added
            },
            Err(e) => AdmitOutcome::RejectedMutationFailed(e),
        }
    }

    /// Admits a dropped path.  A path without the recognized extension is
    /// rejected first, then a path already managed; both checks precede any
    /// mutation, so re-dropping a managed bundle never touches its metadata.
    /// Otherwise the bundle's metadata is mutated to suppressed, and the
    /// entry is appended exactly when that mutation succeeded.
    pub fn admit_path(&mut self, path: &str) -> (outcome: AdmitOutcome)
        requires
            old(self).wf(),
        ensures
            final(self).wf(),
            admit_transition(old(self)@, path@, outcome, final(self)@),
            !is_bundle_path(path@) ==> outcome == AdmitOutcome::RejectedNotBundle,
            is_bundle_path(path@) && old(self)@.contains(path@) ==> outcome
                == AdmitOutcome::RejectedDuplicate,
            is_bundle_path(path@) && !old(self)@.contains(path@) ==> (outcome is Added
                || outcome is RejectedMutationFailed),
    {
        if !is_app_bundle(path) {
            return AdmitOutcome::RejectedNotBundle;
        }
        if self.is_managed(path) {
            return AdmitOutcome::RejectedDuplicate;
        }
        let mutation = set_suppressed(path, true);
        self.finish_admit(path, mutation)
    }

    /// Removes every entry whose path equals `path`, keeping all others in
    /// order.
    fn retain_others(&mut self, path: &str)
        ensures
            final(self)@ == old(self)@.filter(other_than(path@)),
    {
        let ghost pred = other_than(path@);
        let mut kept: Vec<ManagedApp> = Vec::new();
        proof {
            reveal(Seq::filter);
            assert(old(self)@.subrange(0, 0) =~= Seq::<Seq<char>>::empty());
            assert(kept.deep_view() =~~= old(self)@.subrange(0, 0).filter(pred));
        }
        let mut i: usize = 0;
        let n = self.apps.len();
        while i < n
            invariant
                i <= n,
                n == self.apps.len(),
                self == old(self),
                pred == other_than(path@),
                kept.deep_view() == old(self)@.subrange(0, i as int).filter(pred),
            decreases n - i,
        {
            let ghost prefix = old(self)@.subrange(0, i as int);
            let ghost grown = old(self)@.subrange(0, i as int + 1);
            proof {
                reveal(Seq::filter);
                assert(grown.drop_last() =~= prefix);
                assert(grown.last() == old(self)@[i as int]);
                assert(old(self)@[i as int] == self.apps@[i as int].path@);
            }
            if !str_eq(self.apps[i].path.as_str(), path) {
                proof {
                    assert(pred(old(self)@[i as int]));
                    assert(grown.filter(pred) == prefix.filter(pred).push(old(self)@[i as int]));
                }
                let ghost kept_pre = kept.deep_view();
                kept.push(ManagedApp { path: self.apps[i].path.clone() });
                proof {
                    assert(kept@.len() == kept_pre.len() + 1);
                    assert forall|j: int|
                        0 <= j < kept@.len() implies kept.deep_view()[j] == kept_pre.push(
                        old(self)@[i as int],
                    )[j] by {
                        assert(kept.deep_view()[j] == kept@[j]@);
                        if j < kept@.len() - 1 {
                            assert(kept@[j]@ == kept_pre[j]);
                        }
                    }
                    assert(kept.deep_view() =~~= kept_pre.push(old(self)@[i as int]));
                }
            } else {
                proof {
                    assert(!pred(old(self)@[i as int]));
                    assert(grown.filter(pred) == prefix.filter(pred));
                }
            }
            i = i + 1;
        }
        proof {
            assert(old(self)@.subrange(0, n as int) =~= old(self)@);
        }
        self.apps = kept;
    }

    /// Finishes a release of a managed path, once the metadata mutation has
    /// come back: removes the entry exactly on success, and keeps it managed
    /// otherwise so the user can retry.
    pub fn finish_release(&mut self, path: &str, mutation: Result<(), MutationError>) -> (outcome:
        ReleaseOutcome)
        requires
            old(self).wf(),
            old(self)@.contains(path@),
        ensures
            final(self).wf(),
            release_transition(old(self)@, path@, outcome, final(self)@),
            mutation matches Ok(()) ==> outcome == ReleaseOutcome::Removed,
            mutation matches Err(e) ==> outcome == ReleaseOutcome::RejectedMutationFailed(e),
    {
        match mutation {
            Ok(()) => {
                self.retain_others(path);
                proof {
                    lemma_filter_keeps_distinct(old(self)@, other_than(path@));
                }
                ReleaseOutcome::Removed
            },
            Err(e) => ReleaseOutcome::RejectedMutationFailed(e),
        }
    }

    /// Releases a managed path.  A path that is not managed is rejected
    /// without touching any file.  Otherwise the bundle's metadata is mutated
    /// back to visible, and the entry is removed exactly when that mutation
    /// succeeded.
    pub fn release(&mut self, path: &str) -> (outcome: ReleaseOutcome)
        requires
            old(self).wf(),
        ensures
            final(self).wf(),
            release_transition(old(self)@, path@, outcome, final(self)@),
            !old(self)@.contains(path@) ==> outcome == ReleaseOutcome::RejectedNotManaged,
            old(self)@.contains(path@) ==> (outcome is Removed
                || outcome is RejectedMutationFailed),
    {
        if !self.is_managed(path) {
            return ReleaseOutcome::RejectedNotManaged;
        }
        let mutation = set_suppressed(path, false);
        self.finish_release(path, mutation)
    }
}

} // verus!
