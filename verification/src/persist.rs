//! The persistence adapter's pure core: the snapshot text format, and the
//! revalidation of stored paths on load.  Reading and writing the snapshot
//! file itself is the caller's part; these functions turn a registry snapshot
//! into text, and text plus per-path liveness back into a registry.

use vstd::prelude::*;
use crate::paths::{is_app_bundle, is_bundle_path};
use crate::registry::Registry;
use crate::strings::vec_contains_str;

verus! {

/// What serde_json parses a snapshot text into: the stored path list, or
/// nothing when the text is not a JSON array of strings.
pub uninterp spec fn parsed_snapshot(text: Seq<char>) -> Option<Seq<Seq<char>>>;

/// Relies on serde_json::to_string for Vec<String>: encodes the paths as a
/// JSON array of strings, which for string data never fails, and
/// serde_json::from_str parses the produced text back to an equal list.
#[verifier::external_body]
fn encode_paths(paths: &Vec<String>) -> (r: String)
    ensures
        parsed_snapshot(r@) == Some(paths.deep_view()),
{
    serde_json::to_string(paths).unwrap()
}

/// Relies on serde_json::from_str for Vec<String>: parses a JSON array of
/// strings, and yields nothing on any other text.
#[verifier::external_body]
fn decode_paths(text: &str) -> (r: Option<Vec<String>>)
    ensures
        r is Some <==> parsed_snapshot(text@) is Some,
        r matches Some(v) ==> Some(v.deep_view()) == parsed_snapshot(text@),
{
    serde_json::from_str::<Vec<String>>(text).ok()
}

/// Turns a registry snapshot into the text that is persisted.  Decoding the
/// result restores exactly the snapshot.
pub fn encode_snapshot(paths: &Vec<String>) -> (r: String)
    ensures
        parsed_snapshot(r@) == Some(paths.deep_view()),
{
    encode_paths(paths)
}

/// Parses persisted text back into the stored path list; yields nothing when
/// the text is malformed, so a corrupt file never blocks startup.
pub fn decode_snapshot(text: &str) -> (r: Option<Vec<String>>)
    ensures
        r is Some <==> parsed_snapshot(text@) is Some,
        r matches Some(v) ==> Some(v.deep_view()) == parsed_snapshot(text@),
{
    decode_paths(text)
}

/// Whether a stored path is promoted on load: its bundle is still live, its
/// name still carries the recognized extension, and no earlier entry already
/// claimed the same path.
pub open spec fn promoted(kept: Seq<Seq<char>>, p: Seq<char>, lives: bool) -> bool {
    lives && is_bundle_path(p) && !kept.contains(p)
}

/// The entries that the first `n` stored paths yield on load, given each
/// path's liveness.
pub open spec fn revalidated(paths: Seq<Seq<char>>, lives: Seq<bool>, n: int) -> Seq<Seq<char>>
    decreases n,
{
    if n <= 0 {
        Seq::empty()
    } else {
        let prev = revalidated(paths, lives, n - 1);
        if promoted(prev, paths[n - 1], lives[n - 1]) {
            prev.push(paths[n - 1])
        } else {
            prev
        }
    }
}

/// Every promoted entry is a live bundle path, and no two are equal.
pub proof fn lemma_revalidated_entries(paths: Seq<Seq<char>>, lives: Seq<bool>, n: int)
    requires
        0 <= n <= paths.len(),
        lives.len() == paths.len(),
    ensures
        forall|i: int|
            0 <= i < revalidated(paths, lives, n).len() ==> is_bundle_path(
                #[trigger] revalidated(paths, lives, n)[i],
            ),
        forall|i: int, j: int|
            0 <= i < j < revalidated(paths, lives, n).len() ==> revalidated(paths, lives, n)[i]
                != revalidated(paths, lives, n)[j],
    decreases n,
{
    if n > 0 {
        lemma_revalidated_entries(paths, lives, n - 1);
        let prev = revalidated(paths, lives, n - 1);
        if promoted(prev, paths[n - 1], lives[n - 1]) {
            assert forall|i: int, j: int|
                0 <= i < j < revalidated(paths, lives, n).len() implies revalidated(
                paths,
                lives,
                n,
            )[i] != revalidated(paths, lives, n)[j] by {
                if j == prev.len() {
                    assert(prev[i] != paths[n - 1]);
                }
            }
        }
    }
}

/// A snapshot whose paths are distinct and all still live bundles
/// revalidates to itself: saving and then loading restores the same
/// registry, and no rewrite is needed.
pub proof fn lemma_revalidate_round_trip(paths: Seq<Seq<char>>, lives: Seq<bool>)
    requires
        lives.len() == paths.len(),
        forall|i: int| 0 <= i < lives.len() ==> lives[i],
        forall|i: int| 0 <= i < paths.len() ==> is_bundle_path(#[trigger] paths[i]),
        forall|i: int, j: int| 0 <= i < j < paths.len() ==> paths[i] != paths[j],
    ensures
        revalidated(paths, lives, paths.len() as int) == paths,
{
    lemma_revalidate_prefix(paths, lives, paths.len() as int);
    assert(paths.take(paths.len() as int) =~= paths);
}

/// The first `n` stored paths of such a snapshot revalidate to themselves.
proof fn lemma_revalidate_prefix(paths: Seq<Seq<char>>, lives: Seq<bool>, n: int)
    requires
        0 <= n <= paths.len(),
        lives.len() == paths.len(),
        forall|i: int| 0 <= i < lives.len() ==> lives[i],
        forall|i: int| 0 <= i < paths.len() ==> is_bundle_path(#[trigger] paths[i]),
        forall|i: int, j: int| 0 <= i < j < paths.len() ==> paths[i] != paths[j],
    ensures
        revalidated(paths, lives, n) == paths.take(n),
    decreases n,
{
    if n > 0 {
        lemma_revalidate_prefix(paths, lives, n - 1);
        let prev = paths.take(n - 1);
        assert(!prev.contains(paths[n - 1])) by {
            if prev.contains(paths[n - 1]) {
                let k = choose|k: int| 0 <= k < prev.len() && prev[k] == paths[n - 1];
                assert(paths[k] == paths[n - 1]);
            }
        }
        assert(prev.push(paths[n - 1]) =~= paths.take(n));
    } else {
        assert(paths.take(0) =~= Seq::<Seq<char>>::empty());
    }
}

/// Validates stored paths against their liveness: the kept entries are
/// exactly the promoted ones, in order, and the second component says
/// whether anything was dropped, so the snapshot must be rewritten.
pub fn revalidate(paths: &Vec<String>, lives: &Vec<bool>) -> (r: (Vec<String>, bool))
    requires
        paths@.len() == lives@.len(),
    ensures
        r.0.deep_view() == revalidated(paths.deep_view(), lives@, paths@.len() as int),
        r.1 == (r.0.deep_view() != paths.deep_view()),
{
    let ghost pd = paths.deep_view();
    let mut kept: Vec<String> = Vec::new();
    let mut dropped = false;
    let mut i: usize = 0;
    let n = paths.len();
    proof {
        assert(kept.deep_view() =~~= revalidated(pd, lives@, 0));
    }
    while i < n
        invariant
            i <= n,
            n == paths@.len(),
            n == lives@.len(),
            pd == paths.deep_view(),
            kept.deep_view() == revalidated(pd, lives@, i as int),
            kept@.len() <= i,
            dropped == (kept@.len() < i),
            !dropped ==> kept.deep_view() == pd.subrange(0, i as int),
        decreases n - i,
    {
        proof {
            assert(pd[i as int] == paths@[i as int]@);
        }
        let keep = lives[i] && is_app_bundle(paths[i].as_str()) && !vec_contains_str(
            &kept,
            paths[i].as_str(),
        );
        let ghost kept_pre = kept.deep_view();
        if keep {
            kept.push(paths[i].clone());
            proof {
                assert(kept@.len() == kept_pre.len() + 1);
                assert forall|j: int|
                    0 <= j < kept@.len() implies kept.deep_view()[j] == kept_pre.push(
                    pd[i as int],
                )[j] by {
                    assert(kept.deep_view()[j] == kept@[j]@);
                    if j < kept@.len() - 1 {
                        assert(kept@[j]@ == kept_pre[j]);
                    }
                }
                assert(kept.deep_view() =~~= kept_pre.push(pd[i as int]));
                assert(promoted(kept_pre, pd[i as int], lives@[i as int]));
                if !dropped {
                    assert(kept.deep_view() =~~= pd.subrange(0, i as int + 1));
                }
            }
        } else {
            dropped = true;
            proof {
                assert(!promoted(kept_pre, pd[i as int], lives@[i as int]));
            }
        }
        i = i + 1;
    }
    proof {
        if !dropped {
            assert(pd.subrange(0, n as int) =~= pd);
        } else {
            assert(kept.deep_view().len() == kept@.len());
            assert(kept.deep_view() != pd);
        }
    }
    (kept, dropped)
}

/// Rebuilds a registry from stored paths and their liveness: the registry
/// holds exactly the promoted entries, and the flag says whether the stored
/// snapshot must be rewritten to prune what was dropped.
pub fn rebuild_registry(stored: &Vec<String>, lives: &Vec<bool>) -> (r: (Registry, bool))
    requires
        stored@.len() == lives@.len(),
    ensures
        r.0@ == revalidated(stored.deep_view(), lives@, stored@.len() as int),
        r.0.wf(),
        r.1 == (r.0@ != stored.deep_view()),
{
    let (kept, dropped) = revalidate(stored, lives);
    proof {
        lemma_revalidated_entries(stored.deep_view(), lives@, stored@.len() as int);
    }
    let registry = Registry::from_paths(&kept);
    (registry, dropped)
}

} // verus!
