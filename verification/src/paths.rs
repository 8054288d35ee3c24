//! Path rules: which paths name an application bundle, and the fixed
//! locations derived from a bundle root or from a home directory.

use vstd::prelude::*;

verus! {

/// `s` with any trailing `/` characters removed.
pub open spec fn strip_trailing_slashes(s: Seq<char>) -> Seq<char>
    decreases s.len(),
{
    if s.len() > 0 && s[s.len() - 1] == '/' {
        strip_trailing_slashes(s.drop_last())
    } else {
        s
    }
}

/// The suffix of `s` after its last `/`, or all of `s` if it has none.
pub open spec fn after_last_slash(s: Seq<char>) -> Seq<char>
    decreases s.len(),
{
    if s.len() == 0 {
        s
    } else if s[s.len() - 1] == '/' {
        Seq::empty()
    } else {
        after_last_slash(s.drop_last()).push(s[s.len() - 1])
    }
}

/// The file name of a path: its last component, with trailing slashes ignored.
pub open spec fn file_name(s: Seq<char>) -> Seq<char> {
    after_last_slash(strip_trailing_slashes(s))
}

/// A file name carries the recognized bundle extension when a non-empty stem
/// is followed by a final `.app`, compared without regard to ASCII case.
/// Since none of `a`, `p` can be `.`, the `.` four places from the end is
/// necessarily the name's last `.`.
pub open spec fn name_has_bundle_extension(name: Seq<char>) -> bool {
    &&& name.len() >= 5
    &&& name[name.len() - 4] == '.'
    &&& (name[name.len() - 3] == 'a' || name[name.len() - 3] == 'A')
    &&& (name[name.len() - 2] == 'p' || name[name.len() - 2] == 'P')
    &&& (name[name.len() - 1] == 'p' || name[name.len() - 1] == 'P')
}

/// A path is admissible as a bundle exactly when its file name ends in the
/// recognized extension.
pub open spec fn is_bundle_path(s: Seq<char>) -> bool {
    name_has_bundle_extension(file_name(s))
}

/// Decides whether `path` names an application bundle.
pub fn is_app_bundle(path: &str) -> (r: bool)
    ensures
        r == is_bundle_path(path@),
{
    let n = path.unicode_len();
    proof {
        assert(path@.subrange(0, n as int) =~= path@);
    }
    let mut m = n;
    while m > 0 && path.get_char(m - 1) == '/'
        invariant
            m <= n,
            n == path@.len(),
            strip_trailing_slashes(path@) == strip_trailing_slashes(
                path@.subrange(0, m as int),
            ),
        decreases m,
    {
        proof {
            assert(path@.subrange(0, m as int).drop_last() =~= path@.subrange(0, m as int - 1));
        }
        m = m - 1;
    }
    proof {
        assert(strip_trailing_slashes(path@) =~= path@.subrange(0, m as int));
    }
    let mut k = m;
    while k > 0 && path.get_char(k - 1) != '/'
        invariant
            k <= m <= n,
            n == path@.len(),
            file_name(path@) == after_last_slash(path@.subrange(0, k as int)) + path@.subrange(
                k as int,
                m as int,
            ),
        decreases k,
    {
        proof {
            let pre = path@.subrange(0, k as int);
            assert(pre.drop_last() =~= path@.subrange(0, k as int - 1));
            assert(after_last_slash(pre) == after_last_slash(path@.subrange(0, k as int - 1)).push(
                path@[k as int - 1],
            ));
            assert(after_last_slash(path@.subrange(0, k as int - 1)).push(path@[k as int - 1])
                + path@.subrange(k as int, m as int) =~= after_last_slash(
                path@.subrange(0, k as int - 1),
            ) + path@.subrange(k as int - 1, m as int));
        }
        k = k - 1;
    }
    proof {
        if k == 0 {
            assert(path@.subrange(0, 0) =~= Seq::<char>::empty());
            assert(after_last_slash(path@.subrange(0, 0)) =~= Seq::<char>::empty());
        }
        assert(file_name(path@) =~= path@.subrange(k as int, m as int));
    }
    if m - k < 5 {
        return false;
    }
    let dot = path.get_char(m - 4);
    let c1 = path.get_char(m - 3);
    let c2 = path.get_char(m - 2);
    let c3 = path.get_char(m - 1);
    dot == '.' && (c1 == 'a' || c1 == 'A') && (c2 == 'p' || c2 == 'P') && (c3 == 'p' || c3
        == 'P')
}

/// Where a bundle keeps its presentation-metadata document, relative to the
/// bundle root.
pub open spec fn metadata_location(bundle_root: Seq<char>) -> Seq<char> {
    bundle_root + "/Contents/Info.plist"@
}

/// The metadata document's path for the bundle rooted at `bundle_root`.
pub fn bundle_metadata_path(bundle_root: &str) -> (r: String)
    ensures
        r@ == metadata_location(bundle_root@),
{
    let mut p = bundle_root.to_owned();
    p.append("/Contents/Info.plist");
    p
}

/// Where the persisted registry snapshot lives, relative to the user's home
/// directory.
pub open spec fn snapshot_location(home: Seq<char>) -> Seq<char> {
    home + "/.dock_dodger_apps.json"@
}

/// The persisted snapshot's path under the home directory `home`.
pub fn snapshot_file_path(home: &str) -> (r: String)
    ensures
        r@ == snapshot_location(home@),
{
    let mut p = home.to_owned();
    p.append("/.dock_dodger_apps.json");
    p
}

} // verus!
