//! Scripts for the presentation projector: the rendered list is either
//! extended by one row or redrawn in full from the registry's snapshot.

use vstd::prelude::*;

verus! {

/// What serde_json::to_string makes of one string: the JSON string literal
/// holding it, safe to splice into a script as one argument.
pub uninterp spec fn quoted(s: Seq<char>) -> Seq<char>;

/// Relies on serde_json::to_string for &str: quotes and escapes the string
/// as a JSON string literal, which for string data never fails.  The result
/// is a function of the characters alone.
#[verifier::external_body]
fn quote_path(path: &str) -> (r: String)
    ensures
        r@ == quoted(path@),
{
    serde_json::to_string(path).unwrap()
}

/// The script that appends one row for `path` to the rendered list.
pub open spec fn add_app_script(path: Seq<char>) -> Seq<char> {
    "addApp("@ + quoted(path) + ");"@
}

/// Builds the one-row script for `path`.
pub fn js_add_app(path: &str) -> (r: String)
    ensures
        r@ == add_app_script(path@),
{
    let mut s = "addApp(".to_owned();
    let quoted_path = quote_path(path);
    s.append(quoted_path.as_str());
    s.append(");");
    s
}

/// The script that clears the rendered list and appends one row for each of
/// the first `n` paths, in order.
pub open spec fn rebuild_prefix(paths: Seq<Seq<char>>, n: int) -> Seq<char>
    decreases n,
{
    if n <= 0 {
        "document.getElementById('list').innerHTML='';"@
    } else {
        rebuild_prefix(paths, n - 1) + add_app_script(paths[n - 1])
    }
}

/// The script that redraws the whole rendered list from a snapshot: it
/// clears the list, appends one row per path in order, and refreshes the
/// empty-state hint.
pub open spec fn rebuild_script(paths: Seq<Seq<char>>) -> Seq<char> {
    rebuild_prefix(paths, paths.len() as int) + "toggleEmptyState();"@
}

/// Builds the full redraw script for a snapshot.
pub fn rebuild_list(paths: &Vec<String>) -> (r: String)
    ensures
        r@ == rebuild_script(paths.deep_view()),
{
    let ghost pd = paths.deep_view();
    let mut s = "document.getElementById('list').innerHTML='';".to_owned();
    let mut i: usize = 0;
    while i < paths.len()
        invariant
            i <= paths@.len(),
            pd == paths.deep_view(),
            s@ == rebuild_prefix(pd, i as int),
        decreases paths@.len() - i,
    {
        proof {
            assert(pd[i as int] == paths@[i as int]@);
        }
        let row = js_add_app(paths[i].as_str());
        s.append(row.as_str());
        i = i + 1;
    }
    s.append("toggleEmptyState();");
    s
}

} // verus!
