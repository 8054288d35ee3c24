//! The metadata mutator: flips the Dock-suppression key inside a bundle's
//! presentation-metadata document, leaving every other entry as it was.

use vstd::prelude::*;
use crate::paths::bundle_metadata_path;

verus! {

/// Why a metadata mutation failed.  `NotFound` is a missing document, `Read`
/// any other failure to read it, `Parse` a malformed document, `Write` a
/// failure to store the rewritten document.
#[derive(Clone, Copy, Debug, PartialEq, Eq, Structural)]
pub enum MutationError {
    NotFound,
    Read,
    Parse,
    Write,
}

#[verifier::external_type_specification]
#[verifier::external_body]
pub struct ExPlistValue(plist::Value);

/// Whether a metadata document is a dictionary at top level.
pub uninterp spec fn is_dictionary(v: plist::Value) -> bool;

/// The top-level entries of a metadata document that hold a string, as a map
/// from key to string value.
pub uninterp spec fn string_entries(v: plist::Value) -> Map<Seq<char>, Seq<char>>;

/// Relies on plist::Value::from_file: reads the document at `path` and parses
/// it.  The error tells a missing file, another read failure and a malformed
/// document apart; none of those maps to `Write`.
#[verifier::external_body]
fn load_document(path: &str) -> (r: Result<plist::Value, MutationError>)
    ensures
        r matches Err(e) ==> !(e is Write),
{
    plist::Value::from_file(path).map_err(|e| match e.as_io() {
        Some(io) if io.kind() == std::io::ErrorKind::NotFound => MutationError::NotFound,
        Some(_) => MutationError::Read,
        None => MutationError::Parse,
    })
}

/// Relies on plist::Dictionary::insert: when the document is a dictionary,
/// sets `key` to the string `value`, replacing any prior value under that key
/// and leaving every other entry as it was; a document of any other shape is
/// left untouched.
#[verifier::external_body]
fn set_string_entry(doc: &mut plist::Value, key: &str, value: &str) -> (was_dictionary: bool)
    ensures
        was_dictionary == is_dictionary(*old(doc)),
        is_dictionary(*old(doc)) ==> is_dictionary(*final(doc)) && string_entries(*final(doc))
            == string_entries(*old(doc)).insert(key@, value@),
        !is_dictionary(*old(doc)) ==> *final(doc) == *old(doc),
{
    if let plist::Value::Dictionary(dict) = doc {
        dict.insert(key.to_owned(), plist::Value::String(value.to_owned()));
        true
    } else {
        false
    }
}

/// Relies on plist::Value::to_file_xml: writes the document to `path` in the
/// XML encoding.  Every failure is a write failure.
#[verifier::external_body]
fn store_document(path: &str, doc: &plist::Value) -> (r: Result<(), MutationError>)
    ensures
        r matches Err(e) ==> e is Write,
{
    doc.to_file_xml(path).map_err(|_| MutationError::Write)
}

/// The key whose value says whether the bundle's Dock presence is suppressed.
pub open spec fn suppression_key() -> Seq<char> {
    "LSUIElement"@
}

/// The string stored under the suppression key: `"1"` suppresses, `"0"` makes
/// the bundle visible again.
pub open spec fn suppression_value(suppressed: bool) -> Seq<char> {
    if suppressed {
        "1"@
    } else {
        "0"@
    }
}

/// Sets the suppression key of a loaded metadata document.  When the document
/// is a dictionary, its suppression key afterwards holds exactly
/// `suppression_value(suppressed)` and every other string entry is kept; any
/// other document shape is left unchanged.
pub fn apply_suppression(doc: &mut plist::Value, suppressed: bool) -> (was_dictionary: bool)
    ensures
        was_dictionary == is_dictionary(*old(doc)),
        is_dictionary(*old(doc)) ==> is_dictionary(*final(doc)) && string_entries(*final(doc))
            == string_entries(*old(doc)).insert(
            suppression_key(),
            suppression_value(suppressed),
        ),
        !is_dictionary(*old(doc)) ==> *final(doc) == *old(doc),
{
    let value: &str = if suppressed {
        "1"
    } else {
        "0"
    };
    set_string_entry(doc, "LSUIElement", value)
}

/// Loads the metadata document of the bundle rooted at `bundle_root`, sets
/// its suppression key and stores it back.  A document whose top level is not
/// a dictionary is deliberately left unchanged and reported as success.  The
/// outcome depends on the document on disk: a missing, unreadable or
/// malformed document and a failed write surface as the matching error, so
/// no particular outcome is owed and callers must handle every one.
pub fn set_suppressed(bundle_root: &str, suppressed: bool) -> (r: Result<(), MutationError>) {
    let location = bundle_metadata_path(bundle_root);
    let mut doc = match load_document(location.as_str()) {
        Ok(d) => d,
        Err(e) => { return Err(e) },
    };
    if apply_suppression(&mut doc, suppressed) {
        store_document(location.as_str(), &doc)
    } else {
        Ok(())
    }
}

/// Suppresses the Dock presence of the bundle rooted at `app`.
pub fn hide_dock_icon(app: &str) -> (r: Result<(), MutationError>) {
    set_suppressed(app, true)
}

/// Restores the Dock presence of the bundle rooted at `app`.
pub fn restore_dock_icon(app: &str) -> (r: Result<(), MutationError>) {
    set_suppressed(app, false)
}

} // verus!
