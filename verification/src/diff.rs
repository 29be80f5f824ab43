//! The textual difference between two versions of a file, made safe to embed
//! in a document.

use crate::text::{replace, replace_all};
use vstd::prelude::*;

verus! {

/// The unified diff that `diffy` prints for a pair of texts.
pub uninterp spec fn patch_text(original: Seq<char>, modified: Seq<char>) -> Seq<char>;

/// `diffy::create_patch`, printed: the line-based patch that turns `original`
/// into `modified`, in unified format. Nothing is claimed of the text but
/// that it depends on the two arguments alone.
#[verifier::external_body]
fn create_patch(original: &str, modified: &str) -> (text: String)
    ensures
        text@ == patch_text(original@, modified@),
{
    diffy::create_patch(original, modified).to_string()
}

/// `s` with a backslash put before every section marker, three dashes; the
/// markers are found from left to right and never overlap.
pub open spec fn escaped(s: Seq<char>) -> Seq<char> {
    replace_all(s, "---"@, "\\---"@)
}

/// Puts a backslash before every section marker of `text`.
pub fn escape_markers(text: &str) -> (r: String)
    ensures
        r@ == escaped(text@),
{
    replace(text, "---", "\\---")
}

/// The diff between two versions of a file, ready to be embedded: what
/// `diffy` prints for the pair, with every section marker escaped.
pub fn get_diff(last_marked_on_data: &str, original_latest_data: &str) -> (diff: String)
    ensures
        diff@ == escaped(patch_text(last_marked_on_data@, original_latest_data@)),
{
    let patch = create_patch(last_marked_on_data, original_latest_data);
    escape_markers(patch.as_str())
}

} // verus!
