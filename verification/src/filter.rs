use crate::text::str_eq;
use crate::text::vec_contains_str;
use vstd::prelude::*;

verus! {

/// Whether `e` is one of the extensions of binary-like files that are always
/// skipped, whatever the user selected.
pub open spec fn blocklisted(e: Seq<char>) -> bool {
    ||| e == "jpg"@
    ||| e == "png"@
    ||| e == "exe"@
    ||| e == "gif"@
    ||| e == "pdb"@
    ||| e == "rmeta"@
    ||| e == "rlib"@
    ||| e == "bin"@
}

/// Whether a file with extension key `e` is included under the selected
/// extensions `sel` and the `exclude` mode.
///
/// With a non-empty selection, include mode drops every extension not listed
/// and exclude mode drops every extension listed; an empty selection lets
/// everything through. The blocklist always wins, even over an explicit
/// selection.
pub open spec fn included(e: Seq<char>, sel: Seq<Seq<char>>, exclude: bool) -> bool {
    &&& !(!exclude && sel.len() > 0 && !sel.contains(e))
    &&& !(exclude && sel.len() > 0 && sel.contains(e))
    &&& !blocklisted(e)
}

/// Whether `e` is blocklisted, as `blocklisted` describes.
pub fn is_blocklisted(e: &str) -> (r: bool)
    ensures
        r == blocklisted(e@),
{
    str_eq(e, "jpg") || str_eq(e, "png") || str_eq(e, "exe") || str_eq(e, "gif") || str_eq(
        e,
        "pdb",
    ) || str_eq(e, "rmeta") || str_eq(e, "rlib") || str_eq(e, "bin")
}

/// Decides inclusion of extension key `e`, as `included` describes.
pub fn is_included(e: &str, selected: &Vec<String>, exclude: bool) -> (r: bool)
    ensures
        r == included(e@, selected@.map_values(|s: String| s@), exclude),
{
    let in_selection = vec_contains_str(selected, e);
    let nonempty = selected.len() > 0;
    if !exclude && nonempty && !in_selection {
        return false;
    }
    if exclude && nonempty && in_selection {
        return false;
    }
    !is_blocklisted(e)
}

} // verus!
