use crate::aggregate::touch;
use crate::aggregate::Aggregator;
use crate::classify::ext_of;
use crate::classify::extension_key;
use crate::counter::count_lines;
use crate::counter::line_count;
use crate::filter::included;
use crate::filter::is_included;
use vstd::prelude::*;

verus! {

/// The per-file decision of the traversal loop: classifies `name` and applies
/// the filter policy, handing back the extension key when the file is to be
/// counted and nothing when it is to be skipped.
pub fn classify_for_run(name: &str, selected: &Vec<String>, exclude: bool) -> (r: Option<String>)
    ensures
        match r {
            Some(e) => e@ == ext_of(name@) && included(
                ext_of(name@),
                selected@.map_values(|s: String| s@),
                exclude,
            ),
            None => !included(ext_of(name@), selected@.map_values(|s: String| s@), exclude),
        },
{
    let ext = extension_key(name);
    if is_included(ext.as_str(), selected, exclude) {
        Some(ext)
    } else {
        None
    }
}

/// The per-file update of the traversal loop: counts the lines of `content`
/// and records the file and its count under `ext`, both exactly once.
///
/// Hands back the line count; when either grand counter would overflow, it
/// records nothing and hands back nothing.
pub fn record_counted(agg: &mut Aggregator, ext: &String, content: &[u8]) -> (r: Option<u64>)
    requires
        old(agg).wf(),
    ensures
        final(agg).wf(),
        match r {
            Some(n) => {
                &&& n as nat == line_count(content@)
                &&& final(agg).table() == touch(old(agg).table(), ext@, n as int)
                &&& final(agg).grand.files == old(agg).grand.files + 1
                &&& final(agg).grand.lines == old(agg).grand.lines + n
            },
            None => {
                &&& old(agg).grand.files == u64::MAX || line_count(content@)
                    + old(agg).grand.lines > u64::MAX
                &&& *final(agg) == *old(agg)
            },
        },
{
    let n = count_lines(content) as u64;
    let grand = agg.grand_totals();
    if grand.files == u64::MAX || n > u64::MAX - grand.lines {
        return None;
    }
    agg.record_file(ext);
    agg.record_lines(ext, n);
    Some(n)
}

} // verus!
