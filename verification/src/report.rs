use crate::aggregate::Aggregator;
use crate::aggregate::Totals;
use crate::config::PrintStyle;
use crate::indentprint::get_indent;
use crate::indentprint::indent_spec;
use crate::indentprint::Align;
use vstd::prelude::*;

verus! {

/// The decimal digit character for `d` (which is below ten).
pub open spec fn dec_digit(d: nat) -> char {
    if d == 0 {
        '0'
    } else if d == 1 {
        '1'
    } else if d == 2 {
        '2'
    } else if d == 3 {
        '3'
    } else if d == 4 {
        '4'
    } else if d == 5 {
        '5'
    } else if d == 6 {
        '6'
    } else if d == 7 {
        '7'
    } else if d == 8 {
        '8'
    } else {
        '9'
    }
}

/// The decimal representation of `n`, most significant digit first, with no
/// leading zeros (zero itself reads "0").
pub open spec fn dec_rep(n: nat) -> Seq<char>
    decreases n,
{
    if n < 10 {
        seq![dec_digit(n)]
    } else {
        dec_rep(n / 10).push(dec_digit(n % 10))
    }
}

/// A sequence of `n` dash characters.
pub open spec fn dashes(n: nat) -> Seq<char>
    decreases n,
{
    if n == 0 {
        Seq::empty()
    } else {
        dashes((n - 1) as nat).push('-')
    }
}

/// A single newline.
pub open spec fn nl() -> Seq<char> {
    seq!['\n']
}

/// The one-character string for the decimal digit `d`.
fn digit_str(d: u64) -> (r: &'static str)
    requires
        d < 10,
    ensures
        r@ == seq![dec_digit(d as nat)],
{
    proof {
        reveal_strlit("0");
        reveal_strlit("1");
        reveal_strlit("2");
        reveal_strlit("3");
        reveal_strlit("4");
        reveal_strlit("5");
        reveal_strlit("6");
        reveal_strlit("7");
        reveal_strlit("8");
        reveal_strlit("9");
    }
    let r = if d == 0 {
        "0"
    } else if d == 1 {
        "1"
    } else if d == 2 {
        "2"
    } else if d == 3 {
        "3"
    } else if d == 4 {
        "4"
    } else if d == 5 {
        "5"
    } else if d == 6 {
        "6"
    } else if d == 7 {
        "7"
    } else if d == 8 {
        "8"
    } else {
        "9"
    };
    proof {
        assert(r@ =~= seq![dec_digit(d as nat)]);
    }
    r
}

/// The decimal text of `n`, as `dec_rep` describes.
pub fn u64_string(n: u64) -> (r: String)
    ensures
        r@ == dec_rep(n as nat),
    decreases n,
{
    if n < 10 {
        digit_str(n).to_owned()
    } else {
        let mut s = u64_string(n / 10);
        s.append(digit_str(n % 10));
        proof {
            assert(s@ =~= dec_rep((n / 10) as nat).push(dec_digit((n % 10) as nat)));
        }
        s
    }
}

/// A string of exactly `n` dashes.
pub fn dashes_string(n: usize) -> (r: String)
    ensures
        r@ == dashes(n as nat),
{
    let mut s = String::new();
    let mut i: usize = 0;
    while i < n
        invariant
            i <= n,
            s@ == dashes(i as nat),
        decreases n - i,
    {
        s.append("-");
        proof {
            reveal_strlit("-");
            assert(s@ =~= dashes(i as nat).push('-'));
        }
        i = i + 1;
    }
    s
}

/// A separator row of `n` dashes and a newline.
pub open spec fn rule_spec(n: nat) -> Seq<char> {
    dashes(n) + nl()
}

/// The per-file detail row: the path prefixed by " ." and its line count
/// right-justified at anchor width 70, measured from the path.
pub open spec fn file_row_spec(path: Seq<char>, n: u64) -> Seq<char> {
    " ."@ + path + indent_spec(dec_rep(n as nat), path, 70, Align::Right) + dec_rep(n as nat)
        + nl()
}

/// The header block of the per-file detail listing.
pub open spec fn files_header_spec() -> Seq<char> {
    rule_spec(74) + " File                                                               Lines "@
        + nl() + rule_spec(74)
}

/// One per-extension summary row: the extension prefixed by " .", its file
/// count right-justified at anchor width 17 from the extension, and its line
/// count right-justified at anchor width 10.
pub open spec fn summary_row_spec(ext: Seq<char>, t: Totals) -> Seq<char> {
    " ."@ + ext + indent_spec(dec_rep(t.files as nat), ext, 17, Align::Right) + dec_rep(
        t.files as nat,
    ) + indent_spec(dec_rep(t.lines as nat), Seq::empty(), 10, Align::Right) + dec_rep(
        t.lines as nat,
    ) + nl()
}

/// The per-extension summary rows, in bucket order.
pub open spec fn summary_rows_spec(s: Seq<(String, Totals)>) -> Seq<char>
    decreases s.len(),
{
    if s.len() == 0 {
        Seq::empty()
    } else {
        summary_rows_spec(s.drop_last()) + summary_row_spec(s.last().0@, s.last().1)
    }
}

/// The grand-total row: " Total", the file count right-justified at anchor
/// width 13, and the line count right-justified at anchor width 10.
pub open spec fn grand_row_spec(g: Totals) -> Seq<char> {
    " Total"@ + indent_spec(dec_rep(g.files as nat), Seq::empty(), 13, Align::Right) + dec_rep(
        g.files as nat,
    ) + indent_spec(dec_rep(g.lines as nat), Seq::empty(), 10, Align::Right) + dec_rep(
        g.lines as nat,
    ) + nl()
}

/// The whole closing report: the summary block — table header, one row per
/// extension bucket, a separator — which Minimum style skips entirely, then
/// the grand-total row and a final separator, which are always printed.
pub open spec fn summary_spec(s: Seq<(String, Totals)>, g: Totals, style: PrintStyle) -> Seq<
    char,
> {
    (if style is Minimum {
        Seq::<char>::empty()
    } else {
        rule_spec(32) + " Language      Files      Lines "@ + nl() + rule_spec(32)
            + summary_rows_spec(s) + rule_spec(32)
    }) + grand_row_spec(g) + rule_spec(32)
}

/// A separator row of `n` dashes, ending in a newline.
pub fn render_rule(n: usize) -> (r: String)
    ensures
        r@ == rule_spec(n as nat),
{
    let mut s = dashes_string(n);
    s.append("\n");
    proof {
        reveal_strlit("\n");
        assert(s@ =~= rule_spec(n as nat));
    }
    s
}

/// The header block of the per-file detail listing, as `files_header_spec`
/// describes.
pub fn render_files_header() -> (r: String)
    ensures
        r@ == files_header_spec(),
{
    let mut s = render_rule(74);
    s.append(" File                                                               Lines ");
    s.append("\n");
    let rest = render_rule(74);
    s.append(rest.as_str());
    proof {
        reveal_strlit("\n");
        assert(s@ =~= files_header_spec());
    }
    s
}

/// The per-file detail row for `path` and its line count `n`, as
/// `file_row_spec` describes.
pub fn render_file_row(path: &str, n: u64) -> (r: String)
    ensures
        r@ == file_row_spec(path@, n),
{
    let mut s = " .".to_owned();
    s.append(path);
    let count = u64_string(n);
    let pad = get_indent(count.as_str(), path, 70, Align::Right);
    s.append(pad.as_str());
    s.append(count.as_str());
    s.append("\n");
    proof {
        reveal_strlit("\n");
        assert(s@ =~= file_row_spec(path@, n));
    }
    s
}

/// The summary block for the buckets and grand total of `agg`, as
/// `summary_spec` describes.
pub fn render_summary(agg: &Aggregator, style: PrintStyle) -> (r: String)
    ensures
        r@ == summary_spec(agg.entries@, agg.grand, style),
{
    let mut s = String::new();
    match style {
        PrintStyle::Minimum => {},
        _ => {
            let rule0 = render_rule(32);
            s.append(rule0.as_str());
            s.append(" Language      Files      Lines ");
            s.append("\n");
            let rule = render_rule(32);
            s.append(rule.as_str());
            let ghost head = s@;
            proof {
                reveal_strlit("\n");
                assert(head =~= rule_spec(32) + " Language      Files      Lines "@ + nl()
                    + rule_spec(32));
            }
            let mut i: usize = 0;
            proof {
                assert(agg.entries@.take(0) =~= Seq::<(String, Totals)>::empty());
                assert(s@ =~= head + summary_rows_spec(agg.entries@.take(0)));
            }
            while i < agg.entries.len()
                invariant
                    i <= agg.entries@.len(),
                    head == rule_spec(32) + " Language      Files      Lines "@ + nl()
                        + rule_spec(32),
                    s@ == head + summary_rows_spec(agg.entries@.take(i as int)),
                decreases agg.entries@.len() - i,
            {
                let ghost before = s@;
                let pair = &agg.entries[i];
                s.append(" .");
                s.append(pair.0.as_str());
                let files_s = u64_string(pair.1.files);
                let pad1 = get_indent(files_s.as_str(), pair.0.as_str(), 17, Align::Right);
                s.append(pad1.as_str());
                s.append(files_s.as_str());
                let lines_s = u64_string(pair.1.lines);
                let pad2 = get_indent(lines_s.as_str(), "", 10, Align::Right);
                s.append(pad2.as_str());
                s.append(lines_s.as_str());
                s.append("\n");
                proof {
                    reveal_strlit("\n");
                    reveal_strlit("");
                    assert(""@ =~= Seq::<char>::empty());
                    assert(s@ =~= before + summary_row_spec(
                        agg.entries@[i as int].0@,
                        agg.entries@[i as int].1,
                    ));
                    assert(agg.entries@.take(i + 1).drop_last() =~= agg.entries@.take(i as int));
                    assert(agg.entries@.take(i + 1).last() == agg.entries@[i as int]);
                    assert(s@ =~= head + summary_rows_spec(agg.entries@.take(i + 1)));
                }
                i = i + 1;
            }
            proof {
                assert(agg.entries@.take(agg.entries@.len() as int) =~= agg.entries@);
            }
            let rule2 = render_rule(32);
            s.append(rule2.as_str());
            proof {
                assert(s@ =~= rule_spec(32) + " Language      Files      Lines "@ + nl()
                    + rule_spec(32) + summary_rows_spec(agg.entries@) + rule_spec(32));
            }
        },
    }
    s.append(" Total");
    let files_s = u64_string(agg.grand.files);
    let pad1 = get_indent(files_s.as_str(), "", 13, Align::Right);
    s.append(pad1.as_str());
    s.append(files_s.as_str());
    let lines_s = u64_string(agg.grand.lines);
    let pad2 = get_indent(lines_s.as_str(), "", 10, Align::Right);
    s.append(pad2.as_str());
    s.append(lines_s.as_str());
    s.append("\n");
    let rule3 = render_rule(32);
    s.append(rule3.as_str());
    proof {
        reveal_strlit("\n");
        reveal_strlit("");
        assert(""@ =~= Seq::<char>::empty());
        assert(s@ =~= summary_spec(agg.entries@, agg.grand, style));
    }
    s
}

/// One row of the usage text: the token shapes left-aligned at width 2, the
/// explanation left-aligned at width 20 from the token text.
pub open spec fn help_item_spec(a: Seq<char>, b: Seq<char>) -> Seq<char> {
    indent_spec(a, Seq::empty(), 2, Align::Left) + a + indent_spec(b, a, 20, Align::Left) + b
        + nl()
}

/// The whole usage text.
pub open spec fn help_spec() -> Seq<char> {
    "Usage: loccer [optional_arguments]"@ + nl() + "Example: loccer ./ -e --files .js .c .rs"@
        + nl() + "Optional arguments:"@ + nl() + help_item_spec(
        ".[ext]"@,
        "Include / exclude file extension"@,
    ) + help_item_spec("--help | -h"@, "Show usage of loccer"@) + help_item_spec(
        "--exclude | -e"@,
        "Exclude given file extensions"@,
    ) + help_item_spec("--minimum | -m"@, "Shows only total count of files and lines"@)
        + help_item_spec("--files | -f"@, "Shows every file count of lines"@)
}

fn append_help_item(s: &mut String, a: &str, b: &str)
    ensures
        final(s)@ == old(s)@ + help_item_spec(a@, b@),
{
    let pad1 = get_indent(a, "", 2, Align::Left);
    s.append(pad1.as_str());
    s.append(a);
    let pad2 = get_indent(b, a, 20, Align::Left);
    s.append(pad2.as_str());
    s.append(b);
    s.append("\n");
    proof {
        reveal_strlit("\n");
        reveal_strlit("");
        assert(""@ =~= Seq::<char>::empty());
        assert(s@ =~= old(s)@ + help_item_spec(a@, b@));
    }
}

/// The usage text, as `help_spec` describes.
pub fn render_help() -> (r: String)
    ensures
        r@ == help_spec(),
{
    let mut s = "Usage: loccer [optional_arguments]".to_owned();
    s.append("\n");
    s.append("Example: loccer ./ -e --files .js .c .rs");
    s.append("\n");
    s.append("Optional arguments:");
    s.append("\n");
    append_help_item(&mut s, ".[ext]", "Include / exclude file extension");
    append_help_item(&mut s, "--help | -h", "Show usage of loccer");
    append_help_item(&mut s, "--exclude | -e", "Exclude given file extensions");
    append_help_item(&mut s, "--minimum | -m", "Shows only total count of files and lines");
    append_help_item(&mut s, "--files | -f", "Shows every file count of lines");
    proof {
        reveal_strlit("\n");
        assert(s@ =~= help_spec());
    }
    s
}

/// The note printed for a token that fits nothing.
pub open spec fn invalid_spec(t: Seq<char>) -> Seq<char> {
    "Invalid parameter "@ + t + ", try loccer --help for help"@ + nl()
}

/// The note for the unrecognized token `t`, as `invalid_spec` describes.
pub fn render_invalid(t: &str) -> (r: String)
    ensures
        r@ == invalid_spec(t@),
{
    let mut s = "Invalid parameter ".to_owned();
    s.append(t);
    s.append(", try loccer --help for help");
    s.append("\n");
    proof {
        reveal_strlit("\n");
        assert(s@ =~= invalid_spec(t@));
    }
    s
}

} // verus!
