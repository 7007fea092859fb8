use loccer::get_indent;
use loccer::render_file_row;
use loccer::render_files_header;
use loccer::render_help;
use loccer::render_invalid;
use loccer::render_summary;
use loccer::u64_string;
use loccer::Aggregator;
use loccer::Align;
use loccer::PrintStyle;

#[test]
fn decimal_rendering() {
    assert_eq!(u64_string(0), "0");
    assert_eq!(u64_string(7), "7");
    assert_eq!(u64_string(42), "42");
    assert_eq!(u64_string(1000), "1000");
    assert_eq!(u64_string(u64::MAX), "18446744073709551615");
}

#[test]
fn left_indent_pads_past_anchor() {
    assert_eq!(get_indent("text", "abc", 10, Align::Left), " ".repeat(7));
    assert_eq!(get_indent("text", "", 2, Align::Left), "  ");
}

#[test]
fn left_indent_empty_when_anchor_overruns() {
    assert_eq!(get_indent("text", "a long anchor", 5, Align::Left), "");
}

#[test]
fn right_indent_justifies_value() {
    assert_eq!(get_indent("42", "abc", 10, Align::Right), " ".repeat(6));
    assert_eq!(get_indent("5", "", 10, Align::Right), " ".repeat(10));
}

#[test]
fn right_indent_empty_when_no_room() {
    assert_eq!(get_indent("123456", "abcde", 10, Align::Right), "");
}

#[test]
fn file_row_layout() {
    let expected = format!(" .x.rs{}3\n", " ".repeat(70 - 4 - 1 + 1));
    assert_eq!(render_file_row("x.rs", 3), expected);
}

#[test]
fn files_header_layout() {
    let rule = "-".repeat(74);
    let expected = format!(
        "{rule}\n File                                                               Lines \n{rule}\n"
    );
    assert_eq!(render_files_header(), expected);
}

fn scenario_aggregator() -> Aggregator {
    // one txt file of five lines
    let mut agg = Aggregator::new();
    let key = "txt".to_string();
    agg.record_file(&key);
    agg.record_lines(&key, 5);
    agg
}

#[test]
fn summary_normal_style_lists_extensions() {
    let agg = scenario_aggregator();
    let rule = "-".repeat(32);
    let expected = format!(
        "{rule}\n Language      Files      Lines \n{rule}\n .txt{}1{}5\n{rule}\n Total{}1{}5\n{rule}\n",
        " ".repeat(17 - 3 - 1 + 1),
        " ".repeat(10 - 1 + 1),
        " ".repeat(13 - 1 + 1),
        " ".repeat(10 - 1 + 1),
    );
    assert_eq!(render_summary(&agg, PrintStyle::Normal), expected);
}

#[test]
fn summary_minimum_style_has_only_grand_total() {
    let agg = scenario_aggregator();
    let out = render_summary(&agg, PrintStyle::Minimum);
    let rule = "-".repeat(32);
    let expected = format!(
        " Total{}1{}5\n{rule}\n",
        " ".repeat(13 - 1 + 1),
        " ".repeat(10 - 1 + 1),
    );
    assert_eq!(out, expected);
    assert!(!out.contains(".txt"));
    assert!(!out.contains("Language"));
}

#[test]
fn summary_files_style_lists_extensions_too() {
    let agg = scenario_aggregator();
    assert_eq!(
        render_summary(&agg, PrintStyle::Files),
        render_summary(&agg, PrintStyle::Normal)
    );
}

#[test]
fn help_text_layout() {
    let mut expected = String::new();
    expected.push_str("Usage: loccer [optional_arguments]\n");
    expected.push_str("Example: loccer ./ -e --files .js .c .rs\n");
    expected.push_str("Optional arguments:\n");
    for (a, b) in [
        (".[ext]", "Include / exclude file extension"),
        ("--help | -h", "Show usage of loccer"),
        ("--exclude | -e", "Exclude given file extensions"),
        ("--minimum | -m", "Shows only total count of files and lines"),
        ("--files | -f", "Shows every file count of lines"),
    ] {
        expected.push_str("  ");
        expected.push_str(a);
        expected.push_str(&" ".repeat(20 - a.len()));
        expected.push_str(b);
        expected.push('\n');
    }
    assert_eq!(render_help(), expected);
}

#[test]
fn invalid_parameter_note() {
    assert_eq!(
        render_invalid("bogus"),
        "Invalid parameter bogus, try loccer --help for help\n"
    );
}
