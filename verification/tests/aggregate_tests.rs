use loccer::aggregate_all;
use loccer::count_lines;
use loccer::extension_key;
use loccer::is_included;
use loccer::Aggregator;
use loccer::Totals;

/// Runs the whole included-file pipeline over (file name, content) pairs, the
/// way the traversal loop does; `None` content stands for a file whose open
/// failed and which is therefore skipped.
fn run_over(files: &[(&str, Option<&[u8]>)], selected: &[&str], exclude: bool) -> Aggregator {
    let sel: Vec<String> = selected.iter().map(|s| s.to_string()).collect();
    let mut items: Vec<(String, u64)> = Vec::new();
    for (name, content) in files {
        let ext = extension_key(name);
        if !is_included(&ext, &sel, exclude) {
            continue;
        }
        let Some(content) = content else {
            continue;
        };
        items.push((ext, count_lines(content) as u64));
    }
    aggregate_all(&items)
}

#[test]
fn grand_total_is_count_and_sum() {
    let agg = run_over(
        &[
            ("a.rs", Some(b"x\ny\n")),
            ("b.txt", Some(b"one")),
            ("c.rs", Some(b"1\n2\n3\n4\n5\n")),
        ],
        &[],
        false,
    );
    let g = agg.grand_totals();
    assert_eq!(g, Totals { files: 3, lines: 8 });
}

#[test]
fn per_extension_totals_are_count_and_sum() {
    let agg = run_over(
        &[
            ("a.rs", Some(b"x\ny\n")),
            ("b.txt", Some(b"one")),
            ("c.rs", Some(b"1\n2\n3\n4\n5\n")),
        ],
        &[],
        false,
    );
    assert_eq!(agg.totals_for("rs"), Some(Totals { files: 2, lines: 7 }));
    assert_eq!(agg.totals_for("txt"), Some(Totals { files: 1, lines: 1 }));
    assert_eq!(agg.totals_for("go"), None);
}

#[test]
fn scenario_two_rust_files_one_without_trailing_newline() {
    // a.rs has 3 lines and no trailing newline; b.rs is empty
    let agg = run_over(&[("a.rs", Some(b"l1\nl2\nl3")), ("b.rs", Some(b""))], &[], false);
    assert_eq!(agg.totals_for("rs"), Some(Totals { files: 2, lines: 3 }));
    assert_eq!(agg.grand_totals(), Totals { files: 2, lines: 3 });
    assert_eq!(agg.extension_count(), 1);
}

#[test]
fn scenario_blocklisted_file_leaves_no_bucket() {
    // a.png is blocklisted; only b.txt is counted, and no png bucket exists
    let agg = run_over(
        &[("a.png", Some(b"binary")), ("b.txt", Some(b"1\n2\n3\n4\n5\n"))],
        &[],
        false,
    );
    assert_eq!(agg.extension_count(), 1);
    assert_eq!(agg.totals_for("txt"), Some(Totals { files: 1, lines: 5 }));
    assert_eq!(agg.totals_for("png"), None);
    assert_eq!(agg.grand_totals(), Totals { files: 1, lines: 5 });
}

#[test]
fn scenario_file_without_dot_lands_in_empty_bucket() {
    let agg = run_over(&[("README", Some(b"hello\nworld\n"))], &[], false);
    assert_eq!(agg.totals_for(""), Some(Totals { files: 1, lines: 2 }));
    assert_eq!(agg.grand_totals(), Totals { files: 1, lines: 2 });
}

#[test]
fn scenario_one_unreadable_file_among_ten() {
    let content: &[u8] = b"a\nb\n";
    let mut files: Vec<(String, Option<&[u8]>)> = Vec::new();
    for i in 0..10 {
        files.push((format!("f{i}.txt"), if i == 4 { None } else { Some(content) }));
    }
    let borrowed: Vec<(&str, Option<&[u8]>)> =
        files.iter().map(|(n, c)| (n.as_str(), *c)).collect();
    let agg = run_over(&borrowed, &[], false);
    assert_eq!(agg.grand_totals(), Totals { files: 9, lines: 18 });
    assert_eq!(agg.totals_for("txt"), Some(Totals { files: 9, lines: 18 }));
}

#[test]
fn two_runs_over_unchanged_input_agree() {
    let files: &[(&str, Option<&[u8]>)] = &[
        ("a.rs", Some(b"x\n")),
        ("b.txt", Some(b"y\nz\n")),
        ("README", Some(b"w")),
    ];
    let first = run_over(files, &[], false);
    let second = run_over(files, &[], false);
    assert_eq!(first.grand_totals(), second.grand_totals());
    assert_eq!(first.extension_count(), second.extension_count());
    for e in ["rs", "txt", ""] {
        assert_eq!(first.totals_for(e), second.totals_for(e));
    }
}

#[test]
fn traversal_order_does_not_change_totals() {
    let forward = vec![
        ("a.rs".to_string(), 1u64),
        ("b.txt".to_string(), 2u64),
        ("c.rs".to_string(), 3u64),
        ("d".to_string(), 4u64),
    ];
    let mut backward = forward.clone();
    backward.reverse();
    let f = aggregate_all(&forward);
    let b = aggregate_all(&backward);
    assert_eq!(f.grand_totals(), b.grand_totals());
    for e in ["rs", "txt", ""] {
        assert_eq!(f.totals_for(e), b.totals_for(e));
    }
}

#[test]
fn record_order_within_one_file_does_not_matter() {
    let key = "rs".to_string();
    let mut file_first = Aggregator::new();
    file_first.record_file(&key);
    file_first.record_lines(&key, 7);
    let mut lines_first = Aggregator::new();
    lines_first.record_lines(&key, 7);
    lines_first.record_file(&key);
    assert_eq!(file_first.grand_totals(), lines_first.grand_totals());
    assert_eq!(file_first.totals_for("rs"), lines_first.totals_for("rs"));
}

#[test]
fn bucket_is_created_lazily_on_first_touch() {
    let mut agg = Aggregator::new();
    assert_eq!(agg.extension_count(), 0);
    assert_eq!(agg.totals_for("rs"), None);
    let key = "rs".to_string();
    agg.record_lines(&key, 3);
    assert_eq!(agg.extension_count(), 1);
    assert_eq!(agg.totals_for("rs"), Some(Totals { files: 0, lines: 3 }));
    agg.record_file(&key);
    assert_eq!(agg.extension_count(), 1);
    assert_eq!(agg.totals_for("rs"), Some(Totals { files: 1, lines: 3 }));
}

#[test]
fn filters_apply_to_aggregation() {
    let files: &[(&str, Option<&[u8]>)] = &[
        ("a.rs", Some(b"x\n")),
        ("b.go", Some(b"y\n")),
    ];
    let include_rs = run_over(files, &["rs"], false);
    assert_eq!(include_rs.grand_totals(), Totals { files: 1, lines: 1 });
    assert_eq!(include_rs.totals_for("go"), None);
    let exclude_rs = run_over(files, &["rs"], true);
    assert_eq!(exclude_rs.grand_totals(), Totals { files: 1, lines: 1 });
    assert_eq!(exclude_rs.totals_for("rs"), None);
}
