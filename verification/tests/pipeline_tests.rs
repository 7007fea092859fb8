use loccer::classify_for_run;
use loccer::record_counted;
use loccer::Aggregator;
use loccer::Totals;

fn sel(items: &[&str]) -> Vec<String> {
    items.iter().map(|s| s.to_string()).collect()
}

#[test]
fn classify_passes_an_included_file_with_its_key() {
    assert_eq!(classify_for_run("a.rs", &sel(&[]), false), Some("rs".to_string()));
    assert_eq!(classify_for_run("README", &sel(&[]), false), Some(String::new()));
}

#[test]
fn classify_skips_filtered_and_blocklisted_files() {
    assert_eq!(classify_for_run("a.png", &sel(&[]), false), None);
    assert_eq!(classify_for_run("a.go", &sel(&["rs"]), false), None);
    assert_eq!(classify_for_run("a.rs", &sel(&["rs"]), true), None);
}

#[test]
fn record_counted_counts_and_records_once() {
    let mut agg = Aggregator::new();
    let key = "rs".to_string();
    assert_eq!(record_counted(&mut agg, &key, b"l1\nl2\nl3"), Some(3));
    assert_eq!(record_counted(&mut agg, &key, b""), Some(0));
    assert_eq!(agg.totals_for("rs"), Some(Totals { files: 2, lines: 3 }));
    assert_eq!(agg.grand_totals(), Totals { files: 2, lines: 3 });
}

#[test]
fn record_counted_refuses_an_overflowing_total() {
    let mut agg = Aggregator::new();
    let key = "rs".to_string();
    agg.record_lines(&key, u64::MAX - 1);
    assert_eq!(record_counted(&mut agg, &key, b"a\nb\nc\n"), None);
    // nothing was recorded
    assert_eq!(agg.totals_for("rs"), Some(Totals { files: 0, lines: u64::MAX - 1 }));
    assert_eq!(agg.grand_totals(), Totals { files: 0, lines: u64::MAX - 1 });
}
