use loccer::Config;
use loccer::ParseOutcome;
use loccer::PrintStyle;

fn args(tokens: &[&str]) -> Vec<String> {
    let mut v = vec!["loccer".to_string()];
    v.extend(tokens.iter().map(|t| t.to_string()));
    v
}

fn parse(tokens: &[&str]) -> ParseOutcome {
    Config::init(&args(tokens), "/default".to_string())
}

fn done(tokens: &[&str]) -> Config {
    match parse(tokens) {
        ParseOutcome::Done(c) => c,
        _ => panic!("expected a finished configuration"),
    }
}

#[test]
fn no_tokens_gives_defaults() {
    let c = done(&[]);
    assert_eq!(c.dir_path, "/default");
    assert!(c.selected_file_extensions.is_empty());
    assert!(!c.exclude);
    assert!(matches!(c.print_style, PrintStyle::Normal));
}

#[test]
fn slash_token_sets_root() {
    let c = done(&["./src/"]);
    assert_eq!(c.dir_path, "./src/");
    let c = done(&["some\\dir"]);
    assert_eq!(c.dir_path, "some\\dir");
}

#[test]
fn last_path_token_wins() {
    let c = done(&["./a/", "./b/"]);
    assert_eq!(c.dir_path, "./b/");
}

#[test]
fn dot_token_selects_extension_without_the_dot() {
    let c = done(&[".rs", ".c"]);
    assert_eq!(c.selected_file_extensions, vec!["rs".to_string(), "c".to_string()]);
}

#[test]
fn bare_dot_selects_empty_extension() {
    let c = done(&["."]);
    assert_eq!(c.selected_file_extensions, vec![String::new()]);
}

#[test]
fn exclude_flags() {
    assert!(done(&["--exclude"]).exclude);
    assert!(done(&["-e"]).exclude);
    assert!(!done(&[]).exclude);
}

#[test]
fn style_flags() {
    assert!(matches!(done(&["--minimum"]).print_style, PrintStyle::Minimum));
    assert!(matches!(done(&["-m"]).print_style, PrintStyle::Minimum));
    assert!(matches!(done(&["--files"]).print_style, PrintStyle::Files));
    assert!(matches!(done(&["-f"]).print_style, PrintStyle::Files));
}

#[test]
fn help_tokens_ask_for_usage() {
    for t in ["help", "--help", "-h"] {
        assert!(matches!(parse(&[t]), ParseOutcome::Help));
    }
}

#[test]
fn unknown_token_is_invalid() {
    match parse(&["bogus"]) {
        ParseOutcome::Invalid(t) => assert_eq!(t, "bogus"),
        _ => panic!("expected the token to be reported"),
    }
}

#[test]
fn help_and_invalid_stop_the_reading() {
    assert!(matches!(parse(&["-e", "help", ".rs"]), ParseOutcome::Help));
    match parse(&["bogus", ".rs"]) {
        ParseOutcome::Invalid(t) => assert_eq!(t, "bogus"),
        _ => panic!("expected the token to be reported"),
    }
}

#[test]
fn combined_tokens() {
    let c = done(&["./src/", "-e", "--files", ".js", ".c", ".rs"]);
    assert_eq!(c.dir_path, "./src/");
    assert!(c.exclude);
    assert!(matches!(c.print_style, PrintStyle::Files));
    assert_eq!(
        c.selected_file_extensions,
        vec!["js".to_string(), "c".to_string(), "rs".to_string()]
    );
}
