use crate::text::contains_char;
use crate::text::str_eq;
use vstd::prelude::*;

verus! {

/// How much of the results is printed.
#[derive(Clone, Copy, PartialEq, Eq, Structural, Debug)]
pub enum PrintStyle {
    Minimum,
    Normal,
    Files,
}

/// A run's settings, built once from the command-line tokens.
pub struct Config {
    pub dir_path: String,
    pub selected_file_extensions: Vec<String>,
    pub exclude: bool,
    pub print_style: PrintStyle,
}

/// The mathematical image of a `Config`.
pub ghost struct SpecConfig {
    pub dir: Seq<char>,
    pub selected: Seq<Seq<char>>,
    pub exclude: bool,
    pub style: PrintStyle,
}

impl View for Config {
    type V = SpecConfig;

    open spec fn view(&self) -> SpecConfig {
        SpecConfig {
            dir: self.dir_path@,
            selected: self.selected_file_extensions@.map_values(|s: String| s@),
            exclude: self.exclude,
            style: self.print_style,
        }
    }
}

/// What reading the tokens comes to: a finished configuration, a request for
/// the usage text, or the first token that fits nothing.
pub enum ParseOutcome {
    Done(Config),
    Help,
    Invalid(String),
}

/// The mathematical image of a `ParseOutcome`.
pub ghost enum SpecOutcome {
    Done(SpecConfig),
    Help,
    Invalid(Seq<char>),
}

/// Whether `r` and `s` are the same outcome.
pub open spec fn outcome_matches(r: ParseOutcome, s: SpecOutcome) -> bool {
    match r {
        ParseOutcome::Done(c) => s == SpecOutcome::Done(c@),
        ParseOutcome::Help => s == SpecOutcome::Help,
        ParseOutcome::Invalid(t) => s == SpecOutcome::Invalid(t@),
    }
}

/// A token that names the root directory: it holds a slash of either kind.
pub open spec fn is_path_token(t: Seq<char>) -> bool {
    t.contains('/') || t.contains('\\')
}

/// A token that selects an extension: it starts with a dot (and is not a path
/// token, which is tested first).
pub open spec fn is_ext_token(t: Seq<char>) -> bool {
    t.len() > 0 && t[0] == '.'
}

pub open spec fn is_exclude_token(t: Seq<char>) -> bool {
    t == "--exclude"@ || t == "-e"@
}

pub open spec fn is_minimum_token(t: Seq<char>) -> bool {
    t == "--minimum"@ || t == "-m"@
}

pub open spec fn is_files_token(t: Seq<char>) -> bool {
    t == "--files"@ || t == "-f"@
}

pub open spec fn is_help_token(t: Seq<char>) -> bool {
    t == "help"@ || t == "--help"@ || t == "-h"@
}

/// The configuration before any token is read: the given default directory,
/// no selected extensions, include mode, normal print style.
pub open spec fn initial_config(default_dir: Seq<char>) -> SpecConfig {
    SpecConfig { dir: default_dir, selected: Seq::empty(), exclude: false, style: PrintStyle::Normal }
}

/// Reads the tokens in order, left to right, each one tried against the token
/// shapes in this order: path, extension, exclude, minimum, files, help,
/// invalid. A path token replaces the directory (so the last one wins); an
/// extension token appends its characters after the dot; a help or invalid
/// token ends the reading at once.
pub open spec fn parse_spec(toks: Seq<Seq<char>>, cur: SpecConfig) -> SpecOutcome
    decreases toks.len(),
{
    if toks.len() == 0 {
        SpecOutcome::Done(cur)
    } else {
        let t = toks.first();
        if is_path_token(t) {
            parse_spec(
                toks.drop_first(),
                SpecConfig { dir: t, selected: cur.selected, exclude: cur.exclude, style: cur.style },
            )
        } else if is_ext_token(t) {
            parse_spec(
                toks.drop_first(),
                SpecConfig {
                    dir: cur.dir,
                    selected: cur.selected.push(t.subrange(1, t.len() as int)),
                    exclude: cur.exclude,
                    style: cur.style,
                },
            )
        } else if is_exclude_token(t) {
            parse_spec(
                toks.drop_first(),
                SpecConfig { dir: cur.dir, selected: cur.selected, exclude: true, style: cur.style },
            )
        } else if is_minimum_token(t) {
            parse_spec(
                toks.drop_first(),
                SpecConfig {
                    dir: cur.dir,
                    selected: cur.selected,
                    exclude: cur.exclude,
                    style: PrintStyle::Minimum,
                },
            )
        } else if is_files_token(t) {
            parse_spec(
                toks.drop_first(),
                SpecConfig {
                    dir: cur.dir,
                    selected: cur.selected,
                    exclude: cur.exclude,
                    style: PrintStyle::Files,
                },
            )
        } else if is_help_token(t) {
            SpecOutcome::Help
        } else {
            SpecOutcome::Invalid(t)
        }
    }
}

impl Config {
    /// Builds the configuration from the command-line tokens, the first of
    /// which is the program name and is skipped; `default_dir` stands in for
    /// the root until a path token replaces it.
    pub fn init(args: &Vec<String>, default_dir: String) -> (r: ParseOutcome)
        requires
            args@.len() >= 1,
        ensures
            outcome_matches(
                r,
                parse_spec(
                    args@.map_values(|s: String| s@).drop_first(),
                    initial_config(default_dir@),
                ),
            ),
    {
        let ghost toks = args@.map_values(|s: String| s@).drop_first();
        let ghost d0 = default_dir@;
        let mut dir_path = default_dir;
        let mut selected_file_extensions: Vec<String> = Vec::new();
        let mut exclude = false;
        let mut print_style = PrintStyle::Normal;
        let mut i: usize = 1;
        proof {
            assert(toks.skip(0) =~= toks);
            assert(selected_file_extensions@.map_values(|s: String| s@) =~= Seq::<Seq<char>>::empty());
        }
        while i < args.len()
            invariant
                1 <= i <= args@.len(),
                d0 == default_dir@,
                toks == args@.map_values(|s: String| s@).drop_first(),
                toks.len() == args@.len() - 1,
                parse_spec(toks, initial_config(d0)) == parse_spec(
                    toks.skip(i - 1),
                    SpecConfig {
                        dir: dir_path@,
                        selected: selected_file_extensions@.map_values(|s: String| s@),
                        exclude: exclude,
                        style: print_style,
                    },
                ),
            decreases args@.len() - i,
        {
            let ghost k = i - 1;
            let ghost cur = SpecConfig {
                dir: dir_path@,
                selected: selected_file_extensions@.map_values(|s: String| s@),
                exclude: exclude,
                style: print_style,
            };
            let arg = &args[i];
            proof {
                assert(toks[k] == args@[i as int]@);
                assert(toks.skip(k).first() == toks[k]);
                assert(toks.skip(k).drop_first() =~= toks.skip(k + 1));
                assert(toks.skip(k).len() == toks.len() - k);
            }
            if contains_char(arg.as_str(), '/') || contains_char(arg.as_str(), '\\') {
                dir_path = arg.clone();
            } else {
                let alen = arg.as_str().unicode_len();
                if alen > 0 && arg.as_str().get_char(0) == '.' {
                    let rest = arg.as_str().substring_char(1, alen);
                    selected_file_extensions.push(rest.to_owned());
                    proof {
                        assert(selected_file_extensions@.map_values(|s: String| s@)
                            =~= cur.selected.push(toks[k].subrange(1, toks[k].len() as int)));
                    }
                } else if str_eq(arg.as_str(), "--exclude") || str_eq(arg.as_str(), "-e") {
                    exclude = true;
                } else if str_eq(arg.as_str(), "--minimum") || str_eq(arg.as_str(), "-m") {
                    print_style = PrintStyle::Minimum;
                } else if str_eq(arg.as_str(), "--files") || str_eq(arg.as_str(), "-f") {
                    print_style = PrintStyle::Files;
                } else if str_eq(arg.as_str(), "help") || str_eq(arg.as_str(), "--help") || str_eq(
                    arg.as_str(),
                    "-h",
                ) {
                    proof {
                        assert(parse_spec(toks.skip(k), cur) == SpecOutcome::Help);
                    }
                    return ParseOutcome::Help;
                } else {
                    proof {
                        assert(parse_spec(toks.skip(k), cur) == SpecOutcome::Invalid(toks[k]));
                    }
                    return ParseOutcome::Invalid(arg.clone());
                }
            }
            i = i + 1;
        }
        proof {
            assert(toks.skip(i - 1) =~= Seq::<Seq<char>>::empty());
        }
        ParseOutcome::Done(
            Config { dir_path, selected_file_extensions, exclude, print_style },
        )
    }
}

} // verus!
