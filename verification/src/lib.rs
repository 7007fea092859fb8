mod aggregate;
mod classify;
mod config;
mod counter;
mod filter;
mod indentprint;
mod pipeline;
mod report;
mod text;

pub use aggregate::aggregate_all;
pub use aggregate::Aggregator;
pub use aggregate::bump;
pub use aggregate::files_with;
pub use aggregate::keys_unique;
pub use aggregate::lemma_grand_is_bucket_sum;
pub use aggregate::lemma_order_independent;
pub use aggregate::lemma_table_counts;
pub use aggregate::lemma_touch_commutes;
pub use aggregate::lines_with;
pub use aggregate::seq_get;
pub use aggregate::sum_files;
pub use aggregate::sum_lines;
pub use aggregate::table_of;
pub use aggregate::total_lines_of;
pub use aggregate::Totals;
pub use aggregate::touch;
pub use aggregate::views_of;
pub use classify::ext_of;
pub use classify::extension_key;
pub use classify::last_dot_index;
pub use config::Config;
pub use config::initial_config;
pub use config::is_exclude_token;
pub use config::is_ext_token;
pub use config::is_files_token;
pub use config::is_help_token;
pub use config::is_minimum_token;
pub use config::is_path_token;
pub use config::outcome_matches;
pub use config::parse_spec;
pub use config::ParseOutcome;
pub use config::PrintStyle;
pub use config::SpecConfig;
pub use config::SpecOutcome;
pub use counter::count_lines;
pub use counter::line_count;
pub use counter::newline_count;
pub use filter::blocklisted;
pub use filter::included;
pub use filter::is_blocklisted;
pub use filter::is_included;
pub use indentprint::Align;
pub use indentprint::get_indent;
pub use indentprint::indent_spec;
pub use indentprint::spaces;
pub use indentprint::spaces_string;
pub use pipeline::classify_for_run;
pub use pipeline::record_counted;
pub use report::dashes;
pub use report::dashes_string;
pub use report::dec_digit;
pub use report::dec_rep;
pub use report::file_row_spec;
pub use report::files_header_spec;
pub use report::grand_row_spec;
pub use report::help_item_spec;
pub use report::help_spec;
pub use report::invalid_spec;
pub use report::nl;
pub use report::render_file_row;
pub use report::render_files_header;
pub use report::render_help;
pub use report::render_invalid;
pub use report::render_rule;
pub use report::render_summary;
pub use report::rule_spec;
pub use report::summary_row_spec;
pub use report::summary_rows_spec;
pub use report::summary_spec;
pub use report::u64_string;
pub use text::contains_char;
pub use text::str_eq;
pub use text::strip_prefix_chars;
pub use text::vec_contains_str;
