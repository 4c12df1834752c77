// Tests of path eligibility, substring search, and the output-format selector.

use pycomplexity::{contains_substr, is_eligible_path, parse_output_format, str_eq, OutputFormat};

#[test]
fn eligible_paths() {
    assert!(is_eligible_path("a.py"));
    assert!(is_eligible_path("dir/module.py"));
    assert!(is_eligible_path("deep/x/y/z.py"));
    assert!(is_eligible_path("pkg/__init__.py"));
    assert!(is_eligible_path("x/..py"));
}

#[test]
fn ineligible_extensions() {
    assert!(!is_eligible_path(""));
    assert!(!is_eligible_path("py"));
    assert!(!is_eligible_path(".py"));
    assert!(!is_eligible_path("dir/.py"));
    assert!(!is_eligible_path("a.txt"));
    assert!(!is_eligible_path("a.apy"));
    assert!(!is_eligible_path("a.PY"));
    assert!(!is_eligible_path("apy"));
    assert!(!is_eligible_path("script.py.bak"));
}

#[test]
fn excluded_segments() {
    assert!(!is_eligible_path("venv/a.py"));
    assert!(!is_eligible_path("project/venv/lib/a.py"));
    assert!(!is_eligible_path(".venv/a.py"));
    assert!(!is_eligible_path("myvenv/a.py"));
    assert!(!is_eligible_path("__pycache__/a.py"));
    assert!(!is_eligible_path("pkg/__pycache__/mod.py"));
    // the exclusion is a substring match on the whole path
    assert!(!is_eligible_path("venvs/a.py"));
    assert!(!is_eligible_path("dir/venv.py"));
}

#[test]
fn substring_search() {
    assert!(contains_substr("hello world", "lo wo"));
    assert!(contains_substr("hello", "hello"));
    assert!(contains_substr("hello", ""));
    assert!(contains_substr("", ""));
    assert!(!contains_substr("", "a"));
    assert!(!contains_substr("hello", "world"));
    assert!(!contains_substr("ab", "abc"));
    assert!(contains_substr("aaab", "aab"));
}

#[test]
fn string_equality() {
    assert!(str_eq("", ""));
    assert!(str_eq("table", "table"));
    assert!(!str_eq("table", "tables"));
    assert!(!str_eq("json", "jsoN"));
}

#[test]
fn output_format_selectors() {
    assert_eq!(parse_output_format("table"), Some(OutputFormat::Table));
    assert_eq!(parse_output_format("json"), Some(OutputFormat::Json));
    assert_eq!(parse_output_format("csv"), None);
    assert_eq!(parse_output_format(""), None);
    assert_eq!(parse_output_format("Table"), None);
    assert_eq!(parse_output_format("JSON"), None);
}
