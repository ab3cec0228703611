use std::rc::Rc;

use pitou::files::PitouFile;
use pitou::matcher::SearchType;
use pitou::options::{SearchOptions, SimplifiedSearchOptions};
use pitou::paths::PitouFilePath;

fn file_at(path: &str) -> Rc<PitouFile> {
    Rc::new(PitouFile::new(PitouFilePath::from_pathbuf(path.to_string()), None))
}

#[test]
fn substring_case_sensitive_basic() {
    let st = SearchType::MatchMiddle("bc".to_string());
    assert!(st.matches("abcabc", true));
    assert!(!st.matches("xyz", true));
    assert!(!st.matches("", true));
}

#[test]
fn substring_empty_key_matches_everything() {
    let st = SearchType::MatchMiddle(String::new());
    assert!(st.matches("", true));
    assert!(st.matches("anything", true));
}

#[test]
fn substring_ignore_case_folds_ascii() {
    let st = SearchType::MatchMiddle("bC".to_string());
    assert!(st.matches("aBcA", false));
    assert!(!st.matches("aBcA", true));
    assert!(!st.matches("ab", false));
}

#[test]
fn prefix_matching() {
    let st = SearchType::MatchBegining("abc".to_string());
    assert!(st.matches("abcdef", true));
    assert!(!st.matches("zabc", true));
    assert!(!st.matches("ab", true));
    let ci = SearchType::MatchBegining("ABC".to_string());
    assert!(ci.matches("abcdef", false));
    assert!(!ci.matches("abcdef", true));
}

#[test]
fn suffix_matching() {
    let st = SearchType::MatchEnding("def".to_string());
    assert!(st.matches("abcdef", true));
    assert!(!st.matches("defabc", true));
    let ci = SearchType::MatchEnding("DeF".to_string());
    assert!(ci.matches("abcdef", false));
}

#[test]
fn non_ascii_bytes_compare_literally() {
    let st = SearchType::MatchMiddle("é".to_string());
    assert!(st.matches("café", false));
    assert!(st.matches("café", true));
    let upper = SearchType::MatchMiddle("É".to_string());
    assert!(!upper.matches("café", false));
}

#[test]
fn simplified_options_default_values() {
    let opts = SimplifiedSearchOptions::default(file_at("/home"));
    assert_eq!(opts.search_kind, 1);
    assert_eq!(opts.depth, 6);
    assert!(opts.case_sensitive);
    assert!(opts.skip_errors);
    assert!(!opts.hardware_accelerate);
    assert_eq!(opts.max_finds, 250);
    assert_eq!(opts.input, "");
}

#[test]
fn try_into_builds_literal_patterns() {
    let mut opts = SimplifiedSearchOptions::default(file_at("/home"));
    opts.input = "abc".to_string();
    opts.search_kind = 0;
    let built = opts.try_into().expect("prefix request must build");
    assert!(matches!(built.search_type, SearchType::MatchBegining(ref k) if k == "abc"));
}

#[test]
fn try_into_compiles_valid_regex() {
    let mut opts = SimplifiedSearchOptions::default(file_at("/home"));
    opts.input = "^ab.*c$".to_string();
    opts.search_kind = 3;
    let built = opts.try_into().expect("valid pattern must compile");
    assert!(built.search_type.matches("abxxc", true));
    assert!(!built.search_type.matches("zabc", true));
}

#[test]
fn try_into_rejects_invalid_regex() {
    let mut opts = SimplifiedSearchOptions::default(file_at("/home"));
    opts.input = "foo(".to_string();
    opts.search_kind = 3;
    assert!(opts.try_into().is_none());
}

#[test]
fn regex_ignores_case_sensitivity_flag() {
    let mut opts = SimplifiedSearchOptions::default(file_at("/home"));
    opts.input = "(?i)readme".to_string();
    opts.search_kind = 7;
    let built = opts.try_into().expect("valid pattern must compile");
    // The compiled pattern's own flags decide case behaviour, not the
    // request's case_sensitive switch.
    assert!(built.search_type.matches("README", true));
    assert!(built.search_type.matches("ReadMe", false));
}

#[test]
fn insensitive_matching_equals_folding_both_sides_first() {
    // Folding key and input through the ASCII fold and then comparing
    // case-sensitively gives the same answer as the case-insensitive
    // comparison of the unfolded text.
    let pairs = [("AbC", "aBcD"), ("xyz", "XYZW"), ("no", "yes")];
    for (key, input) in pairs {
        let folded_key: String = key
            .chars()
            .map(|c| if c.is_ascii_lowercase() { c.to_ascii_uppercase() } else { c })
            .collect();
        let folded_input: String = input
            .chars()
            .map(|c| if c.is_ascii_lowercase() { c.to_ascii_uppercase() } else { c })
            .collect();
        let insensitive = SearchType::MatchBegining(key.to_string());
        let folded = SearchType::MatchBegining(folded_key);
        assert_eq!(insensitive.matches(input, false), folded.matches(&folded_input, true));
    }
}

#[test]
fn search_options_new_is_substring_search() {
    let opts = SearchOptions::new(file_at("/srv"), "key".to_string());
    assert_eq!(opts.depth, 6);
    assert_eq!(opts.max_finds, 100);
    assert!(opts.case_sensitive);
    assert!(opts.filter.files && opts.filter.dirs && !opts.filter.links);
    assert!(matches!(opts.search_type, SearchType::MatchMiddle(ref k) if k == "key"));
}
