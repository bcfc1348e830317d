use nebula::completions::matcher::{CandidateMatcher, IgnoreCaseExt};
use nebula::completions::options::{CompletionOptions, CompletionSort, InvalidMatchAlgorithm, MatchAlgorithm};

#[test]
fn prefix_match() {
    let opts = CompletionOptions { match_algorithm: MatchAlgorithm::Prefix, ..Default::default() };
    let mut m = CandidateMatcher::new("examp", &opts, true);
    assert!(m.add("example text", "example text"));
    assert!(!m.add("text", "text"));
    let results: Vec<_> = m.results().iter().map(|r| r.0).collect();
    assert_eq!(vec!["example text"], results);
}

#[test]
fn prefix_no_match() {
    let opts = CompletionOptions { match_algorithm: MatchAlgorithm::Prefix, ..Default::default() };
    let mut m = CandidateMatcher::new("text", &opts, true);
    assert!(!m.add("example text", "example text"));
    let results: Vec<_> = m.results().iter().map(|r| r.0).collect();
    let empty: Vec<&str> = Vec::new();
    assert_eq!(empty, results);
}

#[test]
fn substring_match() {
    let opts =
        CompletionOptions { match_algorithm: MatchAlgorithm::Substring, ..Default::default() };
    let mut m = CandidateMatcher::new("text", &opts, true);
    assert!(m.add("example text", "example text"));
    let results: Vec<_> = m.results().iter().map(|r| r.0).collect();
    assert_eq!(vec!["example text"], results);
}

#[test]
fn substring_no_match() {
    let opts =
        CompletionOptions { match_algorithm: MatchAlgorithm::Substring, ..Default::default() };
    let mut m = CandidateMatcher::new("mplxt", &opts, true);
    assert!(!m.add("example text", "example text"));
}

#[test]
fn fuzzy_match() {
    let opts = CompletionOptions { match_algorithm: MatchAlgorithm::Fuzzy, ..Default::default() };
    let mut m = CandidateMatcher::new("ext", &opts, true);
    assert!(m.add("example text", "example text"));
    let results: Vec<_> = m.results().iter().map(|r| r.0).collect();
    assert_eq!(vec!["example text"], results);
}

#[test]
fn fuzzy_no_match() {
    let opts = CompletionOptions { match_algorithm: MatchAlgorithm::Fuzzy, ..Default::default() };
    let mut m = CandidateMatcher::new("mpp", &opts, true);
    assert!(!m.add("example text", "example text"));
}

#[test]
fn fuzzy_sort_by_score() {
    let opts = CompletionOptions {
        match_algorithm: MatchAlgorithm::Fuzzy,
        sort: CompletionSort::Smart,
        ..Default::default()
    };
    let mut m = CandidateMatcher::new("fob", &opts, true);
    for item in ["foo/bar", "fob", "foo bar"] {
        m.add(item, item);
    }
    let results = m.results();
    assert_eq!(3, results.len());
    // Best score first, alphabetical tie-break for equal scores
    assert_eq!("fob", results[0].0);
    assert_eq!("foo bar", results[1].0);
    assert_eq!("foo/bar", results[2].0);
}

#[test]
fn fuzzy_strip_quotes() {
    let opts = CompletionOptions { match_algorithm: MatchAlgorithm::Fuzzy, ..Default::default() };
    let mut m = CandidateMatcher::new("'love spaces' ", &opts, true);
    for item in ["'i love spaces'", "'i love spaces' so much", "'lovespaces' "] {
        m.add(item, item);
    }
    let results = m.results();
    // Only "'i love spaces' so much" should match because the query
    // includes a space after "spaces"
    assert_eq!(1, results.len());
    assert_eq!("'i love spaces' so much", results[0].0);
}

#[test]
fn match_positions_count_leading_quotes() {
    let opts =
        CompletionOptions { match_algorithm: MatchAlgorithm::Substring, ..Default::default() };
    let mut m: CandidateMatcher<()> = CandidateMatcher::new("love", &opts, true);
    assert_eq!(Some(vec![3, 4, 5, 6]), m.check_match("'i love spaces'"));
    assert_eq!(None, m.check_match("'i like spaces'"));
}

#[test]
fn match_positions_count_graphemes() {
    let opts =
        CompletionOptions { match_algorithm: MatchAlgorithm::Substring, ..Default::default() };
    let mut m: CandidateMatcher<()> = CandidateMatcher::new("b", &opts, true);
    // The accented letter is two characters but one cluster.
    assert_eq!(Some(vec![1]), m.check_match("e\u{301}b"));
}

#[test]
fn fuzzy_positions_are_the_matched_characters() {
    let opts = CompletionOptions { match_algorithm: MatchAlgorithm::Fuzzy, ..Default::default() };
    let mut m: CandidateMatcher<()> = CandidateMatcher::new("gco", &opts, true);
    assert_eq!(Some(vec![0, 4, 9]), m.check_match("git checkout"));
}

#[test]
fn case_folding_is_unicode_aware() {
    let opts = CompletionOptions {
        case_sensitive: false,
        match_algorithm: MatchAlgorithm::Prefix,
        ..Default::default()
    };
    let mut m = CandidateMatcher::new("STRASSE", &opts, true);
    assert!(m.add("stra\u{df}e 5", 1));
    assert!(!m.add("gasse", 2));
    assert_eq!("strasse", "Stra\u{df}e".to_folded_case());
    assert!("MASSE".eq_ignore_case("Ma\u{df}e"));
    assert!(!"MASSE".eq_ignore_case("Mase"));
}

#[test]
fn sorting_is_stable_and_keeps_every_match() {
    let opts = CompletionOptions { case_sensitive: false, ..Default::default() };
    let mut m = CandidateMatcher::new("", &opts, true);
    for (name, tag) in [("b", 1), ("A", 2), ("a", 3), ("b", 4), ("B", 5)] {
        assert!(m.add(name, tag));
    }
    let tags: Vec<i32> = m.results().into_iter().map(|r| r.0).collect();
    assert_eq!(vec![2, 3, 5, 1, 4], tags);
}

#[test]
fn unsorted_results_keep_the_order_of_adding() {
    let opts = CompletionOptions::default();
    let mut m = CandidateMatcher::new("", &opts, false);
    for name in ["c", "a", "b"] {
        m.add(name, name);
    }
    let names: Vec<&str> = m.results().into_iter().map(|r| r.0).collect();
    assert_eq!(vec!["c", "a", "b"], names);
}

#[test]
fn what_matches_as_prefix_matches_as_substring() {
    let prefix = CompletionOptions::default();
    let substring =
        CompletionOptions { match_algorithm: MatchAlgorithm::Substring, ..Default::default() };
    let mut p: CandidateMatcher<()> = CandidateMatcher::new("git sw", &prefix, true);
    let mut s: CandidateMatcher<()> = CandidateMatcher::new("git sw", &substring, true);
    assert_eq!(Some(vec![0, 1, 2, 3, 4, 5]), p.check_match("git switch"));
    assert_eq!(p.check_match("git switch"), s.check_match("git switch"));
}

#[test]
fn match_algorithm_names() {
    assert_eq!(Ok(MatchAlgorithm::Prefix), MatchAlgorithm::try_from("prefix".to_string()));
    assert_eq!(Ok(MatchAlgorithm::Substring), MatchAlgorithm::try_from("substring".to_string()));
    assert_eq!(Ok(MatchAlgorithm::Fuzzy), MatchAlgorithm::try_from("fuzzy".to_string()));
    let err = MatchAlgorithm::try_from("Fuzzy".to_string()).unwrap_err();
    assert_eq!(InvalidMatchAlgorithm::Unknown, err);
    assert_eq!("unknown match algorithm", err.message());
}
