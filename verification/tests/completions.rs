use nebula::completions::completer::Completer;
use nebula::completions::directory::DirectoryCompletion;
use nebula::completions::escape::{escape_path, reads_as_number};
use nebula::completions::file::{DirEntry, DirKey, DirListing, DirSnapshot, MatchedPart, PathBuiltFromString};
use nebula::completions::item::{collapse_ndots, complete_item, complete_item_from, FirstComponent};
use nebula::completions::options::{CompletionOptions, MatchAlgorithm};
use nebula::completions::path::{expand_ndots, surround_remove, PathStyle};
use nebula::completions::span::Span;
use nebula::completions::static_completion::StaticCompletion;

fn entry(name: &str, is_dir: bool) -> DirEntry {
    DirEntry { name: name.to_string(), is_dir }
}

fn key(cwd: &str, parts: &[&str]) -> DirKey {
    DirKey { cwd: cwd.to_string(), parts: parts.iter().map(|s| s.to_string()).collect() }
}

fn tree() -> DirSnapshot {
    DirSnapshot {
        listings: vec![
            DirListing {
                key: key("/w", &[]),
                entries: Some(vec![
                    entry("src", true),
                    entry("script.sh", false),
                    entry("docs", true),
                    entry(".git", true),
                ]),
            },
            DirListing {
                key: key("/w", &["src"]),
                entries: Some(vec![entry("main.rs", false), entry("my mod", true)]),
            },
        ],
    }
}

fn complete(want_directory: bool, partial: &str) -> Result<Vec<String>, DirKey> {
    complete_item(
        want_directory,
        Span::new(0, partial.len()),
        partial,
        &vec!["/w".to_string()],
        &CompletionOptions::default(),
        false,
        None,
        PathStyle::Unix,
        None,
        &tree(),
    )
    .map(|v| v.into_iter().map(|s| s.path).collect())
}

#[test]
fn paths_complete_from_the_directory() {
    assert_eq!(complete(false, "s").unwrap(), vec!["script.sh", "src/"]);
    assert_eq!(complete(true, "s").unwrap(), vec!["src/"]);
    assert_eq!(complete(false, "src/m").unwrap().len(), 2);
    assert!(complete(false, "zzz").unwrap().is_empty());
}

#[test]
fn paths_with_blanks_are_quoted() {
    let found = complete(true, "src/my").unwrap();
    assert_eq!(found, vec!["`src/my mod/`"]);
}

#[test]
fn unread_directories_are_requested() {
    let missing = complete(false, "docs/x").unwrap_err();
    assert_eq!(missing.cwd, "/w");
    assert_eq!(missing.parts, vec!["docs".to_string()]);
}

#[test]
fn given_first_components_decide_the_base() {
    let snapshot = DirSnapshot {
        listings: vec![DirListing { key: key("/", &[]), entries: Some(vec![entry("etc", true)]) }],
    };
    let found = complete_item_from(
        false,
        Span::new(0, 2),
        "/e",
        &vec!["/w".to_string()],
        &CompletionOptions::default(),
        false,
        None,
        PathStyle::Unix,
        None,
        FirstComponent::RootDir,
        &snapshot,
    );
    match found {
        Ok(v) => assert_eq!(v[0].path, "/etc/"),
        Err(k) => panic!("{} {:?}", k.cwd, k.parts),
    }
}

#[test]
fn directories_with_a_dot_come_last() {
    let mut completer = DirectoryCompletion;
    let found = completer
        .fetch(
            "/w",
            "",
            Span::new(0, 0),
            0,
            &CompletionOptions::default(),
            PathStyle::Unix,
            None,
            &tree(),
        )
        .ok()
        .unwrap();
    let values: Vec<&str> = found.iter().map(|s| s.suggestion.value.as_str()).collect();
    assert_eq!(values, vec!["docs/", "src/", ".git/"]);
}

#[test]
fn static_lists_are_filtered() {
    let mut completer = StaticCompletion::from_static(&["alpha", "beta", "alto"]);
    let found = completer.fetch("/w", "al", Span::new(0, 2), 0, &CompletionOptions::default());
    let values: Vec<&str> = found.iter().map(|s| s.suggestion.value.as_str()).collect();
    assert_eq!(values, vec!["alpha", "alto"]);
    assert_eq!(found[0].suggestion.span, Span::new(0, 2));
    let all = completer.fetch("/w", "", Span::new(0, 0), 0, &CompletionOptions::default());
    assert_eq!(all.len(), 3);
}

#[test]
fn dots_expand_and_collapse() {
    assert_eq!(expand_ndots(".../a", '/'), "../../a");
    assert_eq!(expand_ndots("a/....", '/'), "a/../../..");
    assert_eq!(expand_ndots("../a", '/'), "../a");
    let part = |s: &str| MatchedPart { text: s.to_string(), match_indices: vec![] };
    let path = PathBuiltFromString {
        cwd: String::new(),
        parts: vec![part(".."), part(".."), part("a")],
        isdir: false,
    };
    let texts: Vec<String> = collapse_ndots(path).parts.into_iter().map(|p| p.text).collect();
    assert_eq!(texts, vec!["...", "a"]);
}

#[test]
fn quotes_are_stripped_from_what_is_typed() {
    assert_eq!(surround_remove("`my dir/`x", PathStyle::Unix), "my dir/x");
    assert_eq!(surround_remove("`my dir`", PathStyle::Unix), "my dir");
    assert_eq!(surround_remove("`a b`", PathStyle::Windows), "a b");
    assert_eq!(surround_remove("'it`s'", PathStyle::Unix), "it`s");
    assert_eq!(surround_remove("`", PathStyle::Unix), "");
    assert_eq!(surround_remove("plain", PathStyle::Unix), "plain");
    assert_eq!(surround_remove("\"open", PathStyle::Unix), "open");
}

#[test]
fn escaping_keeps_plain_paths() {
    assert_eq!(escape_path("src/main.rs", None), None);
    assert_eq!(escape_path("my dir", None).as_deref(), Some("`my dir`"));
    assert_eq!(escape_path("a`b c", None).as_deref(), Some("'a`b c'"));
    assert_eq!(escape_path("it's*", None).as_deref(), Some("\"it's*\""));
    assert_eq!(escape_path("~/a*", Some("/home/u")).as_deref(), Some("'/home/u/a*'"));
}

#[test]
fn numbers_are_escaped() {
    assert!(reads_as_number("42"));
    assert!(reads_as_number("1e5"));
    assert!(!reads_as_number("42x"));
    assert_eq!(escape_path("42", None).as_deref(), Some("`42`"));
}

#[test]
fn spans_shift_by_the_offset() {
    assert_eq!(Span::new(2, 5).shift(2), Span::new(0, 3));
}

#[test]
fn unknown_algorithms_are_named() {
    let err = MatchAlgorithm::try_from("regex".to_string()).err().unwrap();
    assert!(!err.message().is_empty());
    assert_eq!(MatchAlgorithm::try_from("fuzzy".to_string()).ok(), Some(MatchAlgorithm::Fuzzy));
}

fn complete_at(partial: &str, cwds: &[&str], home: Option<&str>, dirs: &DirSnapshot) -> Vec<String> {
    let cwds: Vec<String> = cwds.iter().map(|c| c.to_string()).collect();
    complete_item(
        false,
        Span::new(0, partial.len()),
        partial,
        &cwds,
        &CompletionOptions::default(),
        false,
        None,
        PathStyle::Unix,
        home,
        dirs,
    )
    .unwrap()
    .into_iter()
    .map(|s| s.path)
    .collect()
}

#[test]
fn roots_and_homes_are_recognised() {
    let dirs = DirSnapshot {
        listings: vec![
            DirListing { key: key("/", &[]), entries: Some(vec![entry("etc", true)]) },
            DirListing { key: key("/home/me", &[]), entries: Some(vec![entry("notes", false)]) },
            DirListing { key: key("/w", &[]), entries: Some(vec![entry("~x", false)]) },
        ],
    };
    assert_eq!(complete_at("/e", &["/w"], None, &dirs), vec!["/etc/"]);
    assert_eq!(complete_at("~/n", &["/w"], Some("/home/me"), &dirs), vec!["~/notes"]);
    assert_eq!(complete_at("~x", &["/w"], Some("/home/me"), &dirs), vec!["~x"]);
    assert!(complete_at("n", &[], Some("/home/me"), &dirs).is_empty());
}

#[test]
fn names_have_the_styles_of_ls_colors() {
    let dirs = DirSnapshot {
        listings: vec![DirListing {
            key: key("/w", &[]),
            entries: Some(vec![entry("a.rs", false), entry("a.txt", false)]),
        }],
    };
    let styles = |wanted: bool, env: Option<&str>| -> Vec<Option<String>> {
        complete_item(
            false,
            Span::new(0, 1),
            "a",
            &vec!["/w".to_string()],
            &CompletionOptions::default(),
            wanted,
            env,
            PathStyle::Unix,
            None,
            &dirs,
        )
        .unwrap()
        .into_iter()
        .map(|s| s.style)
        .collect()
    };
    assert_eq!(styles(true, Some("*.rs=01;31")), vec![Some("\u{1b}[1;31m".to_string()), None]);
    assert_eq!(styles(false, Some("*.rs=01;31")), vec![None, None]);
    assert_eq!(styles(true, None), vec![None, None]);
}

#[test]
fn colons_in_a_name_leave_its_style() {
    let dirs = DirSnapshot {
        listings: vec![DirListing {
            key: key("/w", &[]),
            entries: Some(vec![entry("12:30.rs", false)]),
        }],
    };
    let found = complete_item(
        false,
        Span::new(0, 2),
        "12",
        &vec!["/w".to_string()],
        &CompletionOptions::default(),
        true,
        Some("*.rs=01;31"),
        PathStyle::Unix,
        None,
        &dirs,
    )
    .unwrap();
    assert_eq!(found[0].style.as_deref(), Some("\u{1b}[1;31m"));
}

#[test]
fn long_paths_of_short_components_are_matched() {
    let deep = "d/".repeat(1500);
    let mut parts: Vec<&str> = Vec::new();
    let mut listings = Vec::new();
    for _ in 0..1500 {
        listings.push(DirListing { key: key("/w", &parts), entries: Some(vec![entry("d", true)]) });
        parts.push("d");
    }
    listings.push(DirListing { key: key("/w", &parts), entries: Some(vec![entry("file", false)]) });
    let options = CompletionOptions {
        match_algorithm: MatchAlgorithm::Fuzzy,
        ..CompletionOptions::default()
    };
    let found = complete_item(
        false,
        Span::new(0, deep.len() + 2),
        &format!("{deep}fl"),
        &vec!["/w".to_string()],
        &options,
        false,
        None,
        PathStyle::Unix,
        None,
        &DirSnapshot { listings },
    )
    .unwrap();
    assert_eq!(found.len(), 1);
    assert_eq!(found[0].path, format!("{deep}file"));
}

#[test]
fn collapsed_dots_expand_again() {
    let parts = ["..", "..", "a", "..", "..", ".."];
    let built = PathBuiltFromString {
        cwd: "/w".to_string(),
        parts: parts
            .iter()
            .map(|t| MatchedPart { text: t.to_string(), match_indices: vec![] })
            .collect(),
        isdir: true,
    };
    let shown: Vec<String> = collapse_ndots(built).parts.into_iter().map(|p| p.text).collect();
    assert_eq!(shown, ["...", "a", "...."]);
    assert_eq!(expand_ndots(&shown.join("/"), '/'), parts.join("/"));
}
