use lolcate::config::TypesMap;
use lolcate::query::{
    all_hit, any_or_none, basename_pattern, build_query, build_regex, compile_all, compile_pattern,
    database_state, full_path_pattern, hits, line_passes, lookup_database, query_patterns,
    select_lines, type_patterns, MatchMode, Pattern, QueryError, RegexPredicate,
};
use lolcate::run::{lookup_databases, update_databases, Outcome};

fn strings(items: &[&str]) -> Vec<String> {
    items.iter().map(|s| String::from(*s)).collect()
}

fn sample_types() -> TypesMap {
    let mut types = TypesMap::new();
    types.insert(String::from("img"), String::from(r".*\.(jpg|png)$"));
    types.insert(String::from("doc"), String::from(r".*\.(pdf|txt)$"));
    types
}

fn compiled(pattern: &str) -> RegexPredicate {
    build_regex(pattern, false).unwrap()
}

#[test]
fn smart_case_lower_matches_both() {
    let re = compiled("readme");
    assert!(re.is_match("README.md"));
    assert!(re.is_match("readme.md"));
}

#[test]
fn smart_case_upper_matches_only_upper() {
    let re = compiled("README");
    assert!(re.is_match("README.md"));
    assert!(!re.is_match("readme.md"));
}

#[test]
fn ignore_case_overrides_smart_case() {
    let re = build_regex("README", true).unwrap();
    assert!(re.is_match("README.md"));
    assert!(re.is_match("readme.md"));
}

#[test]
fn smart_case_is_decided_by_the_pattern() {
    assert!(full_path_pattern("readme", false).case_insensitive);
    assert!(!full_path_pattern("Readme", false).case_insensitive);
    assert!(full_path_pattern("Readme", true).case_insensitive);
    assert!(full_path_pattern("", false).case_insensitive);
    assert_eq!(full_path_pattern("a.b", false).source, "a.b");
    assert_eq!(full_path_pattern("a.b", false).mode, MatchMode::FullPath);
}

#[test]
fn basename_pattern_is_tied_to_the_last_segment() {
    let pattern = basename_pattern("foo", false);
    assert_eq!(pattern.source, "/[^/]*foo[^/]*$");
    assert!(pattern.case_insensitive);
    assert_eq!(pattern.mode, MatchMode::Basename);
    assert!(!basename_pattern("Foo", false).case_insensitive);
    assert!(basename_pattern("Foo", true).case_insensitive);
}

#[test]
fn basename_anchoring() {
    let re = compile_pattern(&basename_pattern("foo", false)).unwrap();
    assert!(re.is_match("/a/b/foobar.txt"));
    assert!(!re.is_match("/a/foo/bar.txt"));
    assert!(re.is_match("/a/foo/xfoo"));
    assert!(re.is_match("/foo"));
}

#[test]
fn compiled_predicate_remembers_its_pattern() {
    let re = compile_pattern(&basename_pattern("Foo", false)).unwrap();
    let pattern = re.pattern();
    assert_eq!(pattern.source, "/[^/]*Foo[^/]*$");
    assert!(!pattern.case_insensitive);
    assert_eq!(pattern.mode, MatchMode::Basename);
}

#[test]
fn invalid_pattern_is_reported() {
    let outcome = build_regex("foo(bar", false);
    assert!(matches!(outcome, Err(QueryError::InvalidRegex(_))));
    let outcome = compile_pattern(&basename_pattern("[", false));
    assert!(matches!(outcome, Err(QueryError::InvalidRegex(_))));
}

#[test]
fn invalid_pattern_fails_the_whole_query() {
    let patterns = vec![
        full_path_pattern("a", false),
        full_path_pattern("(", false),
        full_path_pattern("b", false),
    ];
    assert!(matches!(compile_all(&patterns), Err(QueryError::InvalidRegex(_))));
    let outcome = build_query("", &sample_types(), &strings(&["ok", "*"]), &strings(&[]), false);
    assert!(matches!(outcome, Err(QueryError::InvalidRegex(_))));
    let outcome = build_query("", &sample_types(), &strings(&[]), &strings(&["("]), false);
    assert!(matches!(outcome, Err(QueryError::InvalidRegex(_))));
    let mut types = TypesMap::new();
    types.insert(String::from("bad"), String::from("("));
    let outcome = build_query("bad", &types, &strings(&[]), &strings(&[]), false);
    assert!(matches!(outcome, Err(QueryError::InvalidRegex(_))));
    let outcome = build_query("good", &types, &strings(&[]), &strings(&[]), false);
    assert!(outcome.is_ok());
}

#[test]
fn compile_all_keeps_the_order() {
    let patterns = vec![full_path_pattern("b", false), basename_pattern("A", false)];
    let compiled = compile_all(&patterns).unwrap();
    assert_eq!(compiled.len(), 2);
    assert_eq!(compiled[0].pattern().source, "b");
    assert_eq!(compiled[1].pattern().source, "/[^/]*A[^/]*$");
    assert!(compile_all(&vec![]).unwrap().is_empty());
}

#[test]
fn type_names_are_looked_up() {
    let types = sample_types();
    let wanted = type_patterns("img,doc", &types);
    assert_eq!(wanted.len(), 2);
    assert_eq!(wanted[0].source, r".*\.(jpg|png)$");
    assert_eq!(wanted[1].source, r".*\.(pdf|txt)$");
    assert!(!wanted[0].case_insensitive);
    assert_eq!(wanted[0].mode, MatchMode::FullPath);
    let wanted = type_patterns("doc,video,img,", &types);
    assert_eq!(wanted.len(), 2);
    assert_eq!(wanted[0].source, r".*\.(pdf|txt)$");
    assert_eq!(wanted[1].source, r".*\.(jpg|png)$");
    assert!(type_patterns("", &types).is_empty());
    assert!(type_patterns("video", &types).is_empty());
    assert!(type_patterns("IMG", &types).is_empty());
}

#[test]
fn patterns_come_before_basename_patterns() {
    let wanted = query_patterns(&strings(&["a", "B"]), &strings(&["c"]), false);
    let sources: Vec<&str> = wanted.iter().map(|p| p.source.as_str()).collect();
    assert_eq!(sources, vec!["a", "B", "/[^/]*c[^/]*$"]);
    let modes: Vec<MatchMode> = wanted.iter().map(|p| p.mode).collect();
    assert_eq!(modes, vec![MatchMode::FullPath, MatchMode::FullPath, MatchMode::Basename]);
    let folded: Vec<bool> = wanted.iter().map(|p| p.case_insensitive).collect();
    assert_eq!(folded, vec![true, false, true]);
}

#[test]
fn type_filter_returns_only_matching_paths() {
    let mut types = TypesMap::new();
    types.insert(String::from("img"), String::from(r".*\.(jpg|png)$"));
    let index = "/p/a.jpg\n/p/b.txt\n/p/c.png\n/p/d.PNG\n/p/jpg\n/p/e.jpg.bak\n";
    let query = build_query("img", &types, &strings(&[]), &strings(&[]), false).unwrap();
    assert_eq!(
        lookup_database(index, &query.patterns, &query.types),
        strings(&["/p/a.jpg", "/p/c.png"])
    );
    let query = build_query("img", &types, &strings(&["p"]), &strings(&["c"]), false).unwrap();
    assert_eq!(lookup_database(index, &query.patterns, &query.types), strings(&["/p/c.png"]));
    let query = build_query("img", &types, &strings(&["txt"]), &strings(&[]), false).unwrap();
    assert_eq!(lookup_database(index, &query.patterns, &query.types), strings(&[]));
}

#[test]
fn types_are_alternatives_and_patterns_are_conditions() {
    let index = "/p/a.jpg\n/p/b.txt\n/q/c.png\n/q/d.pdf\n/q/e.mp3\n";
    let query =
        build_query("img,doc", &sample_types(), &strings(&[]), &strings(&[]), false).unwrap();
    assert_eq!(
        lookup_database(index, &query.patterns, &query.types),
        strings(&["/p/a.jpg", "/p/b.txt", "/q/c.png", "/q/d.pdf"])
    );
    let query =
        build_query("img,doc", &sample_types(), &strings(&["/q/", "d"]), &strings(&[]), false)
            .unwrap();
    assert_eq!(lookup_database(index, &query.patterns, &query.types), strings(&["/q/d.pdf"]));
}

#[test]
fn unknown_type_leaves_the_types_out() {
    let index = "/p/a.jpg\n/p/b.txt\n";
    let query =
        build_query("video", &sample_types(), &strings(&[]), &strings(&[]), false).unwrap();
    assert!(query.types.is_empty());
    assert_eq!(
        lookup_database(index, &query.patterns, &query.types),
        strings(&["/p/a.jpg", "/p/b.txt"])
    );
}

#[test]
fn match_everything_returns_every_path_once_in_order() {
    let index = "/b\n/a\n/c/d e\n/a\n";
    for pattern in ["", ".*", "^"] {
        let query =
            build_query("", &sample_types(), &strings(&[pattern]), &strings(&[]), false).unwrap();
        assert_eq!(
            lookup_database(index, &query.patterns, &query.types),
            strings(&["/b", "/a", "/c/d e", "/a"])
        );
    }
    let query = build_query("", &sample_types(), &strings(&[]), &strings(&[]), false).unwrap();
    assert_eq!(
        lookup_database(index, &query.patterns, &query.types),
        strings(&["/b", "/a", "/c/d e", "/a"])
    );
}

#[test]
fn query_of_an_empty_index_finds_nothing() {
    let query = build_query("", &sample_types(), &strings(&["a"]), &strings(&[]), false).unwrap();
    assert_eq!(lookup_database("", &query.patterns, &query.types), strings(&[]));
}

#[test]
fn lines_are_selected_in_order() {
    let lines = strings(&["/x/Readme", "/x/other", "/y/readme.txt", "/readme/z"]);
    let patterns = vec![compile_pattern(&basename_pattern("readme", false)).unwrap()];
    assert_eq!(
        select_lines(&lines, &patterns, &vec![]),
        strings(&["/x/Readme", "/y/readme.txt"])
    );
    assert!(line_passes("/x/Readme", &patterns, &vec![]));
    assert!(!line_passes("/readme/z", &patterns, &vec![]));
    assert!(line_passes("/anything", &vec![], &vec![]));
}

#[test]
fn hits_of_each_expression() {
    let predicates = vec![compiled("a"), compiled("b"), compiled("C")];
    assert_eq!(hits(&predicates, "xAx"), vec![true, false, false]);
    assert_eq!(hits(&predicates, "bc"), vec![false, true, false]);
    assert_eq!(hits(&predicates, "abC"), vec![true, true, true]);
    assert_eq!(hits(&vec![], "abC"), Vec::<bool>::new());
}

#[test]
fn one_hit_among_alternatives_is_enough() {
    assert!(any_or_none(&vec![]));
    assert!(any_or_none(&vec![false, true, false]));
    assert!(any_or_none(&vec![true]));
    assert!(!any_or_none(&vec![false]));
    assert!(!any_or_none(&vec![false, false]));
}

#[test]
fn every_condition_has_to_hit() {
    assert!(all_hit(&vec![]));
    assert!(all_hit(&vec![true, true]));
    assert!(!all_hit(&vec![true, false]));
    assert!(!all_hit(&vec![false]));
}

#[test]
fn missing_database_is_not_an_empty_one() {
    assert_eq!(database_state(false, None), Err(QueryError::DoesNotExist));
    assert_eq!(database_state(false, Some(0)), Err(QueryError::DoesNotExist));
    assert_eq!(database_state(false, Some(10)), Err(QueryError::DoesNotExist));
    assert_eq!(database_state(true, None), Err(QueryError::Empty));
    assert_eq!(database_state(true, Some(0)), Err(QueryError::Empty));
    assert_eq!(database_state(true, Some(1)), Ok(()));
    assert_eq!(database_state(true, Some(u64::MAX)), Ok(()));
}

#[test]
fn query_diagnostics_tell_missing_from_empty() {
    let missing = QueryError::DoesNotExist.message("work");
    let empty = QueryError::Empty.message("work");
    assert_eq!(
        missing,
        "Database work doesn't exist. Perhaps you forgot to run lolcate --create work ?"
    );
    assert_eq!(empty, "Database work is empty. Perhaps you forgot to run lolcate --update work ?");
    assert_ne!(missing, empty);
    assert_eq!(
        QueryError::InvalidRegex(String::from("unclosed group")).message("work"),
        "Invalid regex: unclosed group"
    );
}

#[test]
fn pattern_can_be_written_by_hand() {
    let pattern = Pattern {
        source: String::from("^/ETC/"),
        case_insensitive: true,
        mode: MatchMode::FullPath,
    };
    let re = compile_pattern(&pattern).unwrap();
    assert!(re.is_match("/etc/passwd"));
    assert!(!re.is_match("/usr/etc/passwd"));
}

#[test]
fn update_goes_on_after_a_failure() {
    let mut run = update_databases(strings(&["a", "b", "c"]));
    assert_eq!(run.current(), Some(&String::from("a")));
    run.record(Outcome::Done);
    assert_eq!(run.current(), Some(&String::from("b")));
    run.record(Outcome::Failed);
    assert_eq!(run.current(), Some(&String::from("c")));
    assert!(!run.succeeded());
    run.record(Outcome::Done);
    assert_eq!(run.current(), None);
    assert!(!run.succeeded());
    run.record(Outcome::Done);
    assert_eq!(run.current(), None);
}

#[test]
fn update_ends_at_a_fatal_outcome() {
    let mut run = update_databases(strings(&["a", "b"]));
    run.record(Outcome::Fatal);
    assert_eq!(run.current(), None);
    assert!(!run.succeeded());
}

#[test]
fn update_of_all_succeeds() {
    let mut run = update_databases(strings(&["a", "b"]));
    assert!(run.succeeded());
    run.record(Outcome::Done);
    run.record(Outcome::Done);
    assert_eq!(run.current(), None);
    assert!(run.succeeded());
    let run = update_databases(strings(&[]));
    assert_eq!(run.current(), None);
    assert!(run.succeeded());
}

#[test]
fn query_ends_at_the_first_failure() {
    let mut run = lookup_databases(strings(&["a", "b", "c"]));
    assert_eq!(run.current(), Some(&String::from("a")));
    run.record(Outcome::Done);
    assert_eq!(run.current(), Some(&String::from("b")));
    run.record(Outcome::Failed);
    assert_eq!(run.current(), None);
    assert!(!run.succeeded());
    let mut run = lookup_databases(strings(&["a", "b"]));
    run.record(Outcome::Fatal);
    assert_eq!(run.current(), None);
    assert!(!run.succeeded());
}

#[test]
fn smart_case_looks_for_the_letters_a_to_z_only() {
    let re = compiled("école");
    assert!(re.is_match("/x/École.txt"));
    let re = compiled("École");
    assert!(re.is_match("/x/école.txt"));
    assert!(full_path_pattern("École", false).case_insensitive);
    assert!(!full_path_pattern("Ecole", false).case_insensitive);
}

#[test]
fn expression_matches_anywhere_in_the_line() {
    let re = compiled("b/c");
    assert!(re.is_match("/a/b/c/d"));
    assert!(!re.is_match("/a/b-c/d"));
    let re = compiled("^/a");
    assert!(re.is_match("/a/b"));
    assert!(!re.is_match("/x/a"));
}

#[test]
fn type_expression_is_matched_with_regard_to_case() {
    let mut types = TypesMap::new();
    types.insert(String::from("img"), String::from("png$"));
    let query = build_query("img", &types, &strings(&[]), &strings(&[]), true).unwrap();
    assert!(line_passes("/a.png", &query.patterns, &query.types));
    assert!(!line_passes("/a.PNG", &query.patterns, &query.types));
}
