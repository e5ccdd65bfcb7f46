use try_rs::entry::{all_markers, marker_files, sort_descending, Marker, SortKey, TryEntry};
use try_rs::rank::{fuzzy_score, rank, MATCH_LIMIT};

fn entry(name: &str, modified: i128) -> TryEntry {
    TryEntry {
        name: name.to_string(),
        modified,
        created: 0,
        score: 0,
        is_git: false,
        is_mise: false,
        is_cargo: false,
        is_maven: false,
        is_flutter: false,
        is_go: false,
        is_python: false,
    }
}

fn names(entries: &[TryEntry]) -> Vec<String> {
    entries.iter().map(|e| e.name.clone()).collect()
}

#[test]
fn empty_query_keeps_every_entry_in_order() {
    let entries = vec![entry("beta", 200), entry("alpha", 100), entry("zzz", 50)];
    let view = rank(&entries, "");
    assert_eq!(names(&view), vec!["beta", "alpha", "zzz"]);
}

#[test]
fn query_keeps_subsequence_matches_only() {
    let entries = vec![entry("alpha", 3), entry("abc", 2), entry("zzz", 1)];
    let view = rank(&entries, "ab");
    // "alpha" holds no 'b', so only "abc" has the query as a subsequence.
    assert_eq!(names(&view), vec!["abc"]);
    assert_eq!(Some(view[0].score), fuzzy_score("abc", "ab"));
}

#[test]
fn contiguous_match_ranks_at_or_above_split_match() {
    let entries = vec![entry("alphabet", 3), entry("abc", 2), entry("zzz", 1)];
    let view = rank(&entries, "ab");
    let kept = names(&view);
    assert_eq!(kept.len(), 2);
    assert!(kept.contains(&"alphabet".to_string()));
    assert!(kept.contains(&"abc".to_string()));
    assert!(!kept.contains(&"zzz".to_string()));
    let abc = kept.iter().position(|n| n == "abc").unwrap();
    let alphabet = kept.iter().position(|n| n == "alphabet").unwrap();
    assert!(abc <= alphabet);
    assert!(view[0].score >= view[1].score);
}

#[test]
fn ranking_twice_changes_nothing() {
    let entries = vec![
        entry("alphabet", 5),
        entry("abc", 4),
        entry("zzz", 3),
        entry("a-b", 2),
        entry("cab", 1),
    ];
    let once = rank(&entries, "ab");
    let twice = rank(&once, "ab");
    assert_eq!(names(&once), names(&twice));
    let scores_once: Vec<i64> = once.iter().map(|e| e.score).collect();
    let scores_twice: Vec<i64> = twice.iter().map(|e| e.score).collect();
    assert_eq!(scores_once, scores_twice);
}

#[test]
fn lower_case_query_ignores_case_and_capitals_match_exactly() {
    assert!(fuzzy_score("AlphaBeta", "ab").is_some());
    assert!(fuzzy_score("alphabeta", "ab").is_some());
    assert!(fuzzy_score("alphabeta", "AB").is_none());
    assert!(fuzzy_score("AlphaBeta", "AB").is_some());
    assert!(fuzzy_score("ba", "ab").is_none());
}

#[test]
fn scores_follow_the_matcher() {
    assert_eq!(fuzzy_score("anything", ""), Some(0));
    let tight = fuzzy_score("abc", "ab").unwrap();
    let split = fuzzy_score("alpha-b", "ab").unwrap();
    assert!(tight > split);
}

#[test]
fn equal_scores_keep_their_given_order() {
    let entries = vec![entry("ab1", 1), entry("ab2", 2), entry("ab3", 3)];
    let view = rank(&entries, "ab");
    assert_eq!(names(&view), vec!["ab1", "ab2", "ab3"]);
    assert_eq!(view[0].score, view[1].score);
    assert_eq!(view[1].score, view[2].score);
}

#[test]
fn new_entry_has_no_markers_and_is_marked_one_by_one() {
    let mut e = TryEntry::new("proj".to_string(), 7, 3);
    assert_eq!(e.name, "proj");
    assert_eq!((e.modified, e.created, e.score), (7, 3, 0));
    assert!(!(e.is_git || e.is_mise || e.is_cargo || e.is_maven || e.is_flutter || e.is_go || e.is_python));
    e.mark(Marker::Cargo);
    assert!(e.is_cargo);
    assert!(!(e.is_git || e.is_mise || e.is_maven || e.is_flutter || e.is_go || e.is_python));
    e.mark(Marker::Git);
    e.mark(Marker::Mise);
    e.mark(Marker::Maven);
    e.mark(Marker::Flutter);
    e.mark(Marker::Go);
    e.mark(Marker::Python);
    assert!(e.is_git && e.is_mise && e.is_cargo && e.is_maven && e.is_flutter && e.is_go && e.is_python);
    assert_eq!(e.name, "proj");
}

#[test]
fn marker_files_are_the_well_known_ones() {
    assert_eq!(marker_files(Marker::Git), vec![".git"]);
    assert_eq!(marker_files(Marker::Mise), vec!["mise.toml"]);
    assert_eq!(marker_files(Marker::Cargo), vec!["Cargo.toml"]);
    assert_eq!(marker_files(Marker::Maven), vec!["pom.xml"]);
    assert_eq!(marker_files(Marker::Flutter), vec!["pubspec.yaml"]);
    assert_eq!(marker_files(Marker::Go), vec!["go.mod"]);
    assert_eq!(marker_files(Marker::Python), vec!["pyproject.toml", "requirements.txt"]);
    assert_eq!(
        all_markers(),
        vec![
            Marker::Git,
            Marker::Mise,
            Marker::Cargo,
            Marker::Maven,
            Marker::Flutter,
            Marker::Go,
            Marker::Python
        ]
    );
}

#[test]
fn sort_descending_is_stable_for_both_keys() {
    let mut by_time = vec![entry("a", 1), entry("b", 3), entry("c", 1), entry("d", 3), entry("e", 2)];
    sort_descending(&mut by_time, SortKey::Modified);
    assert_eq!(names(&by_time), vec!["b", "d", "e", "a", "c"]);

    let mut by_score = vec![entry("a", 0), entry("b", 0), entry("c", 0), entry("d", 0)];
    by_score[0].score = -5;
    by_score[1].score = 10;
    by_score[2].score = -5;
    by_score[3].score = i64::MAX;
    sort_descending(&mut by_score, SortKey::Score);
    assert_eq!(names(&by_score), vec!["d", "b", "a", "c"]);

    let mut none: Vec<TryEntry> = vec![];
    sort_descending(&mut none, SortKey::Score);
    assert!(none.is_empty());
}

#[test]
fn over_long_input_is_not_matched() {
    let long = "a".repeat(MATCH_LIMIT);
    assert!(fuzzy_score(&long, "a").is_none());
    assert!(fuzzy_score("a", &long).is_none());
    let fits = "a".repeat(1000);
    assert!(fuzzy_score(&fits, "a").is_some());
}
