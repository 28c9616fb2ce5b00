use ffp::fileinfo::FilePath;
use ffp::filter::{
    job_candidates, run_filter, scan_candidates, scan_finish, scan_step, FileterResultEnum,
    ScanState,
};

fn chars(s: &str) -> Vec<char> {
    s.chars().collect()
}

fn store(names: &[&str]) -> Vec<FilePath> {
    let root = chars("/");
    names.iter().map(|n| FilePath::new(chars(n), &root)).collect()
}

fn subset(r: &FileterResultEnum) -> Vec<usize> {
    match r {
        FileterResultEnum::Subset(v) => v.clone(),
        _ => panic!("expected a subset result"),
    }
}

#[test]
fn empty_query_selects_everything() {
    let contents = store(&["apple.txt", "banana.txt", "grape.txt"]);
    let r = run_filter(&contents, &chars(""), &None);
    match r {
        FileterResultEnum::All(count) => assert_eq!(count, 3),
        _ => panic!("an empty query must select everything"),
    }
    assert_eq!(r.len(), 3);
}

#[test]
fn empty_content_empty_query() {
    let contents: Vec<FilePath> = Vec::new();
    let r = run_filter(&contents, &chars(""), &None);
    assert_eq!(r.len(), 0);
}

#[test]
fn query_scores_real_lines() {
    // "ap" appears in order inside "apple.txt" and "grape.txt", never in
    // "banana.txt"; the better (earlier) match ranks first.
    let contents = store(&["apple.txt", "banana.txt", "grape.txt"]);
    let r = run_filter(&contents, &chars("ap"), &None);
    assert_eq!(subset(&r), vec![0, 2]);
}

#[test]
fn single_letter_matches_all_ranked() {
    let contents = store(&["apple.txt", "banana.txt", "grape.txt"]);
    let r = run_filter(&contents, &chars("a"), &None);
    let got = subset(&r);
    assert_eq!(got.len(), 3);
    assert_eq!(got, vec![0, 1, 2]);
}

#[test]
fn non_matching_query_gives_empty_subset() {
    let contents = store(&["apple.txt", "banana.txt"]);
    let r = run_filter(&contents, &chars("zq"), &None);
    assert_eq!(subset(&r), Vec::<usize>::new());
}

#[test]
fn subsequence_matches_non_contiguously() {
    // "bn.t" is not a substring of "banana.txt" but is an ordered
    // subsequence of it.
    let contents = store(&["apple.txt", "banana.txt"]);
    let r = run_filter(&contents, &chars("bn.t"), &None);
    assert_eq!(subset(&r), vec![1]);
}

#[test]
fn smart_case_respects_capitals() {
    let contents = store(&["README.md", "readme.txt"]);
    // lower-case query: matches both, case-insensitively
    let r = run_filter(&contents, &chars("readme"), &None);
    assert_eq!(subset(&r).len(), 2);
    // capitalised query: matches only the capitalised line
    let r2 = run_filter(&contents, &chars("README"), &None);
    assert_eq!(subset(&r2), vec![0]);
}

#[test]
fn refinement_equals_full_rescan() {
    // The incremental path: scan "ap" over the survivors of "a" and compare
    // with a full rescan of "ap" over the same snapshot.
    let contents = store(&["apple.txt", "banana.txt", "grape.txt", "pear.txt", "plum.txt"]);
    let q1 = chars("a");
    let q2 = chars("ap");
    let first = run_filter(&contents, &q1, &None);
    let prev_indices = subset(&first);
    let prev = Some((q1.clone(), prev_indices));
    let refined = run_filter(&contents, &q2, &prev);
    let rescanned = run_filter(&contents, &q2, &None);
    assert_eq!(subset(&refined), subset(&rescanned));
}

#[test]
fn refinement_engages_only_for_extending_queries() {
    // A query that does not hold the previous one as a substring must ignore
    // the previous subset and rescan everything.
    let contents = store(&["apple.txt", "banana.txt", "grape.txt"]);
    let prev = Some((chars("gr"), vec![2usize]));
    let r = run_filter(&contents, &chars("ba"), &prev);
    assert_eq!(subset(&r), vec![1]);
}

#[test]
fn filter_is_deterministic() {
    let contents = store(&["alpha.rs", "beta.rs", "alphabet.rs", "gamma.rs"]);
    let q = chars("al");
    let r1 = run_filter(&contents, &q, &None);
    let r2 = run_filter(&contents, &q, &None);
    assert_eq!(subset(&r1), subset(&r2));
}

#[test]
fn scan_skips_indices_past_the_store() {
    // Candidates taken before the store was cleared may point past its end;
    // they are dropped, not crashed on.
    let contents = store(&["apple.txt"]);
    let cands: Vec<usize> = vec![0, 5, 17];
    let r = scan_candidates(&contents, &chars("a"), &cands);
    assert_eq!(r, vec![0]);
}

#[test]
fn duplicate_candidates_survive_once() {
    let contents = store(&["apple.txt", "banana.txt"]);
    let cands: Vec<usize> = vec![0, 0, 1, 0];
    let r = scan_candidates(&contents, &chars("a"), &cands);
    assert_eq!(r.len(), 2);
    assert!(r.contains(&0));
    assert!(r.contains(&1));
}

#[test]
fn result_len_by_variant() {
    assert_eq!(FileterResultEnum::All(7).len(), 7);
    assert_eq!(FileterResultEnum::Subset(vec![3, 1]).len(), 2);
    assert_eq!(FileterResultEnum::Empty.len(), 0);
}

#[test]
fn chunked_scan_matches_the_one_shot_scan() {
    // scoring slice by slice (as a cancellable job does) lands on exactly the
    // same ordered list as one uninterrupted scan
    let contents = store(&[
        "alpha.rs",
        "beta.rs",
        "alphabet.rs",
        "gamma.rs",
        "nothing.md",
        "apply.txt",
        "atlas.txt",
    ]);
    let q = chars("a");
    let cands: Vec<usize> = (0..contents.len()).collect();
    let mut state = ScanState::new();
    let mut from: usize = 0;
    while from < cands.len() {
        let (next, updated) = scan_step(&contents, &q, &cands, from, 2, state);
        from = next;
        state = updated;
    }
    let chunked = scan_finish(&state);
    let oneshot = scan_candidates(&contents, &q, &cands);
    assert_eq!(chunked, oneshot);
}

#[test]
fn job_candidates_picks_the_right_list() {
    // empty query: nothing to score
    assert!(job_candidates(5, &chars(""), &None).is_none());
    // an extending query reuses the previous survivors
    let prev = Some((chars("a"), vec![0usize, 2]));
    assert_eq!(job_candidates(5, &chars("ab"), &prev).unwrap(), vec![0, 2]);
    // any other query rescans the whole store
    assert_eq!(job_candidates(3, &chars("zz"), &prev).unwrap(), vec![0, 1, 2]);
}
