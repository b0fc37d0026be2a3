use session_selector::matcher::{fold_char_exec, match_list, match_positions, MatchResult};

fn chars(s: &str) -> Vec<char> {
    s.chars().collect()
}

fn labels(list: &[&str]) -> Vec<Vec<char>> {
    list.iter().map(|s| chars(s)).collect()
}

#[test]
fn fold_char_lowers_ascii_uppercase_only() {
    assert_eq!(fold_char_exec('A'), 'a');
    assert_eq!(fold_char_exec('Z'), 'z');
    assert_eq!(fold_char_exec('a'), 'a');
    assert_eq!(fold_char_exec('/'), '/');
    assert_eq!(fold_char_exec('~'), '~');
    assert_eq!(fold_char_exec('é'), 'é');
}

#[test]
fn match_positions_greedy_from_left() {
    let p = chars("pa");
    let l = chars("~/proj-a");
    let positions = match_positions(&p, &l).expect("pattern should match");
    assert_eq!(positions, vec![2, 7]);
}

#[test]
fn match_positions_case_insensitive() {
    let p = chars("PA");
    let l = chars("~/proj-a");
    let positions = match_positions(&p, &l).expect("pattern should match despite case");
    assert_eq!(positions, vec![2, 7]);
}

#[test]
fn match_positions_rejects_out_of_order() {
    let p = chars("ap");
    let l = chars("~/proj-b");
    assert!(match_positions(&p, &l).is_none());
}

// Every result's matched positions form a valid in-order subsequence of the
// pattern within its label, case-insensitively.
#[test]
fn results_carry_valid_subsequence_witnesses() {
    let ls = labels(&["~/Projects/Alpha", "~/work/beta-site", "~/blog"]);
    let p = chars("al");
    let results = match_list(&p, &ls);
    assert!(!results.is_empty());
    for m in &results {
        let label = &ls[m.candidate_index];
        let pos = &m.matched_positions;
        assert_eq!(pos.len(), p.len());
        for k in 0..pos.len() {
            assert!(pos[k] < label.len());
            if k > 0 {
                assert!(pos[k - 1] < pos[k]);
            }
            assert_eq!(
                fold_char_exec(label[pos[k]]),
                fold_char_exec(p[k]),
            );
        }
    }
}

// An empty pattern matches every candidate in original order with score zero.
#[test]
fn empty_pattern_is_identity() {
    let ls = labels(&["~/one", "~/two", "~/three", "~/four"]);
    let p = chars("");
    let results = match_list(&p, &ls);
    assert_eq!(results.len(), 4);
    for (i, m) in results.iter().enumerate() {
        assert_eq!(m.candidate_index, i);
        assert_eq!(m.score, 0);
        assert!(m.matched_positions.is_empty());
    }
}

// Re-running the matcher on unchanged inputs yields an identical ranking.
#[test]
fn ranking_is_deterministic() {
    let ls = labels(&["~/proj-a", "~/proj-b", "~/dotfiles", "~/Pictures/art"]);
    let p = chars("pa");
    let first = match_list(&p, &ls);
    let second = match_list(&p, &ls);
    assert_eq!(first, second);
}

// Every label matching an extended pattern also matches the original pattern.
#[test]
fn refinement_is_monotonic() {
    let ls = labels(&["~/proj-a", "~/proj-b", "~/parrot", "~/blog", "~/Pastures"]);
    let p1 = chars("pa");
    let p2 = chars("par");
    let coarse: Vec<usize> = match_list(&p1, &ls).iter().map(|m| m.candidate_index).collect();
    let fine = match_list(&p2, &ls);
    for m in &fine {
        assert!(coarse.contains(&m.candidate_index));
    }
}

#[test]
fn ranking_is_sorted_by_score_then_original_order() {
    let ls = labels(&["~/abc", "~/a-b-c", "~/xaxbxc", "~/abcabc"]);
    let p = chars("abc");
    let results = match_list(&p, &ls);
    assert_eq!(results.len(), 4);
    for w in results.windows(2) {
        let (a, b) = (&w[0], &w[1]);
        assert!(a.score > b.score || (a.score == b.score && a.candidate_index < b.candidate_index));
    }
    // the contiguous match outranks the scattered one of the same length
    let rank_of = |i: usize| results.iter().position(|m| m.candidate_index == i).unwrap();
    assert!(rank_of(0) < rank_of(2));
}

#[test]
fn equal_scores_keep_original_order() {
    let ls = labels(&["~/proj-one", "~/proj-two"]);
    let p = chars("proj");
    let results = match_list(&p, &ls);
    assert_eq!(results.len(), 2);
    assert_eq!(results[0].score, results[1].score);
    assert_eq!(results[0].candidate_index, 0);
    assert_eq!(results[1].candidate_index, 1);
}

#[test]
fn shorter_label_ranks_first_for_equal_rewards() {
    let ls = labels(&["~/projects/thing", "~/proj"]);
    let p = chars("pro");
    let results = match_list(&p, &ls);
    assert_eq!(results.len(), 2);
    assert_eq!(results[0].candidate_index, 1);
}

#[test]
fn non_matching_labels_are_excluded() {
    let ls = labels(&["~/proj-a", "~/blog"]);
    let p = chars("pa");
    let results = match_list(&p, &ls);
    assert_eq!(results.len(), 1);
    assert_eq!(results[0].candidate_index, 0);
}

// Scenario: "pb" yields only proj-b; "pa" never ranks blog, and ranks proj-a
// first.
#[test]
fn project_scenario() {
    let ls = labels(&["/home/alice/proj-a", "/home/alice/proj-b", "/home/alice/blog"]);

    let pb = chars("pb");
    let results_pb = match_list(&pb, &ls);
    assert_eq!(results_pb.len(), 1);
    assert_eq!(results_pb[0].candidate_index, 1);

    let pa = chars("pa");
    let results_pa = match_list(&pa, &ls);
    assert!(results_pa.iter().all(|m| m.candidate_index != 2));
    assert_eq!(results_pa[0].candidate_index, 0);
}

#[test]
fn scores_exact_value_for_known_match() {
    // pattern "pr" on "~/proj": positions 2 and 3; the first match sits on a
    // word boundary (after '/'), the second continues the run; the label has
    // six characters. (16 + 8) + (16 + 8) - 6 = 42.
    let ls = labels(&["~/proj"]);
    let p = chars("pr");
    let results = match_list(&p, &ls);
    assert_eq!(results.len(), 1);
    assert_eq!(results[0].matched_positions, vec![2, 3]);
    assert_eq!(results[0].score, 42);
}

#[test]
fn match_result_fields_are_public() {
    let m = MatchResult { candidate_index: 3, score: -1, matched_positions: vec![0] };
    assert_eq!(m.candidate_index, 3);
    assert_eq!(m.score, -1);
}
