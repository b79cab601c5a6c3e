use scout::rank::{rank, stays};

fn ranked(cands: Vec<(usize, &'static str)>, qlen: usize) -> Vec<(usize, bool, &'static str)> {
    rank(cands, qlen).into_iter().map(|r| (r.score, r.first, r.result)).collect()
}

#[test]
fn rank_end_to_end_threshold_scenario() {
    let out = ranked(vec![(18, "Firefox"), (5, "Files")], 2);
    assert_eq!(out, vec![(18, true, "Firefox")]);
}

#[test]
fn rank_drops_zero_scores() {
    let out = ranked(vec![(0, "a"), (3, "b"), (0, "c")], 0);
    assert_eq!(out, vec![(3, true, "b")]);
    assert!(ranked(vec![(0, "a"), (0, "b")], 0).is_empty());
}

#[test]
fn rank_threshold_is_three_quarters_of_top_exactly() {
    // top 18: 13 is below 13.5 and goes, 14 stays.
    let out = ranked(vec![(13, "low"), (18, "top"), (14, "mid")], 0);
    assert_eq!(out, vec![(18, true, "top"), (14, false, "mid")]);
    // top 20: 15 is exactly three quarters and stays.
    let out = ranked(vec![(15, "x"), (20, "y")], 0);
    assert_eq!(out, vec![(20, true, "y"), (15, false, "x")]);
}

#[test]
fn rank_length_floor_applies() {
    // Query of 4 characters: floor 20, so a best score of 19 leaves nothing.
    assert!(ranked(vec![(19, "a"), (15, "b")], 4).is_empty());
    let out = ranked(vec![(20, "a"), (19, "b")], 4);
    assert_eq!(out, vec![(20, true, "a")]);
}

#[test]
fn rank_sorts_descending_and_keeps_ties_in_order() {
    let out = ranked(vec![(10, "a"), (12, "b"), (10, "c"), (12, "d"), (11, "e")], 0);
    assert_eq!(
        out,
        vec![(12, true, "b"), (12, false, "d"), (11, false, "e"), (10, false, "a"), (10, false, "c")]
    );
}

#[test]
fn rank_marks_only_the_first() {
    let out = ranked(vec![(9, "a"), (9, "b"), (9, "c")], 1);
    let firsts: Vec<bool> = out.iter().map(|r| r.1).collect();
    assert_eq!(firsts, vec![true, false, false]);
    assert!(ranked(vec![], 3).is_empty());
}

#[test]
fn rank_handles_the_largest_scores() {
    let kept = usize::MAX / 4 * 3 + 3;
    let out = ranked(vec![(kept - 1, "c"), (usize::MAX, "a"), (kept, "b")], 0);
    assert_eq!(out, vec![(usize::MAX, true, "a"), (kept, false, "b")]);
}

#[test]
fn stays_follows_the_cut_off() {
    assert!(stays(18, 18, 2));
    assert!(!stays(5, 18, 2));
    assert!(!stays(0, 0, 0));
    assert!(stays(10, 10, 2));
    assert!(!stays(9, 10, 2));
}
