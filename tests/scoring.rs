use scout::score::{score, score_label};
use scout::text::normalize;

#[test]
fn score_rewards_early_tight_matches() {
    // 'c' at 0 earns 10 and moves the cursor to 1; 'r' at 2 is one place
    // after the cursor and earns 9.
    assert_eq!(score("chrome", "cr"), 19);
    // 'r' at 2 earns 8 and moves the cursor to 3; 'o' at 3 earns 10.
    assert_eq!(score("chrome", "ro"), 18);
}

#[test]
fn score_is_order_sensitive() {
    // 'c' at 0 earns 10; 'e' at 5 is four places after the cursor and earns 6.
    assert_eq!(score("chrome", "ce"), 16);
    // 'r' at 2 earns 8, then 'c' is not found after the cursor and earns nothing.
    assert_eq!(score("chrome", "rc"), 8);
}

#[test]
fn score_missing_char_does_not_stop_scoring() {
    // 'x' is absent: 0 points, cursor unchanged, then 'h' at 1 earns 9.
    assert_eq!(score("chrome", "xh"), 9);
    assert_eq!(score("chrome", "zzz"), 0);
}

#[test]
fn score_far_match_earns_nothing() {
    assert_eq!(score("abcdefghijklmnop", "p"), 0);
    assert_eq!(score("abcdefghijk", "j"), 1);
}

#[test]
fn score_empty_inputs() {
    assert_eq!(score("chrome", ""), 0);
    assert_eq!(score("", "abc"), 0);
}

#[test]
fn ranking_normalises_the_label() {
    assert_eq!(score_label("Google Chrome", "gc"), 10 + 5);
    assert_eq!(score_label("Fire Fox", "ff"), 10 + 7);
}

#[test]
fn normalize_lowercases_and_strips_white_space() {
    assert_eq!(normalize(" Fire\tFox \n"), "firefox");
    assert_eq!(normalize(""), "");
    assert_eq!(normalize("ÄB C"), "äbc");
}
