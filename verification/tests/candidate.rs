use sirula::candidate::Candidate;

fn cand(display: &str, search: &str) -> Candidate {
    Candidate::new(String::from(display), String::from(search), None, 0)
}

#[test]
fn update_match_scores_a_match_and_records_indices() {
    let mut c = cand("Firefox", "Firefox");
    c.update_match("fir");
    assert!(c.score > 0);
    assert_eq!(c.match_indices, vec![0, 1, 2]);
}

#[test]
fn update_match_zeroes_a_non_match() {
    let mut c = cand("Firefox", "Firefox");
    c.update_match("zzz");
    assert_eq!(c.score, 0);
    assert!(c.match_indices.is_empty());
}

#[test]
fn update_match_empty_pattern_restores_baseline() {
    let mut c = cand("Firefox", "Firefox");
    c.update_match("zzz");
    c.update_match("");
    assert_eq!(c.score, 100);
    assert!(c.match_indices.is_empty());
}

#[test]
fn matches_in_hidden_search_text_score_but_never_highlight() {
    // "browser" occurs only past the display text's four characters.
    let mut c = cand("Fire", "Fire browser");
    c.update_match("brow");
    assert!(c.score > 0);
    assert!(c.match_indices.is_empty());
}

#[test]
fn match_indices_stay_within_display_bounds() {
    let mut c = cand("Fire", "Fire browser");
    c.update_match("fib");
    assert!(c.score > 0);
    for &i in c.match_indices.iter() {
        assert!(i < 4);
    }
}

#[test]
fn match_indices_count_codepoints() {
    // The display text holds a two-byte codepoint before the matched
    // letters; indices still address whole characters.
    let mut c = cand("\u{e9}Fox", "\u{e9}Fox");
    c.update_match("fox");
    assert!(c.score > 0);
    assert_eq!(c.match_indices, vec![1, 2, 3]);
}

#[test]
fn conceal_only_zeroes_the_score() {
    let mut c = cand("Firefox", "Firefox");
    c.update_match("fir");
    let kept = c.match_indices.clone();
    c.conceal();
    assert_eq!(c.score, 0);
    assert_eq!(c.match_indices, kept);
    assert_eq!(c.display_text, "Firefox");
}

#[test]
fn new_candidate_starts_as_a_trivial_match() {
    let c = Candidate::new(String::from("Files"), String::from("Files org.gnome"), Some((2, 4)), 7);
    assert_eq!(c.score, 100);
    assert_eq!(c.highlight_range, Some((2, 4)));
    assert_eq!(c.sort_key, 7);
    assert!(c.match_indices.is_empty());
}
