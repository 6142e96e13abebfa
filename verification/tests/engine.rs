use sirula::candidate::Candidate;
use sirula::engine::MatchEngine;
use sirula::level::UpdateLevel;

fn cand(name: &str) -> Candidate {
    Candidate::new(String::from(name), String::from(name), None, 0)
}

fn loaded_engine() -> MatchEngine {
    let mut e = MatchEngine::new();
    e.reload(vec![cand("Firefox"), cand("GIMP"), cand("Files")]);
    e
}

#[test]
fn reload_query_clear_scenario() {
    let mut e = loaded_engine();
    assert_eq!(e.len(), 3);
    for i in 0..3 {
        assert_eq!(e.score_at(i), 100);
    }
    assert_eq!(e.consume_level(), UpdateLevel::Reload);
    assert_eq!(e.consume_level(), UpdateLevel::Idle);

    e.apply_query("fir");
    assert!(e.score_at(0) > 0);
    assert_eq!(e.score_at(1), 0);
    assert_eq!(e.score_at(2), 0);
    assert_eq!(e.consume_level(), UpdateLevel::Invalidate);

    e.clear_all();
    for i in 0..3 {
        assert_eq!(e.score_at(i), 0);
    }
    assert_eq!(e.consume_level(), UpdateLevel::Invalidate);

    e.apply_query("");
    for i in 0..3 {
        assert_eq!(e.score_at(i), 100);
    }
    assert_eq!(e.consume_level(), UpdateLevel::Invalidate);
}

#[test]
fn empty_query_is_idempotent() {
    let mut e = loaded_engine();
    assert_eq!(e.consume_level(), UpdateLevel::Reload);
    // All scores already sit at the full-match baseline, so an empty query
    // changes nothing and leaves the level alone.
    e.apply_query("");
    assert_eq!(e.consume_level(), UpdateLevel::Idle);
    e.apply_query("");
    e.apply_query("");
    for i in 0..3 {
        assert_eq!(e.score_at(i), 100);
    }
    assert_eq!(e.consume_level(), UpdateLevel::Idle);
}

#[test]
fn consume_resets_exactly_once() {
    let mut e = MatchEngine::new();
    assert_eq!(e.consume_level(), UpdateLevel::Reload);
    assert_eq!(e.consume_level(), UpdateLevel::Idle);
    assert_eq!(e.consume_level(), UpdateLevel::Idle);
}

#[test]
fn level_escalates_and_never_downgrades() {
    let mut e = loaded_engine();
    // A query change would raise Invalidate, but Reload is already pending
    // and must not be lowered.
    e.apply_query("fir");
    assert_eq!(e.consume_level(), UpdateLevel::Reload);
    // After consuming, a further change raises only Invalidate.
    e.apply_query("gimp");
    assert_eq!(e.consume_level(), UpdateLevel::Invalidate);
    // A reload escalates Invalidate to Reload.
    e.apply_query("fir");
    e.reload(vec![cand("Terminal")]);
    assert_eq!(e.consume_level(), UpdateLevel::Reload);
}

#[test]
fn reload_replaces_scores_with_candidates() {
    let mut e = loaded_engine();
    e.apply_query("fir");
    e.reload(vec![cand("Alpha"), cand("Beta")]);
    assert_eq!(e.len(), 2);
    assert_eq!(e.score_at(0), 100);
    assert_eq!(e.score_at(1), 100);
    assert_eq!(e.candidate_at(0).display_text, "Alpha");
    assert_eq!(e.candidate_at(1).display_text, "Beta");
}

#[test]
fn empty_engine_operations() {
    let mut e = MatchEngine::new();
    assert_eq!(e.len(), 0);
    e.apply_query("anything");
    assert_eq!(e.len(), 0);
    e.clear_all();
    assert_eq!(e.consume_level(), UpdateLevel::Reload);
}

#[test]
fn clear_all_on_hidden_candidates_keeps_level() {
    let mut e = loaded_engine();
    e.clear_all();
    assert_eq!(e.consume_level(), UpdateLevel::Reload);
    // Everything is already hidden: clearing again changes no score.
    e.clear_all();
    assert_eq!(e.consume_level(), UpdateLevel::Idle);
}

#[test]
fn filter_matches_exactly_the_fuzzy_matching_candidates() {
    let mut e = loaded_engine();
    e.apply_query("i");
    // Every candidate holds an 'i' somewhere, so all stay visible.
    for i in 0..3 {
        assert!(e.score_at(i) > 0);
    }
    e.apply_query("zzz");
    for i in 0..3 {
        assert_eq!(e.score_at(i), 0);
    }
}
