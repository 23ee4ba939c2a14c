use random_picker::engine::DrawEngine;
use random_picker::model::Emphasis;

const EXHAUSTED: &str = "Everyone was selected";

fn pool(labels: &[&str]) -> DrawEngine {
    let owned: Vec<String> = labels.iter().map(|s| s.to_string()).collect();
    DrawEngine::new(owned)
}

#[test]
fn fresh_pool_is_idle_and_unused() {
    let e = pool(&["Alice", "Bob"]);
    assert_eq!(e.pool_len(), 2);
    assert_eq!(e.label_at(0).as_str(), "Alice");
    assert_eq!(e.label_at(1).as_str(), "Bob");
    assert!(!e.used_at(0));
    assert!(!e.used_at(1));
    assert_eq!(e.current_label().as_str(), "");
    assert!(!e.is_animating());
    assert_eq!(e.remaining_ticks(), 0);
    assert_eq!(e.emphasis(), Emphasis::Normal);
}

#[test]
fn draws_cover_pool_without_repeats() {
    let labels = ["Alice", "Bob", "Carol", "Dave"];
    let mut e = pool(&labels);
    let mut drawn: Vec<String> = Vec::new();
    for _ in 0..labels.len() {
        e.draw_final();
        drawn.push(e.current_label().clone());
    }
    let mut expected: Vec<String> = labels.iter().map(|s| s.to_string()).collect();
    drawn.sort();
    expected.sort();
    assert_eq!(drawn, expected);
    for i in 0..e.pool_len() {
        assert!(e.used_at(i));
    }
    e.draw_final();
    assert_eq!(e.current_label().as_str(), EXHAUSTED);
}

#[test]
fn reset_clears_any_state() {
    let mut e = pool(&["Alice", "Bob"]);
    e.draw_final();
    e.start_draw();
    e.reset();
    assert!(!e.used_at(0));
    assert!(!e.used_at(1));
    assert_eq!(e.current_label().as_str(), "");
    assert!(!e.is_animating());
    assert_eq!(e.remaining_ticks(), 0);
    assert_eq!(e.emphasis(), Emphasis::Normal);
    assert_eq!(e.label_at(0).as_str(), "Alice");
    assert_eq!(e.label_at(1).as_str(), "Bob");
}

#[test]
fn countdown_sampled_in_range() {
    for _ in 0..200 {
        let mut e = pool(&["Alice"]);
        e.start_draw();
        assert!(e.is_animating());
        let t = e.remaining_ticks();
        assert!((6..30).contains(&t));
        e.reset();
    }
}

#[test]
fn animation_scenario_commits_exactly_one() {
    let mut e = pool(&["Alice", "Bob"]);
    e.start_draw();
    assert!(e.is_animating());
    let t = e.remaining_ticks();
    assert!((6..30).contains(&t));
    for _ in 0..t {
        assert!(e.is_animating());
        e.tick();
    }
    assert!(!e.is_animating());
    assert_eq!(e.remaining_ticks(), 0);
    assert_eq!(e.emphasis(), Emphasis::Normal);
    let winner = e.current_label().clone();
    assert!(winner == "Alice" || winner == "Bob");
    let winner_idx = if winner == "Alice" { 0 } else { 1 };
    assert!(e.used_at(winner_idx));
    assert!(!e.used_at(1 - winner_idx));
}

#[test]
fn exhausted_pool_yields_fixed_message() {
    let mut e = pool(&["A", "B"]);
    e.draw_final();
    e.draw_final();
    assert!(e.used_at(0));
    assert!(e.used_at(1));
    e.draw_final();
    assert_eq!(e.current_label().as_str(), EXHAUSTED);
    assert_eq!(e.label_at(0).as_str(), "A");
    assert_eq!(e.label_at(1).as_str(), "B");
    assert!(e.used_at(0));
    assert!(e.used_at(1));
}

#[test]
fn reset_after_exhaustion_rearms_pool() {
    let mut e = pool(&["A", "B"]);
    e.draw_final();
    e.draw_final();
    e.draw_final();
    assert_eq!(e.current_label().as_str(), EXHAUSTED);
    e.reset();
    assert_eq!(e.label_at(0).as_str(), "A");
    assert_eq!(e.label_at(1).as_str(), "B");
    assert!(!e.used_at(0));
    assert!(!e.used_at(1));
    assert_eq!(e.current_label().as_str(), "");
}

#[test]
fn start_draw_on_all_used_pool_settles_exhausted() {
    let mut e = pool(&["A", "B"]);
    e.draw_final();
    e.draw_final();
    e.start_draw();
    while e.is_animating() {
        e.tick();
    }
    assert_eq!(e.current_label().as_str(), EXHAUSTED);
    assert!(e.used_at(0));
    assert!(e.used_at(1));
    assert_eq!(e.label_at(0).as_str(), "A");
    assert_eq!(e.label_at(1).as_str(), "B");
}

#[test]
fn start_draw_on_empty_pool_degrades_to_exhausted() {
    let mut e = pool(&[]);
    e.start_draw();
    assert!(!e.is_animating());
    assert_eq!(e.remaining_ticks(), 0);
    assert_eq!(e.current_label().as_str(), EXHAUSTED);
}

#[test]
fn flicker_displays_a_pool_label() {
    let mut e = pool(&["Solo"]);
    e.flicker();
    assert_eq!(e.current_label().as_str(), "Solo");
    assert_eq!(e.emphasis(), Emphasis::Animating);
    assert!(!e.used_at(0));
}

#[test]
fn flicker_samples_used_entries_too() {
    let mut e = pool(&["Only"]);
    e.draw_final();
    assert!(e.used_at(0));
    e.flicker();
    assert_eq!(e.current_label().as_str(), "Only");
}

#[test]
fn tick_decrements_and_flickers() {
    let mut e = pool(&["X"]);
    e.start_draw();
    let t = e.remaining_ticks();
    e.tick();
    assert_eq!(e.remaining_ticks(), t - 1);
    if t > 1 {
        assert!(e.is_animating());
        assert_eq!(e.current_label().as_str(), "X");
        assert_eq!(e.emphasis(), Emphasis::Animating);
        assert!(!e.used_at(0));
    } else {
        assert!(!e.is_animating());
        assert!(e.used_at(0));
    }
}

#[test]
fn animation_on_singleton_pool_draws_it() {
    let mut e = pool(&["Zoe"]);
    e.start_draw();
    while e.is_animating() {
        e.tick();
    }
    assert_eq!(e.current_label().as_str(), "Zoe");
    assert!(e.used_at(0));
    assert_eq!(e.emphasis(), Emphasis::Normal);
    e.start_draw();
    while e.is_animating() {
        e.tick();
    }
    assert_eq!(e.current_label().as_str(), EXHAUSTED);
}
