//! Laws of the draw engine, proved over the model's transitions.

use vstd::prelude::*;

use crate::model::{
    dec_ticks, exhausted_label, has_unused, spec_commit, spec_draw_final, spec_exhausted,
    spec_flicker, spec_settle, spec_start_animation, spec_tick, valid_final_pick,
    valid_tick_pick, wf, Emphasis, Model, MAX_TICKS, MIN_TICKS,
};

verus! {

/// Whether each element of `picks` is a legal final-draw choice at its
/// step of a run of final draws starting from `m`.
pub open spec fn valid_draw_picks(m: Model, picks: Seq<int>) -> bool
    decreases picks.len(),
{
    picks.len() == 0 || (valid_final_pick(m, picks[0]) && valid_draw_picks(
        spec_draw_final(m, picks[0]),
        picks.drop_first(),
    ))
}

/// The state after a run of final draws from `m`, choosing `picks` in turn.
pub open spec fn run_draws(m: Model, picks: Seq<int>) -> Model
    decreases picks.len(),
{
    if picks.len() == 0 {
        m
    } else {
        run_draws(spec_draw_final(m, picks[0]), picks.drop_first())
    }
}

/// The labels that a run of final draws displays, in draw order.
pub open spec fn drawn_labels(m: Model, picks: Seq<int>) -> Seq<Seq<char>> {
    picks.map_values(|i: int| m.labels[i])
}

/// What any run of final draws does to the pool: labels are untouched,
/// a flag ends used exactly if it began used or its entry was picked,
/// every pick names an entry undrawn at the start, and no entry is
/// picked twice.
pub proof fn lemma_run_draws_frame(m: Model, picks: Seq<int>)
    requires
        m.used.len() == m.labels.len(),
        valid_draw_picks(m, picks),
    ensures
        run_draws(m, picks).labels == m.labels,
        run_draws(m, picks).used.len() == m.used.len(),
        forall|j: int|
            0 <= j < m.used.len() ==> #[trigger] run_draws(m, picks).used[j] == (m.used[j]
                || picks.contains(j)),
        forall|k: int| 0 <= k < picks.len() ==> valid_final_pick(m, #[trigger] picks[k]),
        picks.no_duplicates(),
    decreases picks.len(),
{
    if picks.len() == 0 {
        assert forall|j: int| 0 <= j < m.used.len() implies run_draws(m, picks).used[j] == (
        m.used[j] || picks.contains(j)) by {
            assert(!picks.contains(j));
        }
    } else {
        let p0 = picks[0];
        let rest = picks.drop_first();
        assert(has_unused(m)) by {
            assert(!m.used[p0]);
        }
        let m1 = spec_draw_final(m, p0);
        assert(m1 == spec_commit(m, p0));
        assert(m1.used.len() == m.used.len());
        lemma_run_draws_frame(m1, rest);
        assert forall|j: int| picks.contains(j) implies p0 == j || rest.contains(j) by {
            let k = choose|k: int| 0 <= k < picks.len() && picks[k] == j;
            if k > 0 {
                assert(rest[k - 1] == j);
            }
        }
        assert forall|j: int| #[trigger] rest.contains(j) implies picks.contains(j) by {
            let k = choose|k: int| 0 <= k < rest.len() && rest[k] == j;
            assert(picks[k + 1] == j);
        }
        assert forall|j: int| 0 <= j < m.used.len() implies run_draws(m, picks).used[j] == (
        m.used[j] || picks.contains(j)) by {
            assert(run_draws(m, picks) == run_draws(m1, rest));
            assert(run_draws(m1, rest).used[j] == (m1.used[j] || rest.contains(j)));
            if j == p0 {
                assert(picks.contains(j));
            }
        }
        assert forall|k: int| 0 <= k < picks.len() implies valid_final_pick(
            m,
            #[trigger] picks[k],
        ) by {
            if k > 0 {
                assert(rest[k - 1] == picks[k]);
                assert(valid_final_pick(m1, picks[k]));
            }
        }
        assert(!rest.contains(p0)) by {
            if rest.contains(p0) {
                let k = choose|k: int| 0 <= k < rest.len() && rest[k] == p0;
                assert(valid_final_pick(m1, rest[k]));
                assert(m1.used[p0]);
            }
        }
        assert(picks.no_duplicates()) by {
            assert forall|a: int, b: int|
                0 <= a < picks.len() && 0 <= b < picks.len() && a != b implies picks[a]
                != picks[b] by {
                if a > 0 && b > 0 {
                    assert(rest[a - 1] == picks[a] && rest[b - 1] == picks[b]);
                } else if a == 0 {
                    assert(rest[b - 1] == picks[b]);
                    assert(rest.contains(picks[b]));
                } else {
                    assert(rest[a - 1] == picks[a]);
                    assert(rest.contains(picks[a]));
                }
            }
        }
    }
}

/// No-repeat, full-coverage law: starting from a fully re-armed pool,
/// any run of final draws that exhausts it draws every entry exactly
/// once — no pick repeats, every index is picked — and the set of drawn
/// labels is exactly the pool's label set.
pub proof fn lemma_draws_cover_pool(m: Model, picks: Seq<int>)
    requires
        m.used.len() == m.labels.len(),
        forall|j: int| 0 <= j < m.used.len() ==> !m.used[j],
        valid_draw_picks(m, picks),
        !has_unused(run_draws(m, picks)),
    ensures
        picks.no_duplicates(),
        forall|k: int| 0 <= k < picks.len() ==> 0 <= #[trigger] picks[k] < m.labels.len(),
        forall|j: int| 0 <= j < m.labels.len() ==> picks.contains(j),
        drawn_labels(m, picks).to_set() == m.labels.to_set(),
{
    lemma_run_draws_frame(m, picks);
    let done = run_draws(m, picks);
    assert forall|j: int| 0 <= j < m.labels.len() implies picks.contains(j) by {
        assert(done.used[j]);
    }
    let drawn = drawn_labels(m, picks);
    assert forall|x: Seq<char>| drawn.to_set().contains(x) implies m.labels.to_set().contains(
        x,
    ) by {
        let k = choose|k: int| 0 <= k < drawn.len() && drawn[k] == x;
        assert(m.labels[picks[k]] == x);
        assert(m.labels.contains(x));
    }
    assert forall|x: Seq<char>| m.labels.to_set().contains(x) implies drawn.to_set().contains(
        x,
    ) by {
        let j = choose|j: int| 0 <= j < m.labels.len() && m.labels[j] == x;
        assert(picks.contains(j));
        let k = choose|k: int| 0 <= k < picks.len() && picks[k] == j;
        assert(drawn[k] == x);
        assert(drawn.contains(x));
    }
    assert(drawn.to_set() =~= m.labels.to_set());
}

/// Whether each element of `picks` is a legal tick choice at its step of
/// a run of ticks starting from `m`.
pub open spec fn valid_tick_picks(m: Model, picks: Seq<int>) -> bool
    decreases picks.len(),
{
    picks.len() == 0 || (valid_tick_pick(m, picks[0]) && valid_tick_picks(
        spec_tick(m, picks[0]),
        picks.drop_first(),
    ))
}

/// The state after a run of ticks from `m`, choosing `picks` in turn.
pub open spec fn run_ticks(m: Model, picks: Seq<int>) -> Model
    decreases picks.len(),
{
    if picks.len() == 0 {
        m
    } else {
        run_ticks(spec_tick(m, picks[0]), picks.drop_first())
    }
}

/// Animation-settling law: from any animating state, running exactly the
/// remaining number of ticks ends idle at the primary emphasis with the
/// labels untouched; if an undrawn entry remained, exactly one used flag
/// flips — to true, on an entry undrawn before — and its label is
/// displayed; if none remained, the used flags are untouched and the
/// exhausted message is displayed.
pub proof fn lemma_animation_settles(m: Model, picks: Seq<int>)
    requires
        wf(m),
        m.animating,
        picks.len() == m.ticks,
        valid_tick_picks(m, picks),
    ensures
        ({
            let done = run_ticks(m, picks);
            &&& !done.animating
            &&& done.ticks == 0
            &&& done.labels == m.labels
            &&& done.emphasis == Emphasis::Normal
            &&& (has_unused(m) ==> exists|i: int|
                valid_final_pick(m, i) && done.used == m.used.update(i, true) && done.current
                    == m.labels[i])
            &&& (!has_unused(m) ==> done.used == m.used && done.current == exhausted_label())
        }),
    decreases m.ticks,
{
    let p0 = picks[0];
    let rest = picks.drop_first();
    let stepped = spec_tick(m, p0);
    let done = run_ticks(m, picks);
    assert(done == run_ticks(stepped, rest));
    if m.ticks == 1 {
        let idle = Model { animating: false, ..dec_ticks(m) };
        assert(rest.len() == 0);
        assert(done == spec_settle(dec_ticks(m), p0));
        if has_unused(m) {
            assert(has_unused(idle)) by {
                let w = choose|w: int| 0 <= w < m.used.len() && !m.used[w];
                assert(!idle.used[w]);
            }
            assert(done =~= Model { emphasis: Emphasis::Normal, ..spec_commit(idle, p0) });
            assert(valid_final_pick(m, p0));
            assert(done.used == m.used.update(p0, true) && done.current == m.labels[p0]);
        } else {
            assert(!has_unused(idle)) by {
                if has_unused(idle) {
                    let w = choose|w: int| 0 <= w < idle.used.len() && !idle.used[w];
                    assert(!m.used[w]);
                }
            }
            assert(done =~= Model { emphasis: Emphasis::Normal, ..spec_exhausted(idle) });
        }
    } else {
        assert(stepped == spec_flicker(dec_ticks(m), p0));
        assert(stepped.used == m.used && stepped.labels == m.labels);
        assert(stepped.animating && stepped.ticks == m.ticks - 1);
        assert(wf(stepped));
        assert(has_unused(stepped) == has_unused(m)) by {
            if has_unused(stepped) {
                let w = choose|w: int| 0 <= w < stepped.used.len() && !stepped.used[w];
                assert(!m.used[w]);
            }
            if has_unused(m) {
                let w = choose|w: int| 0 <= w < m.used.len() && !m.used[w];
                assert(!stepped.used[w]);
            }
        }
        lemma_animation_settles(stepped, rest);
        if has_unused(m) {
            let i = choose|i: int|
                valid_final_pick(stepped, i) && done.used == stepped.used.update(i, true)
                    && done.current == stepped.labels[i];
            assert(valid_final_pick(m, i));
            assert(done.used == m.used.update(i, true) && done.current == m.labels[i]);
        }
    }
}

/// Single-commit law: starting a draw on an idle pool with at least one
/// undrawn entry and running the sampled animation to its end flips
/// exactly one additional used flag — of an entry undrawn before — and
/// displays that entry's label, with the pool's labels untouched.
pub proof fn lemma_start_draw_commits_one(m: Model, t: nat, picks: Seq<int>)
    requires
        wf(m),
        !m.animating,
        has_unused(m),
        MIN_TICKS <= t < MAX_TICKS,
        picks.len() == t,
        valid_tick_picks(spec_start_animation(m, t), picks),
    ensures
        ({
            let done = run_ticks(spec_start_animation(m, t), picks);
            &&& !done.animating
            &&& done.ticks == 0
            &&& done.labels == m.labels
            &&& exists|i: int|
                valid_final_pick(m, i) && done.used == m.used.update(i, true) && done.current
                    == m.labels[i]
        }),
{
    let started = spec_start_animation(m, t);
    assert(m.labels.len() > 0) by {
        let w = choose|w: int| 0 <= w < m.used.len() && !m.used[w];
    }
    assert(wf(started));
    assert(has_unused(started)) by {
        let w = choose|w: int| 0 <= w < m.used.len() && !m.used[w];
        assert(!started.used[w]);
    }
    lemma_animation_settles(started, picks);
    let done = run_ticks(started, picks);
    let i = choose|i: int|
        valid_final_pick(started, i) && done.used == started.used.update(i, true) && done.current
            == started.labels[i];
    assert(valid_final_pick(m, i));
    assert(done.used == m.used.update(i, true) && done.current == m.labels[i]);
}

/// Exhausted-draw law: starting a draw when every entry is already used
/// leaves the pool — labels and used flags — unchanged and displays the
/// fixed exhausted message, whether the pool is empty (the draw settles
/// at once) or the sampled animation runs to its end.
pub proof fn lemma_start_draw_exhausted(m: Model, t: nat, picks: Seq<int>)
    requires
        wf(m),
        !m.animating,
        !has_unused(m),
        m.labels.len() > 0 ==> MIN_TICKS <= t < MAX_TICKS && picks.len() == t
            && valid_tick_picks(spec_start_animation(m, t), picks),
    ensures
        ({
            let done = if m.labels.len() == 0 {
                spec_exhausted(m)
            } else {
                run_ticks(spec_start_animation(m, t), picks)
            };
            &&& !done.animating
            &&& done.labels == m.labels
            &&& done.used == m.used
            &&& done.current == exhausted_label()
        }),
{
    if m.labels.len() > 0 {
        let started = spec_start_animation(m, t);
        assert(wf(started));
        assert(!has_unused(started)) by {
            if has_unused(started) {
                let w = choose|w: int| 0 <= w < started.used.len() && !started.used[w];
                assert(!m.used[w]);
            }
        }
        lemma_animation_settles(started, picks);
    }
}

} // verus!
