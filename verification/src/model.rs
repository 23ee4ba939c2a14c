//! The mathematical model of the draw engine.
//!
//! Every executable operation on [`crate::engine::DrawEngine`] is specified
//! as a transition on [`Model`]: a ghost record of the pool's labels and
//! used flags, the displayed label, its emphasis, and the animation state.
//! Random choices appear as explicit parameters of the transitions, so the
//! contracts quantify over them.

use vstd::prelude::*;

verus! {

/// Milliseconds between two animation ticks.
pub const TICK_MILLIS: usize = 50;

/// Smallest number of ticks an animation may run (about 300 ms).
pub const MIN_TICKS: usize = 300 / TICK_MILLIS;

/// Bound that the number of animation ticks stays strictly below
/// (about 1500 ms).
pub const MAX_TICKS: usize = 1500 / TICK_MILLIS;

/// How the current label is displayed: the primary size when idle or
/// settled, the smaller secondary size while the animation flickers.
#[derive(Clone, Copy, Debug, PartialEq, Eq, Structural)]
pub enum Emphasis {
    Normal,
    Animating,
}

/// Ghost state of the engine: the pool (parallel label and used-flag
/// sequences), the displayed label with its emphasis, and the animation
/// flag with its remaining tick count.
#[verifier::ext_equal]
pub ghost struct Model {
    pub labels: Seq<Seq<char>>,
    pub used: Seq<bool>,
    pub current: Seq<char>,
    pub emphasis: Emphasis,
    pub animating: bool,
    pub ticks: nat,
}

/// The fixed label shown once every entry has been drawn.
pub open spec fn exhausted_label() -> Seq<char> {
    "Everyone was selected"@
}

/// Well-formedness: the pool's two sequences run in parallel, an animation
/// always has ticks left and a nonempty pool to flicker over, and the tick
/// count is cleared whenever the engine is idle.
pub open spec fn wf(m: Model) -> bool {
    &&& m.used.len() == m.labels.len()
    &&& (m.animating ==> m.ticks > 0 && m.labels.len() > 0)
    &&& (!m.animating ==> m.ticks == 0)
}

/// Whether some entry is still undrawn.
pub open spec fn has_unused(m: Model) -> bool {
    exists|i: int| 0 <= i < m.used.len() && !m.used[i]
}

/// A legal random choice for the final commit: an undrawn entry.
pub open spec fn valid_final_pick(m: Model, i: int) -> bool {
    &&& 0 <= i < m.used.len()
    &&& !m.used[i]
}

/// Reset: every entry becomes undrawn, the displayed label is cleared,
/// and the engine is idle. Pool membership and order are untouched.
pub open spec fn spec_reset(m: Model) -> Model {
    Model {
        labels: m.labels,
        used: Seq::new(m.used.len(), |i: int| false),
        current: Seq::empty(),
        emphasis: Emphasis::Normal,
        animating: false,
        ticks: 0,
    }
}

/// Commit entry `i`: it becomes used and its label is displayed. The only
/// transition that ever sets a used flag.
pub open spec fn spec_commit(m: Model, i: int) -> Model {
    Model { used: m.used.update(i, true), current: m.labels[i], ..m }
}

/// Exhausted outcome: the fixed message is displayed and nothing else
/// changes.
pub open spec fn spec_exhausted(m: Model) -> Model {
    Model { current: exhausted_label(), ..m }
}

/// The final draw: commit an undrawn entry if one remains, otherwise the
/// exhausted outcome. `i` is the random choice among undrawn entries and
/// is ignored when none remain.
pub open spec fn spec_draw_final(m: Model, i: int) -> Model {
    if has_unused(m) {
        spec_commit(m, i)
    } else {
        spec_exhausted(m)
    }
}

/// Begin an animation of `t` ticks over a nonempty pool.
pub open spec fn spec_start_animation(m: Model, t: nat) -> Model {
    Model { animating: true, ticks: t, ..m }
}

/// A flicker: display the label of any entry `i` of the whole pool, used
/// or not, at the secondary emphasis. No used flag changes.
pub open spec fn spec_flicker(m: Model, i: int) -> Model {
    Model { current: m.labels[i], emphasis: Emphasis::Animating, ..m }
}

/// One tick's decrement of the remaining tick count.
pub open spec fn dec_ticks(m: Model) -> Model {
    Model { ticks: if m.ticks > 0 { (m.ticks - 1) as nat } else { 0 }, ..m }
}

/// End of an animation: leave the animating state, perform the final draw,
/// and restore the primary emphasis.
pub open spec fn spec_settle(m: Model, i: int) -> Model {
    let idle = Model { animating: false, ..m };
    Model { emphasis: Emphasis::Normal, ..spec_draw_final(idle, i) }
}

/// One timer tick: decrement the count, then either flicker (count still
/// positive) or settle (count reached zero). `i` is the tick's random
/// choice, read by whichever branch is taken.
pub open spec fn spec_tick(m: Model, i: int) -> Model {
    let stepped = dec_ticks(m);
    if stepped.ticks > 0 {
        spec_flicker(stepped, i)
    } else {
        spec_settle(stepped, i)
    }
}

/// A legal random choice for one tick: any pool index while flickering,
/// an undrawn entry at the settling tick, anything once the pool is
/// exhausted (the choice is then ignored).
pub open spec fn valid_tick_pick(m: Model, i: int) -> bool {
    if m.ticks > 1 {
        0 <= i < m.labels.len()
    } else if has_unused(m) {
        valid_final_pick(m, i)
    } else {
        true
    }
}

} // verus!
