//! The executable draw engine.

use vstd::pervasive::VecAdditionalExecFns;
use vstd::prelude::*;

use crate::model::{
    dec_ticks, exhausted_label, has_unused, spec_commit, spec_exhausted, spec_flicker,
    spec_reset, spec_start_animation, spec_tick, valid_final_pick,
    valid_tick_pick, wf, Emphasis, Model, MAX_TICKS, MIN_TICKS,
};
use crate::rng::random_index_in;

verus! {

/// One drawable name: its label and whether it has already been drawn.
pub struct NameEntry {
    pub label: String,
    pub used: bool,
}

/// The selection and animation state machine. It owns the pool, the
/// displayed label with its emphasis, and the animation countdown; its
/// abstract value is a [`Model`].
pub struct DrawEngine {
    names: Vec<NameEntry>,
    current_label: String,
    emphasis: Emphasis,
    animating: bool,
    remaining_ticks: usize,
}

impl View for DrawEngine {
    type V = Model;

    closed spec fn view(&self) -> Model {
        Model {
            labels: Seq::new(self.names@.len(), |i: int| self.names@[i].label@),
            used: Seq::new(self.names@.len(), |i: int| self.names@[i].used),
            current: self.current_label@,
            emphasis: self.emphasis,
            animating: self.animating,
            ticks: self.remaining_ticks as nat,
        }
    }
}

/// The fixed message displayed once every entry has been drawn.
pub fn exhausted_message() -> (s: String)
    ensures
        s@ == exhausted_label(),
{
    "Everyone was selected".to_string()
}

impl DrawEngine {
    /// A fresh engine over the given labels, in insertion order: every
    /// entry undrawn, no label displayed, idle.
    pub fn new(labels: Vec<String>) -> (e: DrawEngine)
        ensures
            e@.labels.len() == labels@.len(),
            forall|i: int| 0 <= i < labels@.len() ==> e@.labels[i] == labels@[i]@,
            forall|i: int| 0 <= i < labels@.len() ==> !e@.used[i],
            e@.current == Seq::<char>::empty(),
            e@.emphasis == Emphasis::Normal,
            !e@.animating,
            e@.ticks == 0,
            wf(e@),
    {
        let mut names: Vec<NameEntry> = Vec::new();
        let mut i: usize = 0;
        while i < labels.len()
            invariant
                i <= labels.len(),
                names@.len() == i,
                forall|j: int| 0 <= j < i ==> names@[j].label@ == labels@[j]@ && !names@[j].used,
            decreases labels.len() - i,
        {
            let label = labels[i].clone();
            names.push(NameEntry { label, used: false });
            i += 1;
        }
        DrawEngine {
            names,
            current_label: String::new(),
            emphasis: Emphasis::Normal,
            animating: false,
            remaining_ticks: 0,
        }
    }

    /// Clear the session: every entry becomes undrawn and the displayed
    /// label empty, whatever the prior state; the pool's membership and
    /// order are untouched, and the engine is idle.
    pub fn reset(&mut self)
        ensures
            final(self)@ == spec_reset(old(self)@),
            wf(final(self)@),
    {
        let mut i: usize = 0;
        while i < self.names.len()
            invariant
                i <= self.names@.len(),
                self.names@.len() == old(self).names@.len(),
                forall|j: int|
                    0 <= j < self.names@.len() ==> self.names@[j].label@
                        == old(self).names@[j].label@,
                forall|j: int| 0 <= j < i ==> !self.names@[j].used,
                self.current_label == old(self).current_label,
                self.emphasis == old(self).emphasis,
                self.animating == old(self).animating,
                self.remaining_ticks == old(self).remaining_ticks,
            decreases self.names@.len() - i,
        {
            let label = self.names[i].label.clone();
            self.names.set(i, NameEntry { label, used: false });
            i += 1;
        }
        self.current_label = String::new();
        self.emphasis = Emphasis::Normal;
        self.animating = false;
        self.remaining_ticks = 0;
        proof {
            assert(self@ =~= spec_reset(old(self)@));
        }
    }

    /// The authoritative commit: if some entry is still undrawn, pick one
    /// of them uniformly at random, mark it used and display its label;
    /// otherwise display the fixed exhausted message and change nothing
    /// else. The only operation that ever sets a used flag.
    pub fn draw_final(&mut self)
        ensures
            has_unused(old(self)@) ==> exists|i: int|
                valid_final_pick(old(self)@, i) && final(self)@ == spec_commit(old(self)@, i),
            !has_unused(old(self)@) ==> final(self)@ == spec_exhausted(old(self)@),
            wf(old(self)@) ==> wf(final(self)@),
    {
        let mut unused_idx: Vec<usize> = Vec::new();
        let mut i: usize = 0;
        while i < self.names.len()
            invariant
                self == old(self),
                i <= self.names@.len(),
                forall|k: int|
                    0 <= k < unused_idx@.len() ==> #[trigger] unused_idx@[k] < i
                        && !self.names@[unused_idx@[k] as int].used,
                forall|j: int|
                    0 <= j < i && !self.names@[j].used ==> unused_idx@.contains(j as usize),
            decreases self.names@.len() - i,
        {
            let ghost prev = unused_idx@;
            if !self.names[i].used {
                unused_idx.push(i);
            }
            proof {
                assert forall|j: int|
                    0 <= j <= i && !self.names@[j].used implies unused_idx@.contains(
                    j as usize,
                ) by {
                    if j < i {
                        let k = choose|k: int| 0 <= k < prev.len() && prev[k] == j as usize;
                        assert(unused_idx@[k] == j as usize);
                    } else {
                        assert(unused_idx@[unused_idx@.len() - 1] == i as usize);
                    }
                }
            }
            i += 1;
        }
        if unused_idx.len() == 0 {
            proof {
                assert forall|j: int| 0 <= j < old(self)@.used.len() implies old(self)@.used[j] by {
                    if !self.names@[j].used {
                        assert(unused_idx@.contains(j as usize));
                    }
                }
            }
            self.current_label = exhausted_message();
            proof {
                assert(self@ =~= spec_exhausted(old(self)@));
            }
        } else {
            let k = random_index_in(0, unused_idx.len());
            let picked = unused_idx[k];
            proof {
                assert(valid_final_pick(old(self)@, picked as int));
                assert(has_unused(old(self)@));
            }
            let label = self.names[picked].label.clone();
            self.names.set(picked, NameEntry { label: label.clone(), used: true });
            self.current_label = label;
            proof {
                assert(self@ =~= spec_commit(old(self)@, picked as int));
            }
        }
    }

    /// The teaser step of the animation: display the label of an entry
    /// picked uniformly at random from the whole pool — used or not, on
    /// purpose — at the secondary emphasis. No used flag changes.
    pub fn flicker(&mut self)
        requires
            old(self)@.labels.len() > 0,
        ensures
            exists|i: int|
                0 <= i < old(self)@.labels.len() && final(self)@ == spec_flicker(old(self)@, i),
    {
        let i = random_index_in(0, self.names.len());
        let label = self.names[i].label.clone();
        self.current_label = label;
        self.emphasis = Emphasis::Animating;
        proof {
            assert(self@ =~= spec_flicker(old(self)@, i as int));
        }
    }

    /// Begin a draw. On an empty pool this degrades at once to the final
    /// draw, which displays the exhausted message. Otherwise it starts an
    /// animation whose length is sampled uniformly from the configured
    /// half-open tick range.
    pub fn start_draw(&mut self)
        requires
            wf(old(self)@),
            !old(self)@.animating,
        ensures
            wf(final(self)@),
            old(self)@.labels.len() == 0 ==> final(self)@ == spec_exhausted(old(self)@),
            old(self)@.labels.len() > 0 ==> exists|t: nat|
                MIN_TICKS <= t < MAX_TICKS && final(self)@ == spec_start_animation(old(self)@, t),
    {
        if self.names.len() == 0 {
            self.draw_final();
        } else {
            self.animating = true;
            self.remaining_ticks = random_index_in(MIN_TICKS, MAX_TICKS);
            proof {
                assert(self@ =~= spec_start_animation(old(self)@, self.remaining_ticks as nat));
            }
        }
    }

    /// One timer tick of a running animation: decrement the countdown,
    /// then either flicker (countdown still positive) or settle — leave
    /// the animating state, commit the final draw, and restore the
    /// primary emphasis.
    pub fn tick(&mut self)
        requires
            wf(old(self)@),
            old(self)@.animating,
        ensures
            wf(final(self)@),
            exists|i: int|
                valid_tick_pick(old(self)@, i) && final(self)@ == spec_tick(old(self)@, i),
            final(self)@.ticks == old(self)@.ticks - 1,
            final(self)@.animating <==> old(self)@.ticks > 1,
    {
        self.remaining_ticks = self.remaining_ticks - 1;
        if self.remaining_ticks > 0 {
            let ghost stepped = self@;
            self.flicker();
            proof {
                assert(stepped =~= dec_ticks(old(self)@));
                let i = choose|i: int|
                    0 <= i < stepped.labels.len() && self@ == spec_flicker(stepped, i);
                assert(valid_tick_pick(old(self)@, i));
                assert(self@ == spec_tick(old(self)@, i));
            }
        } else {
            self.animating = false;
            let ghost idle = self@;
            self.draw_final();
            let ghost committed = self@;
            self.emphasis = Emphasis::Normal;
            proof {
                assert(idle =~= Model { animating: false, ..dec_ticks(old(self)@) });
                if has_unused(idle) {
                    let i = choose|i: int|
                        valid_final_pick(idle, i) && committed == spec_commit(idle, i);
                    assert(valid_tick_pick(old(self)@, i));
                    assert(self@ =~= spec_tick(old(self)@, i));
                } else {
                    assert(committed == spec_exhausted(idle));
                    assert(self@ =~= spec_tick(old(self)@, 0));
                }
            }
        }
    }

    /// How many entries the pool holds.
    pub fn pool_len(&self) -> (n: usize)
        ensures
            n == self@.labels.len(),
    {
        self.names.len()
    }

    /// The label of entry `i`.
    pub fn label_at(&self, i: usize) -> (s: &String)
        requires
            i < self@.labels.len(),
        ensures
            s@ == self@.labels[i as int],
    {
        &self.names[i].label
    }

    /// Whether entry `i` has been drawn.
    pub fn used_at(&self, i: usize) -> (u: bool)
        requires
            i < self@.labels.len(),
        ensures
            u == self@.used[i as int],
    {
        self.names[i].used
    }

    /// The currently displayed label.
    pub fn current_label(&self) -> (s: &String)
        ensures
            s@ == self@.current,
    {
        &self.current_label
    }

    /// The emphasis at which the current label is displayed.
    pub fn emphasis(&self) -> (e: Emphasis)
        ensures
            e == self@.emphasis,
    {
        self.emphasis
    }

    /// Whether an animation is running — the signal that tells the host
    /// to deliver timer ticks.
    pub fn is_animating(&self) -> (a: bool)
        ensures
            a == self@.animating,
    {
        self.animating
    }

    /// Ticks left before the running animation settles.
    pub fn remaining_ticks(&self) -> (t: usize)
        ensures
            t == self@.ticks,
    {
        self.remaining_ticks
    }
}

} // verus!
