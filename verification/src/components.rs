//! The flat component records that entities carry, the input snapshot a frame
//! is driven by, and the shared money balance, together with the countdown
//! arithmetic of the `Lifetime` component.

use vstd::prelude::*;

verus! {

/// What the host sampled from the keyboard for one frame: which direction keys
/// are currently held, and whether the spawn key went down on this very frame
/// (an edge trigger, true only on the frame of the press).
#[derive(Clone, Copy, PartialEq, Eq, Structural, Debug)]
pub struct InputSnapshot {
    pub up: bool,
    pub down: bool,
    pub left: bool,
    pub right: bool,
    pub spawn_just_pressed: bool,
}

impl InputSnapshot {
    /// A frame on which nothing is held and nothing was pressed.
    pub fn released() -> (r: InputSnapshot)
        ensures
            r == (InputSnapshot {
                up: false,
                down: false,
                left: false,
                right: false,
                spawn_just_pressed: false,
            }),
    {
        InputSnapshot { up: false, down: false, left: false, right: false, spawn_just_pressed: false }
    }
}

/// A 2D coordinate. Positions are unbounded by the rules; only the machine
/// word bounds them.
#[derive(Clone, Copy, PartialEq, Eq, Structural, Debug)]
pub struct Position {
    pub x: i64,
    pub y: i64,
}

/// Marks an entity as controlled by direct input and carries its movement
/// speed, in units per time unit.
#[derive(Clone, Copy, PartialEq, Eq, Structural, Debug)]
pub struct Player {
    pub speed: u64,
}

/// The shared currency balance. Debited by the spawn rule, credited by the
/// lifetime rule.
#[derive(Clone, Copy, PartialEq, Eq, Structural, Debug)]
pub struct Money(pub u64);

/// A countdown that fires once: `elapsed` accumulates frame time, saturating
/// at `duration`, and the countdown is finished once `elapsed` reaches
/// `duration`. It is never re-armed.
#[derive(Clone, Copy, PartialEq, Eq, Structural, Debug)]
pub struct Lifetime {
    pub elapsed: u64,
    pub duration: u64,
}

/// A timed entity: carries the countdown after whose run-down the entity pays
/// out and is despawned.
#[derive(Clone, Copy, PartialEq, Eq, Structural, Debug)]
pub struct Cow {
    pub lifetime: Lifetime,
}

impl Lifetime {
    /// The accumulated time never runs past the duration.
    pub open spec fn wf(self) -> bool {
        self.elapsed <= self.duration
    }

    /// The countdown has run down.
    pub open spec fn spec_finished(self) -> bool {
        self.elapsed >= self.duration
    }

    /// The countdown after one frame of `t` time units: elapsed time
    /// accumulates, saturating at the duration.
    pub open spec fn spec_ticked(self, t: u64) -> Lifetime {
        if self.elapsed + t >= self.duration {
            Lifetime { elapsed: self.duration, duration: self.duration }
        } else {
            Lifetime { elapsed: (self.elapsed + t) as u64, duration: self.duration }
        }
    }

    /// The countdown runs down within this very tick: it was not finished
    /// before and is finished after.
    pub open spec fn fires(self, t: u64) -> bool {
        !self.spec_finished() && self.spec_ticked(t).spec_finished()
    }

    /// A countdown armed at the full duration with nothing elapsed.
    pub fn new(duration: u64) -> (r: Lifetime)
        ensures
            r == (Lifetime { elapsed: 0, duration }),
            r.wf(),
    {
        Lifetime { elapsed: 0, duration }
    }

    pub fn finished(&self) -> (r: bool)
        ensures
            r == self.spec_finished(),
    {
        self.elapsed >= self.duration
    }

    /// Advance the countdown by `t` time units, saturating at the duration.
    pub fn tick(&mut self, t: u64)
        requires
            old(self).wf(),
        ensures
            *final(self) == old(self).spec_ticked(t),
            final(self).wf(),
    {
        let remaining = self.duration - self.elapsed;
        if t >= remaining {
            self.elapsed = self.duration;
        } else {
            self.elapsed = self.elapsed + t;
        }
    }
}

/// Frame time only accumulates: ticking by `t1` and then by `t2` is the same
/// as ticking once by `t1 + t2`.
pub proof fn lemma_ticks_accumulate(l: Lifetime, t1: u64, t2: u64)
    requires
        l.wf(),
        t1 + t2 <= u64::MAX,
    ensures
        l.spec_ticked(t1).spec_ticked(t2) == l.spec_ticked((t1 + t2) as u64),
{
}

/// A countdown fires at most once: once it has fired, no later frame can make
/// it fire again.
pub proof fn lemma_fires_at_most_once(l: Lifetime, t1: u64, t2: u64)
    requires
        l.wf(),
        l.fires(t1),
    ensures
        !l.spec_ticked(t1).fires(t2),
{
}

/// Ticking a finished countdown is a no-op: the countdown is unchanged and it
/// does not fire.
pub proof fn lemma_finished_tick_is_noop(l: Lifetime, t: u64)
    requires
        l.wf(),
        l.spec_finished(),
    ensures
        l.spec_ticked(t) == l,
        !l.fires(t),
{
}

/// A countdown is finished after a tick exactly when the accumulated time
/// reaches the duration; in particular an unfinished countdown whose
/// accumulated time reaches the duration on this tick fires.
pub proof fn lemma_fires_when_time_is_up(l: Lifetime, t: u64)
    requires
        l.wf(),
    ensures
        l.spec_ticked(t).spec_finished() <==> l.elapsed + t >= l.duration,
        (!l.spec_finished() && l.elapsed + t >= l.duration) ==> l.fires(t),
{
}

} // verus!
