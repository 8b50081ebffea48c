//! Elapsed time as the systems see it, and countdown timers.
use vstd::prelude::*;

verus! {

/// The number of entries of a decay table: one for each dampening from
/// nothing to one, in thousandths.
pub const DECAY_ENTRIES: usize = 1001;

/// What one frame brings: the time that went by since the last one, and what
/// that time leaves of a speed under each dampening.
///
/// Raising a dampening to the power of the elapsed time takes real numbers,
/// so whoever makes a `Time` supplies the outcome as a table.
pub struct Time {
    delta: u32,
    decay: Vec<u32>,
}

/// A countdown over a fixed duration, in thousandths of a second.
#[derive(Clone, Copy, PartialEq, Eq, Debug, Structural)]
pub struct Timer {
    pub elapsed: u32,
    pub duration: u32,
    pub finished: bool,
    /// True only for the tick on which the duration was reached.
    pub just_finished: bool,
    pub repeating: bool,
}

/// Whether `table` can be what `delta` thousandths of a second leave of a
/// speed under each dampening, that is, the dampening raised to the power of
/// the time in seconds. Such a table holds a factor for every dampening, none
/// above one. Its factors grow with the dampening, from nothing for a
/// dampening of nothing to one for a dampening of one; but where no time has
/// gone by, they are all one. And a factor lies on the side of its
/// dampening that the time puts it on: not below it within the first second,
/// and not above it from then on.
pub open spec fn decay_table_ok(delta: u32, table: Seq<u32>) -> bool {
    &&& table.len() == DECAY_ENTRIES
    &&& table[DECAY_ENTRIES - 1] == 1000
    &&& table[0] == if delta == 0 {
        1000u32
    } else {
        0u32
    }
    &&& forall|d: int| 0 <= d < table.len() ==> #[trigger] table[d] <= 1000
    &&& forall|a: int, b: int|
        0 <= a <= b < table.len() ==> #[trigger] table[a] <= #[trigger] table[b]
    &&& delta <= 1000 ==> forall|d: int| 0 <= d < table.len() ==> #[trigger] table[d] >= d
    &&& delta >= 1000 ==> forall|d: int| 0 <= d < table.len() ==> #[trigger] table[d] <= d
}

/// The timer `t` after `delta` more thousandths of a second.
pub open spec fn ticked(t: Timer, delta: u32) -> Timer {
    let was_finished = t.elapsed >= t.duration;
    let sum = t.elapsed + delta;
    let elapsed = if was_finished {
        t.elapsed
    } else if sum > u32::MAX {
        u32::MAX
    } else {
        sum as u32
    };
    let finished = elapsed >= t.duration;
    Timer {
        elapsed: if t.repeating && finished {
            if t.duration > 0 {
                (elapsed % t.duration) as u32
            } else {
                0
            }
        } else {
            elapsed
        },
        duration: t.duration,
        finished,
        just_finished: !was_finished && finished,
        repeating: t.repeating,
    }
}

impl Time {
    #[verifier::type_invariant]
    spec fn well_formed(&self) -> bool {
        decay_table_ok(self.delta, self.decay@)
    }

    /// The table of the frame is one that its time allows.
    pub open spec fn sound(&self) -> bool {
        decay_table_ok(self.elapsed(), self.table())
    }

    /// The thousandths of a second that went by.
    pub closed spec fn elapsed(&self) -> u32 {
        self.delta
    }

    /// The table of factors this frame was made with.
    pub closed spec fn table(&self) -> Seq<u32> {
        self.decay@
    }

    /// What the frame leaves of a speed whose dampening is `dampening`; a
    /// dampening above one counts as one.
    pub open spec fn factor(&self, dampening: u32) -> i32 {
        if dampening < DECAY_ENTRIES {
            self.table()[dampening as int] as i32
        } else {
            self.table()[DECAY_ENTRIES - 1] as i32
        }
    }

    /// Makes a frame of `delta` thousandths of a second from a decay table,
    /// or nothing if the table is none that the time allows.
    pub fn new(delta: u32, decay: Vec<u32>) -> (time: Option<Time>)
        ensures
            time is Some <==> decay_table_ok(delta, decay@),
            time matches Some(t) ==> t.elapsed() == delta && t.table() == decay@ && t.sound(),
    {
        if decay.len() != DECAY_ENTRIES {
            return None;
        }
        if decay[1000] != 1000 || decay[0] != (if delta == 0 {
            1000
        } else {
            0
        }) {
            return None;
        }
        let mut d: usize = 0;
        while d < 1000
            invariant
                d <= 1000,
                decay.len() == DECAY_ENTRIES,
                decay[1000] == 1000,
                forall|k: int| 0 <= k < d ==> #[trigger] decay[k] <= 1000,
                forall|a: int, b: int|
                    0 <= a <= b <= d ==> #[trigger] decay[a] <= #[trigger] decay[b],
                forall|a: int| 0 <= a <= d ==> #[trigger] decay[a] <= decay[1000],
                delta <= 1000 ==> forall|k: int| 0 <= k < d ==> #[trigger] decay[k] >= k,
                delta >= 1000 ==> forall|k: int| 0 <= k < d ==> #[trigger] decay[k] <= k,
            decreases 1000 - d,
        {
            if decay[d] > decay[d + 1] || decay[d + 1] > 1000 {
                proof {
                    if decay[d as int] > decay[d + 1] {
                        assert(!(decay@[d as int] <= decay@[d + 1]));
                    } else {
                        assert(!(decay@[d + 1] <= 1000));
                    }
                }
                return None;
            }
            if delta <= 1000 && decay[d] < d as u32 {
                return None;
            }
            if delta >= 1000 && decay[d] > d as u32 {
                return None;
            }
            d = d + 1;
        }
        Some(Time { delta, decay })
    }

    pub fn delta(&self) -> (delta: u32)
        ensures
            delta == self.elapsed(),
            self.sound(),
    {
        proof {
            use_type_invariant(self);
        }
        self.delta
    }

    pub fn decay(&self, dampening: u32) -> (factor: i32)
        ensures
            factor == self.factor(dampening),
            0 <= factor <= 1000,
            dampening >= 1000 ==> factor == 1000,
    {
        proof {
            use_type_invariant(self);
        }
        if dampening < 1001 {
            self.decay[dampening as usize] as i32
        } else {
            self.decay[1000] as i32
        }
    }
}

impl Timer {
    /// A timer at rest that runs for `seconds`, given in thousandths.
    pub fn from_seconds(seconds: u32, repeating: bool) -> (t: Timer)
        ensures
            t == (Timer {
                elapsed: 0,
                duration: seconds,
                finished: false,
                just_finished: false,
                repeating,
            }),
    {
        Timer { elapsed: 0, duration: seconds, finished: false, just_finished: false, repeating }
    }

    /// Lets `delta` thousandths of a second go by.
    pub fn tick(&mut self, delta: u32)
        ensures
            *final(self) == ticked(*old(self), delta),
    {
        let was_finished = self.elapsed >= self.duration;
        if !was_finished {
            self.elapsed = self.elapsed.saturating_add(delta);
        }
        self.finished = self.elapsed >= self.duration;
        self.just_finished = !was_finished && self.finished;
        if self.repeating && self.finished {
            if self.duration > 0 {
                self.elapsed = self.elapsed % self.duration;
            } else {
                self.elapsed = 0;
            }
        }
    }

    /// Starts the countdown again.
    pub fn reset(&mut self)
        ensures
            *final(self) == (Timer {
                elapsed: 0,
                finished: false,
                just_finished: false,
                ..*old(self)
            }),
    {
        self.finished = false;
        self.just_finished = false;
        self.elapsed = 0;
    }
}

} // verus!
