//! Hit points.
use vstd::prelude::*;

verus! {

#[derive(Clone, Copy, PartialEq, Eq, Debug, Structural)]
pub struct Armor {
    pub max_life: u32,
    pub life: u32,
}

/// What is left of `life` after a hit worth `value`.
pub open spec fn life_after(life: u32, value: u32) -> u32 {
    if value >= life {
        0
    } else {
        (life - value) as u32
    }
}

impl Armor {
    /// Life never exceeds what the armor was made with.
    pub open spec fn wf(&self) -> bool {
        self.life <= self.max_life
    }

    pub fn new(max_life: u32) -> (armor: Armor)
        ensures
            armor == (Armor { max_life, life: max_life }),
            armor.wf(),
    {
        Armor { max_life, life: max_life }
    }

    /// Takes a hit worth `value`; life stops at nothing.
    pub fn damage(&mut self, value: u32)
        ensures
            *final(self) == (Armor { life: life_after(old(self).life, value), ..*old(self) }),
            old(self).wf() ==> final(self).wf(),
    {
        self.life = self.life.saturating_sub(value);
    }
}

} // verus!
