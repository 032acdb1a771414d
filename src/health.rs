//! Hit points of a combatant and what its health bar shows.
use vstd::prelude::*;

verus! {

/// Hit points. `max` is fixed at creation; `current` never exceeds it.
#[derive(Clone, Copy, Debug, PartialEq, Eq, Structural)]
pub struct Health {
    pub current: i16,
    pub max: i16,
}

/// The value of `current + delta`, kept within `[i16::MIN, max]`.
pub open spec fn mutated(current: int, max: int, delta: int) -> int {
    if current + delta > max {
        max
    } else if current + delta < i16::MIN {
        i16::MIN as int
    } else {
        current + delta
    }
}

impl Health {
    pub open spec fn wf(self) -> bool {
        self.current <= self.max
    }

    pub open spec fn is_dead_spec(self) -> bool {
        self.current <= 0
    }

    /// Full health.
    pub fn new(max: i16) -> (r: Health)
        ensures
            r.current == max,
            r.max == max,
            r.wf(),
    {
        Health { current: max, max }
    }

    /// Adds `delta` (negative for damage), keeping the result within
    /// `[i16::MIN, max]`.
    pub fn mutate(&mut self, delta: i16)
        requires
            old(self).wf(),
        ensures
            final(self).max == old(self).max,
            final(self).current as int == mutated(
                old(self).current as int,
                old(self).max as int,
                delta as int,
            ),
            final(self).wf(),
    {
        let sum: i32 = self.current as i32 + delta as i32;
        if sum > self.max as i32 {
            self.current = self.max;
        } else if sum < i16::MIN as i32 {
            self.current = i16::MIN;
        } else {
            self.current = sum as i16;
        }
    }

    /// A combatant at zero or fewer hit points is dead and gets removed.
    pub fn is_dead(&self) -> (r: bool)
        ensures
            r == self.is_dead_spec(),
    {
        self.current <= 0
    }
}

/// What a health bar should do after its owner's health changed.
#[derive(Clone, Copy, Debug, PartialEq, Eq, Structural)]
pub enum HealthBarUpdate {
    /// The owner died: remove it before anything renders it again.
    Despawn,
    /// Scale the bar to `current / max`; `visible` tells whether to show or
    /// hide it, or leave its visibility alone.
    Resize { current: i16, max: i16, visible: Option<bool> },
}

/// The reaction to a change of health. An enemy's bar shows only while it is
/// hurt; other bars keep their visibility.
pub fn update_healthbar(health: &Health, is_enemy: bool) -> (r: HealthBarUpdate)
    ensures
        health.is_dead_spec() ==> r == HealthBarUpdate::Despawn,
        !health.is_dead_spec() ==> r == (HealthBarUpdate::Resize {
            current: health.current,
            max: health.max,
            visible: if is_enemy {
                Some(health.current < health.max)
            } else {
                None
            },
        }),
{
    if health.is_dead() {
        return HealthBarUpdate::Despawn;
    }
    let visible = if is_enemy {
        Some(health.current < health.max)
    } else {
        None
    };
    HealthBarUpdate::Resize { current: health.current, max: health.max, visible }
}

} // verus!
