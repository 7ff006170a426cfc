//! Entities that leave the world after a delay.

use vstd::prelude::*;
use crate::timer::{Timer, TimerMode};

verus! {

/// Removes its entity once the timer has run out; `recursive` says whether
/// the entity's children leave with it.
#[derive(Clone, Copy, Debug, PartialEq, Eq, Structural)]
pub struct DelayedDespawn {
    pub timer: Timer,
    pub recursive: bool,
}

/// How an entity is removed.
#[derive(Clone, Copy, Debug, PartialEq, Eq, Structural)]
pub enum Despawn {
    /// The entity and its children.
    Recursive,
    /// The entity alone.
    Single,
}

impl DelayedDespawn {
    /// A removal of the entity and its children after `delay` nanoseconds.
    pub fn with_children(delay: u64) -> (despawn: DelayedDespawn)
        ensures
            despawn == (DelayedDespawn {
                timer: Timer::spec_new(delay, TimerMode::Once),
                recursive: true,
            }),
    {
        DelayedDespawn { timer: Timer::new(delay, TimerMode::Once), recursive: true }
    }

    /// The removal that is due when `delta` nanoseconds have passed: the
    /// one that the tick that runs the timer out asks for.
    pub open spec fn spec_due(self, delta: u64) -> Option<Despawn> {
        if self.timer.spec_tick(delta).times_finished_this_tick > 0 {
            if self.recursive {
                Some(Despawn::Recursive)
            } else {
                Some(Despawn::Single)
            }
        } else {
            None
        }
    }
}

/// Lets `delta` nanoseconds pass for a delayed removal; returns the removal
/// to carry out now, if it is due.
pub fn update_delayed_despawn(delayed_despawn: &mut DelayedDespawn, delta: u64) -> (due: Option<
    Despawn,
>)
    ensures
        final(delayed_despawn).recursive == old(delayed_despawn).recursive,
        final(delayed_despawn).timer == old(delayed_despawn).timer.spec_tick(delta),
        due == old(delayed_despawn).spec_due(delta),
{
    delayed_despawn.timer.tick(delta);
    if delayed_despawn.timer.just_finished() {
        if delayed_despawn.recursive {
            Some(Despawn::Recursive)
        } else {
            Some(Despawn::Single)
        }
    } else {
        None
    }
}

} // verus!
