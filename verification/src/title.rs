//! The title screen: a click starts its fade-out, and the game begins when
//! the fade-out has run.

use vstd::prelude::*;
use crate::game::GameState;
use crate::input::Interaction;
use crate::timer::{Timer, TimerMode};

verus! {

/// Length of the title's fade-out, in nanoseconds.
pub const FADE_OUT_TIME: u64 = 300_000_000;

/// The running fade-out of the title screen.
#[derive(Clone, Copy, Debug, PartialEq, Eq, Structural)]
pub struct TitleFadeOut {
    pub timer: Timer,
}

/// What the title screen asks of its surroundings after a step.
#[derive(Clone, Copy, Debug, PartialEq, Eq, Structural)]
pub enum TitleAction {
    /// Nothing.
    Wait,
    /// Let the title's hints slide away.
    FadeOut,
    /// Remove the title and enter the given state.
    Enter(GameState),
}

/// A step of the title screen: the fade-out afterwards, and what to do.
pub struct TitleStep {
    pub fade_out: Option<TitleFadeOut>,
    pub action: TitleAction,
}

/// The step of the title screen when `delta` nanoseconds pass. Without a
/// fade-out, a click starts one and nothing else happens. A running
/// fade-out advances, and when it has run, it ends and the gameplay is
/// entered; clicks change nothing meanwhile.
pub open spec fn spec_title_step(
    fade_out: Option<TitleFadeOut>,
    interaction: Interaction,
    delta: u64,
) -> TitleStep {
    match fade_out {
        None => if interaction == Interaction::Clicked {
            TitleStep {
                fade_out: Some(
                    TitleFadeOut { timer: Timer::spec_new(FADE_OUT_TIME, TimerMode::Once) },
                ),
                action: TitleAction::FadeOut,
            }
        } else {
            TitleStep { fade_out: None, action: TitleAction::Wait }
        },
        Some(running) => if running.timer.spec_tick(delta).finished {
            TitleStep { fade_out: None, action: TitleAction::Enter(GameState::Gameplay) }
        } else {
            TitleStep {
                fade_out: Some(TitleFadeOut { timer: running.timer.spec_tick(delta) }),
                action: TitleAction::Wait,
            }
        },
    }
}

/// Advances the title screen by `delta` nanoseconds under the given
/// interaction with its background.
pub fn handle_title_click(fade_out: &mut Option<TitleFadeOut>, interaction: Interaction, delta: u64) -> (action:
    TitleAction)
    ensures
        *final(fade_out) == spec_title_step(*old(fade_out), interaction, delta).fade_out,
        action == spec_title_step(*old(fade_out), interaction, delta).action,
{
    match *fade_out {
        None => {
            match interaction {
                Interaction::Clicked => {
                    *fade_out = Some(
                        TitleFadeOut { timer: Timer::new(FADE_OUT_TIME, TimerMode::Once) },
                    );
                    TitleAction::FadeOut
                },
                _ => TitleAction::Wait,
            }
        },
        Some(running) => {
            let mut timer = running.timer;
            timer.tick(delta);
            if timer.finished() {
                *fade_out = None;
                TitleAction::Enter(GameState::Gameplay)
            } else {
                *fade_out = Some(TitleFadeOut { timer });
                TitleAction::Wait
            }
        },
    }
}

} // verus!
