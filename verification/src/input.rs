//! Pointer gestures: from raw per-button samples to clicks, drags and hovers.

use vstd::prelude::*;
use crate::geometry::{
    clamp, div_floor_wide, floor_div, screen_closer_than, screen_distance_squared, ScreenPoint,
    WorldPoint, WorldVector,
};

verus! {

/// The pointer buttons that are followed.
#[derive(Clone, Copy, Debug, PartialEq, Eq, Structural)]
pub enum MouseButton {
    Left,
    Middle,
    Right,
}

/// How the pointer relates to the interactive background surface.
#[derive(Clone, Copy, Debug, PartialEq, Eq, Structural)]
pub enum Interaction {
    Clicked,
    Hovered,
    Outside,
}

/// The pointer's overall state, over all buttons.
#[derive(Clone, Copy, Debug, PartialEq, Eq, Structural)]
pub enum MouseState {
    Idle,
    Hovering,
    Dragging,
}

/// The gesture state of one button.
#[derive(Clone, Copy, Debug, PartialEq, Eq, Structural)]
pub enum MouseButtonState {
    Idle,
    Pressed { time: u64, position_window: ScreenPoint, position_world: WorldPoint },
    Dragging { origin: ScreenPoint, last_position: ScreenPoint, last_position_world: WorldPoint },
}

/// A semantic pointer event in world space.
#[derive(Clone, Copy, Debug, PartialEq, Eq, Structural)]
pub enum WorldMouseEvent {
    Click { button: MouseButton, position: WorldPoint },
    Hover { position: WorldPoint },
    Drag { button: MouseButton, offset: WorldVector, start_world: WorldPoint, end_world: WorldPoint },
}

/// Longest press that still counts as a click, in nanoseconds; a press of
/// this length or more is a drag.
pub const CLICK_DURATION: u64 = 200_000_000;

/// A press that has moved this many pixels or more is a drag.
pub const CLICK_DISTANCE: u32 = 10;

/// The unit of the entries of a `ScreenToWorld` map: an entry of this size
/// stands for the factor one.
pub const CAMERA_UNIT: i64 = 1024;

/// The linear part of the camera: how a displacement on the screen maps to
/// one in the world, by rotation and scale, in fixed point. The world
/// displacement of `(dx, dy)` is `(xx * dx + xy * dy, yx * dx + yy * dy)`
/// over `CAMERA_UNIT`, rounded down.
#[derive(Clone, Copy, Debug, PartialEq, Eq, Structural)]
pub struct ScreenToWorld {
    pub xx: i32,
    pub xy: i32,
    pub yx: i32,
    pub yy: i32,
}

impl ScreenToWorld {
    /// The world displacement of the screen displacement from `from` to
    /// `to`.
    pub open spec fn spec_offset(self, from: ScreenPoint, to: ScreenPoint) -> WorldVector {
        let dx = to.x - from.x;
        let dy = to.y - from.y;
        WorldVector {
            x: floor_div(self.xx * dx + self.xy * dy, CAMERA_UNIT as int) as i64,
            y: floor_div(self.yx * dx + self.yy * dy, CAMERA_UNIT as int) as i64,
        }
    }

    /// The bounds of a mapped displacement: each coordinate lies within
    /// 2^54 of nothing.
    pub proof fn lemma_offset_bounds(self, from: ScreenPoint, to: ScreenPoint)
        ensures
            -0x40_0000_0000_0000 <= floor_div(
                self.xx * (to.x - from.x) + self.xy * (to.y - from.y),
                CAMERA_UNIT as int,
            ) <= 0x40_0000_0000_0000,
            -0x40_0000_0000_0000 <= floor_div(
                self.yx * (to.x - from.x) + self.yy * (to.y - from.y),
                CAMERA_UNIT as int,
            ) <= 0x40_0000_0000_0000,
    {
        let dx = to.x - from.x;
        let dy = to.y - from.y;
        assert(-0x8000_0000 * 0x1_0000_0000 <= self.xx * dx <= 0x8000_0000 * 0x1_0000_0000
            && -0x8000_0000 * 0x1_0000_0000 <= self.xy * dy <= 0x8000_0000 * 0x1_0000_0000
            && -0x8000_0000 * 0x1_0000_0000 <= self.yx * dx <= 0x8000_0000 * 0x1_0000_0000
            && -0x8000_0000 * 0x1_0000_0000 <= self.yy * dy <= 0x8000_0000 * 0x1_0000_0000)
            by (nonlinear_arith)
            requires
                -0x8000_0000 <= self.xx < 0x8000_0000,
                -0x8000_0000 <= self.xy < 0x8000_0000,
                -0x8000_0000 <= self.yx < 0x8000_0000,
                -0x8000_0000 <= self.yy < 0x8000_0000,
                -0x1_0000_0000 < dx < 0x1_0000_0000,
                -0x1_0000_0000 < dy < 0x1_0000_0000,
        ;
    }

    /// Maps one step of a drag into the world.
    pub fn drag_step(&self, origin: ScreenPoint, last: ScreenPoint, now: ScreenPoint) -> (offset:
        WorldVector)
        ensures
            offset == spec_drag_step(*self, origin, last, now),
    {
        let whole = self.offset(origin, now);
        let before = self.offset(origin, last);
        proof {
            self.lemma_offset_bounds(origin, now);
            self.lemma_offset_bounds(origin, last);
        }
        WorldVector { x: whole.x - before.x, y: whole.y - before.y }
    }

    /// Maps the screen displacement from `from` to `to` into the world.
    pub fn offset(&self, from: ScreenPoint, to: ScreenPoint) -> (offset: WorldVector)
        ensures
            offset == self.spec_offset(from, to),
    {
        let dx: i128 = to.x as i128 - from.x as i128;
        let dy: i128 = to.y as i128 - from.y as i128;
        let x = scaled(self.xx, dx, self.xy, dy);
        let y = scaled(self.yx, dx, self.yy, dy);
        WorldVector { x, y }
    }
}

/// `(a * dx + b * dy) / CAMERA_UNIT`, rounded down.
fn scaled(a: i32, dx: i128, b: i32, dy: i128) -> (q: i64)
    requires
        -0x1_0000_0000 < dx < 0x1_0000_0000,
        -0x1_0000_0000 < dy < 0x1_0000_0000,
    ensures
        q == floor_div(a * dx + b * dy, CAMERA_UNIT as int),
{
    proof {
        assert(-0x8000_0000 * 0x1_0000_0000 <= a * dx <= 0x8000_0000 * 0x1_0000_0000
            && -0x8000_0000 * 0x1_0000_0000 <= b * dy <= 0x8000_0000 * 0x1_0000_0000)
            by (nonlinear_arith)
            requires
                -0x8000_0000 <= a < 0x8000_0000,
                -0x8000_0000 <= b < 0x8000_0000,
                -0x1_0000_0000 < dx < 0x1_0000_0000,
                -0x1_0000_0000 < dy < 0x1_0000_0000,
        ;
    }
    let sum: i128 = (a as i128) * dx + (b as i128) * dy;
    let q: i128 = div_floor_wide(sum, CAMERA_UNIT as i128);
    q as i64
}

impl MouseState {
    /// The rank of the state when several buttons disagree: dragging over
    /// hovering over idle.
    pub open spec fn spec_priority(self) -> u32 {
        match self {
            MouseState::Idle => 0,
            MouseState::Hovering => 1,
            MouseState::Dragging => 2,
        }
    }

    pub fn priority(&self) -> (rank: u32)
        ensures
            rank == self.spec_priority(),
    {
        match self {
            MouseState::Idle => 0,
            MouseState::Hovering => 1,
            MouseState::Dragging => 2,
        }
    }

    /// The state of higher rank; `other` where the ranks are equal.
    pub open spec fn spec_max(self, other: MouseState) -> MouseState {
        if other.spec_priority() >= self.spec_priority() {
            other
        } else {
            self
        }
    }

    pub fn max(self, other: MouseState) -> (highest: MouseState)
        ensures
            highest == self.spec_max(other),
    {
        if other.priority() >= self.priority() {
            other
        } else {
            self
        }
    }
}

/// The state of the pointer: where it is in the world, its overall state
/// and the gesture state of each button.
#[derive(Clone, Copy, Debug, PartialEq, Eq, Structural)]
pub struct WorldMouse {
    pub position_world: WorldPoint,
    pub state: MouseState,
    pub button_state_left: MouseButtonState,
    pub button_state_middle: MouseButtonState,
    pub button_state_right: MouseButtonState,
}

impl Default for WorldMouse {
    fn default() -> (mouse: WorldMouse)
        ensures
            mouse == (WorldMouse {
                position_world: WorldPoint { x: 0, y: 0 },
                state: MouseState::Idle,
                button_state_left: MouseButtonState::Idle,
                button_state_middle: MouseButtonState::Idle,
                button_state_right: MouseButtonState::Idle,
            }),
    {
        WorldMouse {
            position_world: WorldPoint { x: 0, y: 0 },
            state: MouseState::Idle,
            button_state_left: MouseButtonState::Idle,
            button_state_middle: MouseButtonState::Idle,
            button_state_right: MouseButtonState::Idle,
        }
    }
}

/// What one button did since the last sample.
#[derive(Clone, Copy, Debug, PartialEq, Eq, Structural)]
pub struct ButtonSample {
    pub just_pressed: bool,
    pub just_released: bool,
}

/// One raw sample of the pointer: the time in nanoseconds, the cursor on
/// the screen and in the world, the camera's linear part, how the pointer
/// relates to the background surface, and the three buttons.
#[derive(Clone, Copy, Debug, PartialEq, Eq, Structural)]
pub struct PointerSample {
    pub time: u64,
    pub position_window: ScreenPoint,
    pub position_world: WorldPoint,
    pub camera: ScreenToWorld,
    pub interaction: Interaction,
    pub left: ButtonSample,
    pub middle: ButtonSample,
    pub right: ButtonSample,
}

/// What a sample does to one button: its next gesture state, what it
/// contributes to the overall state, and the event it emits.
pub struct ButtonStep {
    pub state: MouseButtonState,
    pub overall: MouseState,
    pub event: Option<WorldMouseEvent>,
}

/// Whether a press that began at `press_time` at `press_position` still
/// counts as a click at `time` with the cursor at `position`: it is
/// shorter than `CLICK_DURATION` and has moved less than `CLICK_DISTANCE`.
pub open spec fn spec_suitable_for_click(
    press_time: u64,
    press_position: ScreenPoint,
    time: u64,
    position: ScreenPoint,
) -> bool {
    time - press_time < CLICK_DURATION && screen_distance_squared(position, press_position)
        < CLICK_DISTANCE * CLICK_DISTANCE
}

/// The world displacement of one step of a drag that began at `origin` on
/// the screen: that of the whole drag up to `now`, less that of the whole
/// drag up to `last`. The steps of one drag thus add up to the
/// displacement of the whole drag, whatever the camera's scale.
pub open spec fn spec_drag_step(
    camera: ScreenToWorld,
    origin: ScreenPoint,
    last: ScreenPoint,
    now: ScreenPoint,
) -> WorldVector {
    WorldVector {
        x: (camera.spec_offset(origin, now).x - camera.spec_offset(origin, last).x) as i64,
        y: (camera.spec_offset(origin, now).y - camera.spec_offset(origin, last).y) as i64,
    }
}

/// The step of one button.
///
/// A dragging button reports the movement since the last sample, and
/// returns to idle when released. A pressed button that is released
/// reports a click at the place of the press if the press still counts as
/// one, and else a drag since the press; one that is still held turns to
/// dragging, with a drag since the press, once the press no longer counts
/// as a click. An idle button does nothing.
pub open spec fn spec_button_step(
    button: MouseButton,
    state: MouseButtonState,
    released: bool,
    sample: PointerSample,
) -> ButtonStep {
    match state {
        MouseButtonState::Dragging { origin, last_position, last_position_world } => ButtonStep {
            state: if released {
                MouseButtonState::Idle
            } else {
                MouseButtonState::Dragging {
                    origin,
                    last_position: sample.position_window,
                    last_position_world: sample.position_world,
                }
            },
            overall: if released {
                MouseState::Idle
            } else {
                MouseState::Dragging
            },
            event: Some(
                WorldMouseEvent::Drag {
                    button,
                    offset: spec_drag_step(
                        sample.camera,
                        origin,
                        last_position,
                        sample.position_window,
                    ),
                    start_world: last_position_world,
                    end_world: sample.position_world,
                },
            ),
        },
        MouseButtonState::Pressed { time, position_window, position_world } => {
            let suitable = spec_suitable_for_click(
                time,
                position_window,
                sample.time,
                sample.position_window,
            );
            let drag = WorldMouseEvent::Drag {
                button,
                offset: sample.camera.spec_offset(position_window, sample.position_window),
                start_world: position_world,
                end_world: sample.position_world,
            };
            if released {
                ButtonStep {
                    state: MouseButtonState::Idle,
                    overall: MouseState::Idle,
                    event: Some(
                        if suitable {
                            WorldMouseEvent::Click { button, position: position_world }
                        } else {
                            drag
                        },
                    ),
                }
            } else if !suitable {
                ButtonStep {
                    state: MouseButtonState::Dragging {
                        origin: position_window,
                        last_position: sample.position_window,
                        last_position_world: sample.position_world,
                    },
                    overall: MouseState::Dragging,
                    event: Some(drag),
                }
            } else {
                ButtonStep { state, overall: MouseState::Idle, event: None }
            }
        },
        MouseButtonState::Idle => ButtonStep { state, overall: MouseState::Idle, event: None },
    }
}

/// `events` with the event of a step behind them, where it has one.
pub open spec fn spec_with_event(
    events: Seq<WorldMouseEvent>,
    event: Option<WorldMouseEvent>,
) -> Seq<WorldMouseEvent> {
    match event {
        Some(e) => events.push(e),
        None => events,
    }
}

/// Advances the gesture state of one button by a sample; returns what the
/// button contributes to the overall pointer state.
pub fn update_mouse_button_state(
    button: MouseButton,
    button_state: &mut MouseButtonState,
    released: bool,
    sample: &PointerSample,
    world_mouse_events: &mut Vec<WorldMouseEvent>,
) -> (overall: MouseState)
    ensures
        *final(button_state) == spec_button_step(button, *old(button_state), released, *sample).state,
        overall == spec_button_step(button, *old(button_state), released, *sample).overall,
        final(world_mouse_events)@ == spec_with_event(
            old(world_mouse_events)@,
            spec_button_step(button, *old(button_state), released, *sample).event,
        ),
{
    match *button_state {
        MouseButtonState::Dragging { origin, last_position, last_position_world } => {
            world_mouse_events.push(
                WorldMouseEvent::Drag {
                    button,
                    offset: sample.camera.drag_step(origin, last_position, sample.position_window),
                    start_world: last_position_world,
                    end_world: sample.position_world,
                },
            );
            if released {
                *button_state = MouseButtonState::Idle;
                MouseState::Idle
            } else {
                *button_state = MouseButtonState::Dragging {
                    origin,
                    last_position: sample.position_window,
                    last_position_world: sample.position_world,
                };
                MouseState::Dragging
            }
        },
        MouseButtonState::Pressed { time, position_window, position_world } => {
            let brief = sample.time < time || sample.time - time < CLICK_DURATION;
            let suitable_for_click = brief && screen_closer_than(
                sample.position_window,
                position_window,
                CLICK_DISTANCE,
            );
            if released {
                if suitable_for_click {
                    world_mouse_events.push(
                        WorldMouseEvent::Click { button, position: position_world },
                    );
                } else {
                    world_mouse_events.push(
                        WorldMouseEvent::Drag {
                            button,
                            offset: sample.camera.offset(position_window, sample.position_window),
                            start_world: position_world,
                            end_world: sample.position_world,
                        },
                    );
                }
                *button_state = MouseButtonState::Idle;
                MouseState::Idle
            } else if !suitable_for_click {
                world_mouse_events.push(
                    WorldMouseEvent::Drag {
                        button,
                        offset: sample.camera.offset(position_window, sample.position_window),
                        start_world: position_world,
                        end_world: sample.position_world,
                    },
                );
                *button_state = MouseButtonState::Dragging {
                    origin: position_window,
                    last_position: sample.position_window,
                    last_position_world: sample.position_world,
                };
                MouseState::Dragging
            } else {
                MouseState::Idle
            }
        },
        MouseButtonState::Idle => MouseState::Idle,
    }
}

/// The gesture state of a button once its press has been taken in: a
/// button that was just pressed holds the time and place of the press.
pub open spec fn spec_pressed(
    state: MouseButtonState,
    button: ButtonSample,
    sample: PointerSample,
) -> MouseButtonState {
    if button.just_pressed {
        MouseButtonState::Pressed {
            time: sample.time,
            position_window: sample.position_window,
            position_world: sample.position_world,
        }
    } else {
        state
    }
}

/// Whether a sample emits a hover event: the pointer is over the
/// background surface, no button was dragging at the last sample, and no
/// button is pressed: each is idle, and none was pressed just now.
pub open spec fn spec_hovers(mouse: WorldMouse, sample: PointerSample) -> bool {
    &&& sample.interaction != Interaction::Outside
    &&& mouse.state != MouseState::Dragging
    &&& mouse.button_state_left == MouseButtonState::Idle && !sample.left.just_pressed
    &&& mouse.button_state_middle == MouseButtonState::Idle && !sample.middle.just_pressed
    &&& mouse.button_state_right == MouseButtonState::Idle && !sample.right.just_pressed
}

/// The pointer once the sample's presses are taken in: over the surface,
/// each button that was just pressed holds its press; away from it, every
/// button is idle.
pub open spec fn spec_arm(mouse: WorldMouse, sample: PointerSample) -> WorldMouse {
    if sample.interaction == Interaction::Outside {
        WorldMouse {
            position_world: sample.position_world,
            state: MouseState::Idle,
            button_state_left: MouseButtonState::Idle,
            button_state_middle: MouseButtonState::Idle,
            button_state_right: MouseButtonState::Idle,
        }
    } else {
        WorldMouse {
            position_world: sample.position_world,
            state: if spec_hovers(mouse, sample) {
                MouseState::Hovering
            } else {
                mouse.state
            },
            button_state_left: spec_pressed(mouse.button_state_left, sample.left, sample),
            button_state_middle: spec_pressed(mouse.button_state_middle, sample.middle, sample),
            button_state_right: spec_pressed(mouse.button_state_right, sample.right, sample),
        }
    }
}

/// The pointer after a sample: its presses are taken in, each button has
/// made its step, and the overall state is the highest that a button
/// reports.
pub open spec fn spec_handle_mouse(mouse: WorldMouse, sample: PointerSample) -> WorldMouse {
    let armed = spec_arm(mouse, sample);
    let left = spec_button_step(
        MouseButton::Left,
        armed.button_state_left,
        sample.left.just_released,
        sample,
    );
    let middle = spec_button_step(
        MouseButton::Middle,
        armed.button_state_middle,
        sample.middle.just_released,
        sample,
    );
    let right = spec_button_step(
        MouseButton::Right,
        armed.button_state_right,
        sample.right.just_released,
        sample,
    );
    WorldMouse {
        position_world: sample.position_world,
        state: left.overall.spec_max(middle.overall).spec_max(right.overall),
        button_state_left: left.state,
        button_state_middle: middle.state,
        button_state_right: right.state,
    }
}

/// The events of a sample: a hover at the cursor where the sample hovers,
/// then the event of the left, of the middle and of the right button.
pub open spec fn spec_handle_events(mouse: WorldMouse, sample: PointerSample) -> Seq<
    WorldMouseEvent,
> {
    let armed = spec_arm(mouse, sample);
    let hover = if spec_hovers(mouse, sample) {
        seq![WorldMouseEvent::Hover { position: sample.position_world }]
    } else {
        Seq::empty()
    };
    let left = spec_with_event(
        hover,
        spec_button_step(
            MouseButton::Left,
            armed.button_state_left,
            sample.left.just_released,
            sample,
        ).event,
    );
    let middle = spec_with_event(
        left,
        spec_button_step(
            MouseButton::Middle,
            armed.button_state_middle,
            sample.middle.just_released,
            sample,
        ).event,
    );
    spec_with_event(
        middle,
        spec_button_step(
            MouseButton::Right,
            armed.button_state_right,
            sample.right.just_released,
            sample,
        ).event,
    )
}

/// Says whether a button is in no gesture.
fn is_idle(state: MouseButtonState) -> (idle: bool)
    ensures
        idle == (state == MouseButtonState::Idle),
{
    match state {
        MouseButtonState::Idle => true,
        _ => false,
    }
}

/// Takes in the presses of a sample and emits its hover event.
fn arm(world_mouse: &mut WorldMouse, sample: &PointerSample, world_mouse_events: &mut Vec<WorldMouseEvent>)
    ensures
        *final(world_mouse) == spec_arm(*old(world_mouse), *sample),
        final(world_mouse_events)@ == old(world_mouse_events)@ + (if spec_hovers(
            *old(world_mouse),
            *sample,
        ) {
            seq![WorldMouseEvent::Hover { position: sample.position_world }]
        } else {
            Seq::empty()
        }),
{
    world_mouse.position_world = sample.position_world;
    match sample.interaction {
        Interaction::Outside => {
            world_mouse.state = MouseState::Idle;
            world_mouse.button_state_left = MouseButtonState::Idle;
            world_mouse.button_state_middle = MouseButtonState::Idle;
            world_mouse.button_state_right = MouseButtonState::Idle;
        },
        _ => {
            let mouse_state = MouseButtonState::Pressed {
                time: sample.time,
                position_window: sample.position_window,
                position_world: sample.position_world,
            };
            if sample.left.just_pressed {
                world_mouse.button_state_left = mouse_state;
            }
            if sample.middle.just_pressed {
                world_mouse.button_state_middle = mouse_state;
            }
            if sample.right.just_pressed {
                world_mouse.button_state_right = mouse_state;
            }
            let dragging = match world_mouse.state {
                MouseState::Dragging => true,
                _ => false,
            };
            if !dragging && is_idle(world_mouse.button_state_left) && is_idle(
                world_mouse.button_state_middle,
            ) && is_idle(world_mouse.button_state_right) {
                world_mouse_events.push(WorldMouseEvent::Hover { position: sample.position_world });
                world_mouse.state = MouseState::Hovering;
            }
        },
    }
    proof {
        assert(world_mouse_events@ =~= old(world_mouse_events)@ + (if spec_hovers(
            *old(world_mouse),
            *sample,
        ) {
            seq![WorldMouseEvent::Hover { position: sample.position_world }]
        } else {
            Seq::empty()
        }));
    }
}

/// Takes in one raw sample of the pointer and emits its events.
pub fn handle_bg_input(
    world_mouse: &mut WorldMouse,
    sample: &PointerSample,
    world_mouse_events: &mut Vec<WorldMouseEvent>,
)
    ensures
        *final(world_mouse) == spec_handle_mouse(*old(world_mouse), *sample),
        final(world_mouse_events)@ == old(world_mouse_events)@ + spec_handle_events(
            *old(world_mouse),
            *sample,
        ),
{
    arm(world_mouse, sample, world_mouse_events);
    let mut state_left = world_mouse.button_state_left;
    let mut state_middle = world_mouse.button_state_middle;
    let mut state_right = world_mouse.button_state_right;
    let left = update_mouse_button_state(
        MouseButton::Left,
        &mut state_left,
        sample.left.just_released,
        sample,
        world_mouse_events,
    );
    let middle = update_mouse_button_state(
        MouseButton::Middle,
        &mut state_middle,
        sample.middle.just_released,
        sample,
        world_mouse_events,
    );
    let right = update_mouse_button_state(
        MouseButton::Right,
        &mut state_right,
        sample.right.just_released,
        sample,
        world_mouse_events,
    );
    world_mouse.button_state_left = state_left;
    world_mouse.button_state_middle = state_middle;
    world_mouse.button_state_right = state_right;
    world_mouse.state = left.max(middle).max(right);
    proof {
        lemma_events_behind(
            old(world_mouse_events)@,
            spec_handle_events(*old(world_mouse), *sample),
            world_mouse_events@,
            *old(world_mouse),
            *sample,
        );
    }
}

/// The events of a sample, emitted one by one behind `before`, are
/// `before` with the sample's events behind it.
proof fn lemma_events_behind(
    before: Seq<WorldMouseEvent>,
    emitted: Seq<WorldMouseEvent>,
    after: Seq<WorldMouseEvent>,
    mouse: WorldMouse,
    sample: PointerSample,
)
    requires
        emitted == spec_handle_events(mouse, sample),
        after == spec_with_event(
            spec_with_event(
                spec_with_event(
                    before + (if spec_hovers(mouse, sample) {
                        seq![WorldMouseEvent::Hover { position: sample.position_world }]
                    } else {
                        Seq::empty()
                    }),
                    spec_button_step(
                        MouseButton::Left,
                        spec_arm(mouse, sample).button_state_left,
                        sample.left.just_released,
                        sample,
                    ).event,
                ),
                spec_button_step(
                    MouseButton::Middle,
                    spec_arm(mouse, sample).button_state_middle,
                    sample.middle.just_released,
                    sample,
                ).event,
            ),
            spec_button_step(
                MouseButton::Right,
                spec_arm(mouse, sample).button_state_right,
                sample.right.just_released,
                sample,
            ).event,
        ),
    ensures
        after == before + emitted,
{
    let armed = spec_arm(mouse, sample);
    let e1 = spec_button_step(
        MouseButton::Left,
        armed.button_state_left,
        sample.left.just_released,
        sample,
    ).event;
    let e2 = spec_button_step(
        MouseButton::Middle,
        armed.button_state_middle,
        sample.middle.just_released,
        sample,
    ).event;
    let e3 = spec_button_step(
        MouseButton::Right,
        armed.button_state_right,
        sample.right.just_released,
        sample,
    ).event;
    let hover = if spec_hovers(mouse, sample) {
        seq![WorldMouseEvent::Hover { position: sample.position_world }]
    } else {
        Seq::empty()
    };
    lemma_with_event_behind(before, hover, e1);
    lemma_with_event_behind(before, spec_with_event(hover, e1), e2);
    lemma_with_event_behind(before, spec_with_event(spec_with_event(hover, e1), e2), e3);
}

/// Adding an event behind a concatenation adds it behind the second part.
proof fn lemma_with_event_behind(
    before: Seq<WorldMouseEvent>,
    emitted: Seq<WorldMouseEvent>,
    event: Option<WorldMouseEvent>,
)
    ensures
        spec_with_event(before + emitted, event) == before + spec_with_event(emitted, event),
{
    assert(spec_with_event(before + emitted, event) =~= before + spec_with_event(emitted, event));
}

/// The camera position after the drag events: each drag of the middle
/// button moves it against the drag, held to the range of world
/// coordinates.
pub open spec fn spec_drag_camera(camera: WorldPoint, events: Seq<WorldMouseEvent>) -> WorldPoint
    decreases events.len(),
{
    if events.len() == 0 {
        camera
    } else {
        let earlier = spec_drag_camera(camera, events.drop_last());
        match events.last() {
            WorldMouseEvent::Drag { button: MouseButton::Middle, offset, .. } => WorldPoint {
                x: clamp(earlier.x - offset.x, i64::MIN as int, i64::MAX as int) as i64,
                y: clamp(earlier.y - offset.y, i64::MIN as int, i64::MAX as int) as i64,
            },
            _ => earlier,
        }
    }
}

/// `a - b`, held to the range of world coordinates.
fn clamped_difference(a: i64, b: i64) -> (d: i64)
    ensures
        d == clamp(a - b, i64::MIN as int, i64::MAX as int),
{
    let wide: i128 = a as i128 - b as i128;
    if wide < i64::MIN as i128 {
        i64::MIN
    } else if wide > i64::MAX as i128 {
        i64::MAX
    } else {
        wide as i64
    }
}

/// Pans the camera by the drags of the middle button.
pub fn drag_camera(camera: &mut WorldPoint, world_mouse_events: &Vec<WorldMouseEvent>)
    ensures
        *final(camera) == spec_drag_camera(*old(camera), world_mouse_events@),
{
    let mut i: usize = 0;
    while i < world_mouse_events.len()
        invariant
            i <= world_mouse_events.len(),
            *camera == spec_drag_camera(*old(camera), world_mouse_events@.take(i as int)),
        decreases world_mouse_events.len() - i,
    {
        proof {
            assert(world_mouse_events@.take(i as int + 1).drop_last() =~= world_mouse_events@.take(
                i as int,
            ));
        }
        match world_mouse_events[i] {
            WorldMouseEvent::Drag { button: MouseButton::Middle, offset, .. } => {
                camera.x = clamped_difference(camera.x, offset.x);
                camera.y = clamped_difference(camera.y, offset.y);
            },
            _ => {},
        }
        i += 1;
    }
    proof {
        assert(world_mouse_events@.take(i as int) =~= world_mouse_events@);
    }
}

/// Whether a sample leaves the middle and right buttons alone.
pub open spec fn spec_left_only(sample: PointerSample) -> bool {
    &&& sample.interaction != Interaction::Outside
    &&& !sample.middle.just_pressed
    &&& !sample.middle.just_released
    &&& !sample.right.just_pressed
    &&& !sample.right.just_released
}

/// Whether no button of the pointer is in a gesture.
pub open spec fn spec_at_rest(mouse: WorldMouse) -> bool {
    &&& mouse.state != MouseState::Dragging
    &&& mouse.button_state_left == MouseButtonState::Idle
    &&& mouse.button_state_middle == MouseButtonState::Idle
    &&& mouse.button_state_right == MouseButtonState::Idle
}

/// A press of the left button that is released before `CLICK_DURATION` has
/// passed, less than `CLICK_DISTANCE` from where it began, gives one click
/// at the world position of the press and nothing else: neither a drag nor,
/// while the button is down, a hover.
pub proof fn lemma_quick_release_clicks(mouse: WorldMouse, press: PointerSample, release: PointerSample)
    requires
        spec_at_rest(mouse),
        spec_left_only(press),
        spec_left_only(release),
        press.left.just_pressed && !press.left.just_released,
        release.left.just_released && !release.left.just_pressed,
        spec_suitable_for_click(
            press.time,
            press.position_window,
            release.time,
            release.position_window,
        ),
    ensures
        spec_handle_events(mouse, press) == Seq::<WorldMouseEvent>::empty(),
        spec_handle_events(spec_handle_mouse(mouse, press), release) == seq![
            WorldMouseEvent::Click { button: MouseButton::Left, position: press.position_world },
        ],
        spec_at_rest(spec_handle_mouse(spec_handle_mouse(mouse, press), release)),
{
    let pressed = spec_handle_mouse(mouse, press);
    assert(screen_distance_squared(press.position_window, press.position_window) == 0);
    assert(spec_handle_events(mouse, press) =~= Seq::<WorldMouseEvent>::empty());
    assert(spec_handle_events(pressed, release) =~= seq![
        WorldMouseEvent::Click { button: MouseButton::Left, position: press.position_world },
    ]);
}

/// A press of the left button that is still held when `CLICK_DURATION` has
/// passed turns into a drag, however little it has moved: the sample that
/// finds it so emits a drag since the press and no click, and leaves the
/// button dragging; the release then emits the last drag, and neither a
/// click nor a hover.
pub proof fn lemma_long_press_drags(
    mouse: WorldMouse,
    press: PointerSample,
    held: PointerSample,
    release: PointerSample,
)
    requires
        spec_at_rest(mouse),
        spec_left_only(press),
        spec_left_only(held),
        spec_left_only(release),
        press.left.just_pressed && !press.left.just_released,
        !held.left.just_pressed && !held.left.just_released,
        release.left.just_released && !release.left.just_pressed,
        held.time - press.time >= CLICK_DURATION,
    ensures
        spec_handle_events(spec_handle_mouse(mouse, press), held) == seq![
            WorldMouseEvent::Drag {
                button: MouseButton::Left,
                offset: held.camera.spec_offset(press.position_window, held.position_window),
                start_world: press.position_world,
                end_world: held.position_world,
            },
        ],
        spec_handle_mouse(spec_handle_mouse(mouse, press), held).state == MouseState::Dragging,
        spec_handle_events(
            spec_handle_mouse(spec_handle_mouse(mouse, press), held),
            release,
        ) == seq![
            WorldMouseEvent::Drag {
                button: MouseButton::Left,
                offset: spec_drag_step(
                    release.camera,
                    press.position_window,
                    held.position_window,
                    release.position_window,
                ),
                start_world: held.position_world,
                end_world: release.position_world,
            },
        ],
        spec_at_rest(
            spec_handle_mouse(spec_handle_mouse(spec_handle_mouse(mouse, press), held), release),
        ),
{
    let pressed = spec_handle_mouse(mouse, press);
    let dragging = spec_handle_mouse(pressed, held);
    assert(screen_distance_squared(press.position_window, press.position_window) == 0);
    assert(spec_handle_events(pressed, held) =~= seq![
        WorldMouseEvent::Drag {
            button: MouseButton::Left,
            offset: held.camera.spec_offset(press.position_window, held.position_window),
            start_world: press.position_world,
            end_world: held.position_world,
        },
    ]);
    assert(spec_handle_events(dragging, release) =~= seq![
        WorldMouseEvent::Drag {
            button: MouseButton::Left,
            offset: spec_drag_step(
                release.camera,
                press.position_window,
                held.position_window,
                release.position_window,
            ),
            start_world: held.position_world,
            end_world: release.position_world,
        },
    ]);
}

/// While a button is pressed or dragging, no sample emits a hover.
pub proof fn lemma_no_hover_while_pressed(mouse: WorldMouse, sample: PointerSample)
    requires
        mouse.button_state_left != MouseButtonState::Idle || mouse.button_state_middle
            != MouseButtonState::Idle || mouse.button_state_right != MouseButtonState::Idle
            || sample.left.just_pressed || sample.middle.just_pressed || sample.right.just_pressed,
    ensures
        !spec_hovers(mouse, sample),
        forall|i: int|
            0 <= i < spec_handle_events(mouse, sample).len() ==> !(#[trigger] spec_handle_events(
                mouse,
                sample,
            )[i] is Hover),
{
}

/// The sum of the steps of a drag that began at `origin` and stood at
/// `last`, over the cursor positions that follow, under one camera: first
/// coordinate, then second.
pub open spec fn spec_drag_sum(
    camera: ScreenToWorld,
    origin: ScreenPoint,
    last: ScreenPoint,
    cursors: Seq<ScreenPoint>,
) -> (int, int)
    decreases cursors.len(),
{
    if cursors.len() == 0 {
        (0, 0)
    } else {
        let step = spec_drag_step(camera, origin, last, cursors.first());
        let rest = spec_drag_sum(camera, origin, cursors.first(), cursors.drop_first());
        (step.x + rest.0, step.y + rest.1)
    }
}

/// Under one camera, the steps of a drag add up to the displacement of the
/// whole drag: from the press to where the cursor is at the end.
pub proof fn lemma_drag_steps_add_up(
    camera: ScreenToWorld,
    origin: ScreenPoint,
    last: ScreenPoint,
    cursors: Seq<ScreenPoint>,
)
    requires
        cursors.len() > 0,
    ensures
        spec_drag_sum(camera, origin, last, cursors).0 == camera.spec_offset(
            origin,
            cursors.last(),
        ).x - camera.spec_offset(origin, last).x,
        spec_drag_sum(camera, origin, last, cursors).1 == camera.spec_offset(
            origin,
            cursors.last(),
        ).y - camera.spec_offset(origin, last).y,
        camera.spec_offset(origin, origin).x == 0,
        camera.spec_offset(origin, origin).y == 0,
    decreases cursors.len(),
{
    camera.lemma_offset_bounds(origin, last);
    camera.lemma_offset_bounds(origin, cursors.first());
    if cursors.len() > 1 {
        lemma_drag_steps_add_up(camera, origin, cursors.first(), cursors.drop_first());
        assert(cursors.drop_first().last() == cursors.last());
    } else {
        assert(cursors.drop_first().len() == 0);
        assert(cursors.first() == cursors.last());
        assert(spec_drag_sum(camera, origin, cursors.first(), cursors.drop_first()) == (0int, 0int));
    }
    let step = spec_drag_step(camera, origin, last, cursors.first());
    assert(step.x == camera.spec_offset(origin, cursors.first()).x - camera.spec_offset(
        origin,
        last,
    ).x);
    assert(step.y == camera.spec_offset(origin, cursors.first()).y - camera.spec_offset(
        origin,
        last,
    ).y);
}

/// A release of a button that is in no gesture is passed over.
pub proof fn lemma_stray_release_ignored(button: MouseButton, sample: PointerSample)
    ensures
        spec_button_step(button, MouseButtonState::Idle, true, sample).event.is_none(),
        spec_button_step(button, MouseButtonState::Idle, true, sample).state
            == MouseButtonState::Idle,
{
}

} // verus!
