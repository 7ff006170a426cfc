//! The toolbar and the building tool: which button is selected, and the
//! placement and demolition requests that clicks and drags of the tool
//! turn into.

use vstd::prelude::*;
use crate::coins::Balance;
use crate::entity::EntityId;
use crate::geometry::floor_div;
use crate::input::{Interaction, MouseButton, WorldMouseEvent};
use crate::machines::Machine;
use crate::placement::{MachineDeleteRequest, MachinePlaceRequest};
use crate::tiles::TilePosition;

verus! {

/// The number of steps of the line from `start` to `end`: the greater of
/// the two axis distances, and at least one.
pub open spec fn spec_line_steps(start: TilePosition, end: TilePosition) -> int {
    let dx = if end.x >= start.x {
        end.x - start.x
    } else {
        start.x - end.x
    };
    let dy = if end.y >= start.y {
        end.y - start.y
    } else {
        start.y - end.y
    };
    if dx >= dy && dx >= 1 {
        dx
    } else if dy >= 1 {
        dy
    } else {
        1
    }
}

/// The tile at step `i` of the line from `start` to `end`: `i` parts out
/// of the line's steps along the way, each coordinate rounded down.
pub open spec fn spec_line_tile(start: TilePosition, end: TilePosition, i: int) -> TilePosition {
    let steps = spec_line_steps(start, end);
    TilePosition {
        x: (start.x + floor_div((end.x - start.x) * i, steps)) as i32,
        y: (start.y + floor_div((end.y - start.y) * i, steps)) as i32,
    }
}

/// The tiles of the straight line from `start` towards `end`, one for each
/// step, from `start` on; the last step stops short of `end`.
pub open spec fn spec_drag_line(start: TilePosition, end: TilePosition) -> Seq<TilePosition> {
    Seq::new(spec_line_steps(start, end) as nat, |i: int| spec_line_tile(start, end, i))
}

/// A part of a distance lies between nothing and the whole distance.
proof fn lemma_part_between(d: int, i: int, steps: int)
    requires
        0 <= i < steps,
        -steps <= d <= steps,
    ensures
        d >= 0 ==> 0 <= floor_div(d * i, steps) <= d,
        d <= 0 ==> d <= floor_div(d * i, steps) <= 0,
{
    assert(d >= 0 ==> 0 <= d * i <= d * steps) by (nonlinear_arith)
        requires
            0 <= i < steps,
    ;
    assert(d <= 0 ==> d * steps <= d * i <= 0) by (nonlinear_arith)
        requires
            0 <= i < steps,
    ;
    vstd::arithmetic::div_mod::lemma_div_multiples_vanish(d, steps);
    assert((d * steps) / steps == d) by {
        assert(d * steps == steps * d) by (nonlinear_arith);
    }
    if d >= 0 {
        vstd::arithmetic::div_mod::lemma_div_is_ordered(0, d * i, steps);
        vstd::arithmetic::div_mod::lemma_div_is_ordered(d * i, d * steps, steps);
    } else {
        vstd::arithmetic::div_mod::lemma_div_is_ordered(d * steps, d * i, steps);
        vstd::arithmetic::div_mod::lemma_div_is_ordered(d * i, 0, steps);
    }
}

/// One coordinate of the tile at step `i`.
fn line_coordinate(start: i32, end: i32, i: i64, steps: i64) -> (c: i32)
    requires
        0 <= i < steps,
        -steps <= end - start <= steps,
        steps <= 0xffff_ffff,
    ensures
        c == start + floor_div((end - start) * i, steps as int),
{
    let d: i64 = end as i64 - start as i64;
    proof {
        lemma_part_between(d as int, i as int, steps as int);
        assert(-0xffff_ffff * 0xffff_ffff <= d * i <= 0xffff_ffff * 0xffff_ffff)
            by (nonlinear_arith)
            requires
                -0xffff_ffff <= d <= 0xffff_ffff,
                0 <= i <= 0xffff_ffff,
        ;
    }
    let part: i128 = crate::geometry::div_floor_wide((d as i128) * (i as i128), steps as i128);
    (start as i128 + part) as i32
}

/// Lists the tiles of the straight line from `start` towards `end`.
pub fn drag_line(start: TilePosition, end: TilePosition) -> (line: Vec<TilePosition>)
    ensures
        line@ == spec_drag_line(start, end),
{
    let dx: i64 = if end.x >= start.x {
        end.x as i64 - start.x as i64
    } else {
        start.x as i64 - end.x as i64
    };
    let dy: i64 = if end.y >= start.y {
        end.y as i64 - start.y as i64
    } else {
        start.y as i64 - end.y as i64
    };
    let steps: i64 = if dx >= dy && dx >= 1 {
        dx
    } else if dy >= 1 {
        dy
    } else {
        1
    };
    let mut line: Vec<TilePosition> = Vec::new();
    let mut i: i64 = 0;
    while i < steps
        invariant
            0 <= i <= steps,
            steps == spec_line_steps(start, end),
            steps <= 0xffff_ffff,
            -steps <= end.x - start.x <= steps,
            -steps <= end.y - start.y <= steps,
            line@.len() == i,
            forall|k: int| 0 <= k < i ==> #[trigger] line@[k] == spec_line_tile(start, end, k),
        decreases steps - i,
    {
        let x = line_coordinate(start.x, end.x, i, steps);
        let y = line_coordinate(start.y, end.y, i, steps);
        line.push(TilePosition { x, y });
        i += 1;
    }
    proof {
        assert(line@ =~= spec_drag_line(start, end));
    }
    line
}

/// The tiles that one event of the tool works on: the tile of a click of
/// the left button, the line of a drag of the left button, and none for
/// any other event.
pub open spec fn spec_tool_tiles(event: WorldMouseEvent) -> Seq<TilePosition> {
    match event {
        WorldMouseEvent::Click { button: MouseButton::Left, position } => seq![
            TilePosition::spec_from_world(position),
        ],
        WorldMouseEvent::Drag { button: MouseButton::Left, start_world, end_world, .. } => spec_drag_line(
            TilePosition::spec_from_world(start_world),
            TilePosition::spec_from_world(end_world),
        ),
        _ => Seq::empty(),
    }
}

/// The tiles that the events of the tool work on, in the order of the
/// events.
pub open spec fn spec_all_tool_tiles(events: Seq<WorldMouseEvent>) -> Seq<TilePosition>
    decreases events.len(),
{
    if events.len() == 0 {
        Seq::empty()
    } else {
        spec_all_tool_tiles(events.drop_last()) + spec_tool_tiles(events.last())
    }
}

/// Lists the tiles that one event of the tool works on.
pub fn tool_tiles(event: WorldMouseEvent) -> (tiles: Vec<TilePosition>)
    ensures
        tiles@ == spec_tool_tiles(event),
{
    match event {
        WorldMouseEvent::Click { button: MouseButton::Left, position } => {
            let mut tiles: Vec<TilePosition> = Vec::new();
            tiles.push(TilePosition::from_world(position));
            assert(tiles@ =~= spec_tool_tiles(event));
            tiles
        },
        WorldMouseEvent::Drag { button: MouseButton::Left, start_world, end_world, .. } => {
            drag_line(TilePosition::from_world(start_world), TilePosition::from_world(end_world))
        },
        _ => Vec::new(),
    }
}

/// A placement request for a machine of kind `machine` on each of
/// `tiles`.
pub open spec fn spec_place_requests(tiles: Seq<TilePosition>, machine: Machine) -> Seq<
    MachinePlaceRequest,
> {
    Seq::new(tiles.len(), |i: int| MachinePlaceRequest { machine, position: tiles[i] })
}

/// A demolition request for each of `tiles`.
pub open spec fn spec_delete_requests(tiles: Seq<TilePosition>) -> Seq<MachineDeleteRequest> {
    Seq::new(tiles.len(), |i: int| MachineDeleteRequest { position: tiles[i] })
}

/// Turns the clicks and drags of the building tool into placement
/// requests for the selected kind of machine: one for each tile they work
/// on. Without a selected kind, nothing is requested.
pub fn ghost_place_machine(
    machine_place_requests: &mut Vec<MachinePlaceRequest>,
    world_mouse_events: &Vec<WorldMouseEvent>,
    building_ghost: Option<Machine>,
)
    ensures
        building_ghost.is_none() ==> final(machine_place_requests)@ == old(machine_place_requests)@,
        building_ghost.is_some() ==> final(machine_place_requests)@ == old(
            machine_place_requests,
        )@ + spec_place_requests(spec_all_tool_tiles(world_mouse_events@), building_ghost.unwrap()),
{
    match building_ghost {
        Some(machine) => {
            let mut e: usize = 0;
            proof {
                assert(machine_place_requests@ =~= old(machine_place_requests)@
                    + spec_place_requests(
                    spec_all_tool_tiles(world_mouse_events@.take(0)),
                    machine,
                ));
            }
            while e < world_mouse_events.len()
                invariant
                    e <= world_mouse_events.len(),
                    machine_place_requests@ == old(machine_place_requests)@ + spec_place_requests(
                        spec_all_tool_tiles(world_mouse_events@.take(e as int)),
                        machine,
                    ),
                decreases world_mouse_events.len() - e,
            {
                let tiles = tool_tiles(world_mouse_events[e]);
                let ghost before = machine_place_requests@;
                let mut t: usize = 0;
                proof {
                    assert(before =~= before + spec_place_requests(tiles@.take(0), machine));
                }
                while t < tiles.len()
                    invariant
                        t <= tiles.len(),
                        machine_place_requests@ == before + spec_place_requests(
                            tiles@.take(t as int),
                            machine,
                        ),
                    decreases tiles.len() - t,
                {
                    machine_place_requests.push(
                        MachinePlaceRequest { machine, position: tiles[t] },
                    );
                    proof {
                        assert(machine_place_requests@ =~= before + spec_place_requests(
                            tiles@.take(t as int + 1),
                            machine,
                        ));
                    }
                    t += 1;
                }
                proof {
                    assert(tiles@.take(t as int) =~= tiles@);
                    let earlier = spec_all_tool_tiles(world_mouse_events@.take(e as int));
                    assert(world_mouse_events@.take(e as int + 1).drop_last()
                        =~= world_mouse_events@.take(e as int));
                    assert(spec_place_requests(earlier + tiles@, machine) =~= spec_place_requests(
                        earlier,
                        machine,
                    ) + spec_place_requests(tiles@, machine));
                    assert(machine_place_requests@ =~= old(machine_place_requests)@
                        + spec_place_requests(earlier + tiles@, machine));
                }
                e += 1;
            }
            proof {
                assert(world_mouse_events@.take(e as int) =~= world_mouse_events@);
            }
        },
        None => {},
    }
}

/// Turns the clicks and drags of the demolition tool into demolition
/// requests: one for each tile they work on. Without the tool, nothing is
/// requested.
pub fn ghost_delete_machine(
    machine_delete_requests: &mut Vec<MachineDeleteRequest>,
    world_mouse_events: &Vec<WorldMouseEvent>,
    delete_ghost: bool,
)
    ensures
        !delete_ghost ==> final(machine_delete_requests)@ == old(machine_delete_requests)@,
        delete_ghost ==> final(machine_delete_requests)@ == old(machine_delete_requests)@
            + spec_delete_requests(spec_all_tool_tiles(world_mouse_events@)),
{
    if !delete_ghost {
        return ;
    }
    let mut e: usize = 0;
    proof {
        assert(machine_delete_requests@ =~= old(machine_delete_requests)@ + spec_delete_requests(
            spec_all_tool_tiles(world_mouse_events@.take(0)),
        ));
    }
    while e < world_mouse_events.len()
        invariant
            e <= world_mouse_events.len(),
            machine_delete_requests@ == old(machine_delete_requests)@ + spec_delete_requests(
                spec_all_tool_tiles(world_mouse_events@.take(e as int)),
            ),
        decreases world_mouse_events.len() - e,
    {
        let tiles = tool_tiles(world_mouse_events[e]);
        let ghost before = machine_delete_requests@;
        let mut t: usize = 0;
        proof {
            assert(before =~= before + spec_delete_requests(tiles@.take(0)));
        }
        while t < tiles.len()
            invariant
                t <= tiles.len(),
                machine_delete_requests@ == before + spec_delete_requests(tiles@.take(t as int)),
            decreases tiles.len() - t,
        {
            machine_delete_requests.push(MachineDeleteRequest { position: tiles[t] });
            proof {
                assert(machine_delete_requests@ =~= before + spec_delete_requests(
                    tiles@.take(t as int + 1),
                ));
            }
            t += 1;
        }
        proof {
            assert(tiles@.take(t as int) =~= tiles@);
            let earlier = spec_all_tool_tiles(world_mouse_events@.take(e as int));
            assert(world_mouse_events@.take(e as int + 1).drop_last() =~= world_mouse_events@.take(
                e as int,
            ));
            assert(spec_delete_requests(earlier + tiles@) =~= spec_delete_requests(earlier)
                + spec_delete_requests(tiles@));
            assert(machine_delete_requests@ =~= old(machine_delete_requests)@
                + spec_delete_requests(earlier + tiles@));
        }
        e += 1;
    }
    proof {
        assert(world_mouse_events@.take(e as int) =~= world_mouse_events@);
    }
}

/// A button of the toolbar: whether it can be used and whether it is the
/// selected one.
#[derive(Clone, Copy, Debug, PartialEq, Eq, Structural)]
pub struct ToolbarButton {
    pub enabled: bool,
    pub selected: bool,
}

impl Default for ToolbarButton {
    fn default() -> (button: ToolbarButton)
        ensures
            button == (ToolbarButton { enabled: false, selected: false }),
    {
        ToolbarButton { enabled: false, selected: false }
    }
}

/// The toolbar button that is selected from now on, if any.
#[derive(Clone, Copy, Debug, PartialEq, Eq, Structural)]
pub struct ToolbarButtonSelectedEvent(pub Option<EntityId>);

/// The selection that a change of a button's interaction asks for: a click
/// on an enabled button selects it, or clears the selection if the button
/// was the selected one; anything else asks for nothing.
pub open spec fn spec_select_toolbar_button(
    entity: EntityId,
    interaction: Interaction,
    button: ToolbarButton,
) -> Option<ToolbarButtonSelectedEvent> {
    if button.enabled && interaction == Interaction::Clicked {
        if button.selected {
            Some(ToolbarButtonSelectedEvent(None))
        } else {
            Some(ToolbarButtonSelectedEvent(Some(entity)))
        }
    } else {
        None
    }
}

/// Decides the selection that a change of a button's interaction asks for.
pub fn select_toolbar_button(entity: EntityId, interaction: Interaction, button: &ToolbarButton) -> (event:
    Option<ToolbarButtonSelectedEvent>)
    ensures
        event == spec_select_toolbar_button(entity, interaction, *button),
{
    if !button.enabled {
        return None;
    }
    match interaction {
        Interaction::Clicked => {
            if button.selected {
                Some(ToolbarButtonSelectedEvent(None))
            } else {
                Some(ToolbarButtonSelectedEvent(Some(entity)))
            }
        },
        _ => None,
    }
}

/// Marks the button `entity` by a selection: it is selected exactly if
/// the selection names it.
pub fn update_selected_machine_button(
    entity: EntityId,
    button: &mut ToolbarButton,
    event: ToolbarButtonSelectedEvent,
)
    ensures
        final(button).enabled == old(button).enabled,
        final(button).selected == (event.0 == Some(entity)),
{
    button.selected = match event.0 {
        Some(selected) => selected == entity,
        None => false,
    };
}

/// Enables the button of a kind of machine exactly if the balance covers
/// the kind's cost.
pub fn update_balance_display(wallet: &Balance, machine: Machine, button: &mut ToolbarButton)
    ensures
        final(button).selected == old(button).selected,
        final(button).enabled == (wallet.coins.value() >= machine.spec_cost()),
{
    button.enabled = wallet.coins.covers(machine.cost());
}

/// Whether the events hold a click of the right button.
pub open spec fn spec_has_right_click(events: Seq<WorldMouseEvent>) -> bool {
    exists|i: int| 0 <= i < events.len() && spec_is_right_click(#[trigger] events[i])
}

/// Whether the event is a click of the right button.
pub open spec fn spec_is_right_click(event: WorldMouseEvent) -> bool {
    match event {
        WorldMouseEvent::Click { button: MouseButton::Right, .. } => true,
        _ => false,
    }
}

/// Clears the toolbar selection on a click of the right button while a
/// tool is selected; returns the selection to announce, if any.
pub fn hide_building_ghost_on_right_click(
    building_ghost: bool,
    world_mouse_events: &Vec<WorldMouseEvent>,
) -> (event: Option<ToolbarButtonSelectedEvent>)
    ensures
        event == (if building_ghost && spec_has_right_click(world_mouse_events@) {
            Some(ToolbarButtonSelectedEvent(None))
        } else {
            None
        }),
{
    if !building_ghost {
        return None;
    }
    let mut i: usize = 0;
    while i < world_mouse_events.len()
        invariant
            i <= world_mouse_events.len(),
            building_ghost,
            forall|j: int| 0 <= j < i ==> !spec_is_right_click(#[trigger] world_mouse_events[j]),
        decreases world_mouse_events.len() - i,
    {
        match world_mouse_events[i] {
            WorldMouseEvent::Click { button: MouseButton::Right, .. } => {
                assert(spec_is_right_click(world_mouse_events@[i as int]));
                return Some(ToolbarButtonSelectedEvent(None));
            },
            _ => {},
        }
        i += 1;
    }
    None
}

/// The tiles that the clicks of the right button among the events fall
/// on, in the order of the events.
pub open spec fn spec_right_click_tiles(events: Seq<WorldMouseEvent>) -> Seq<TilePosition>
    decreases events.len(),
{
    if events.len() == 0 {
        Seq::empty()
    } else {
        let earlier = spec_right_click_tiles(events.drop_last());
        match events.last() {
            WorldMouseEvent::Click { button: MouseButton::Right, position } => earlier.push(
                TilePosition::spec_from_world(position),
            ),
            _ => earlier,
        }
    }
}

/// Turns each click of the right button into a demolition request for the
/// tile it falls on, while no tool is in hand; with a tool in hand a right
/// click puts the tool away, and nothing is requested. The demolition of a
/// machine takes its spots with it.
pub fn demolish_on_right_click(
    machine_delete_requests: &mut Vec<MachineDeleteRequest>,
    world_mouse_events: &Vec<WorldMouseEvent>,
    building_ghost: bool,
)
    ensures
        building_ghost ==> final(machine_delete_requests)@ == old(machine_delete_requests)@,
        !building_ghost ==> final(machine_delete_requests)@ == old(machine_delete_requests)@
            + spec_delete_requests(spec_right_click_tiles(world_mouse_events@)),
{
    if building_ghost {
        return ;
    }
    let mut e: usize = 0;
    proof {
        assert(machine_delete_requests@ =~= old(machine_delete_requests)@ + spec_delete_requests(
            spec_right_click_tiles(world_mouse_events@.take(0)),
        ));
    }
    while e < world_mouse_events.len()
        invariant
            e <= world_mouse_events.len(),
            machine_delete_requests@ == old(machine_delete_requests)@ + spec_delete_requests(
                spec_right_click_tiles(world_mouse_events@.take(e as int)),
            ),
        decreases world_mouse_events.len() - e,
    {
        proof {
            assert(world_mouse_events@.take(e as int + 1).drop_last() =~= world_mouse_events@.take(
                e as int,
            ));
        }
        match world_mouse_events[e] {
            WorldMouseEvent::Click { button: MouseButton::Right, position } => {
                machine_delete_requests.push(
                    MachineDeleteRequest { position: TilePosition::from_world(position) },
                );
            },
            _ => {},
        }
        proof {
            assert(machine_delete_requests@ =~= old(machine_delete_requests)@
                + spec_delete_requests(
                spec_right_click_tiles(world_mouse_events@.take(e as int + 1)),
            ));
        }
        e += 1;
    }
    proof {
        assert(world_mouse_events@.take(e as int) =~= world_mouse_events@);
    }
}

} // verus!
