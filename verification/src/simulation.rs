//! The whole simulation and its tick: gestures, then coins, then building,
//! then the spatial index, then machines, then payouts.

use vstd::prelude::*;
use crate::amount::{amount, Amount};
use crate::coins::{
    apply_pickups, click_coins_with, hover_coins, lemma_apply_pickups_keeps,
    lemma_click_spawns_len, spec_apply_pickups,
    spec_click_spawns, spec_hover_coins, spec_payout, spec_survivors, update_coins, Balance,
    CoinEntity, CoinPickup, Currency,
};
use crate::entity::{EntityAllocator, EntityId};
use crate::geometry::WorldPoint;
use crate::hud::{
    demolish_on_right_click, ghost_delete_machine, ghost_place_machine,
    hide_building_ghost_on_right_click, spec_all_tool_tiles, spec_delete_requests,
    spec_has_right_click, spec_place_requests, spec_right_click_tiles,
};
use crate::identity::{
    coin_ids, lemma_act_machines_ids, lemma_apply_pickups_ids, lemma_click_spawn_ids,
    lemma_delete_all_identified, lemma_grown, lemma_part_and_rest, lemma_place_all_identified,
    lemma_survivor_ids, lemma_update_spots_ids, lemma_within, machine_ids, spec_identified,
    spot_ids,
};
use crate::input::{
    drag_camera, handle_bg_input, spec_drag_camera, spec_handle_events, spec_handle_mouse,
    PointerSample, WorldMouse, WorldMouseEvent,
};
use crate::machines::{
    act_machines_with, spec_act_machines, CoinField, Machine,
    MachineEntity,
};
use crate::placement::{
    delete_machines, lemma_machines_off, lemma_place_all_next, place_machines,
    spec_delete_all, spec_place_all, spec_update_spots, update_spots, Grounds,
    MachineDeleteRequest, MachinePlaceRequest, Site, SpotEntity, UpdateSpotsRequest,
    ENTITIES_PER_PLACEMENT,
};
use crate::random::{random_scatters, Scatter};
use crate::tiles::{spec_index, track_tile_entities, TileIndex, TileTrackedEntities};
use crate::tracking::{spec_listed, tile_tracked};

verus! {

/// The tool that the player holds.
#[derive(Clone, Copy, Debug, PartialEq, Eq, Structural)]
pub enum Tool {
    /// No tool: clicks spawn coins.
    Hand,
    /// The building tool, for machines of one kind.
    Build(Machine),
    /// The demolition tool.
    Demolish,
}

/// What one tick takes in: the pointer's sample, if the cursor is in the
/// window, the time that has passed in nanoseconds, and the tool in hand.
#[derive(Clone, Copy, Debug, PartialEq, Eq, Structural)]
pub struct TickInput {
    pub sample: Option<PointerSample>,
    pub delta: u64,
    pub tool: Tool,
}

/// The state of the simulation.
pub struct Simulation {
    pub allocator: EntityAllocator,
    pub balance: Balance,
    pub coins: Vec<CoinEntity>,
    pub machines: Vec<MachineEntity>,
    pub spots: Vec<SpotEntity>,
    pub tiles: TileTrackedEntities,
    pub world_mouse: WorldMouse,
    pub camera: WorldPoint,
}

/// What one tick hands to its surroundings: the pointer events and pickup
/// requests that it went through, and whether the tool is to be put away.
pub struct TickReport {
    pub mouse_events: Vec<WorldMouseEvent>,
    pub coin_pickups: Vec<CoinPickup>,
    pub deselect: bool,
}

/// The state of the simulation, as values.
pub struct World {
    pub next: EntityId,
    pub balance: Currency,
    pub coins: Seq<CoinEntity>,
    pub machines: Seq<MachineEntity>,
    pub spots: Seq<SpotEntity>,
    pub index: TileIndex,
    pub mouse: WorldMouse,
    pub camera: WorldPoint,
}

/// The result of one tick, as values.
pub struct Outcome {
    pub world: World,
    pub mouse_events: Seq<WorldMouseEvent>,
    pub coin_pickups: Seq<CoinPickup>,
    pub deselect: bool,
}

impl View for Simulation {
    type V = World;

    open spec fn view(&self) -> World {
        World {
            next: self.allocator.next,
            balance: self.balance.coins,
            coins: self.coins@,
            machines: self.machines@,
            spots: self.spots@,
            index: self.tiles@,
            mouse: self.world_mouse,
            camera: self.camera,
        }
    }
}

/// The pointer events of a tick.
pub open spec fn spec_tick_events(mouse: WorldMouse, sample: Option<PointerSample>) -> Seq<
    WorldMouseEvent,
> {
    match sample {
        Some(s) => spec_handle_events(mouse, s),
        None => Seq::empty(),
    }
}

/// The pointer after a tick.
pub open spec fn spec_tick_mouse(mouse: WorldMouse, sample: Option<PointerSample>) -> WorldMouse {
    match sample {
        Some(s) => spec_handle_mouse(mouse, s),
        None => mouse,
    }
}

/// The placements that the tool in hand asks for.
pub open spec fn spec_tick_placements(events: Seq<WorldMouseEvent>, tool: Tool) -> Seq<
    MachinePlaceRequest,
> {
    match tool {
        Tool::Build(machine) => spec_place_requests(spec_all_tool_tiles(events), machine),
        _ => Seq::empty(),
    }
}

/// The demolitions of a tick: those that the demolition tool asks for, or,
/// with no tool in hand, one for the tile of each click of the right
/// button.
pub open spec fn spec_tick_demolitions(events: Seq<WorldMouseEvent>, tool: Tool) -> Seq<
    MachineDeleteRequest,
> {
    match tool {
        Tool::Demolish => spec_delete_requests(spec_all_tool_tiles(events)),
        Tool::Hand => spec_delete_requests(spec_right_click_tiles(events)),
        Tool::Build(_) => Seq::empty(),
    }
}

/// The most identifiers that a tick can need: one for each pointer event,
/// five for each placement, and one for each machine that may then stand.
pub open spec fn spec_tick_demand(world: World, input: TickInput) -> int {
    let events = spec_tick_events(world.mouse, input.sample);
    let placements = spec_tick_placements(events, input.tool);
    events.len() + (ENTITIES_PER_PLACEMENT + 1) * placements.len() + world.machines.len()
}

/// Whether the identifiers that are left cover what a tick can need.
pub open spec fn spec_tick_fits(world: World, input: TickInput) -> bool {
    world.next + spec_tick_demand(world, input) <= u64::MAX
}

/// The machines, each after `delta` nanoseconds.
pub open spec fn spec_machines_ticked(machines: Seq<MachineEntity>, delta: u64) -> Seq<
    MachineEntity,
> {
    Seq::new(machines.len(), |i: int| machines[i].spec_tick(delta))
}

/// One tick of the simulation.
///
/// The pointer's sample becomes pointer events, and the drags of the middle
/// button pan the camera. With no tool in hand, each click of the left
/// button spawns a coin; a hovering pointer asks for the pickup, with
/// payout, of the coins in its reach, found by the spatial index as it
/// stood, and these requests reach their coins at once, so that no machine
/// takes a coin that the pointer has picked up. The tool in hand turns the
/// events into placements or demolitions, and without a tool each click of
/// the right button demolishes what stands on its tile; these are carried
/// out, and the spots on the tiles they touch are shown or hidden. The
/// spatial index is then filled anew, from every coin, machine and spot.
/// The machines act on it, in their order, and at last the pickup requests
/// of the machines are applied and every coin
/// that was there when the tick began advances, paying into the balance
/// where its removal completes. The coins that the tick spawned stand
/// behind the others, and begin their grace period with the next tick.
pub open spec fn spec_tick(
    world: World,
    input: TickInput,
    click_scatters: Seq<Scatter>,
    machine_scatters: Seq<Scatter>,
) -> Outcome {
    let events = spec_tick_events(world.mouse, input.sample);
    let spawned = if input.tool == Tool::Hand {
        spec_click_spawns(events, click_scatters, world.next)
    } else {
        Seq::empty()
    };
    let coins = world.coins + spawned;
    let hovered = spec_hover_coins(coins, world.index, events);
    let site = spec_place_all(
        Site {
            balance: world.balance,
            machines: world.machines,
            spots: world.spots,
            next: (world.next + spawned.len()) as EntityId,
            updates: Seq::empty(),
        },
        spec_tick_placements(events, input.tool),
    );
    let grounds = spec_delete_all(
        Grounds { machines: site.machines, spots: site.spots, updates: site.updates },
        spec_tick_demolitions(events, input.tool),
    );
    let spots = spec_update_spots(grounds.spots, grounds.machines, grounds.updates);
    let index = spec_index(spec_listed(coins, grounds.machines, spots));
    let field = spec_act_machines(
        CoinField {
            coins: spec_apply_pickups(coins, hovered),
            pickups: Seq::empty(),
            next: site.next,
        },
        grounds.machines,
        index,
        input.delta,
        machine_scatters,
    );
    let applied = spec_apply_pickups(field.coins.take(world.coins.len() as int), field.pickups);
    Outcome {
        world: World {
            next: field.next,
            balance: amount(site.balance.value() + spec_payout(applied, input.delta)),
            coins: spec_survivors(applied, input.delta) + field.coins.skip(
                world.coins.len() as int,
            ),
            machines: spec_machines_ticked(grounds.machines, input.delta),
            spots,
            index,
            mouse: spec_tick_mouse(world.mouse, input.sample),
            camera: spec_drag_camera(world.camera, events),
        },
        mouse_events: events,
        coin_pickups: hovered + field.pickups,
        deselect: input.tool != Tool::Hand && spec_has_right_click(events),
    }
}

/// Placing adds at most one machine for each request.
pub proof fn lemma_place_all_len(site: Site, requests: Seq<MachinePlaceRequest>)
    ensures
        spec_place_all(site, requests).machines.len() <= site.machines.len() + requests.len(),
    decreases requests.len(),
{
    if requests.len() > 0 {
        lemma_place_all_len(site, requests.drop_last());
    }
}

/// Demolishing adds no machine.
pub proof fn lemma_delete_all_len(grounds: Grounds, requests: Seq<MachineDeleteRequest>)
    ensures
        spec_delete_all(grounds, requests).machines.len() <= grounds.machines.len(),
    decreases requests.len(),
{
    if requests.len() > 0 {
        lemma_delete_all_len(grounds, requests.drop_last());
        lemma_machines_off(
            spec_delete_all(grounds, requests.drop_last()).machines,
            requests.last().position,
        );
    }
}

/// Machines that act leave as many coins as there were, or more.
pub proof fn lemma_act_machines_coins(
    field: CoinField,
    machines: Seq<MachineEntity>,
    tiles: TileIndex,
    delta: u64,
    scatters: Seq<Scatter>,
)
    ensures
        spec_act_machines(field, machines, tiles, delta, scatters).coins.len() >= field.coins.len(),
    decreases machines.len(),
{
    if machines.len() > 0 {
        lemma_act_machines_coins(field, machines.drop_last(), tiles, delta, scatters);
    }
}

/// Whether every coin, machine and spot of the world has an identifier of
/// its own, below the next one to be handed out.
pub open spec fn spec_world_identified(world: World) -> bool {
    spec_identified(world.coins, world.machines, world.spots, world.next as int)
}

/// A tick keeps the identifiers apart: if every entity has an identifier
/// of its own before it, below the next one, then so after it.
pub proof fn lemma_tick_keeps_identified(
    world: World,
    input: TickInput,
    click_scatters: Seq<Scatter>,
    machine_scatters: Seq<Scatter>,
)
    requires
        spec_world_identified(world),
        spec_tick_fits(world, input),
    ensures
        spec_world_identified(spec_tick(world, input, click_scatters, machine_scatters).world),
{
    let events = spec_tick_events(world.mouse, input.sample);
    let placements = spec_tick_placements(events, input.tool);
    let spawned = if input.tool == Tool::Hand {
        spec_click_spawns(events, click_scatters, world.next)
    } else {
        Seq::empty()
    };
    let coins = world.coins + spawned;
    lemma_click_spawns_len(events, click_scatters, world.next);
    lemma_click_spawn_ids(events, click_scatters, world.next);
    let next1 = world.next + spawned.len();
    lemma_grown(world.coins, coins, world.machines, world.spots, world.next as int, next1);
    let hovered = spec_hover_coins(coins, world.index, events);
    let armed = spec_apply_pickups(coins, hovered);
    lemma_apply_pickups_ids(coins, hovered);
    let start = Site {
        balance: world.balance,
        machines: world.machines,
        spots: world.spots,
        next: next1 as EntityId,
        updates: Seq::empty(),
    };
    assert(next1 + ENTITIES_PER_PLACEMENT * placements.len() + world.machines.len()
        + placements.len() <= u64::MAX) by (nonlinear_arith)
        requires
            world.next + events.len() + (ENTITIES_PER_PLACEMENT + 1) * placements.len()
                + world.machines.len() <= u64::MAX,
            next1 <= world.next + events.len(),
    ;
    lemma_place_all_identified(armed, start, placements);
    lemma_place_all_len(start, placements);
    let site = spec_place_all(start, placements);
    let before_delete = Grounds { machines: site.machines, spots: site.spots, updates: site.updates };
    let demolitions = spec_tick_demolitions(events, input.tool);
    lemma_delete_all_identified(armed, before_delete, demolitions, site.next as int);
    lemma_delete_all_len(before_delete, demolitions);
    let grounds = spec_delete_all(before_delete, demolitions);
    let spots = spec_update_spots(grounds.spots, grounds.machines, grounds.updates);
    lemma_update_spots_ids(grounds.spots, grounds.machines, grounds.updates);
    let index = spec_index(spec_listed(coins, grounds.machines, spots));
    let field_before = CoinField { coins: armed, pickups: Seq::empty(), next: site.next };
    let field = spec_act_machines(
        field_before,
        grounds.machines,
        index,
        input.delta,
        machine_scatters,
    );
    lemma_act_machines_ids(field_before, grounds.machines, index, input.delta, machine_scatters);
    assert(spec_identified(armed, grounds.machines, spots, site.next as int));
    lemma_grown(armed, field.coins, grounds.machines, spots, site.next as int, field.next as int);
    let present = world.coins.len() as int;
    let applied = spec_apply_pickups(field.coins.take(present), field.pickups);
    lemma_apply_pickups_ids(field.coins.take(present), field.pickups);
    assert(crate::identity::spec_distinct(coin_ids(field.coins.take(present)))) by {
        let front = coin_ids(field.coins.take(present));
        assert forall|i: int, j: int| 0 <= i < front.len() && 0 <= j < front.len() && i != j implies #[trigger] front[i]
            != #[trigger] front[j] by {
            assert(coin_ids(field.coins)[i] != coin_ids(field.coins)[j]);
        }
    }
    lemma_survivor_ids(applied, input.delta);
    let kept = spec_survivors(applied, input.delta);
    lemma_part_and_rest(field.coins, present, kept);
    let after = spec_tick(world, input, click_scatters, machine_scatters).world;
    assert(after.coins == kept + field.coins.skip(present));
    let machines = spec_machines_ticked(grounds.machines, input.delta);
    assert(machine_ids(machines) =~= machine_ids(grounds.machines));
    lemma_within(
        coin_ids(after.coins),
        coin_ids(field.coins),
        machine_ids(grounds.machines),
        field.next as int,
    );
    lemma_within(coin_ids(after.coins), coin_ids(field.coins), spot_ids(spots), field.next as int);
}

impl Simulation {
    /// An empty world with the pointer at rest.
    pub fn new() -> (simulation: Simulation)
        ensures
            simulation@ == (World {
                next: 0,
                balance: Amount::Zero,
                coins: Seq::empty(),
                machines: Seq::empty(),
                spots: Seq::empty(),
                index: Map::empty(),
                mouse: WorldMouse {
                    position_world: WorldPoint { x: 0, y: 0 },
                    state: crate::input::MouseState::Idle,
                    button_state_left: crate::input::MouseButtonState::Idle,
                    button_state_middle: crate::input::MouseButtonState::Idle,
                    button_state_right: crate::input::MouseButtonState::Idle,
                },
                camera: WorldPoint { x: 0, y: 0 },
            }),
    {
        Simulation {
            allocator: EntityAllocator::new(),
            balance: Balance { coins: Amount::Zero },
            coins: Vec::new(),
            machines: Vec::new(),
            spots: Vec::new(),
            tiles: TileTrackedEntities::new(),
            world_mouse: WorldMouse {
                position_world: WorldPoint { x: 0, y: 0 },
                state: crate::input::MouseState::Idle,
                button_state_left: crate::input::MouseButtonState::Idle,
                button_state_middle: crate::input::MouseButtonState::Idle,
                button_state_right: crate::input::MouseButtonState::Idle,
            },
            camera: WorldPoint { x: 0, y: 0 },
        }
    }

    /// Advances the simulation by one tick, scattering the coins that
    /// clicks spawn by `click_scatters` and those that machines spawn by
    /// `machine_scatters`. Returns nothing, and changes nothing, where the
    /// identifiers that are left might not cover the tick.
    pub fn tick_with(
        &mut self,
        input: &TickInput,
        click_scatters: &Vec<Scatter>,
        machine_scatters: &Vec<Scatter>,
    ) -> (report: Option<TickReport>)
        ensures
            report.is_some() == spec_tick_fits(old(self)@, *input),
            report.is_none() ==> final(self)@ == old(self)@,
            report.is_some() ==> final(self)@ == spec_tick(
                old(self)@,
                *input,
                click_scatters@,
                machine_scatters@,
            ).world,
            report.is_some() ==> report.unwrap().mouse_events@ == spec_tick(
                old(self)@,
                *input,
                click_scatters@,
                machine_scatters@,
            ).mouse_events,
            report.is_some() ==> report.unwrap().coin_pickups@ == spec_tick(
                old(self)@,
                *input,
                click_scatters@,
                machine_scatters@,
            ).coin_pickups,
            report.is_some() ==> report.unwrap().deselect == spec_tick(
                old(self)@,
                *input,
                click_scatters@,
                machine_scatters@,
            ).deselect,
    {
        let ghost world = self@;
        let present = self.coins.len();
        let mut mouse = self.world_mouse;
        let mut mouse_events: Vec<WorldMouseEvent> = Vec::new();
        match input.sample {
            Some(sample) => {
                handle_bg_input(&mut mouse, &sample, &mut mouse_events);
            },
            None => {},
        }
        assert(mouse_events@ =~= spec_tick_events(world.mouse, input.sample));
        let mut placements: Vec<MachinePlaceRequest> = Vec::new();
        let mut demolitions: Vec<MachineDeleteRequest> = Vec::new();
        let building = match input.tool {
            Tool::Build(machine) => Some(machine),
            _ => None,
        };
        let demolishing = match input.tool {
            Tool::Demolish => true,
            _ => false,
        };
        let holding = match input.tool {
            Tool::Hand => false,
            _ => true,
        };
        ghost_place_machine(&mut placements, &mouse_events, building);
        ghost_delete_machine(&mut demolitions, &mouse_events, demolishing);
        demolish_on_right_click(&mut demolitions, &mouse_events, holding);
        assert(placements@ =~= spec_tick_placements(mouse_events@, input.tool));
        assert(demolitions@ =~= spec_tick_demolitions(mouse_events@, input.tool));
        let demand: u128 = mouse_events.len() as u128 + 6 * (placements.len() as u128)
            + self.machines.len() as u128;
        if self.allocator.next as u128 + demand > u64::MAX as u128 {
            return None;
        }
        let deselect = hide_building_ghost_on_right_click(holding, &mouse_events).is_some();
        self.world_mouse = mouse;
        drag_camera(&mut self.camera, &mouse_events);
        let ghost spawned = if input.tool == Tool::Hand {
            spec_click_spawns(mouse_events@, click_scatters@, world.next)
        } else {
            Seq::empty()
        };
        proof {
            lemma_click_spawns_len(mouse_events@, click_scatters@, world.next);
        }
        click_coins_with(holding, &mouse_events, click_scatters, &mut self.allocator, &mut self.coins);
        assert(self.coins@ =~= world.coins + spawned);
        let mut coin_pickups: Vec<CoinPickup> = Vec::new();
        hover_coins(&self.coins, &mouse_events, &self.tiles, &mut coin_pickups);
        assert(coin_pickups@ =~= spec_hover_coins(self.coins@, world.index, mouse_events@));
        let ghost hovered = coin_pickups@;
        proof {
            lemma_apply_pickups_keeps(self.coins@, hovered);
        }
        apply_pickups(&mut self.coins, &coin_pickups);
        let ghost armed = self.coins@;
        let ghost start = Site {
            balance: world.balance,
            machines: world.machines,
            spots: world.spots,
            next: (world.next + spawned.len()) as EntityId,
            updates: Seq::empty(),
        };
        let mut updates: Vec<UpdateSpotsRequest> = Vec::new();
        place_machines(
            &placements,
            &mut self.balance,
            &mut self.machines,
            &mut self.spots,
            &mut self.allocator,
            &mut updates,
        );
        let ghost site = spec_place_all(start, placements@);
        delete_machines(&demolitions, &mut self.machines, &mut self.spots, &mut updates);
        update_spots(&updates, &self.machines, &mut self.spots);
        let listed = tile_tracked(&self.coins, &self.machines, &self.spots);
        proof {
            assert(spec_listed(armed, self.machines@, self.spots@) =~= spec_listed(
                world.coins + spawned,
                self.machines@,
                self.spots@,
            ));
        }
        track_tile_entities(&listed, &mut self.tiles);
        proof {
            lemma_place_all_next(start, placements@);
            lemma_place_all_len(start, placements@);
            lemma_delete_all_len(
                Grounds { machines: site.machines, spots: site.spots, updates: site.updates },
                demolitions@,
            );
        }
        let ghost before_act = self.machines@;
        let mut machine_pickups: Vec<CoinPickup> = Vec::new();
        act_machines_with(
            &mut self.machines,
            &mut self.coins,
            &mut self.allocator,
            &self.tiles,
            input.delta,
            machine_scatters,
            &mut machine_pickups,
        );
        assert(self.machines@ =~= spec_machines_ticked(before_act, input.delta));
        proof {
            lemma_act_machines_coins(
                CoinField { coins: armed, pickups: Seq::empty(), next: site.next },
                before_act,
                self.tiles@,
                input.delta,
                machine_scatters@,
            );
        }
        let ghost acted = self.coins@;
        let mut fresh = self.coins.split_off(present);
        assert(self.coins@ =~= acted.take(present as int));
        assert(fresh@ =~= acted.skip(present as int));
        update_coins(&mut self.coins, &mut self.balance, &machine_pickups, input.delta);
        self.coins.append(&mut fresh);
        coin_pickups.append(&mut machine_pickups);
        Some(TickReport { mouse_events, coin_pickups, deselect })
    }

    /// Advances the simulation by one tick, scattering spawned coins by the
    /// random source.
    pub fn tick(&mut self, input: &TickInput) -> (report: Option<TickReport>)
        ensures
            report.is_some() == spec_tick_fits(old(self)@, *input),
            report.is_none() ==> final(self)@ == old(self)@,
            report.is_some() ==> exists|click_scatters: Seq<Scatter>, machine_scatters: Seq<Scatter>|
                {
                    let outcome = #[trigger] spec_tick(
                        old(self)@,
                        *input,
                        click_scatters,
                        machine_scatters,
                    );
                    &&& final(self)@ == outcome.world
                    &&& report.unwrap().mouse_events@ == outcome.mouse_events
                    &&& report.unwrap().coin_pickups@ == outcome.coin_pickups
                    &&& report.unwrap().deselect == outcome.deselect
                },
    {
        let mut mouse = self.world_mouse;
        let mut mouse_events: Vec<WorldMouseEvent> = Vec::new();
        match input.sample {
            Some(sample) => {
                handle_bg_input(&mut mouse, &sample, &mut mouse_events);
            },
            None => {},
        }
        let mut placements: Vec<MachinePlaceRequest> = Vec::new();
        let building = match input.tool {
            Tool::Build(machine) => Some(machine),
            _ => None,
        };
        ghost_place_machine(&mut placements, &mouse_events, building);
        let click_scatters = random_scatters(mouse_events.len());
        let machine_scatters = random_scatters(self.machines.len().saturating_add(placements.len()));
        self.tick_with(input, &click_scatters, &machine_scatters)
    }
}

} // verus!
