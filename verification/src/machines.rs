//! Machines: their catalog, their periodic actions on coins, and their
//! placement and demolition on the tile grid.

use vstd::prelude::*;
use crate::amount::{amount, Amount};
use crate::coins::{
    coin_index, spec_coin_index, Coin, CoinEntity, CoinPickup, Currency, Money, Particle,
    COIN_DAMPING, QUARTER_TURN,
};
use crate::entity::{EntityAllocator, EntityId};
use crate::geometry::WorldPoint;
use crate::random::{
    random_scatters, scatter_at, spec_scatter_at, spec_unit_sample, unit_sample, Scatter,
};
use crate::tiles::{
    spec_entities_in, TileIndex, TilePosition, TileTrackedEntities, HALF_TILE_SIZE, TILE_SIZE,
};
use crate::timer::{Timer, NANOS_PER_MILLI};

verus! {

/// The kinds of machine.
#[derive(Clone, Copy, Debug, PartialEq, Eq, Structural)]
pub enum Machine {
    Miner,
    Collector,
    ConveyorUp,
    ConveyorDown,
    ConveyorLeft,
    ConveyorRight,
    Adder,
    Multiplier,
}

/// The sides of a machine's tile at which it has a connector spot.
#[derive(Clone, Copy, Debug, PartialEq, Eq, Structural)]
pub struct SpotSides {
    pub up: bool,
    pub down: bool,
    pub left: bool,
    pub right: bool,
}

impl Machine {
    /// The price of a machine of this kind.
    pub open spec fn spec_cost(self) -> u128 {
        match self {
            Machine::Miner => 20,
            Machine::Collector => 200,
            Machine::ConveyorUp => 10,
            Machine::ConveyorDown => 10,
            Machine::ConveyorLeft => 10,
            Machine::ConveyorRight => 10,
            Machine::Adder => 500,
            Machine::Multiplier => 1000,
        }
    }

    /// The time between two actions of a machine of this kind, in
    /// nanoseconds.
    pub open spec fn spec_action_period(self) -> u64 {
        match self {
            Machine::Miner => 1_000_000_000,
            Machine::Collector => 100_000_000,
            Machine::ConveyorUp => 200_000_000,
            Machine::ConveyorDown => 200_000_000,
            Machine::ConveyorLeft => 200_000_000,
            Machine::ConveyorRight => 200_000_000,
            Machine::Adder => 1_000_000_000,
            Machine::Multiplier => 1_000_000_000,
        }
    }

    /// The sides at which a machine of this kind has a connector spot.
    pub open spec fn spec_spot_sides(self) -> SpotSides {
        match self {
            Machine::Miner => SpotSides { up: false, down: true, left: false, right: false },
            Machine::Collector => SpotSides { up: true, down: false, left: false, right: false },
            Machine::ConveyorUp => SpotSides { up: true, down: true, left: false, right: false },
            Machine::ConveyorDown => SpotSides { up: true, down: true, left: false, right: false },
            Machine::ConveyorLeft => SpotSides { up: false, down: false, left: true, right: true },
            Machine::ConveyorRight => SpotSides { up: false, down: false, left: true, right: true },
            Machine::Adder => SpotSides { up: false, down: true, left: true, right: true },
            Machine::Multiplier => SpotSides { up: false, down: true, left: true, right: true },
        }
    }

    /// The heading, in angle units, in which a machine of this kind ejects
    /// the coins it spawns: a miner downward, a conveyor the way it runs,
    /// an adder and a multiplier upward.
    pub open spec fn spec_eject_heading(self) -> i32 {
        match self {
            Machine::Miner => (-QUARTER_TURN) as i32,
            Machine::Collector => (-QUARTER_TURN) as i32,
            Machine::ConveyorUp => QUARTER_TURN,
            Machine::ConveyorDown => (-QUARTER_TURN) as i32,
            Machine::ConveyorLeft => (2 * QUARTER_TURN) as i32,
            Machine::ConveyorRight => 0,
            Machine::Adder => QUARTER_TURN,
            Machine::Multiplier => QUARTER_TURN,
        }
    }

    /// Every kind of machine, in catalog order.
    pub fn list() -> (kinds: [Machine; 8])
        ensures
            kinds@ == seq![
                Machine::Miner,
                Machine::Collector,
                Machine::ConveyorUp,
                Machine::ConveyorDown,
                Machine::ConveyorLeft,
                Machine::ConveyorRight,
                Machine::Adder,
                Machine::Multiplier,
            ],
    {
        let kinds = [
            Machine::Miner,
            Machine::Collector,
            Machine::ConveyorUp,
            Machine::ConveyorDown,
            Machine::ConveyorLeft,
            Machine::ConveyorRight,
            Machine::Adder,
            Machine::Multiplier,
        ];
        assert(kinds@ =~= seq![
            Machine::Miner,
            Machine::Collector,
            Machine::ConveyorUp,
            Machine::ConveyorDown,
            Machine::ConveyorLeft,
            Machine::ConveyorRight,
            Machine::Adder,
            Machine::Multiplier,
        ]);
        kinds
    }

    /// The name of the kind, as the toolbar shows it.
    pub open spec fn spec_name(self) -> Seq<char> {
        match self {
            Machine::Miner => "Miner"@,
            Machine::Collector => "Collector"@,
            Machine::ConveyorUp => "Up Conveyor"@,
            Machine::ConveyorDown => "Down Conveyor"@,
            Machine::ConveyorLeft => "Left Conveyor"@,
            Machine::ConveyorRight => "Right Conveyor"@,
            Machine::Adder => "Adder"@,
            Machine::Multiplier => "Multiplier"@,
        }
    }

    pub fn name(&self) -> (name: &'static str)
        ensures
            name@ == self.spec_name(),
    {
        match self {
            Machine::Miner => "Miner",
            Machine::Collector => "Collector",
            Machine::ConveyorUp => "Up Conveyor",
            Machine::ConveyorDown => "Down Conveyor",
            Machine::ConveyorLeft => "Left Conveyor",
            Machine::ConveyorRight => "Right Conveyor",
            Machine::Adder => "Adder",
            Machine::Multiplier => "Multiplier",
        }
    }

    pub fn cost(&self) -> (cost: u128)
        ensures
            cost == self.spec_cost(),
    {
        match self {
            Machine::Miner => 20,
            Machine::Collector => 200,
            Machine::ConveyorUp => 10,
            Machine::ConveyorDown => 10,
            Machine::ConveyorLeft => 10,
            Machine::ConveyorRight => 10,
            Machine::Adder => 500,
            Machine::Multiplier => 1000,
        }
    }

    pub fn action_period(&self) -> (period: u64)
        ensures
            period == self.spec_action_period(),
    {
        match self {
            Machine::Miner => 1000 * NANOS_PER_MILLI,
            Machine::Collector => 100 * NANOS_PER_MILLI,
            Machine::ConveyorUp => 200 * NANOS_PER_MILLI,
            Machine::ConveyorDown => 200 * NANOS_PER_MILLI,
            Machine::ConveyorLeft => 200 * NANOS_PER_MILLI,
            Machine::ConveyorRight => 200 * NANOS_PER_MILLI,
            Machine::Adder => 1000 * NANOS_PER_MILLI,
            Machine::Multiplier => 1000 * NANOS_PER_MILLI,
        }
    }

    pub fn spot_sides(&self) -> (sides: SpotSides)
        ensures
            sides == self.spec_spot_sides(),
    {
        match self {
            Machine::Miner => SpotSides { up: false, down: true, left: false, right: false },
            Machine::Collector => SpotSides { up: true, down: false, left: false, right: false },
            Machine::ConveyorUp => SpotSides { up: true, down: true, left: false, right: false },
            Machine::ConveyorDown => SpotSides { up: true, down: true, left: false, right: false },
            Machine::ConveyorLeft => SpotSides { up: false, down: false, left: true, right: true },
            Machine::ConveyorRight => SpotSides { up: false, down: false, left: true, right: true },
            Machine::Adder => SpotSides { up: false, down: true, left: true, right: true },
            Machine::Multiplier => SpotSides { up: false, down: true, left: true, right: true },
        }
    }

    pub fn eject_heading(&self) -> (heading: i32)
        ensures
            heading == self.spec_eject_heading(),
    {
        match self {
            Machine::Miner => -QUARTER_TURN,
            Machine::Collector => -QUARTER_TURN,
            Machine::ConveyorUp => QUARTER_TURN,
            Machine::ConveyorDown => -QUARTER_TURN,
            Machine::ConveyorLeft => 2 * QUARTER_TURN,
            Machine::ConveyorRight => 0,
            Machine::Adder => QUARTER_TURN,
            Machine::Multiplier => QUARTER_TURN,
        }
    }
}

/// A machine in place, with the timer that paces its actions.
#[derive(Clone, Copy, Debug, PartialEq, Eq, Structural)]
pub struct PlacedMachine {
    pub machine: Machine,
    pub action_timer: Timer,
}

/// A placed machine in the world, on its tile.
#[derive(Clone, Copy, Debug, PartialEq, Eq, Structural)]
pub struct MachineEntity {
    pub id: EntityId,
    pub position: TilePosition,
    pub placed: PlacedMachine,
}

/// The world point at the middle of a tile, where its machine stands.
pub open spec fn spec_tile_center(tile: TilePosition) -> WorldPoint {
    WorldPoint {
        x: (tile.x * TILE_SIZE + HALF_TILE_SIZE) as i64,
        y: (tile.y * TILE_SIZE + HALF_TILE_SIZE) as i64,
    }
}

pub fn tile_center(tile: TilePosition) -> (center: WorldPoint)
    ensures
        center == spec_tile_center(tile),
{
    let origin = tile.to_world();
    WorldPoint { x: origin.x + HALF_TILE_SIZE, y: origin.y + HALF_TILE_SIZE }
}

/// The place, among `coins`, of the coin with the identifier `entity`, if
/// that coin can be picked up.
pub open spec fn spec_pickable_coin(coins: Seq<CoinEntity>, entity: EntityId) -> Option<int> {
    match spec_coin_index(coins, entity) {
        Some(i) => if coins[i].coin.spec_pickable() {
            Some(i)
        } else {
            None
        },
        None => None,
    }
}

/// The place of the first entity of `entities` that is a coin that can be
/// picked up.
pub open spec fn spec_find_among(coins: Seq<CoinEntity>, entities: Seq<EntityId>) -> Option<int>
    decreases entities.len(),
{
    if entities.len() == 0 {
        None
    } else {
        match spec_pickable_coin(coins, entities.first()) {
            Some(i) => Some(i),
            None => spec_find_among(coins, entities.drop_first()),
        }
    }
}

/// The place of the first coin filed under `tile` that can be picked up.
pub open spec fn spec_find_coin(
    coins: Seq<CoinEntity>,
    tiles: TileIndex,
    tile: TilePosition,
) -> Option<int> {
    spec_find_among(coins, spec_entities_in(tiles, tile))
}

/// A coin that `spec_find_among` finds is one of `coins`.
pub proof fn lemma_find_among(coins: Seq<CoinEntity>, entities: Seq<EntityId>)
    ensures
        match spec_find_among(coins, entities) {
            Some(i) => 0 <= i < coins.len() && coins[i].coin.spec_pickable() && entities.contains(
                coins[i].id,
            ),
            None => true,
        },
    decreases entities.len(),
{
    if entities.len() > 0 {
        crate::coins::lemma_coin_index(coins, entities.first());
        lemma_find_among(coins, entities.drop_first());
        match spec_pickable_coin(coins, entities.first()) {
            Some(i) => {
                assert(entities[0] == coins[i].id);
            },
            None => {
                match spec_find_among(coins, entities.drop_first()) {
                    Some(i) => {
                        let k = choose|k: int|
                            0 <= k < entities.drop_first().len() && entities.drop_first()[k]
                                == coins[i].id;
                        assert(entities[k + 1] == coins[i].id);
                    },
                    None => {},
                }
            },
        }
    }
}

/// Finds the first coin filed under `tile_pos` that can be picked up.
pub fn find_coin(coins: &Vec<CoinEntity>, tiles: &TileTrackedEntities, tile_pos: TilePosition) -> (found:
    Option<usize>)
    ensures
        found.is_some() == spec_find_coin(coins@, tiles@, tile_pos).is_some(),
        found.is_some() ==> found.unwrap() as int == spec_find_coin(
            coins@,
            tiles@,
            tile_pos,
        ).unwrap(),
        found.is_some() ==> found.unwrap() < coins.len(),
{
    match tiles.get_entities_in_tile(tile_pos) {
        Some(entities) => {
            let mut k: usize = 0;
            proof {
                assert(entities@.skip(0) =~= entities@);
            }
            while k < entities.len()
                invariant
                    k <= entities.len(),
                    entities@ == spec_entities_in(tiles@, tile_pos),
                    spec_find_among(coins@, entities@) == spec_find_among(
                        coins@,
                        entities@.skip(k as int),
                    ),
                decreases entities.len() - k,
            {
                proof {
                    assert(entities@.skip(k as int).first() == entities@[k as int]);
                    assert(entities@.skip(k as int).drop_first() =~= entities@.skip(k as int + 1));
                    crate::coins::lemma_coin_index(coins@, entities@[k as int]);
                }
                match coin_index(coins, entities[k]) {
                    Some(i) => {
                        if coins[i].coin.pickable() {
                            return Some(i);
                        }
                    },
                    None => {},
                }
                k += 1;
            }
            proof {
                assert(entities@.skip(k as int).len() == 0);
            }
            None
        },
        None => None,
    }
}

/// What one action of a machine does: the coins it takes, by their place
/// among the coins, whether their value is paid into the balance, and the
/// value of the coin it spawns.
#[derive(Clone, Debug, PartialEq, Eq)]
pub struct MachineAction {
    pub first: Option<usize>,
    pub second: Option<usize>,
    pub add_money: bool,
    pub output: Option<Currency>,
}

/// The action that does nothing.
pub open spec fn idle_action() -> MachineAction {
    MachineAction { first: None, second: None, add_money: false, output: None }
}

/// The action that relays the coin at place `found`, or does nothing where
/// there is none.
pub open spec fn relay_action(coins: Seq<CoinEntity>, found: Option<int>) -> MachineAction {
    match found {
        Some(i) => MachineAction {
            first: Some(i as usize),
            second: None,
            add_money: false,
            output: Some(coins[i].money.0),
        },
        None => idle_action(),
    }
}

/// `first`, or `second` where `first` found nothing.
pub open spec fn or_else(first: Option<int>, second: Option<int>) -> Option<int> {
    if first.is_some() {
        first
    } else {
        second
    }
}

impl Machine {
    /// The action of a machine of this kind on the tile `tile`.
    ///
    /// A miner spawns a coin of value 1. A collector takes a coin from the
    /// tile above it and has it paid into the balance. A conveyor takes a
    /// coin from its own tile, or else from the tile behind it, and spawns
    /// one of the same value. An adder or multiplier takes one coin from
    /// the tile to its left and one from the tile to its right, both or
    /// neither, and spawns one coin of their sum or product.
    pub open spec fn spec_plan(
        self,
        tile: TilePosition,
        coins: Seq<CoinEntity>,
        tiles: TileIndex,
    ) -> MachineAction {
        let here = spec_find_coin(coins, tiles, tile);
        let above = spec_find_coin(coins, tiles, tile.spec_offset(0, 1));
        let below = spec_find_coin(coins, tiles, tile.spec_offset(0, -1));
        let left = spec_find_coin(coins, tiles, tile.spec_offset(-1, 0));
        let right = spec_find_coin(coins, tiles, tile.spec_offset(1, 0));
        match self {
            Machine::Miner => MachineAction {
                first: None,
                second: None,
                add_money: false,
                output: Some(amount(1)),
            },
            Machine::Collector => match above {
                Some(i) => MachineAction {
                    first: Some(i as usize),
                    second: None,
                    add_money: true,
                    output: None,
                },
                None => idle_action(),
            },
            Machine::ConveyorUp => relay_action(coins, or_else(here, below)),
            Machine::ConveyorDown => relay_action(coins, or_else(here, above)),
            Machine::ConveyorLeft => relay_action(coins, or_else(here, right)),
            Machine::ConveyorRight => relay_action(coins, or_else(here, left)),
            Machine::Adder => if left.is_some() && right.is_some() {
                MachineAction {
                    first: Some(left.unwrap() as usize),
                    second: Some(right.unwrap() as usize),
                    add_money: false,
                    output: Some(
                        amount(
                            coins[left.unwrap()].money.0.value()
                                + coins[right.unwrap()].money.0.value(),
                        ),
                    ),
                }
            } else {
                idle_action()
            },
            Machine::Multiplier => if left.is_some() && right.is_some() {
                MachineAction {
                    first: Some(left.unwrap() as usize),
                    second: Some(right.unwrap() as usize),
                    add_money: false,
                    output: Some(
                        amount(
                            coins[left.unwrap()].money.0.value()
                                * coins[right.unwrap()].money.0.value(),
                        ),
                    ),
                }
            } else {
                idle_action()
            },
        }
    }

    /// Decides the action of a machine of this kind on the tile `tile`.
    pub fn plan(&self, tile: TilePosition, coins: &Vec<CoinEntity>, tiles: &TileTrackedEntities) -> (action:
        MachineAction)
        ensures
            action == self.spec_plan(tile, coins@, tiles@),
            action.first.is_some() ==> action.first.unwrap() < coins.len(),
            action.second.is_some() ==> action.second.unwrap() < coins.len(),
    {
        match self {
            Machine::Miner => MachineAction {
                first: None,
                second: None,
                add_money: false,
                output: Some(Amount::from_u128(1)),
            },
            Machine::Collector => {
                match find_coin(coins, tiles, tile.offset(0, 1)) {
                    Some(i) => MachineAction {
                        first: Some(i),
                        second: None,
                        add_money: true,
                        output: None,
                    },
                    None => idle(),
                }
            },
            Machine::Adder | Machine::Multiplier => {
                let left = find_coin(coins, tiles, tile.offset(-1, 0));
                let right = find_coin(coins, tiles, tile.offset(1, 0));
                match (left, right) {
                    (Some(l), Some(r)) => {
                        let value: Currency = match self {
                            Machine::Adder => coins[l].money.0.plus(&coins[r].money.0),
                            _ => coins[l].money.0.times(&coins[r].money.0),
                        };
                        MachineAction {
                            first: Some(l),
                            second: Some(r),
                            add_money: false,
                            output: Some(value),
                        }
                    },
                    _ => idle(),
                }
            },
            _ => {
                let here = find_coin(coins, tiles, tile);
                let found = if here.is_some() {
                    here
                } else {
                    match self {
                        Machine::ConveyorUp => find_coin(coins, tiles, tile.offset(0, -1)),
                        Machine::ConveyorDown => find_coin(coins, tiles, tile.offset(0, 1)),
                        Machine::ConveyorLeft => find_coin(coins, tiles, tile.offset(1, 0)),
                        _ => find_coin(coins, tiles, tile.offset(-1, 0)),
                    }
                };
                match found {
                    Some(i) => MachineAction {
                        first: Some(i),
                        second: None,
                        add_money: false,
                        output: Some(coins[i].money.0.copy()),
                    },
                    None => idle(),
                }
            },
        }
    }
}

/// Makes the action that does nothing.
fn idle() -> (action: MachineAction)
    ensures
        action == idle_action(),
{
    MachineAction { first: None, second: None, add_money: false, output: None }
}

/// The speed of an ejected coin before its random share: 80 world units
/// per tick, in speed units.
pub const EJECT_SPEED: u32 = 0x5000_0000;

/// The random share of an ejected coin's speed reaches up to this many
/// world units per tick.
pub const EJECT_SPEED_RANGE: u32 = 30;

/// Half of the arc over which ejected coins scatter: a sixteenth of a turn,
/// in angle units.
pub const EJECT_HALF_SPREAD: i32 = 0x80_0000;

/// The launch of an ejected coin: its speed is 80 world units per tick and
/// up to 30 more, by the speed sample; its heading lies within a sixteenth
/// of a turn to either side of `heading`, by the spread sample.
pub open spec fn spec_eject_particle(heading: i32, scatter: Scatter) -> Particle {
    Particle {
        heading: (heading + spec_unit_sample(scatter.spread) - EJECT_HALF_SPREAD) as i32,
        speed: (EJECT_SPEED + EJECT_SPEED_RANGE * spec_unit_sample(scatter.speed)) as u32,
        damping: COIN_DAMPING,
    }
}

/// Computes the launch of an ejected coin.
pub fn eject_particle(heading: i32, scatter: Scatter) -> (particle: Particle)
    requires
        -2 * QUARTER_TURN <= heading <= 2 * QUARTER_TURN,
    ensures
        particle == spec_eject_particle(heading, scatter),
{
    let spread: i32 = unit_sample(scatter.spread) as i32;
    let speed: u32 = unit_sample(scatter.speed);
    Particle {
        heading: heading + spread - EJECT_HALF_SPREAD,
        speed: EJECT_SPEED + EJECT_SPEED_RANGE * speed,
        damping: COIN_DAMPING,
    }
}

/// The coins, the pending pickup requests and the next free identifier:
/// what the actions of machines work on.
pub struct CoinField {
    pub coins: Seq<CoinEntity>,
    pub pickups: Seq<CoinPickup>,
    pub next: EntityId,
}

/// The coins with the one at `place` claimed, so that no later search
/// finds it.
pub open spec fn spec_claim(coins: Seq<CoinEntity>, place: Option<usize>) -> Seq<CoinEntity> {
    match place {
        Some(i) => if i < coins.len() {
            coins.update(
                i as int,
                CoinEntity { coin: Coin { alive: false, ..coins[i as int].coin }, ..coins[i as int] },
            )
        } else {
            coins
        },
        None => coins,
    }
}

/// The pickup requests that an action issues, for its first coin and then
/// for its second.
pub open spec fn spec_action_pickups(
    action: MachineAction,
    coins: Seq<CoinEntity>,
    target: WorldPoint,
) -> Seq<CoinPickup> {
    let first = match action.first {
        Some(i) => seq![
            CoinPickup { coin: coins[i as int].id, target, add_money: action.add_money },
        ],
        None => Seq::empty(),
    };
    let second = match action.second {
        Some(i) => seq![
            CoinPickup { coin: coins[i as int].id, target, add_money: action.add_money },
        ],
        None => Seq::empty(),
    };
    first + second
}

/// The coin that an action spawns at `position`, if it spawns one.
pub open spec fn spec_action_spawn(
    action: MachineAction,
    id: EntityId,
    position: WorldPoint,
    heading: i32,
    scatter: Scatter,
) -> Seq<CoinEntity> {
    match action.output {
        Some(value) => seq![
            CoinEntity {
                id,
                position,
                money: Money(value),
                particle: spec_eject_particle(heading, scatter),
                coin: Coin::spec_new(),
            },
        ],
        None => Seq::empty(),
    }
}

/// The field after a machine of kind `kind` on `tile` has acted: the coins
/// it takes are claimed and requested for pickup towards the machine, and
/// the coin it spawns stands at the machine under the next identifier.
pub open spec fn spec_fire(
    field: CoinField,
    kind: Machine,
    tile: TilePosition,
    tiles: TileIndex,
    scatter: Scatter,
) -> CoinField {
    let action = kind.spec_plan(tile, field.coins, tiles);
    let position = spec_tile_center(tile);
    let spawned = spec_action_spawn(
        action,
        field.next,
        position,
        kind.spec_eject_heading(),
        scatter,
    );
    CoinField {
        coins: spec_claim(spec_claim(field.coins, action.first), action.second) + spawned,
        pickups: field.pickups + spec_action_pickups(action, field.coins, position),
        next: (field.next + spawned.len()) as EntityId,
    }
}

impl MachineEntity {
    /// The machine after `delta` nanoseconds.
    pub open spec fn spec_tick(self, delta: u64) -> MachineEntity {
        MachineEntity {
            placed: PlacedMachine {
                action_timer: self.placed.action_timer.spec_tick(delta),
                ..self.placed
            },
            ..self
        }
    }

    /// Whether the machine acts when `delta` nanoseconds have passed: its
    /// timer reaches its period within them.
    pub open spec fn fires(self, delta: u64) -> bool {
        self.placed.action_timer.spec_tick(delta).times_finished_this_tick > 0
    }
}

/// The field after `delta` nanoseconds have passed for `machine`: changed
/// by its action where it acts, and as it was where it does not.
pub open spec fn spec_act_machine(
    field: CoinField,
    machine: MachineEntity,
    tiles: TileIndex,
    delta: u64,
    scatter: Scatter,
) -> CoinField {
    if machine.fires(delta) {
        spec_fire(field, machine.placed.machine, machine.position, tiles, scatter)
    } else {
        field
    }
}

/// The field after `delta` nanoseconds have passed for each of `machines`
/// in turn, the machine at place `i` using the scatter at place `i`.
pub open spec fn spec_act_machines(
    field: CoinField,
    machines: Seq<MachineEntity>,
    tiles: TileIndex,
    delta: u64,
    scatters: Seq<Scatter>,
) -> CoinField
    decreases machines.len(),
{
    if machines.len() == 0 {
        field
    } else {
        spec_act_machine(
            spec_act_machines(field, machines.drop_last(), tiles, delta, scatters),
            machines.last(),
            tiles,
            delta,
            spec_scatter_at(scatters, machines.len() - 1),
        )
    }
}

/// Spawns a coin of value `value` at `position`, ejected towards
/// `heading`; returns its identifier.
pub fn spew_coin(
    allocator: &mut EntityAllocator,
    coins: &mut Vec<CoinEntity>,
    position: WorldPoint,
    value: Currency,
    heading: i32,
    scatter: Scatter,
) -> (id: EntityId)
    requires
        old(allocator).spec_has_room(1),
        -2 * QUARTER_TURN <= heading <= 2 * QUARTER_TURN,
    ensures
        id == old(allocator).next,
        final(allocator).next == old(allocator).next + 1,
        final(coins)@ == old(coins)@.push(
            CoinEntity {
                id,
                position,
                money: Money(value),
                particle: spec_eject_particle(heading, scatter),
                coin: Coin::spec_new(),
            },
        ),
{
    crate::coins::spawn_coin(allocator, coins, value, position, eject_particle(heading, scatter))
}

/// Claims the coin at `place`.
fn claim(coins: &mut Vec<CoinEntity>, place: Option<usize>)
    ensures
        final(coins)@ == spec_claim(old(coins)@, place),
{
    match place {
        Some(i) => {
            if i < coins.len() {
                coins[i].coin.alive = false;
            }
        },
        None => {},
    }
}

/// Lets `delta` nanoseconds pass for one machine, and lets it act where its
/// timer says so.
pub fn act_machine(
    machine: &mut MachineEntity,
    coins: &mut Vec<CoinEntity>,
    allocator: &mut EntityAllocator,
    tiles: &TileTrackedEntities,
    delta: u64,
    scatter: Scatter,
    coin_pickups: &mut Vec<CoinPickup>,
)
    requires
        old(allocator).spec_has_room(1),
    ensures
        *final(machine) == old(machine).spec_tick(delta),
        (CoinField {
            coins: final(coins)@,
            pickups: final(coin_pickups)@,
            next: final(allocator).next,
        }) == spec_act_machine(
            CoinField { coins: old(coins)@, pickups: old(coin_pickups)@, next: old(allocator).next },
            *old(machine),
            tiles@,
            delta,
            scatter,
        ),
{
    machine.placed.action_timer.tick(delta);
    if machine.placed.action_timer.just_finished() {
        let kind = machine.placed.machine;
        let position = tile_center(machine.position);
        let action = kind.plan(machine.position, coins, tiles);
        let ghost before = coins@;
        let ghost planned = action;
        match action.first {
            Some(i) => {
                coin_pickups.push(
                    CoinPickup { coin: coins[i].id, target: position, add_money: action.add_money },
                );
            },
            None => {},
        }
        match action.second {
            Some(i) => {
                coin_pickups.push(
                    CoinPickup { coin: coins[i].id, target: position, add_money: action.add_money },
                );
            },
            None => {},
        }
        claim(coins, action.first);
        claim(coins, action.second);
        match action.output {
            Some(value) => {
                spew_coin(allocator, coins, position, value, kind.eject_heading(), scatter);
            },
            None => {},
        }
        proof {
            let spawned = spec_action_spawn(
                planned,
                old(allocator).next,
                position,
                kind.spec_eject_heading(),
                scatter,
            );
            assert(coins@ =~= spec_claim(spec_claim(before, planned.first), planned.second)
                + spawned);
            assert(coin_pickups@ =~= old(coin_pickups)@ + spec_action_pickups(
                planned,
                before,
                position,
            ));
        }
    }
}

/// The field does not lose identifiers: each machine takes at most one.
pub proof fn lemma_act_machines_next(
    field: CoinField,
    machines: Seq<MachineEntity>,
    tiles: TileIndex,
    delta: u64,
    scatters: Seq<Scatter>,
)
    requires
        field.next + machines.len() <= u64::MAX,
    ensures
        field.next <= spec_act_machines(field, machines, tiles, delta, scatters).next <= field.next
            + machines.len(),
    decreases machines.len(),
{
    if machines.len() > 0 {
        lemma_act_machines_next(field, machines.drop_last(), tiles, delta, scatters);
    }
}

/// Lets `delta` nanoseconds pass for every machine, in their order, and
/// lets each act where its timer says so; the machine at place `i` scatters
/// the coin it spawns by the scatter at place `i`.
pub fn act_machines_with(
    machines: &mut Vec<MachineEntity>,
    coins: &mut Vec<CoinEntity>,
    allocator: &mut EntityAllocator,
    tiles: &TileTrackedEntities,
    delta: u64,
    scatters: &Vec<Scatter>,
    coin_pickups: &mut Vec<CoinPickup>,
)
    requires
        old(allocator).spec_has_room(old(machines).len() as int),
    ensures
        final(machines).len() == old(machines).len(),
        forall|i: int|
            0 <= i < old(machines).len() ==> #[trigger] final(machines)[i] == old(
                machines,
            )[i].spec_tick(delta),
        (CoinField {
            coins: final(coins)@,
            pickups: final(coin_pickups)@,
            next: final(allocator).next,
        }) == spec_act_machines(
            CoinField { coins: old(coins)@, pickups: old(coin_pickups)@, next: old(allocator).next },
            old(machines)@,
            tiles@,
            delta,
            scatters@,
        ),
{
    let ghost start = CoinField {
        coins: coins@,
        pickups: coin_pickups@,
        next: allocator.next,
    };
    let mut i: usize = 0;
    while i < machines.len()
        invariant
            i <= machines.len(),
            machines.len() == old(machines).len(),
            start.next + machines.len() <= u64::MAX,
            forall|j: int| 0 <= j < i ==> #[trigger] machines[j] == old(machines)[j].spec_tick(delta),
            forall|j: int| i <= j < machines.len() ==> #[trigger] machines[j] == old(machines)[j],
            (CoinField { coins: coins@, pickups: coin_pickups@, next: allocator.next })
                == spec_act_machines(start, old(machines)@.take(i as int), tiles@, delta, scatters@),
        decreases machines.len() - i,
    {
        proof {
            lemma_act_machines_next(start, old(machines)@.take(i as int), tiles@, delta, scatters@);
            assert(old(machines)@.take(i as int + 1).drop_last() =~= old(machines)@.take(i as int));
        }
        let mut machine = machines[i];
        act_machine(&mut machine, coins, allocator, tiles, delta, scatter_at(scatters, i), coin_pickups);
        machines.set(i, machine);
        i += 1;
    }
    proof {
        assert(old(machines)@.take(i as int) =~= old(machines)@);
    }
}

/// Lets `delta` nanoseconds pass for every machine, scattering the coins
/// they spawn by the random source.
pub fn act_machines(
    machines: &mut Vec<MachineEntity>,
    coins: &mut Vec<CoinEntity>,
    allocator: &mut EntityAllocator,
    tiles: &TileTrackedEntities,
    delta: u64,
    coin_pickups: &mut Vec<CoinPickup>,
)
    requires
        old(allocator).spec_has_room(old(machines).len() as int),
    ensures
        final(machines).len() == old(machines).len(),
        forall|i: int|
            0 <= i < old(machines).len() ==> #[trigger] final(machines)[i] == old(
                machines,
            )[i].spec_tick(delta),
        exists|scatters: Seq<Scatter>|
            (CoinField {
                coins: final(coins)@,
                pickups: final(coin_pickups)@,
                next: final(allocator).next,
            }) == #[trigger] spec_act_machines(
                CoinField {
                    coins: old(coins)@,
                    pickups: old(coin_pickups)@,
                    next: old(allocator).next,
                },
                old(machines)@,
                tiles@,
                delta,
                scatters,
            ),
{
    let scatters = random_scatters(machines.len());
    act_machines_with(machines, coins, allocator, tiles, delta, &scatters, coin_pickups);
}

/// The coin at `place`, claimed.
pub open spec fn spec_claimed(coins: Seq<CoinEntity>, place: int) -> CoinEntity {
    CoinEntity { coin: Coin { alive: false, ..coins[place].coin }, ..coins[place] }
}

/// A collector that acts with a coin that can be picked up on the tile
/// above it claims that coin and issues one pickup request for it, with
/// payout, towards the machine; no entity is created. With no such coin it
/// changes nothing.
pub proof fn lemma_collector_collects(
    field: CoinField,
    tile: TilePosition,
    tiles: TileIndex,
    scatter: Scatter,
)
    requires
        field.coins.len() <= usize::MAX,
    ensures
        match spec_find_coin(field.coins, tiles, tile.spec_offset(0, 1)) {
            Some(i) => spec_fire(field, Machine::Collector, tile, tiles, scatter) == (CoinField {
                coins: field.coins.update(i, spec_claimed(field.coins, i)),
                pickups: field.pickups.push(
                    CoinPickup {
                        coin: field.coins[i].id,
                        target: spec_tile_center(tile),
                        add_money: true,
                    },
                ),
                next: field.next,
            }),
            None => spec_fire(field, Machine::Collector, tile, tiles, scatter) == field,
        },
{
    let after = spec_fire(field, Machine::Collector, tile, tiles, scatter);
    match spec_find_coin(field.coins, tiles, tile.spec_offset(0, 1)) {
        Some(i) => {
            lemma_find_among(field.coins, spec_entities_in(tiles, tile.spec_offset(0, 1)));
            assert(after.coins =~= field.coins.update(i, spec_claimed(field.coins, i)));
            assert(after.pickups =~= field.pickups.push(
                CoinPickup {
                    coin: field.coins[i].id,
                    target: spec_tile_center(tile),
                    add_money: true,
                },
            ));
        },
        None => {
            assert(after.coins =~= field.coins);
            assert(after.pickups =~= field.pickups);
        },
    }
}

/// The value that an adder or a multiplier makes of two values.
pub open spec fn spec_combined(kind: Machine, left: Currency, right: Currency) -> Currency {
    if kind == Machine::Adder {
        amount(left.value() + right.value())
    } else {
        amount(left.value() * right.value())
    }
}

/// An adder or multiplier acts on both of its sides or on neither. With a
/// coin that can be picked up on its left and one on its right, it claims
/// both, issues a pickup request without payout for each, the left one
/// first, and spawns one coin of their sum or product, ejected upward.
/// With a coin on one
/// side only, or on none, it changes nothing.
pub proof fn lemma_combiner_both_or_neither(
    kind: Machine,
    field: CoinField,
    tile: TilePosition,
    tiles: TileIndex,
    scatter: Scatter,
)
    requires
        kind == Machine::Adder || kind == Machine::Multiplier,
        field.coins.len() <= usize::MAX,
        field.next < u64::MAX,
    ensures
        ({
            let left = spec_find_coin(field.coins, tiles, tile.spec_offset(-1, 0));
            let right = spec_find_coin(field.coins, tiles, tile.spec_offset(1, 0));
            let after = spec_fire(field, kind, tile, tiles, scatter);
            if left.is_some() && right.is_some() {
                let l = left.unwrap();
                let r = right.unwrap();
                &&& after.coins == field.coins.update(l, spec_claimed(field.coins, l)).update(
                    r,
                    spec_claimed(field.coins, r),
                ).push(
                    CoinEntity {
                        id: field.next,
                        position: spec_tile_center(tile),
                        money: Money(
                            spec_combined(kind, field.coins[l].money.0, field.coins[r].money.0),
                        ),
                        particle: spec_eject_particle(QUARTER_TURN, scatter),
                        coin: Coin::spec_new(),
                    },
                )
                &&& after.pickups == field.pickups.push(
                    CoinPickup {
                        coin: field.coins[l].id,
                        target: spec_tile_center(tile),
                        add_money: false,
                    },
                ).push(
                    CoinPickup {
                        coin: field.coins[r].id,
                        target: spec_tile_center(tile),
                        add_money: false,
                    },
                )
                &&& after.next == field.next + 1
            } else {
                after == field
            }
        }),
{
    let left = spec_find_coin(field.coins, tiles, tile.spec_offset(-1, 0));
    let right = spec_find_coin(field.coins, tiles, tile.spec_offset(1, 0));
    let after = spec_fire(field, kind, tile, tiles, scatter);
    lemma_find_among(field.coins, spec_entities_in(tiles, tile.spec_offset(-1, 0)));
    lemma_find_among(field.coins, spec_entities_in(tiles, tile.spec_offset(1, 0)));
    if left.is_some() && right.is_some() {
        let l = left.unwrap();
        let r = right.unwrap();
        assert(after.coins =~= field.coins.update(l, spec_claimed(field.coins, l)).update(
            r,
            spec_claimed(field.coins, r),
        ).push(
            CoinEntity {
                id: field.next,
                position: spec_tile_center(tile),
                money: Money(spec_combined(kind, field.coins[l].money.0, field.coins[r].money.0)),
                particle: spec_eject_particle(QUARTER_TURN, scatter),
                coin: Coin::spec_new(),
            },
        ));
        assert(after.pickups =~= field.pickups.push(
            CoinPickup { coin: field.coins[l].id, target: spec_tile_center(tile), add_money: false },
        ).push(
            CoinPickup { coin: field.coins[r].id, target: spec_tile_center(tile), add_money: false },
        ));
    } else {
        assert(after.coins =~= field.coins);
        assert(after.pickups =~= field.pickups);
    }
}

/// Whether an action takes the coin at `place`.
pub open spec fn spec_takes(action: MachineAction, place: int) -> bool {
    action.first == Some(place as usize) || action.second == Some(place as usize)
}

/// The coins that an action takes are among the coins, and could be
/// picked up.
pub proof fn lemma_plan_takes_pickable(
    kind: Machine,
    tile: TilePosition,
    coins: Seq<CoinEntity>,
    tiles: TileIndex,
    place: int,
)
    requires
        0 <= place <= usize::MAX,
        coins.len() <= usize::MAX,
        spec_takes(kind.spec_plan(tile, coins, tiles), place),
    ensures
        place < coins.len(),
        coins[place].coin.spec_pickable(),
{
    lemma_find_among(coins, spec_entities_in(tiles, tile));
    lemma_find_among(coins, spec_entities_in(tiles, tile.spec_offset(0, 1)));
    lemma_find_among(coins, spec_entities_in(tiles, tile.spec_offset(0, -1)));
    lemma_find_among(coins, spec_entities_in(tiles, tile.spec_offset(-1, 0)));
    lemma_find_among(coins, spec_entities_in(tiles, tile.spec_offset(1, 0)));
}

/// No coin is taken twice: a coin that one machine takes when it acts
/// cannot be picked up any more, and no machine that acts after it, of any
/// kind and on any tile, takes it.
pub proof fn lemma_no_double_consumption(
    field: CoinField,
    first_kind: Machine,
    first_tile: TilePosition,
    first_scatter: Scatter,
    second_kind: Machine,
    second_tile: TilePosition,
    tiles: TileIndex,
    place: int,
)
    requires
        0 <= place <= usize::MAX,
        field.coins.len() < usize::MAX,
        spec_takes(first_kind.spec_plan(first_tile, field.coins, tiles), place),
    ensures
        !spec_fire(field, first_kind, first_tile, tiles, first_scatter).coins[place].coin.spec_pickable(),
        !spec_takes(
            second_kind.spec_plan(
                second_tile,
                spec_fire(field, first_kind, first_tile, tiles, first_scatter).coins,
                tiles,
            ),
            place,
        ),
{
    let after = spec_fire(field, first_kind, first_tile, tiles, first_scatter);
    lemma_plan_takes_pickable(first_kind, first_tile, field.coins, tiles, place);
    let action = first_kind.spec_plan(first_tile, field.coins, tiles);
    if action.first.is_some() {
        lemma_plan_takes_pickable(
            first_kind,
            first_tile,
            field.coins,
            tiles,
            action.first.unwrap() as int,
        );
    }
    if action.second.is_some() {
        lemma_plan_takes_pickable(
            first_kind,
            first_tile,
            field.coins,
            tiles,
            action.second.unwrap() as int,
        );
    }
    assert(!after.coins[place].coin.alive);
    if spec_takes(second_kind.spec_plan(second_tile, after.coins, tiles), place) {
        lemma_plan_takes_pickable(second_kind, second_tile, after.coins, tiles, place);
    }
}

/// A machine that acts changes no coin that cannot be picked up: such a
/// coin is neither taken nor touched.
pub proof fn lemma_fire_keeps_claimed(
    field: CoinField,
    kind: Machine,
    tile: TilePosition,
    tiles: TileIndex,
    scatter: Scatter,
    place: int,
)
    requires
        0 <= place < field.coins.len() <= usize::MAX,
        !field.coins[place].coin.spec_pickable(),
    ensures
        !spec_takes(kind.spec_plan(tile, field.coins, tiles), place),
        spec_fire(field, kind, tile, tiles, scatter).coins.len() >= field.coins.len(),
        spec_fire(field, kind, tile, tiles, scatter).coins[place] == field.coins[place],
{
    let action = kind.spec_plan(tile, field.coins, tiles);
    if spec_takes(action, place) {
        lemma_plan_takes_pickable(kind, tile, field.coins, tiles, place);
    }
    if action.first.is_some() {
        lemma_plan_takes_pickable(kind, tile, field.coins, tiles, action.first.unwrap() as int);
    }
    if action.second.is_some() {
        lemma_plan_takes_pickable(kind, tile, field.coins, tiles, action.second.unwrap() as int);
    }
}

/// Through the actions of any machines, a coin that cannot be picked up
/// stays as it is: a coin that one machine has taken is taken by no other
/// for the rest of the tick.
pub proof fn lemma_act_machines_keeps_claimed(
    field: CoinField,
    machines: Seq<MachineEntity>,
    tiles: TileIndex,
    delta: u64,
    scatters: Seq<Scatter>,
    place: int,
)
    requires
        0 <= place < field.coins.len(),
        field.coins.len() + machines.len() <= usize::MAX,
        !field.coins[place].coin.spec_pickable(),
    ensures
        field.coins.len() <= spec_act_machines(field, machines, tiles, delta, scatters).coins.len()
            <= field.coins.len() + machines.len(),
        spec_act_machines(field, machines, tiles, delta, scatters).coins[place]
            == field.coins[place],
    decreases machines.len(),
{
    if machines.len() > 0 {
        let earlier = spec_act_machines(field, machines.drop_last(), tiles, delta, scatters);
        lemma_act_machines_keeps_claimed(field, machines.drop_last(), tiles, delta, scatters, place);
        if machines.last().fires(delta) {
            lemma_fire_keeps_claimed(
                earlier,
                machines.last().placed.machine,
                machines.last().position,
                tiles,
                spec_scatter_at(scatters, machines.len() - 1),
                place,
            );
        }
    }
}

} // verus!
