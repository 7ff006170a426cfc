use one_clicker::amount::Amount;
use one_clicker::coins::{
    update_coins, Balance, Coin, CoinEntity, CoinPickup, Money, Particle, COIN_DAMPING,
    DESPAWN_DURATION, QUARTER_TURN, SPAWN_GRACE,
};
use one_clicker::entity::EntityAllocator;
use one_clicker::geometry::WorldPoint;
use one_clicker::machines::{
    act_machine, act_machines, act_machines_with, eject_particle, find_coin,
    spew_coin, tile_center, Machine, MachineAction, MachineEntity, PlacedMachine, SpotSides,
    EJECT_HALF_SPREAD, EJECT_SPEED,
};
use one_clicker::random::Scatter;
use one_clicker::tiles::{track_tile_entities, TilePosition, TileTrackedEntities};
use one_clicker::timer::{Timer, TimerMode};
use one_clicker::tracking::tile_tracked;

fn amt(value: u128) -> Amount {
    Amount::from_u128(value)
}

const STILL: Particle = Particle { heading: 0, speed: 0, damping: 0 };
const NO_SCATTER: Scatter = Scatter { speed: 0, spread: 0 };

fn point(x: i64, y: i64) -> WorldPoint {
    WorldPoint { x, y }
}

/// A coin past its grace period in the middle of a tile.
fn ripe(id: u64, value: u128, tile: TilePosition) -> CoinEntity {
    let mut coin = Coin::new();
    coin.tick(SPAWN_GRACE);
    CoinEntity { id, position: tile_center(tile), money: Money(amt(value)), particle: STILL, coin }
}

fn machine(id: u64, kind: Machine, tile: TilePosition) -> MachineEntity {
    MachineEntity {
        id,
        position: tile,
        placed: PlacedMachine {
            machine: kind,
            action_timer: Timer::new(kind.action_period(), TimerMode::Repeating),
        },
    }
}

fn index_of(coins: &Vec<CoinEntity>, machines: &Vec<MachineEntity>) -> TileTrackedEntities {
    let mut index = TileTrackedEntities::new();
    track_tile_entities(&tile_tracked(coins, machines, &Vec::new()), &mut index);
    index
}

struct Floor {
    machines: Vec<MachineEntity>,
    coins: Vec<CoinEntity>,
    allocator: EntityAllocator,
    pickups: Vec<CoinPickup>,
}

/// Lets every machine act once on the given coins.
fn run(machines: Vec<MachineEntity>, coins: Vec<CoinEntity>) -> Floor {
    let mut floor =
        Floor { machines, coins, allocator: EntityAllocator { next: 1000 }, pickups: Vec::new() };
    let index = index_of(&floor.coins, &floor.machines);
    act_machines_with(
        &mut floor.machines,
        &mut floor.coins,
        &mut floor.allocator,
        &index,
        1_000_000_000,
        &Vec::new(),
        &mut floor.pickups,
    );
    floor
}

#[test]
fn catalog_lists_every_kind() {
    let kinds = Machine::list();
    assert_eq!(kinds.len(), 8);
    assert_eq!(kinds[0], Machine::Miner);
    assert_eq!(kinds[1], Machine::Collector);
    assert_eq!(kinds[2], Machine::ConveyorUp);
    assert_eq!(kinds[3], Machine::ConveyorDown);
    assert_eq!(kinds[4], Machine::ConveyorLeft);
    assert_eq!(kinds[5], Machine::ConveyorRight);
    assert_eq!(kinds[6], Machine::Adder);
    assert_eq!(kinds[7], Machine::Multiplier);
}

#[test]
fn catalog_costs_names_and_periods() {
    let costs: Vec<u128> = Machine::list().iter().map(|m| m.cost()).collect();
    assert_eq!(costs, vec![20, 200, 10, 10, 10, 10, 500, 1000]);
    let names: Vec<&str> = Machine::list().iter().map(|m| m.name()).collect();
    assert_eq!(
        names,
        vec![
            "Miner",
            "Collector",
            "Up Conveyor",
            "Down Conveyor",
            "Left Conveyor",
            "Right Conveyor",
            "Adder",
            "Multiplier"
        ]
    );
    let periods: Vec<u64> = Machine::list().iter().map(|m| m.action_period()).collect();
    assert_eq!(
        periods,
        vec![
            1_000_000_000,
            100_000_000,
            200_000_000,
            200_000_000,
            200_000_000,
            200_000_000,
            1_000_000_000,
            1_000_000_000
        ]
    );
}

#[test]
fn catalog_spot_sides_and_headings() {
    let sides = |up, down, left, right| SpotSides { up, down, left, right };
    assert_eq!(Machine::Miner.spot_sides(), sides(false, true, false, false));
    assert_eq!(Machine::Collector.spot_sides(), sides(true, false, false, false));
    assert_eq!(Machine::ConveyorUp.spot_sides(), sides(true, true, false, false));
    assert_eq!(Machine::ConveyorDown.spot_sides(), sides(true, true, false, false));
    assert_eq!(Machine::ConveyorLeft.spot_sides(), sides(false, false, true, true));
    assert_eq!(Machine::ConveyorRight.spot_sides(), sides(false, false, true, true));
    assert_eq!(Machine::Adder.spot_sides(), sides(false, true, true, true));
    assert_eq!(Machine::Multiplier.spot_sides(), sides(false, true, true, true));
    assert_eq!(Machine::Miner.eject_heading(), -QUARTER_TURN);
    assert_eq!(Machine::ConveyorUp.eject_heading(), QUARTER_TURN);
    assert_eq!(Machine::ConveyorDown.eject_heading(), -QUARTER_TURN);
    assert_eq!(Machine::ConveyorLeft.eject_heading(), 2 * QUARTER_TURN);
    assert_eq!(Machine::ConveyorRight.eject_heading(), 0);
    assert_eq!(Machine::Adder.eject_heading(), QUARTER_TURN);
    assert_eq!(Machine::Multiplier.eject_heading(), QUARTER_TURN);
    assert_eq!(Machine::Collector.eject_heading(), -QUARTER_TURN);
}

#[test]
fn tile_center_is_half_a_tile_in() {
    assert_eq!(tile_center(TilePosition::new(0, 0)), point(128, 128));
    assert_eq!(tile_center(TilePosition::new(-1, 2)), point(-128, 640));
    assert_eq!(
        TilePosition::from_world(tile_center(TilePosition::new(i32::MAX, i32::MIN))),
        TilePosition::new(i32::MAX, i32::MIN)
    );
}

#[test]
fn eject_particle_scatters_speed_and_heading() {
    assert_eq!(EJECT_SPEED, 80 << 24);
    assert_eq!(EJECT_HALF_SPREAD, 1 << 23);
    assert_eq!(
        eject_particle(0, NO_SCATTER),
        Particle { heading: -(1 << 23), speed: 80 << 24, damping: COIN_DAMPING }
    );
    let most = eject_particle(QUARTER_TURN, Scatter { speed: u32::MAX, spread: u32::MAX });
    assert_eq!(most.heading, QUARTER_TURN + (1 << 23) - 1);
    assert_eq!(most.speed, (80 << 24) + 30 * ((1 << 24) - 1));
    let middle = eject_particle(-QUARTER_TURN, Scatter { speed: 1 << 31, spread: 1 << 31 });
    assert_eq!(middle.heading, -QUARTER_TURN);
    assert_eq!(middle.speed, 95 << 24);
}

#[test]
fn spew_coin_spawns_at_the_given_place() {
    let mut allocator = EntityAllocator { next: 5 };
    let mut coins = Vec::new();
    let id = spew_coin(&mut allocator, &mut coins, point(3, 4), amt(12), QUARTER_TURN, NO_SCATTER);
    assert_eq!(id, 5);
    assert_eq!(coins.len(), 1);
    assert_eq!(coins[0].position, point(3, 4));
    assert_eq!(coins[0].money, Money(amt(12)));
    assert_eq!(coins[0].particle, eject_particle(QUARTER_TURN, NO_SCATTER));
    assert!(!coins[0].coin.pickable());
}

#[test]
fn find_coin_skips_what_cannot_be_picked_up() {
    let tile = TilePosition::new(2, 2);
    let mut claimed = ripe(1, 1, tile);
    claimed.coin.alive = false;
    let mut unripe = ripe(2, 1, tile);
    unripe.coin = Coin::new();
    let mut armed = ripe(3, 1, tile);
    armed.coin.request_pickup(true);
    let coins = vec![claimed, unripe, armed, ripe(4, 1, tile), ripe(5, 1, tile)];
    let machines = vec![machine(9, Machine::Miner, tile)];
    let index = index_of(&coins, &machines);
    assert_eq!(find_coin(&coins, &index, tile), Some(3));
    assert_eq!(find_coin(&coins, &index, TilePosition::new(2, 3)), None);
    assert_eq!(find_coin(&coins[..3].to_vec(), &index, tile), None);
}

#[test]
fn miner_spawns_a_coin_of_value_one() {
    let tile = TilePosition::new(0, 0);
    let floor = run(vec![machine(1, Machine::Miner, tile)], Vec::new());
    assert!(floor.pickups.is_empty());
    assert_eq!(floor.coins.len(), 1);
    assert_eq!(floor.coins[0].id, 1000);
    assert_eq!(floor.coins[0].money, Money(amt(1)));
    assert_eq!(floor.coins[0].position, point(128, 128));
    assert_eq!(floor.coins[0].particle, eject_particle(-QUARTER_TURN, NO_SCATTER));
    assert_eq!(floor.allocator.next, 1001);
}

#[test]
fn machine_waits_for_its_period() {
    let tile = TilePosition::new(0, 0);
    let mut miner = machine(1, Machine::Miner, tile);
    let mut coins = Vec::new();
    let mut allocator = EntityAllocator::new();
    let mut pickups = Vec::new();
    let index = TileTrackedEntities::new();
    act_machine(&mut miner, &mut coins, &mut allocator, &index, 999_999_999, NO_SCATTER, &mut pickups);
    assert!(coins.is_empty());
    assert_eq!(miner.placed.action_timer.elapsed, 999_999_999);
    act_machine(&mut miner, &mut coins, &mut allocator, &index, 1, NO_SCATTER, &mut pickups);
    assert_eq!(coins.len(), 1);
    assert_eq!(miner.placed.action_timer.elapsed, 0);
    act_machine(&mut miner, &mut coins, &mut allocator, &index, 3_000_000_000, NO_SCATTER, &mut pickups);
    assert_eq!(coins.len(), 2);
}

#[test]
fn collector_credits_the_coin_above_it() {
    let tile = TilePosition::new(4, 4);
    let mut floor = run(
        vec![machine(1, Machine::Collector, tile)],
        vec![ripe(10, 42, TilePosition::new(4, 5)), ripe(11, 7, TilePosition::new(4, 5))],
    );
    assert_eq!(
        floor.pickups,
        vec![CoinPickup { coin: 10, target: tile_center(tile), add_money: true }]
    );
    assert_eq!(floor.coins.len(), 2);
    assert!(!floor.coins[0].coin.alive);
    assert!(floor.coins[1].coin.alive);
    assert_eq!(floor.allocator.next, 1000);
    let mut wallet = Balance { coins: amt(1) };
    update_coins(&mut floor.coins, &mut wallet, &floor.pickups, DESPAWN_DURATION - 1);
    assert_eq!(wallet.coins, amt(1));
    update_coins(&mut floor.coins, &mut wallet, &Vec::new(), 1);
    assert_eq!(wallet.coins, amt(43));
    assert_eq!(floor.coins.len(), 1);
    update_coins(&mut floor.coins, &mut wallet, &Vec::new(), DESPAWN_DURATION);
    assert_eq!(wallet.coins, amt(43));
}

#[test]
fn collector_without_a_coin_does_nothing() {
    let tile = TilePosition::new(4, 4);
    let coins = vec![ripe(10, 42, tile), ripe(11, 42, TilePosition::new(4, 3))];
    let floor = run(vec![machine(1, Machine::Collector, tile)], coins.clone());
    assert!(floor.pickups.is_empty());
    assert_eq!(floor.coins, coins);
    assert_eq!(floor.allocator.next, 1000);
}

#[test]
fn adder_sums_three_and_five() {
    let tile = TilePosition::new(0, 0);
    let floor = run(
        vec![machine(1, Machine::Adder, tile)],
        vec![ripe(10, 3, TilePosition::new(-1, 0)), ripe(11, 5, TilePosition::new(1, 0))],
    );
    assert_eq!(
        floor.pickups,
        vec![
            CoinPickup { coin: 10, target: tile_center(tile), add_money: false },
            CoinPickup { coin: 11, target: tile_center(tile), add_money: false },
        ]
    );
    assert_eq!(floor.coins.len(), 3);
    assert!(!floor.coins[0].coin.alive);
    assert!(!floor.coins[1].coin.alive);
    assert_eq!(floor.coins[2].money, Money(amt(8)));
    assert_eq!(floor.coins[2].particle, eject_particle(QUARTER_TURN, NO_SCATTER));
    assert_eq!(floor.coins[2].id, 1000);
    assert_eq!(floor.coins[2].position, tile_center(tile));
    assert_eq!(floor.coins[2].coin, Coin::new());
}

#[test]
fn adder_with_one_side_does_nothing() {
    let tile = TilePosition::new(0, 0);
    let left_only = vec![ripe(10, 3, TilePosition::new(-1, 0))];
    let floor = run(vec![machine(1, Machine::Adder, tile)], left_only.clone());
    assert!(floor.pickups.is_empty());
    assert_eq!(floor.coins, left_only);
    let right_only = vec![ripe(11, 5, TilePosition::new(1, 0))];
    let floor = run(vec![machine(1, Machine::Multiplier, tile)], right_only.clone());
    assert!(floor.pickups.is_empty());
    assert_eq!(floor.coins, right_only);
    assert_eq!(floor.allocator.next, 1000);
}

#[test]
fn multiplier_multiplies_three_and_five() {
    let tile = TilePosition::new(0, 0);
    let floor = run(
        vec![machine(1, Machine::Multiplier, tile)],
        vec![ripe(10, 3, TilePosition::new(-1, 0)), ripe(11, 5, TilePosition::new(1, 0))],
    );
    assert_eq!(floor.pickups.len(), 2);
    assert!(floor.pickups.iter().all(|p| !p.add_money));
    assert_eq!(floor.coins.len(), 3);
    assert_eq!(floor.coins[2].money, Money(amt(15)));
}

#[test]
fn combined_values_grow_past_every_machine_word() {
    let tile = TilePosition::new(0, 0);
    let coins =
        vec![ripe(10, u128::MAX, TilePosition::new(-1, 0)), ripe(11, 2, TilePosition::new(1, 0))];
    let floor = run(vec![machine(1, Machine::Adder, tile)], coins.clone());
    assert_eq!(floor.coins[2].money, Money(amt(u128::MAX).plus(&amt(2))));
    let floor = run(vec![machine(1, Machine::Multiplier, tile)], coins);
    assert_eq!(floor.coins[2].money, Money(amt(u128::MAX).plus(&amt(u128::MAX))));
    let big = vec![ripe(10, 1 << 64, TilePosition::new(-1, 0)), ripe(11, 1 << 64, TilePosition::new(1, 0))];
    let floor = run(vec![machine(1, Machine::Multiplier, tile)], big);
    assert_eq!(floor.coins[2].money, Money(amt(u128::MAX).plus(&amt(1))));
}

#[test]
fn conveyors_relay_from_their_tile_or_from_behind() {
    let tile = TilePosition::new(0, 0);
    let cases = [
        (Machine::ConveyorUp, TilePosition::new(0, -1), QUARTER_TURN),
        (Machine::ConveyorDown, TilePosition::new(0, 1), -QUARTER_TURN),
        (Machine::ConveyorLeft, TilePosition::new(1, 0), 2 * QUARTER_TURN),
        (Machine::ConveyorRight, TilePosition::new(-1, 0), 0),
    ];
    for (kind, behind, heading) in cases {
        let floor = run(vec![machine(1, kind, tile)], vec![ripe(10, 9, behind), ripe(11, 4, tile)]);
        assert_eq!(
            floor.pickups,
            vec![CoinPickup { coin: 11, target: tile_center(tile), add_money: false }]
        );
        assert_eq!(floor.coins[2].money, Money(amt(4)));
        assert_eq!(floor.coins[2].particle, eject_particle(heading, NO_SCATTER));
        assert!(floor.coins[0].coin.alive);
        let floor = run(vec![machine(1, kind, tile)], vec![ripe(10, 9, behind)]);
        assert_eq!(
            floor.pickups,
            vec![CoinPickup { coin: 10, target: tile_center(tile), add_money: false }]
        );
        assert_eq!(floor.coins[1].money, Money(amt(9)));
        let ahead = TilePosition::new(-behind.x, -behind.y);
        let floor = run(vec![machine(1, kind, tile)], vec![ripe(10, 9, ahead)]);
        assert!(floor.pickups.is_empty());
        assert_eq!(floor.coins.len(), 1);
    }
}

#[test]
fn relayed_value_is_not_credited() {
    let tile = TilePosition::new(0, 0);
    let mut floor = run(vec![machine(1, Machine::ConveyorUp, tile)], vec![ripe(10, 9, tile)]);
    let mut wallet = Balance { coins: amt(0) };
    update_coins(&mut floor.coins, &mut wallet, &floor.pickups, DESPAWN_DURATION);
    assert_eq!(wallet.coins, amt(0));
    assert_eq!(floor.coins.len(), 1);
    assert_eq!(floor.coins[0].id, 1000);
}

#[test]
fn one_coin_is_consumed_by_one_machine_only() {
    // The coin stands above the collector and to the left of the adder.
    let shared = TilePosition::new(0, 1);
    let machines = vec![
        machine(1, Machine::Collector, TilePosition::new(0, 0)),
        machine(2, Machine::Adder, TilePosition::new(1, 1)),
    ];
    let coins = vec![ripe(10, 3, shared), ripe(11, 5, TilePosition::new(2, 1))];
    let floor = run(machines.clone(), coins.clone());
    assert_eq!(
        floor.pickups,
        vec![CoinPickup { coin: 10, target: point(128, 128), add_money: true }]
    );
    assert_eq!(floor.coins.len(), 2);
    assert!(!floor.coins[0].coin.pickable());
    assert!(floor.coins[1].coin.pickable());
    // In the other order the adder takes it, and the collector finds nothing.
    let floor = run(vec![machines[1], machines[0]], coins);
    assert_eq!(floor.pickups.len(), 2);
    assert!(floor.pickups.iter().all(|p| !p.add_money));
    assert_eq!(floor.coins.len(), 3);
    assert_eq!(floor.coins[2].money, Money(amt(8)));
}

#[test]
fn machines_use_their_own_scatter() {
    let mut machines = vec![
        machine(1, Machine::Miner, TilePosition::new(0, 0)),
        machine(2, Machine::Collector, TilePosition::new(5, 5)),
        machine(3, Machine::Miner, TilePosition::new(9, 9)),
    ];
    let mut coins = Vec::new();
    let mut allocator = EntityAllocator::new();
    let mut pickups = Vec::new();
    let scatters = vec![
        Scatter { speed: 256, spread: 512 },
        Scatter { speed: 9999, spread: 9999 },
        Scatter { speed: 768, spread: 1024 },
    ];
    let index = TileTrackedEntities::new();
    act_machines_with(
        &mut machines,
        &mut coins,
        &mut allocator,
        &index,
        1_000_000_000,
        &scatters,
        &mut pickups,
    );
    assert_eq!(coins.len(), 2);
    assert_eq!(coins[0].particle, eject_particle(-QUARTER_TURN, scatters[0]));
    assert_eq!(coins[1].particle, eject_particle(-QUARTER_TURN, scatters[2]));
    assert_eq!(coins[0].particle.speed, (80 << 24) + 30);
    assert_eq!(coins[1].particle.heading, -QUARTER_TURN + 4 - (1 << 23));
    assert_eq!(machines[1].placed.action_timer.times_finished_this_tick, 10);
}

#[test]
fn random_scatter_stays_in_range() {
    let mut machines = vec![machine(1, Machine::Miner, TilePosition::new(0, 0))];
    let mut coins = Vec::new();
    let mut allocator = EntityAllocator::new();
    let mut pickups = Vec::new();
    let index = TileTrackedEntities::new();
    for _ in 0..50 {
        act_machines(&mut machines, &mut coins, &mut allocator, &index, 1_000_000_000, &mut pickups);
    }
    assert_eq!(coins.len(), 50);
    for coin in &coins {
        assert_eq!(coin.money, Money(amt(1)));
        assert!(coin.particle.heading >= -QUARTER_TURN - (1 << 23));
        assert!(coin.particle.heading < -QUARTER_TURN + (1 << 23));
        assert!(coin.particle.speed >= 80 << 24 && coin.particle.speed < 110 << 24);
    }
}

#[test]
fn plan_names_the_coins_by_their_place() {
    let tile = TilePosition::new(0, 0);
    let coins = vec![ripe(10, 3, TilePosition::new(1, 0)), ripe(11, 5, TilePosition::new(-1, 0))];
    let index = index_of(&coins, &Vec::new());
    assert_eq!(
        Machine::Adder.plan(tile, &coins, &index),
        MachineAction { first: Some(1), second: Some(0), add_money: false, output: Some(amt(8)) }
    );
    assert_eq!(
        Machine::Collector.plan(tile, &coins, &index),
        MachineAction { first: None, second: None, add_money: false, output: None }
    );
    assert_eq!(
        Machine::ConveyorRight.plan(tile, &coins, &index),
        MachineAction { first: Some(1), second: None, add_money: false, output: Some(amt(5)) }
    );
}
