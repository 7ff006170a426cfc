use one_clicker::amount::Amount;
use one_clicker::coins::Balance;
use one_clicker::entity::EntityAllocator;
use one_clicker::machines::{Machine, MachineEntity};
use one_clicker::placement::{
    delete_machine, delete_machines, occupied, place_machine, place_machines, stands_on,
    update_spots, MachineDeleteRequest, MachinePlaceRequest, Spot, SpotEntity, UpdateSpotsRequest,
    ENTITIES_PER_PLACEMENT,
};
use one_clicker::tiles::TilePosition;
use one_clicker::timer::{Timer, TimerMode};

fn amt(value: u128) -> Amount {
    Amount::from_u128(value)
}

struct Grounds {
    balance: Balance,
    machines: Vec<MachineEntity>,
    spots: Vec<SpotEntity>,
    allocator: EntityAllocator,
    updates: Vec<UpdateSpotsRequest>,
}

fn grounds(coins: u128) -> Grounds {
    Grounds {
        balance: Balance { coins: amt(coins) },
        machines: Vec::new(),
        spots: Vec::new(),
        allocator: EntityAllocator { next: 100 },
        updates: Vec::new(),
    }
}

fn place(g: &mut Grounds, machine: Machine, x: i32, y: i32) -> Option<u64> {
    place_machine(
        MachinePlaceRequest { machine, position: TilePosition::new(x, y) },
        &mut g.balance,
        &mut g.machines,
        &mut g.spots,
        &mut g.allocator,
        &mut g.updates,
    )
}

fn update(x: i32, y: i32) -> UpdateSpotsRequest {
    UpdateSpotsRequest { position: TilePosition::new(x, y) }
}

#[test]
fn placement_without_funds_is_rejected() {
    let mut g = grounds(15);
    assert_eq!(place(&mut g, Machine::Miner, 0, 0), None);
    assert_eq!(g.balance.coins, amt(15));
    assert!(g.machines.is_empty());
    assert!(g.spots.is_empty());
    assert!(g.updates.is_empty());
    assert_eq!(g.allocator.next, 100);
}

#[test]
fn placement_with_funds_succeeds_once_per_tile() {
    let mut g = grounds(25);
    assert_eq!(place(&mut g, Machine::Miner, 0, 0), Some(100));
    assert_eq!(g.balance.coins, amt(5));
    assert_eq!(g.machines.len(), 1);
    assert!(occupied(&g.machines, TilePosition::new(0, 0)));
    assert_eq!(place(&mut g, Machine::Miner, 0, 0), None);
    g.balance.coins = amt(u128::MAX);
    assert_eq!(place(&mut g, Machine::ConveyorUp, 0, 0), None);
    assert_eq!(g.balance.coins, amt(u128::MAX));
    assert_eq!(g.machines.len(), 1);
}

#[test]
fn placement_at_exactly_the_cost_empties_the_balance() {
    let mut g = grounds(200);
    assert_eq!(place(&mut g, Machine::Collector, 3, 3), Some(100));
    assert_eq!(g.balance.coins, amt(0));
}

#[test]
fn placed_machine_starts_its_repeating_timer() {
    let mut g = grounds(1000);
    place(&mut g, Machine::Adder, -2, 7);
    let machine = g.machines[0];
    assert_eq!(machine.id, 100);
    assert_eq!(machine.position, TilePosition::new(-2, 7));
    assert_eq!(machine.placed.machine, Machine::Adder);
    assert_eq!(machine.placed.action_timer, Timer::new(1_000_000_000, TimerMode::Repeating));
}

#[test]
fn placement_creates_the_spots_of_the_kind() {
    let mut g = grounds(1000);
    place(&mut g, Machine::Adder, 0, 0);
    let spot = |id, x, y| SpotEntity {
        id,
        position: TilePosition::new(x, y),
        spot: Spot { owner: 100, visible: true },
    };
    assert_eq!(g.spots, vec![spot(101, 0, -1), spot(102, -1, 0), spot(103, 1, 0)]);
    assert_eq!(g.allocator.next, 104);
    assert_eq!(g.updates, vec![update(0, 0), update(-1, 0), update(1, 0), update(0, -1), update(0, 1)]);
    let mut g = grounds(1000);
    place(&mut g, Machine::Collector, 5, 5);
    assert_eq!(g.spots.len(), 1);
    assert_eq!(g.spots[0].position, TilePosition::new(5, 6));
    let mut g = grounds(1000);
    place(&mut g, Machine::ConveyorLeft, 5, 5);
    let tiles: Vec<TilePosition> = g.spots.iter().map(|s| s.position).collect();
    assert_eq!(tiles, vec![TilePosition::new(4, 5), TilePosition::new(6, 5)]);
}

#[test]
fn requests_are_placed_in_order() {
    assert_eq!(ENTITIES_PER_PLACEMENT, 5);
    let mut g = grounds(45);
    let requests = vec![
        MachinePlaceRequest { machine: Machine::Miner, position: TilePosition::new(0, 0) },
        MachinePlaceRequest { machine: Machine::Collector, position: TilePosition::new(1, 0) },
        MachinePlaceRequest { machine: Machine::ConveyorUp, position: TilePosition::new(0, 0) },
        MachinePlaceRequest { machine: Machine::Miner, position: TilePosition::new(2, 0) },
        MachinePlaceRequest { machine: Machine::ConveyorUp, position: TilePosition::new(3, 0) },
    ];
    place_machines(
        &requests,
        &mut g.balance,
        &mut g.machines,
        &mut g.spots,
        &mut g.allocator,
        &mut g.updates,
    );
    let placed: Vec<(Machine, i32)> =
        g.machines.iter().map(|m| (m.placed.machine, m.position.x)).collect();
    assert_eq!(placed, vec![(Machine::Miner, 0), (Machine::Miner, 2)]);
    assert_eq!(g.balance.coins, amt(5));
    assert_eq!(g.updates.len(), 10);
}

#[test]
fn demolition_removes_the_machine_and_its_spots() {
    let mut g = grounds(10_000);
    place(&mut g, Machine::Adder, 0, 0);
    place(&mut g, Machine::Miner, 1, 0);
    g.updates.clear();
    let did =
        delete_machine(MachineDeleteRequest { position: TilePosition::new(0, 0) }, &mut g.machines, &mut g.spots, &mut g.updates);
    assert!(did);
    assert_eq!(g.machines.len(), 1);
    assert_eq!(g.machines[0].placed.machine, Machine::Miner);
    assert_eq!(g.spots.len(), 1);
    assert_eq!(g.spots[0].spot.owner, g.machines[0].id);
    assert_eq!(g.updates, vec![update(0, 0)]);
    assert!(!occupied(&g.machines, TilePosition::new(0, 0)));
    assert_eq!(g.balance.coins, amt(10_000 - 520));
}

#[test]
fn demolition_of_an_empty_tile_changes_nothing() {
    let mut g = grounds(10_000);
    place(&mut g, Machine::Adder, 0, 0);
    g.updates.clear();
    let machines = g.machines.clone();
    let spots = g.spots.clone();
    let did =
        delete_machine(MachineDeleteRequest { position: TilePosition::new(0, 1) }, &mut g.machines, &mut g.spots, &mut g.updates);
    assert!(!did);
    assert_eq!(g.machines, machines);
    assert_eq!(g.spots, spots);
    assert!(g.updates.is_empty());
}

#[test]
fn demolition_requests_are_carried_out_in_order() {
    let mut g = grounds(10_000);
    place(&mut g, Machine::Miner, 0, 0);
    place(&mut g, Machine::Miner, 1, 0);
    place(&mut g, Machine::Miner, 2, 0);
    g.updates.clear();
    let requests = vec![
        MachineDeleteRequest { position: TilePosition::new(2, 0) },
        MachineDeleteRequest { position: TilePosition::new(9, 9) },
        MachineDeleteRequest { position: TilePosition::new(0, 0) },
        MachineDeleteRequest { position: TilePosition::new(0, 0) },
    ];
    delete_machines(&requests, &mut g.machines, &mut g.spots, &mut g.updates);
    assert_eq!(g.machines.len(), 1);
    assert_eq!(g.machines[0].position, TilePosition::new(1, 0));
    assert_eq!(g.spots.len(), 1);
    assert_eq!(g.updates, vec![update(2, 0), update(0, 0)]);
    assert_eq!(place(&mut g, Machine::Miner, 0, 0), Some(g.allocator.next - 2));
}

#[test]
fn stands_on_needs_both_the_machine_and_the_tile() {
    let mut g = grounds(10_000);
    place(&mut g, Machine::Miner, 0, 0);
    assert!(stands_on(&g.machines, 100, TilePosition::new(0, 0)));
    assert!(!stands_on(&g.machines, 100, TilePosition::new(0, 1)));
    assert!(!stands_on(&g.machines, 101, TilePosition::new(0, 0)));
}

#[test]
fn spots_hide_under_machines_and_show_again() {
    let mut g = grounds(10_000);
    place(&mut g, Machine::Miner, 0, 1);
    place(&mut g, Machine::Miner, 0, 0);
    assert_eq!(g.spots[0].position, TilePosition::new(0, 0));
    assert_eq!(g.spots[1].position, TilePosition::new(0, -1));
    let updates = g.updates.clone();
    update_spots(&updates, &g.machines, &mut g.spots);
    assert!(!g.spots[0].spot.visible);
    assert!(g.spots[1].spot.visible);
    g.updates.clear();
    delete_machine(MachineDeleteRequest { position: TilePosition::new(0, 0) }, &mut g.machines, &mut g.spots, &mut g.updates);
    assert_eq!(g.spots.len(), 1);
    let updates = g.updates.clone();
    update_spots(&updates, &g.machines, &mut g.spots);
    assert!(g.spots[0].spot.visible);
    update_spots(&vec![update(7, 7)], &g.machines, &mut g.spots);
    assert!(g.spots[0].spot.visible);
}
