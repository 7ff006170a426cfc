use one_clicker::amount::Amount;
use one_clicker::coins::{CoinPickup, Money};
use one_clicker::entity::EntityAllocator;
use one_clicker::geometry::{ScreenPoint, WorldPoint};
use one_clicker::input::{
    ButtonSample, Interaction, MouseButton, MouseState, PointerSample, ScreenToWorld,
    WorldMouseEvent,
};
use one_clicker::machines::{tile_center, Machine};
use one_clicker::random::Scatter;
use one_clicker::simulation::{Simulation, TickInput, Tool};
use one_clicker::tiles::TilePosition;

fn amt(value: u128) -> Amount {
    Amount::from_u128(value)
}

const QUIET: ButtonSample = ButtonSample { just_pressed: false, just_released: false };
const DOWN: ButtonSample = ButtonSample { just_pressed: true, just_released: false };
const UP: ButtonSample = ButtonSample { just_pressed: false, just_released: true };
const MS: u64 = 1_000_000;

/// A sample with the cursor at `(x, y)` in the world, one pixel to the
/// world unit.
fn sample(time_ms: u64, x: i32, y: i32, left: ButtonSample) -> Option<PointerSample> {
    Some(PointerSample {
        time: time_ms * MS,
        position_window: ScreenPoint { x, y },
        position_world: WorldPoint { x: x as i64, y: y as i64 },
        camera: ScreenToWorld { xx: 1024, xy: 0, yx: 0, yy: 1024 },
        interaction: Interaction::Hovered,
        left,
        middle: QUIET,
        right: QUIET,
    })
}

fn step(sim: &mut Simulation, sample: Option<PointerSample>, delta_ms: u64, tool: Tool) -> Vec<CoinPickup> {
    let input = TickInput { sample, delta: delta_ms * MS, tool };
    let report = sim.tick_with(&input, &Vec::new(), &Vec::new());
    report.expect("identifiers are left").coin_pickups
}

fn click(sim: &mut Simulation, time_ms: u64, x: i32, y: i32, tool: Tool) {
    step(sim, sample(time_ms, x, y, DOWN), 10, tool);
    step(sim, sample(time_ms + 10, x, y, UP), 10, tool);
}

#[test]
fn world_starts_empty() {
    let sim = Simulation::new();
    assert_eq!(sim.balance.coins, amt(0));
    assert_eq!(sim.allocator.next, 0);
    assert!(sim.coins.is_empty() && sim.machines.is_empty() && sim.spots.is_empty());
    assert_eq!(sim.world_mouse.state, MouseState::Idle);
}

#[test]
fn a_click_spawns_a_coin_that_hovering_picks_up() {
    let mut sim = Simulation::new();
    click(&mut sim, 0, 1000, 1000, Tool::Hand);
    assert_eq!(sim.coins.len(), 1);
    assert_eq!(sim.coins[0].money, Money(amt(1)));
    assert_eq!(sim.coins[0].position, WorldPoint { x: 1000, y: 1000 });
    // The coin was spawned in the tick of the release; its grace period
    // begins with the next tick.
    assert_eq!(sim.coins[0].coin.spawn_timer.elapsed, 0);
    assert!(step(&mut sim, sample(20, 1000, 1000, QUIET), 199, Tool::Hand).is_empty());
    assert!(!sim.coins[0].coin.pickable());
    assert!(step(&mut sim, sample(219, 1000, 1000, QUIET), 1, Tool::Hand).is_empty());
    assert!(sim.coins[0].coin.pickable());
    let pickups = step(&mut sim, sample(220, 1000, 1000, QUIET), 99, Tool::Hand);
    assert_eq!(
        pickups,
        vec![CoinPickup { coin: 0, target: WorldPoint { x: 1000, y: 1000 }, add_money: true }]
    );
    assert_eq!(sim.balance.coins, amt(0));
    assert_eq!(sim.coins.len(), 1);
    // The second request of the next tick comes too late to matter.
    step(&mut sim, sample(319, 1000, 1000, QUIET), 1, Tool::Hand);
    assert_eq!(sim.balance.coins, amt(1));
    assert!(sim.coins.is_empty());
}

#[test]
fn a_tick_without_a_cursor_still_advances_time() {
    let mut sim = Simulation::new();
    sim.balance.coins = amt(20);
    click(&mut sim, 0, 10, 10, Tool::Build(Machine::Miner));
    assert_eq!(sim.machines.len(), 1);
    assert_eq!(sim.balance.coins, amt(0));
    // The miner was placed in the tick of the release, and has run for its
    // 10 ms.
    step(&mut sim, None, 989, Tool::Hand);
    assert!(sim.coins.is_empty());
    step(&mut sim, None, 1, Tool::Hand);
    assert_eq!(sim.coins.len(), 1);
    assert_eq!(sim.coins[0].coin.spawn_timer.elapsed, 0);
    assert_eq!(sim.coins[0].position, tile_center(TilePosition::new(0, 0)));
}

#[test]
fn building_tool_places_and_clicks_spawn_nothing() {
    let mut sim = Simulation::new();
    sim.balance.coins = amt(25);
    click(&mut sim, 0, 300, 300, Tool::Build(Machine::Miner));
    assert!(sim.coins.is_empty());
    assert_eq!(sim.balance.coins, amt(5));
    assert_eq!(sim.machines.len(), 1);
    assert_eq!(sim.machines[0].position, TilePosition::new(1, 1));
    assert_eq!(sim.spots.len(), 1);
    assert_eq!(sim.spots[0].position, TilePosition::new(1, 0));
    assert!(sim.spots[0].spot.visible);
    // The index follows the machine and its spot.
    assert_eq!(sim.tiles.get_entities_in_tile(TilePosition::new(1, 1)), Some(&vec![sim.machines[0].id]));
    assert_eq!(sim.tiles.get_entities_in_tile(TilePosition::new(1, 0)), Some(&vec![sim.spots[0].id]));
    sim.balance.coins = amt(1000);
    click(&mut sim, 100, 300, 300, Tool::Build(Machine::Adder));
    assert_eq!(sim.machines.len(), 1);
    assert_eq!(sim.balance.coins, amt(1000));
    click(&mut sim, 200, 300, 100, Tool::Build(Machine::ConveyorUp));
    assert_eq!(sim.machines.len(), 2);
    assert!(!sim.spots[0].spot.visible);
}

#[test]
fn demolition_tool_removes_machines() {
    let mut sim = Simulation::new();
    sim.balance.coins = amt(1000);
    click(&mut sim, 0, 300, 300, Tool::Build(Machine::Miner));
    click(&mut sim, 100, 300, 100, Tool::Build(Machine::ConveyorUp));
    assert_eq!(sim.machines.len(), 2);
    click(&mut sim, 200, 300, 100, Tool::Demolish);
    assert_eq!(sim.machines.len(), 1);
    assert_eq!(sim.machines[0].placed.machine, Machine::Miner);
    assert_eq!(sim.spots.len(), 1);
    assert!(sim.spots[0].spot.visible);
    assert_eq!(sim.balance.coins, amt(970));
}

#[test]
fn miner_conveyor_and_collector_earn_money() {
    let mut sim = Simulation::new();
    sim.balance.coins = amt(230);
    click(&mut sim, 0, 100, 600, Tool::Build(Machine::Miner));
    click(&mut sim, 20, 100, 100, Tool::Build(Machine::Collector));
    click(&mut sim, 40, 100, 300, Tool::Build(Machine::ConveyorDown));
    assert_eq!(sim.machines.len(), 3);
    assert_eq!(sim.balance.coins, amt(0));
    // The miner has run for 50 ms of its second; let it spawn its coin.
    step(&mut sim, None, 950, Tool::Hand);
    assert_eq!(sim.coins.len(), 1);
    let mined = sim.coins[0].id;
    // The coin drifts within the tile above the conveyor's own, and ripens.
    sim.coins[0].position = WorldPoint { x: 100, y: 520 };
    assert!(step(&mut sim, None, 200, Tool::Hand).is_empty());
    assert!(sim.coins[0].coin.pickable());
    // The conveyor finds nothing on its own tile, and takes the coin from
    // the tile behind it.
    let pickups = step(&mut sim, None, 200, Tool::Hand);
    assert_eq!(
        pickups,
        vec![CoinPickup { coin: mined, target: tile_center(TilePosition::new(0, 1)), add_money: false }]
    );
    assert_eq!(sim.coins.len(), 1);
    assert_ne!(sim.coins[0].id, mined);
    assert_eq!(sim.coins[0].money, Money(amt(1)));
    assert_eq!(sim.coins[0].position, tile_center(TilePosition::new(0, 1)));
    assert_eq!(sim.balance.coins, amt(0));
    // The relayed coin ripens where it is, above the collector.
    let relayed = sim.coins[0].id;
    let pickups = step(&mut sim, None, 200, Tool::Hand);
    assert!(pickups.is_empty());
    let pickups = step(&mut sim, None, 100, Tool::Hand);
    assert_eq!(pickups.len(), 1);
    assert_eq!(pickups[0].coin, relayed);
    assert!(pickups[0].add_money);
    assert_eq!(sim.balance.coins, amt(1));
    assert!(sim.coins.iter().all(|c| c.id != relayed));
}

#[test]
fn middle_drag_pans_the_camera() {
    let mut sim = Simulation::new();
    let mut press = sample(0, 100, 100, QUIET).unwrap();
    press.middle = DOWN;
    step(&mut sim, Some(press), 10, Tool::Hand);
    let mut moved = sample(300, 130, 90, QUIET).unwrap();
    moved.middle = QUIET;
    let input = TickInput { sample: Some(moved), delta: 10 * MS, tool: Tool::Hand };
    let report = sim.tick_with(&input, &Vec::new(), &Vec::new()).unwrap();
    assert_eq!(report.mouse_events.len(), 1);
    assert!(matches!(report.mouse_events[0], WorldMouseEvent::Drag { button: MouseButton::Middle, .. }));
    assert_eq!(sim.camera, WorldPoint { x: -30, y: 10 });
    assert_eq!(sim.world_mouse.state, MouseState::Dragging);
}

#[test]
fn right_click_puts_the_tool_away() {
    let mut sim = Simulation::new();
    let mut press = sample(0, 100, 100, QUIET).unwrap();
    press.right = DOWN;
    let mut release = sample(10, 100, 100, QUIET).unwrap();
    release.right = UP;
    for (tool, expected) in [(Tool::Hand, false), (Tool::Demolish, true)] {
        let input = TickInput { sample: Some(press), delta: MS, tool };
        assert!(!sim.tick_with(&input, &Vec::new(), &Vec::new()).unwrap().deselect);
        let input = TickInput { sample: Some(release), delta: MS, tool };
        assert_eq!(sim.tick_with(&input, &Vec::new(), &Vec::new()).unwrap().deselect, expected);
    }
}

#[test]
fn tick_refuses_when_identifiers_run_out() {
    let mut sim = Simulation::new();
    sim.allocator = EntityAllocator { next: u64::MAX };
    let quiet = TickInput { sample: None, delta: MS, tool: Tool::Hand };
    assert!(sim.tick_with(&quiet, &Vec::new(), &Vec::new()).is_some());
    let hover = TickInput { sample: sample(0, 5, 5, QUIET), delta: MS, tool: Tool::Hand };
    assert!(sim.tick_with(&hover, &Vec::new(), &Vec::new()).is_none());
    assert_eq!(sim.world_mouse.position_world, WorldPoint { x: 0, y: 0 });
    assert_eq!(sim.allocator.next, u64::MAX);
}

#[test]
fn random_tick_scatters_clicked_coins() {
    let mut sim = Simulation::new();
    let press = TickInput { sample: sample(0, 7, 7, DOWN), delta: MS, tool: Tool::Hand };
    let release = TickInput { sample: sample(5, 7, 7, UP), delta: MS, tool: Tool::Hand };
    for _ in 0..20 {
        assert!(sim.tick(&press).is_some());
        assert!(sim.tick(&release).is_some());
    }
    assert_eq!(sim.coins.len(), 20);
    assert!(sim.coins.iter().all(|c| c.particle.heading >= 0 && c.particle.heading < 1 << 27));
    assert!(sim.coins.iter().any(|c| c.particle.heading != sim.coins[0].particle.heading));
}

#[test]
fn pinned_scatters_pin_the_launch() {
    let mut sim = Simulation::new();
    let press = TickInput { sample: sample(0, 7, 7, DOWN), delta: MS, tool: Tool::Hand };
    let release = TickInput { sample: sample(5, 7, 7, UP), delta: MS, tool: Tool::Hand };
    let scatters = vec![Scatter { speed: 0, spread: 256 * 1000 }, Scatter { speed: 0, spread: 0 }];
    sim.tick_with(&press, &scatters, &Vec::new());
    sim.tick_with(&release, &scatters, &Vec::new());
    assert_eq!(sim.coins.len(), 1);
    assert_eq!(sim.coins[0].particle.heading, 8000);
}

#[test]
fn right_click_demolishes_with_no_tool_in_hand() {
    let mut sim = Simulation::new();
    sim.balance.coins = amt(1000);
    click(&mut sim, 0, 300, 300, Tool::Build(Machine::Adder));
    assert_eq!(sim.machines.len(), 1);
    assert_eq!(sim.spots.len(), 3);
    let mut press = sample(100, 300, 300, QUIET).unwrap();
    press.right = DOWN;
    let mut release = sample(110, 300, 300, QUIET).unwrap();
    release.right = UP;
    // With the building tool in hand the right click only puts it away.
    step(&mut sim, Some(press), 1, Tool::Build(Machine::Miner));
    step(&mut sim, Some(release), 1, Tool::Build(Machine::Miner));
    assert_eq!(sim.machines.len(), 1);
    step(&mut sim, Some(press), 1, Tool::Hand);
    step(&mut sim, Some(release), 1, Tool::Hand);
    assert!(sim.machines.is_empty());
    assert!(sim.spots.is_empty());
}

#[test]
fn a_hovered_coin_is_not_relayed_as_well() {
    let mut sim = Simulation::new();
    sim.balance.coins = amt(10);
    click(&mut sim, 0, 100, 100, Tool::Build(Machine::ConveyorUp));
    let launch = one_clicker::coins::Particle { heading: 0, speed: 0, damping: 0 };
    one_clicker::coins::spawn_coin(
        &mut sim.allocator,
        &mut sim.coins,
        amt(7),
        WorldPoint { x: 100, y: 100 },
        launch,
    );
    step(&mut sim, None, 200, Tool::Hand);
    assert!(sim.coins[0].coin.pickable());
    let coin = sim.coins[0].id;
    // The pointer hovers on the coin in the tick in which the conveyor acts.
    let pickups = step(&mut sim, sample(1000, 100, 100, QUIET), 200, Tool::Hand);
    assert_eq!(
        pickups,
        vec![CoinPickup { coin, target: WorldPoint { x: 100, y: 100 }, add_money: true }]
    );
    assert_eq!(sim.balance.coins, amt(7));
    assert!(sim.coins.is_empty());
}
