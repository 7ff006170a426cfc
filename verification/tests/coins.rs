use one_clicker::amount::Amount;
use one_clicker::coins::{
    apply_pickups, click_coins, click_coins_with, click_particle, coin_index, hover_coins,
    spawn_coin, update_coins, Balance, Coin, CoinEntity, CoinPickup, Money, Particle, CLICK_SPEED,
    COIN_DAMPING, DESPAWN_DURATION, FULL_TURN, PICKUP_RADIUS, SPAWN_GRACE,
};
use one_clicker::entity::EntityAllocator;
use one_clicker::geometry::{WorldPoint, WorldVector};
use one_clicker::input::{MouseButton, WorldMouseEvent};
use one_clicker::random::{random_scatters, scatter_at, unit_sample, Scatter, UNIT_SAMPLES};
use one_clicker::tiles::{track_tile_entities, TileTrackedEntities};
use one_clicker::tracking::tile_tracked;
use rand::Rng;

fn amt(value: u128) -> Amount {
    Amount::from_u128(value)
}

const STILL: Particle = Particle { heading: 0, speed: 0, damping: 0 };

fn point(x: i64, y: i64) -> WorldPoint {
    WorldPoint { x, y }
}

fn ripe(id: u64, value: u128, position: WorldPoint) -> CoinEntity {
    let mut coin = Coin::new();
    coin.tick(SPAWN_GRACE);
    CoinEntity { id, position, money: Money(amt(value)), particle: STILL, coin }
}

fn index_of(coins: &Vec<CoinEntity>) -> TileTrackedEntities {
    let mut index = TileTrackedEntities::new();
    track_tile_entities(&tile_tracked(coins, &Vec::new(), &Vec::new()), &mut index);
    index
}

#[test]
fn balance_starts_empty() {
    assert_eq!(Balance::default().coins, amt(0));
}

#[test]
fn allocator_hands_out_each_identifier_once() {
    let mut allocator = EntityAllocator::new();
    assert_eq!(allocator.spawn(), 0);
    assert_eq!(allocator.spawn(), 1);
    assert!(allocator.has_room(5));
    let last = EntityAllocator { next: u64::MAX - 1 };
    assert!(last.has_room(1));
    assert!(!last.has_room(2));
    assert!(!last.has_room(usize::MAX));
}

#[test]
fn new_coin_waits_out_its_grace_period() {
    let coin = Coin::new();
    assert!(!coin.pickable());
    assert!(coin.alive);
    assert!(coin.has_money);
    assert!(coin.despawn_timer.paused());
    assert_eq!(coin.spawn_timer.duration, 200_000_000);
    assert_eq!(coin.despawn_timer.duration, 100_000_000);
}

#[test]
fn coin_is_pickable_exactly_from_the_end_of_the_grace_period() {
    let mut coin = Coin::new();
    assert!(!coin.tick(SPAWN_GRACE - 1));
    assert!(!coin.pickable());
    assert!(!coin.tick(1));
    assert!(coin.pickable());
    assert!(!coin.tick(10 * SPAWN_GRACE));
    assert!(coin.pickable());
    let mut stepped = Coin::new();
    for _ in 0..12 {
        assert!(!stepped.pickable());
        stepped.tick(16_666_666);
    }
    assert!(!stepped.pickable());
    stepped.tick(16_666_666);
    assert!(stepped.pickable());
}

#[test]
fn pickup_before_the_grace_period_is_passed_over() {
    let mut coin = Coin::new();
    assert!(!coin.request_pickup(true));
    assert_eq!(coin, Coin::new());
}

#[test]
fn first_pickup_wins() {
    let mut coin = Coin::new();
    coin.tick(SPAWN_GRACE);
    assert!(coin.request_pickup(false));
    assert!(!coin.pickable());
    assert!(!coin.has_money);
    assert!(!coin.request_pickup(true));
    assert!(!coin.has_money);
    assert!(!coin.tick(DESPAWN_DURATION - 1));
    assert!(coin.tick(1));
}

#[test]
fn spawn_coin_appends_a_fresh_coin() {
    let mut allocator = EntityAllocator { next: 40 };
    let mut coins = Vec::new();
    let launch = Particle { heading: 5, speed: 6, damping: 7 };
    assert_eq!(spawn_coin(&mut allocator, &mut coins, amt(9), point(1, 2), launch), 40);
    assert_eq!(allocator.next, 41);
    assert_eq!(
        coins,
        vec![CoinEntity {
            id: 40,
            position: point(1, 2),
            money: Money(amt(9)),
            particle: launch,
            coin: Coin::new()
        }]
    );
}

#[test]
fn coin_index_finds_the_first_match() {
    let coins = vec![ripe(4, 1, point(0, 0)), ripe(9, 2, point(0, 0)), ripe(4, 3, point(0, 0))];
    assert_eq!(coin_index(&coins, 4), Some(0));
    assert_eq!(coin_index(&coins, 9), Some(1));
    assert_eq!(coin_index(&coins, 5), None);
    assert_eq!(coin_index(&Vec::new(), 5), None);
}

#[test]
fn unit_sample_keeps_the_upper_bits() {
    assert_eq!(UNIT_SAMPLES, 1 << 24);
    assert_eq!(unit_sample(0), 0);
    assert_eq!(unit_sample(255), 0);
    assert_eq!(unit_sample(256), 1);
    assert_eq!(unit_sample(u32::MAX), (1 << 24) - 1);
}

#[test]
fn scatters_run_out_to_zero() {
    let scatters = vec![Scatter { speed: 1, spread: 2 }];
    assert_eq!(scatter_at(&scatters, 0), Scatter { speed: 1, spread: 2 });
    assert_eq!(scatter_at(&scatters, 1), Scatter { speed: 0, spread: 0 });
    assert_eq!(random_scatters(17).len(), 17);
    assert_eq!(random_scatters(0).len(), 0);
}

#[test]
fn click_particle_covers_the_full_turn() {
    assert_eq!(FULL_TURN, 1 << 27);
    assert_eq!(CLICK_SPEED, 80 << 24);
    assert_eq!(
        click_particle(Scatter { speed: 77, spread: 0 }),
        Particle { heading: 0, speed: CLICK_SPEED, damping: COIN_DAMPING }
    );
    assert_eq!(click_particle(Scatter { speed: 0, spread: 1 << 31 }).heading, FULL_TURN / 2);
    assert_eq!(click_particle(Scatter { speed: 0, spread: u32::MAX }).heading, FULL_TURN - 8);
}

#[test]
fn left_clicks_spawn_coins_of_value_one() {
    let events = vec![
        WorldMouseEvent::Hover { position: point(1, 1) },
        WorldMouseEvent::Click { button: MouseButton::Left, position: point(10, 20) },
        WorldMouseEvent::Click { button: MouseButton::Right, position: point(30, 40) },
        WorldMouseEvent::Click { button: MouseButton::Left, position: point(50, 60) },
    ];
    let scatters = vec![
        Scatter { speed: 0, spread: 0 },
        Scatter { speed: 0, spread: 512 },
        Scatter { speed: 0, spread: 0 },
    ];
    let mut allocator = EntityAllocator { next: 3 };
    let mut coins = Vec::new();
    click_coins_with(false, &events, &scatters, &mut allocator, &mut coins);
    assert_eq!(allocator.next, 5);
    assert_eq!(coins.len(), 2);
    assert_eq!(coins[0].id, 3);
    assert_eq!(coins[0].position, point(10, 20));
    assert_eq!(coins[0].money, Money(amt(1)));
    assert_eq!(coins[0].particle.heading, 16);
    assert_eq!(coins[0].coin, Coin::new());
    assert_eq!(coins[1].id, 4);
    assert_eq!(coins[1].position, point(50, 60));
    assert_eq!(coins[1].particle.heading, 0);
}

#[test]
fn clicks_spawn_nothing_while_a_tool_is_selected() {
    let events = vec![WorldMouseEvent::Click { button: MouseButton::Left, position: point(10, 20) }];
    let mut allocator = EntityAllocator::new();
    let mut coins = Vec::new();
    click_coins_with(true, &events, &Vec::new(), &mut allocator, &mut coins);
    click_coins(true, &events, &mut allocator, &mut coins);
    assert!(coins.is_empty());
    assert_eq!(allocator.next, 0);
    click_coins(false, &events, &mut allocator, &mut coins);
    assert_eq!(coins.len(), 1);
    assert_eq!(coins[0].money, Money(amt(1)));
    assert!(coins[0].particle.heading >= 0 && coins[0].particle.heading < FULL_TURN);
    assert_eq!(coins[0].particle.speed, CLICK_SPEED);
}

#[test]
fn pickups_are_applied_in_order() {
    let mut coins = vec![ripe(1, 5, point(0, 0)), ripe(2, 7, point(0, 0))];
    let pickups = vec![
        CoinPickup { coin: 2, target: point(0, 0), add_money: false },
        CoinPickup { coin: 99, target: point(0, 0), add_money: true },
        CoinPickup { coin: 2, target: point(0, 0), add_money: true },
        CoinPickup { coin: 1, target: point(0, 0), add_money: true },
    ];
    apply_pickups(&mut coins, &pickups);
    assert!(!coins[0].coin.despawn_timer.paused());
    assert!(coins[0].coin.has_money);
    assert!(!coins[1].coin.despawn_timer.paused());
    assert!(!coins[1].coin.has_money);
}

#[test]
fn update_coins_pays_credit_pickups_when_the_removal_completes() {
    let mut coins = vec![ripe(1, 5, point(0, 0)), ripe(2, 7, point(0, 0)), ripe(3, 11, point(0, 0))];
    let mut wallet = Balance { coins: amt(100) };
    let pickups = vec![
        CoinPickup { coin: 1, target: point(0, 0), add_money: true },
        CoinPickup { coin: 2, target: point(0, 0), add_money: false },
    ];
    update_coins(&mut coins, &mut wallet, &pickups, DESPAWN_DURATION - 1);
    assert_eq!(coins.len(), 3);
    assert_eq!(wallet.coins, amt(100));
    update_coins(&mut coins, &mut wallet, &Vec::new(), 1);
    assert_eq!(wallet.coins, amt(105));
    assert_eq!(coins.len(), 1);
    assert_eq!(coins[0].id, 3);
    assert!(coins[0].coin.pickable());
    update_coins(&mut coins, &mut wallet, &Vec::new(), 10 * DESPAWN_DURATION);
    assert_eq!(wallet.coins, amt(105));
    assert_eq!(coins.len(), 1);
}

#[test]
fn balance_grows_past_every_machine_word() {
    let mut coins = vec![ripe(1, 10, point(0, 0)), ripe(2, 10, point(0, 0))];
    let mut wallet = Balance { coins: amt(u128::MAX - 15) };
    let pickups = vec![
        CoinPickup { coin: 1, target: point(0, 0), add_money: true },
        CoinPickup { coin: 2, target: point(0, 0), add_money: true },
    ];
    update_coins(&mut coins, &mut wallet, &pickups, DESPAWN_DURATION);
    assert_eq!(wallet.coins, amt(u128::MAX).plus(&amt(5)));
    assert_eq!(wallet.coins.minus(&amt(u128::MAX)), Some(amt(5)));
    assert!(coins.is_empty());
}

#[test]
fn pickup_of_a_coin_that_is_gone_is_passed_over() {
    let mut coins = vec![ripe(1, 5, point(0, 0))];
    let mut wallet = Balance { coins: amt(0) };
    let pickups = vec![CoinPickup { coin: 8, target: point(0, 0), add_money: true }];
    update_coins(&mut coins, &mut wallet, &pickups, DESPAWN_DURATION);
    assert_eq!(wallet.coins, amt(0));
    assert_eq!(coins.len(), 1);
    assert!(coins[0].coin.pickable());
}

#[test]
fn hover_picks_up_coins_in_reach() {
    assert_eq!(PICKUP_RADIUS, 192);
    let mut unripe = ripe(4, 1, point(110, 100));
    unripe.coin = Coin::new();
    let mut claimed = ripe(5, 1, point(120, 100));
    claimed.coin.alive = false;
    let coins = vec![
        ripe(1, 1, point(100, 100)),
        ripe(2, 1, point(292, 100)),
        ripe(3, 1, point(293, 100)),
        unripe,
        claimed,
        ripe(6, 1, point(-20, 100)),
        ripe(7, 1, point(100, 700)),
    ];
    let index = index_of(&coins);
    let events = vec![
        WorldMouseEvent::Click { button: MouseButton::Left, position: point(100, 100) },
        WorldMouseEvent::Hover { position: point(100, 100) },
        WorldMouseEvent::Drag {
            button: MouseButton::Left,
            offset: WorldVector { x: 0, y: 0 },
            start_world: point(100, 100),
            end_world: point(100, 100),
        },
    ];
    let mut pickups = vec![CoinPickup { coin: 77, target: point(0, 0), add_money: false }];
    hover_coins(&coins, &events, &index, &mut pickups);
    let found: Vec<u64> = pickups.iter().map(|p| p.coin).collect();
    assert_eq!(found, vec![77, 6, 1, 2]);
    assert!(pickups[1..].iter().all(|p| p.add_money && p.target == point(100, 100)));
}

#[test]
fn hover_reaches_all_nine_tiles_row_by_row() {
    let coins = vec![
        ripe(1, 1, point(20, 20)),
        ripe(2, 1, point(-20, 20)),
        ripe(3, 1, point(20, -20)),
        ripe(4, 1, point(-20, -20)),
    ];
    let index = index_of(&coins);
    let events = vec![WorldMouseEvent::Hover { position: point(0, 0) }];
    let mut pickups = Vec::new();
    hover_coins(&coins, &events, &index, &mut pickups);
    let found: Vec<u64> = pickups.iter().map(|p| p.coin).collect();
    assert_eq!(found, vec![4, 3, 2, 1]);
}

#[test]
fn unit_sample_is_the_fraction_that_the_generator_makes_of_a_word() {
    for word in [0u32, 1, 255, 256, 257, 0x8000_0000, 0xdead_beef, u32::MAX - 256, u32::MAX] {
        let mut source = rand::rngs::mock::StepRng::new(word as u64, 0);
        let fraction: f32 = source.gen();
        assert_eq!(fraction, unit_sample(word) as f32 / UNIT_SAMPLES as f32);
    }
}

fn digits(limbs: &[u32]) -> Amount {
    let mut amount = Amount::Zero;
    for limb in limbs.iter().rev() {
        amount = Amount::Digits(*limb, Box::new(amount));
    }
    amount
}

#[test]
fn amounts_are_written_without_leading_zeros() {
    assert_eq!(amt(0), Amount::Zero);
    assert_eq!(amt(7), digits(&[7]));
    assert_eq!(amt(1 << 32), digits(&[0, 1]));
    assert_eq!(amt(u128::MAX), digits(&[u32::MAX, u32::MAX, u32::MAX, u32::MAX]));
    assert_eq!(amt(5).copy(), amt(5));
    assert_eq!(amt(5).clone(), amt(5));
}

#[test]
fn amounts_add_without_bound() {
    assert_eq!(amt(3).plus(&amt(5)), amt(8));
    assert_eq!(amt(0).plus(&amt(0)), amt(0));
    assert_eq!(amt(u32::MAX as u128).plus(&amt(1)), digits(&[0, 1]));
    assert_eq!(amt(u128::MAX).plus(&amt(1)), digits(&[0, 0, 0, 0, 1]));
    assert_eq!(amt(u128::MAX).plus(&amt(u128::MAX)), digits(&[u32::MAX - 1, u32::MAX, u32::MAX, u32::MAX, 1]));
    assert_eq!(digits(&[5, 0, 0]).plus(&digits(&[0, 0])), amt(5));
}

#[test]
fn amounts_multiply_without_bound() {
    assert_eq!(amt(3).times(&amt(5)), amt(15));
    assert_eq!(amt(0).times(&amt(u128::MAX)), amt(0));
    assert_eq!(amt(u128::MAX).times(&amt(0)), amt(0));
    assert_eq!(amt(1 << 64).times(&amt(1 << 64)), digits(&[0, 0, 0, 0, 1]));
    assert_eq!(amt(u64::MAX as u128).times(&amt(u64::MAX as u128)), amt(u64::MAX as u128 * u64::MAX as u128));
    assert_eq!(
        amt(u128::MAX).times(&amt(u128::MAX)),
        digits(&[1, 0, 0, 0, u32::MAX - 1, u32::MAX, u32::MAX, u32::MAX])
    );
    let mut value = amt(2);
    for _ in 0..7 {
        value = value.times(&value);
    }
    assert_eq!(value, digits(&[0, 0, 0, 0, 1]));
    value = value.times(&value);
    assert_eq!(value, digits(&[0, 0, 0, 0, 0, 0, 0, 0, 1]));
}

#[test]
fn amounts_subtract_when_they_can() {
    assert_eq!(amt(25).minus(&amt(20)), Some(amt(5)));
    assert_eq!(amt(20).minus(&amt(20)), Some(amt(0)));
    assert_eq!(amt(15).minus(&amt(20)), None);
    assert_eq!(digits(&[0, 0, 0, 0, 1]).minus(&amt(1)), Some(amt(u128::MAX)));
    assert_eq!(amt(u128::MAX).minus(&digits(&[0, 0, 0, 0, 1])), None);
    assert!(amt(20).covers(20));
    assert!(!amt(19).covers(20));
    assert!(digits(&[0, 0, 0, 0, 1]).covers(u128::MAX));
    assert!(amt(0).covers(0));
}
