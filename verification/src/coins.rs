//! Coins: their lifecycle from spawn to pickup, and the balance they pay
//! into.

use vstd::prelude::*;
use crate::amount::{amount, lemma_amount, Amount};
use crate::entity::{EntityAllocator, EntityId};
use crate::geometry::{world_distance_squared, world_within, WorldPoint};
use crate::input::{MouseButton, WorldMouseEvent};
use crate::random::{scatter_at, spec_scatter_at, spec_unit_sample, unit_sample, Scatter};
use crate::tiles::{spec_entities_in, TileIndex, TilePosition, TileTrackedEntities};
use crate::timer::{Timer, TimerMode};

verus! {

/// An amount of currency, without an upper bound.
pub type Currency = Amount;

/// Time after its spawn during which a coin cannot be picked up, in
/// nanoseconds.
pub const SPAWN_GRACE: u64 = 200_000_000;

/// Time from the pickup of a coin to its removal, in nanoseconds.
pub const DESPAWN_DURATION: u64 = 100_000_000;

/// Greatest distance, in world units, at which a hovering pointer picks a
/// coin up.
pub const PICKUP_RADIUS: u32 = 192;

/// Angle units in one full turn.
pub const FULL_TURN: i32 = 0x800_0000;

/// Angle units in a quarter turn.
pub const QUARTER_TURN: i32 = 0x200_0000;

/// Speed units in one world unit per tick.
pub const SPEED_UNIT: u32 = 0x100_0000;

/// The speed of a coin spawned by a click: 80 world units per tick.
pub const CLICK_SPEED: u32 = 0x5000_0000;

/// The share of its speed that a coin keeps from one tick to the next, in
/// thousandths.
pub const COIN_DAMPING: u16 = 600;

/// The currency that the player holds.
#[derive(Clone, Debug, PartialEq, Eq)]
pub struct Balance {
    pub coins: Currency,
}

impl Default for Balance {
    fn default() -> (balance: Balance)
        ensures
            balance.coins == Amount::Zero,
    {
        Balance { coins: Amount::Zero }
    }
}

/// The value that an entity carries.
#[derive(Clone, Debug, PartialEq, Eq)]
pub struct Money(pub Currency);

/// The launch of a drifting entity: its heading in angle units
/// (`FULL_TURN` to the turn, counter-clockwise from the x axis), its speed
/// in speed units (`SPEED_UNIT` to the world unit per tick) and its damping
/// in thousandths.
#[derive(Clone, Copy, Debug, PartialEq, Eq, Structural)]
pub struct Particle {
    pub heading: i32,
    pub speed: u32,
    pub damping: u16,
}

/// The lifecycle state of a coin.
#[derive(Clone, Copy, Debug, PartialEq, Eq, Structural)]
pub struct Coin {
    pub spawn_timer: Timer,
    pub despawn_timer: Timer,
    pub has_money: bool,
    pub alive: bool,
}

/// A request to pick a coin up and draw it to `target`; `add_money` says
/// whether its value is paid into the balance.
#[derive(Clone, Copy, Debug, PartialEq, Eq, Structural)]
pub struct CoinPickup {
    pub coin: EntityId,
    pub target: WorldPoint,
    pub add_money: bool,
}

/// A coin in the world.
#[derive(Clone, Debug, PartialEq, Eq)]
pub struct CoinEntity {
    pub id: EntityId,
    pub position: WorldPoint,
    pub money: Money,
    pub particle: Particle,
    pub coin: Coin,
}

impl Coin {
    /// A coin that was just spawned: its grace period runs, its removal is
    /// not under way, and nobody has claimed it.
    pub open spec fn spec_new() -> Coin {
        Coin {
            spawn_timer: Timer::spec_new(SPAWN_GRACE, TimerMode::Once),
            despawn_timer: Timer {
                paused: true,
                ..Timer::spec_new(DESPAWN_DURATION, TimerMode::Once)
            },
            has_money: true,
            alive: true,
        }
    }

    /// Whether the coin can be matched for a pickup: nobody has claimed it,
    /// its grace period is over and its removal is not under way.
    pub open spec fn spec_pickable(self) -> bool {
        self.alive && self.spawn_timer.finished && self.despawn_timer.paused
    }

    /// Whether a pickup request still takes effect: the grace period is
    /// over and no earlier request has started the removal.
    pub open spec fn accepts_pickup(self) -> bool {
        self.spawn_timer.finished && self.despawn_timer.paused
    }

    /// The coin after a pickup request: the first request that takes effect
    /// starts the removal and settles whether the value is paid out; any
    /// other leaves the coin as it is.
    pub open spec fn spec_request_pickup(self, add_money: bool) -> Coin {
        if self.accepts_pickup() {
            Coin {
                despawn_timer: Timer {
                    duration: DESPAWN_DURATION,
                    paused: false,
                    ..self.despawn_timer
                },
                has_money: add_money,
                ..self
            }
        } else {
            self
        }
    }

    /// The coin after `delta` nanoseconds.
    pub open spec fn spec_tick(self, delta: u64) -> Coin {
        Coin {
            spawn_timer: self.spawn_timer.spec_tick(delta),
            despawn_timer: self.despawn_timer.spec_tick(delta),
            ..self
        }
    }

    /// Whether the last tick completed the coin's removal.
    pub open spec fn despawned(self) -> bool {
        self.despawn_timer.times_finished_this_tick > 0
    }

    pub fn new() -> (coin: Coin)
        ensures
            coin == Self::spec_new(),
    {
        let mut despawn_timer = Timer::new(DESPAWN_DURATION, TimerMode::Once);
        despawn_timer.pause();
        Coin {
            spawn_timer: Timer::new(SPAWN_GRACE, TimerMode::Once),
            despawn_timer,
            has_money: true,
            alive: true,
        }
    }

    pub fn pickable(&self) -> (pickable: bool)
        ensures
            pickable == self.spec_pickable(),
    {
        self.alive && self.spawn_timer.finished() && self.despawn_timer.paused()
    }

    /// Asks for the coin to be picked up; says whether the request took
    /// effect.
    pub fn request_pickup(&mut self, add_money: bool) -> (armed: bool)
        ensures
            armed == old(self).accepts_pickup(),
            *final(self) == old(self).spec_request_pickup(add_money),
    {
        if self.spawn_timer.finished() && self.despawn_timer.paused() {
            self.despawn_timer.set_duration(DESPAWN_DURATION);
            self.despawn_timer.unpause();
            self.has_money = add_money;
            true
        } else {
            false
        }
    }

    /// Lets `delta` nanoseconds pass; says whether the coin's removal
    /// completed.
    pub fn tick(&mut self, delta: u64) -> (gone: bool)
        ensures
            *final(self) == old(self).spec_tick(delta),
            gone == final(self).despawned(),
    {
        self.spawn_timer.tick(delta);
        self.despawn_timer.tick(delta);
        self.despawn_timer.just_finished()
    }
}

/// The place of the first coin with the identifier `id`, if there is one.
pub open spec fn spec_coin_index(coins: Seq<CoinEntity>, id: EntityId) -> Option<int>
    decreases coins.len(),
{
    if coins.len() == 0 {
        None
    } else {
        match spec_coin_index(coins.drop_last(), id) {
            Some(i) => Some(i),
            None => if coins.last().id == id {
                Some(coins.len() - 1)
            } else {
                None
            },
        }
    }
}

/// What `spec_coin_index` finds: the least place that holds `id`.
pub proof fn lemma_coin_index(coins: Seq<CoinEntity>, id: EntityId)
    ensures
        match spec_coin_index(coins, id) {
            Some(i) => 0 <= i < coins.len() && coins[i].id == id && forall|j: int|
                0 <= j < i ==> coins[j].id != id,
            None => forall|j: int| 0 <= j < coins.len() ==> coins[j].id != id,
        },
    decreases coins.len(),
{
    if coins.len() > 0 {
        let front = coins.drop_last();
        lemma_coin_index(front, id);
        assert forall|j: int| 0 <= j < front.len() implies front[j] == coins[j] by {}
        match spec_coin_index(front, id) {
            Some(i) => {
                assert(coins[i] == front[i]);
                assert forall|j: int| 0 <= j < i implies coins[j].id != id by {
                    assert(front[j].id != id);
                }
            },
            None => {
                assert forall|j: int| 0 <= j < coins.len() - 1 implies coins[j].id != id by {
                    assert(front[j].id != id);
                }
            },
        }
    }
}

/// Finds the first coin with the identifier `id`.
pub fn coin_index(coins: &Vec<CoinEntity>, id: EntityId) -> (found: Option<usize>)
    ensures
        found.is_some() == spec_coin_index(coins@, id).is_some(),
        found.is_some() ==> found.unwrap() as int == spec_coin_index(coins@, id).unwrap(),
{
    let mut i: usize = 0;
    while i < coins.len()
        invariant
            i <= coins.len(),
            forall|j: int| 0 <= j < i ==> coins[j].id != id,
        decreases coins.len() - i,
    {
        if coins[i].id == id {
            proof {
                lemma_coin_index(coins@, id);
            }
            return Some(i);
        }
        i += 1;
    }
    proof {
        lemma_coin_index(coins@, id);
    }
    None
}

/// Spawns a coin; returns its identifier.
pub fn spawn_coin(
    allocator: &mut EntityAllocator,
    coins: &mut Vec<CoinEntity>,
    value: Currency,
    position: WorldPoint,
    particle: Particle,
) -> (id: EntityId)
    requires
        old(allocator).spec_has_room(1),
    ensures
        id == old(allocator).next,
        final(allocator).next == old(allocator).next + 1,
        final(coins)@ == old(coins)@.push(
            CoinEntity { id, position, money: Money(value), particle, coin: Coin::spec_new() },
        ),
{
    let id = allocator.spawn();
    coins.push(CoinEntity { id, position, money: Money(value), particle, coin: Coin::new() });
    id
}

/// The launch of a coin spawned by a click: in any direction, by the spread
/// sample, at the click speed.
pub open spec fn spec_click_particle(scatter: Scatter) -> Particle {
    Particle {
        heading: (8 * spec_unit_sample(scatter.spread)) as i32,
        speed: CLICK_SPEED,
        damping: COIN_DAMPING,
    }
}

/// Computes the launch of a coin spawned by a click.
pub fn click_particle(scatter: Scatter) -> (particle: Particle)
    ensures
        particle == spec_click_particle(scatter),
{
    let sample: u32 = unit_sample(scatter.spread);
    Particle { heading: (8 * sample) as i32, speed: CLICK_SPEED, damping: COIN_DAMPING }
}

/// The coins that the events spawn: one of value 1 for each click of the
/// left button, where it was made, in the order of the events; the event
/// at place `i` uses the scatter at place `i`, and the coins get the
/// identifiers from `first` on.
pub open spec fn spec_click_spawns(
    events: Seq<WorldMouseEvent>,
    scatters: Seq<Scatter>,
    first: EntityId,
) -> Seq<CoinEntity>
    decreases events.len(),
{
    if events.len() == 0 {
        Seq::empty()
    } else {
        let earlier = spec_click_spawns(events.drop_last(), scatters, first);
        match events.last() {
            WorldMouseEvent::Click { button: MouseButton::Left, position } => earlier.push(
                CoinEntity {
                    id: (first + earlier.len()) as EntityId,
                    position,
                    money: Money(amount(1)),
                    particle: spec_click_particle(spec_scatter_at(scatters, events.len() - 1)),
                    coin: Coin::spec_new(),
                },
            ),
            _ => earlier,
        }
    }
}

/// No more coins are spawned than there are events.
pub proof fn lemma_click_spawns_len(
    events: Seq<WorldMouseEvent>,
    scatters: Seq<Scatter>,
    first: EntityId,
)
    ensures
        spec_click_spawns(events, scatters, first).len() <= events.len(),
    decreases events.len(),
{
    if events.len() > 0 {
        lemma_click_spawns_len(events.drop_last(), scatters, first);
    }
}

/// Spawns a coin for each click of the left button, unless a building tool
/// is selected; the event at place `i` scatters its coin by the scatter at
/// place `i`.
pub fn click_coins_with(
    building_ghost: bool,
    events: &Vec<WorldMouseEvent>,
    scatters: &Vec<Scatter>,
    allocator: &mut EntityAllocator,
    coins: &mut Vec<CoinEntity>,
)
    requires
        old(allocator).spec_has_room(events.len() as int),
    ensures
        building_ghost ==> final(coins)@ == old(coins)@ && final(allocator).next == old(
            allocator,
        ).next,
        !building_ghost ==> final(coins)@ == old(coins)@ + spec_click_spawns(
            events@,
            scatters@,
            old(allocator).next,
        ),
        !building_ghost ==> final(allocator).next == old(allocator).next + spec_click_spawns(
            events@,
            scatters@,
            old(allocator).next,
        ).len(),
{
    if building_ghost {
        return ;
    }
    let ghost first = allocator.next;
    let mut i: usize = 0;
    while i < events.len()
        invariant
            i <= events.len(),
            first + events.len() <= u64::MAX,
            coins@ == old(coins)@ + spec_click_spawns(events@.take(i as int), scatters@, first),
            allocator.next == first + spec_click_spawns(
                events@.take(i as int),
                scatters@,
                first,
            ).len(),
        decreases events.len() - i,
    {
        proof {
            assert(events@.take(i as int + 1).drop_last() =~= events@.take(i as int));
            lemma_click_spawns_len(events@.take(i as int), scatters@, first);
        }
        match events[i] {
            WorldMouseEvent::Click { button: MouseButton::Left, position } => {
                spawn_coin(
                    allocator,
                    coins,
                    Amount::from_u128(1),
                    position,
                    click_particle(scatter_at(scatters, i)),
                );
            },
            _ => {},
        }
        proof {
            assert(coins@ =~= old(coins)@ + spec_click_spawns(
                events@.take(i as int + 1),
                scatters@,
                first,
            ));
        }
        i += 1;
    }
    proof {
        assert(events@.take(i as int) =~= events@);
    }
}

/// Spawns a coin for each click of the left button, unless a building tool
/// is selected, scattering the coins by the random source.
pub fn click_coins(
    building_ghost: bool,
    events: &Vec<WorldMouseEvent>,
    allocator: &mut EntityAllocator,
    coins: &mut Vec<CoinEntity>,
)
    requires
        old(allocator).spec_has_room(events.len() as int),
    ensures
        building_ghost ==> final(coins)@ == old(coins)@ && final(allocator).next == old(
            allocator,
        ).next,
        !building_ghost ==> exists|scatters: Seq<Scatter>|
            final(coins)@ == old(coins)@ + #[trigger] spec_click_spawns(
                events@,
                scatters,
                old(allocator).next,
            ) && final(allocator).next == old(allocator).next + spec_click_spawns(
                events@,
                scatters,
                old(allocator).next,
            ).len(),
{
    let scatters = crate::random::random_scatters(events.len());
    click_coins_with(building_ghost, events, &scatters, allocator, coins);
}

impl CoinEntity {
    /// The coin after a pickup request.
    pub open spec fn spec_request_pickup(self, add_money: bool) -> CoinEntity {
        CoinEntity { coin: self.coin.spec_request_pickup(add_money), ..self }
    }

    /// The coin after `delta` nanoseconds.
    pub open spec fn spec_tick(self, delta: u64) -> CoinEntity {
        CoinEntity { coin: self.coin.spec_tick(delta), ..self }
    }

    /// What the coin pays into the balance when `delta` nanoseconds pass:
    /// its value, where they complete its removal and the pickup that
    /// started it asked for the payout.
    pub open spec fn spec_payout(self, delta: u64) -> nat {
        if self.coin.spec_tick(delta).despawned() && self.coin.has_money {
            self.money.0.value()
        } else {
            0
        }
    }
}

/// The coins after one pickup request: the coin it names, if there is one,
/// has received it.
pub open spec fn spec_apply_pickup(coins: Seq<CoinEntity>, pickup: CoinPickup) -> Seq<CoinEntity> {
    match spec_coin_index(coins, pickup.coin) {
        Some(i) => coins.update(i, coins[i].spec_request_pickup(pickup.add_money)),
        None => coins,
    }
}

/// The coins after the pickup requests, taken in their order.
pub open spec fn spec_apply_pickups(coins: Seq<CoinEntity>, pickups: Seq<CoinPickup>) -> Seq<
    CoinEntity,
>
    decreases pickups.len(),
{
    if pickups.len() == 0 {
        coins
    } else {
        spec_apply_pickup(spec_apply_pickups(coins, pickups.drop_last()), pickups.last())
    }
}

/// The coins that are still there after `delta` nanoseconds, each advanced
/// by them, in their order.
pub open spec fn spec_survivors(coins: Seq<CoinEntity>, delta: u64) -> Seq<CoinEntity>
    decreases coins.len(),
{
    if coins.len() == 0 {
        Seq::empty()
    } else {
        let earlier = spec_survivors(coins.drop_last(), delta);
        if coins.last().coin.spec_tick(delta).despawned() {
            earlier
        } else {
            earlier.push(coins.last().spec_tick(delta))
        }
    }
}

/// The sum that the coins pay into the balance when `delta` nanoseconds
/// pass.
pub open spec fn spec_payout(coins: Seq<CoinEntity>, delta: u64) -> nat
    decreases coins.len(),
{
    if coins.len() == 0 {
        0
    } else {
        spec_payout(coins.drop_last(), delta) + coins.last().spec_payout(delta)
    }
}

/// Pickup requests neither add nor remove a coin, and leave each coin its
/// identifier, its place and its value.
pub proof fn lemma_apply_pickups_keeps(coins: Seq<CoinEntity>, pickups: Seq<CoinPickup>)
    ensures
        spec_apply_pickups(coins, pickups).len() == coins.len(),
        forall|i: int|
            0 <= i < coins.len() ==> {
                let after = #[trigger] spec_apply_pickups(coins, pickups)[i];
                after.id == coins[i].id && after.position == coins[i].position && after.money
                    == coins[i].money && after.coin.alive == coins[i].coin.alive
            },
    decreases pickups.len(),
{
    if pickups.len() > 0 {
        lemma_apply_pickups_keeps(coins, pickups.drop_last());
        lemma_coin_index(spec_apply_pickups(coins, pickups.drop_last()), pickups.last().coin);
    }
}

/// Hands each pickup request to the coin it names; requests for coins that
/// are gone are passed over.
pub fn apply_pickups(coins: &mut Vec<CoinEntity>, pickups: &Vec<CoinPickup>)
    ensures
        final(coins)@ == spec_apply_pickups(old(coins)@, pickups@),
{
    let mut k: usize = 0;
    while k < pickups.len()
        invariant
            k <= pickups.len(),
            coins@ == spec_apply_pickups(old(coins)@, pickups@.take(k as int)),
        decreases pickups.len() - k,
    {
        proof {
            assert(pickups@.take(k as int + 1).drop_last() =~= pickups@.take(k as int));
            lemma_coin_index(coins@, pickups@[k as int].coin);
        }
        let pickup = pickups[k];
        match coin_index(coins, pickup.coin) {
            Some(i) => {
                let mut coin = coins[i].coin;
                coin.request_pickup(pickup.add_money);
                coins[i].coin = coin;
            },
            None => {},
        }
        k += 1;
    }
    proof {
        assert(pickups@.take(k as int) =~= pickups@);
    }
}

/// Applies the pickup requests in their order, then lets `delta`
/// nanoseconds pass for every coin: a coin whose removal completes leaves,
/// and pays its value into the balance if its pickup asked for that.
pub fn update_coins(
    coins: &mut Vec<CoinEntity>,
    wallet: &mut Balance,
    coin_pickup_events: &Vec<CoinPickup>,
    delta: u64,
)
    ensures
        final(coins)@ == spec_survivors(
            spec_apply_pickups(old(coins)@, coin_pickup_events@),
            delta,
        ),
        final(wallet).coins == amount(
            old(wallet).coins.value() + spec_payout(
                spec_apply_pickups(old(coins)@, coin_pickup_events@),
                delta,
            ),
        ),
{
    apply_pickups(coins, coin_pickup_events);
    let ghost applied = coins@;
    wallet.coins = wallet.coins.plus(&Amount::Zero);
    let mut i: usize = 0;
    let ghost mut done: int = 0;
    while i < coins.len()
        invariant
            0 <= i <= coins.len(),
            0 <= done <= applied.len(),
            coins.len() - i == applied.len() - done,
            coins@.take(i as int) == spec_survivors(applied.take(done), delta),
            coins@.skip(i as int) == applied.skip(done),
            wallet.coins == amount(
                old(wallet).coins.value() + spec_payout(applied.take(done), delta),
            ),
        decreases coins.len() - i,
    {
        proof {
            assert(applied.take(done + 1).drop_last() =~= applied.take(done));
            assert(coins@[i as int] == coins@.skip(i as int)[0]);
            assert(applied.take(done + 1).last() == applied[done]);
            lemma_amount(old(wallet).coins.value() + spec_payout(applied.take(done), delta));
        }
        let ghost before = coins@;
        let mut coin = coins[i].coin;
        let gone = coin.tick(delta);
        if gone {
            let removed = coins.remove(i);
            if removed.coin.has_money {
                wallet.coins = wallet.coins.plus(&removed.money.0);
            }
            proof {
                assert(coins@.take(i as int) =~= before.take(i as int));
                let now = coins@.skip(i as int);
                assert forall|k: int| 0 <= k < now.len() implies #[trigger] now[k]
                    == applied.skip(done + 1)[k] by {
                    assert(before.skip(i as int)[k + 1] == applied.skip(done)[k + 1]);
                }
                assert(coins@.skip(i as int) =~= applied.skip(done + 1));
            }
        } else {
            coins[i].coin = coin;
            proof {
                assert(coins@[i as int] == applied[done].spec_tick(delta));
                assert(coins@.take(i as int + 1) =~= before.take(i as int).push(
                    applied[done].spec_tick(delta),
                ));
                let now = coins@.skip(i as int + 1);
                assert forall|k: int| 0 <= k < now.len() implies #[trigger] now[k]
                    == applied.skip(done + 1)[k] by {
                    assert(before.skip(i as int)[k + 1] == applied.skip(done)[k + 1]);
                }
                assert(coins@.skip(i as int + 1) =~= applied.skip(done + 1));
            }
            i += 1;
        }
        proof {
            done = done + 1;
        }
    }
    proof {
        assert(coins@.take(i as int) =~= coins@);
        assert(applied.take(done) =~= applied);
    }
}

/// The nine tiles that a hovering pointer reaches: the tile under it and
/// the eight around, row by row from the row below.
pub open spec fn spec_hover_tiles(center: TilePosition) -> Seq<TilePosition> {
    seq![
        center.spec_offset(-1, -1),
        center.spec_offset(0, -1),
        center.spec_offset(1, -1),
        center.spec_offset(-1, 0),
        center,
        center.spec_offset(1, 0),
        center.spec_offset(-1, 1),
        center.spec_offset(0, 1),
        center.spec_offset(1, 1),
    ]
}

/// Whether a pointer hovering at `position` picks up the entity `entity`:
/// it is a coin that can be picked up, within the pickup radius.
pub open spec fn spec_hover_reaches(
    coins: Seq<CoinEntity>,
    entity: EntityId,
    position: WorldPoint,
) -> bool {
    match spec_coin_index(coins, entity) {
        Some(i) => coins[i].coin.spec_pickable() && world_distance_squared(
            position,
            coins[i].position,
        ) <= PICKUP_RADIUS * PICKUP_RADIUS,
        None => false,
    }
}

/// The pickup requests that a pointer hovering at `position` issues for
/// the entities of one tile, in their order.
pub open spec fn spec_tile_pickups(
    coins: Seq<CoinEntity>,
    entities: Seq<EntityId>,
    position: WorldPoint,
) -> Seq<CoinPickup>
    decreases entities.len(),
{
    if entities.len() == 0 {
        Seq::empty()
    } else {
        let earlier = spec_tile_pickups(coins, entities.drop_last(), position);
        if spec_hover_reaches(coins, entities.last(), position) {
            earlier.push(CoinPickup { coin: entities.last(), target: position, add_money: true })
        } else {
            earlier
        }
    }
}

/// The pickup requests that a pointer hovering at `position` issues over
/// the first `count` of the tiles `around`.
pub open spec fn spec_hover_pickups(
    coins: Seq<CoinEntity>,
    tiles: TileIndex,
    around: Seq<TilePosition>,
    position: WorldPoint,
    count: nat,
) -> Seq<CoinPickup>
    decreases count,
{
    if count == 0 || count > around.len() {
        Seq::empty()
    } else {
        spec_hover_pickups(coins, tiles, around, position, (count - 1) as nat) + spec_tile_pickups(
            coins,
            spec_entities_in(tiles, around[count - 1]),
            position,
        )
    }
}

/// The pickup requests that the hover events issue, in the order of the
/// events: each for the coins in reach in the nine tiles around it.
pub open spec fn spec_hover_coins(
    coins: Seq<CoinEntity>,
    tiles: TileIndex,
    events: Seq<WorldMouseEvent>,
) -> Seq<CoinPickup>
    decreases events.len(),
{
    if events.len() == 0 {
        Seq::empty()
    } else {
        let earlier = spec_hover_coins(coins, tiles, events.drop_last());
        match events.last() {
            WorldMouseEvent::Hover { position } => earlier + spec_hover_pickups(
                coins,
                tiles,
                spec_hover_tiles(TilePosition::spec_from_world(position)),
                position,
                9,
            ),
            _ => earlier,
        }
    }
}

/// Issues the pickup requests of a pointer hovering at `position` for the
/// entities of one tile.
fn tile_pickups(
    coins: &Vec<CoinEntity>,
    entities: &Vec<EntityId>,
    position: WorldPoint,
    coin_pickup_events: &mut Vec<CoinPickup>,
)
    ensures
        final(coin_pickup_events)@ == old(coin_pickup_events)@ + spec_tile_pickups(
            coins@,
            entities@,
            position,
        ),
{
    let mut k: usize = 0;
    while k < entities.len()
        invariant
            k <= entities.len(),
            coin_pickup_events@ == old(coin_pickup_events)@ + spec_tile_pickups(
                coins@,
                entities@.take(k as int),
                position,
            ),
        decreases entities.len() - k,
    {
        proof {
            assert(entities@.take(k as int + 1).drop_last() =~= entities@.take(k as int));
            lemma_coin_index(coins@, entities@[k as int]);
        }
        let entity = entities[k];
        match coin_index(coins, entity) {
            Some(i) => {
                if coins[i].coin.pickable() && world_within(
                    position,
                    coins[i].position,
                    PICKUP_RADIUS,
                ) {
                    coin_pickup_events.push(
                        CoinPickup { coin: entity, target: position, add_money: true },
                    );
                }
            },
            None => {},
        }
        proof {
            assert(coin_pickup_events@ =~= old(coin_pickup_events)@ + spec_tile_pickups(
                coins@,
                entities@.take(k as int + 1),
                position,
            ));
        }
        k += 1;
    }
    proof {
        assert(entities@.take(k as int) =~= entities@);
    }
}

/// Issues a pickup request, with payout, for every coin that a hovering
/// pointer reaches.
pub fn hover_coins(
    coins: &Vec<CoinEntity>,
    world_mouse_events: &Vec<WorldMouseEvent>,
    tile_tracked_entities: &TileTrackedEntities,
    coin_pickup_events: &mut Vec<CoinPickup>,
)
    ensures
        final(coin_pickup_events)@ == old(coin_pickup_events)@ + spec_hover_coins(
            coins@,
            tile_tracked_entities@,
            world_mouse_events@,
        ),
{
    let mut e: usize = 0;
    while e < world_mouse_events.len()
        invariant
            e <= world_mouse_events.len(),
            coin_pickup_events@ == old(coin_pickup_events)@ + spec_hover_coins(
                coins@,
                tile_tracked_entities@,
                world_mouse_events@.take(e as int),
            ),
        decreases world_mouse_events.len() - e,
    {
        proof {
            assert(world_mouse_events@.take(e as int + 1).drop_last() =~= world_mouse_events@.take(
                e as int,
            ));
        }
        let ghost before = coin_pickup_events@;
        match world_mouse_events[e] {
            WorldMouseEvent::Hover { position } => {
                let center_tile = TilePosition::from_world(position);
                let tiles_to_check = [
                    center_tile.offset(-1, -1),
                    center_tile.offset(0, -1),
                    center_tile.offset(1, -1),
                    center_tile.offset(-1, 0),
                    center_tile,
                    center_tile.offset(1, 0),
                    center_tile.offset(-1, 1),
                    center_tile.offset(0, 1),
                    center_tile.offset(1, 1),
                ];
                assert(tiles_to_check@ =~= spec_hover_tiles(center_tile));
                let mut t: usize = 0;
                while t < 9
                    invariant
                        t <= 9,
                        tiles_to_check@ == spec_hover_tiles(center_tile),
                        coin_pickup_events@ == before + spec_hover_pickups(
                            coins@,
                            tile_tracked_entities@,
                            tiles_to_check@,
                            position,
                            t as nat,
                        ),
                    decreases 9 - t,
                {
                    match tile_tracked_entities.get_entities_in_tile(tiles_to_check[t]) {
                        Some(entities) => {
                            tile_pickups(coins, entities, position, coin_pickup_events);
                        },
                        None => {},
                    }
                    proof {
                        assert(coin_pickup_events@ =~= before + spec_hover_pickups(
                            coins@,
                            tile_tracked_entities@,
                            tiles_to_check@,
                            position,
                            (t + 1) as nat,
                        ));
                    }
                    t += 1;
                }
                proof {
                    assert(coin_pickup_events@ =~= old(coin_pickup_events)@ + spec_hover_coins(
                        coins@,
                        tile_tracked_entities@,
                        world_mouse_events@.take(e as int + 1),
                    ));
                }
            },
            _ => {},
        }
        e += 1;
    }
    proof {
        assert(world_mouse_events@.take(e as int) =~= world_mouse_events@);
    }
}

/// The sum of the time steps.
pub open spec fn spec_total(deltas: Seq<u64>) -> nat
    decreases deltas.len(),
{
    if deltas.len() == 0 {
        0
    } else {
        spec_total(deltas.drop_last()) + deltas.last() as nat
    }
}

impl Coin {
    /// The coin after the time steps, one after the other.
    pub open spec fn spec_tick_all(self, deltas: Seq<u64>) -> Coin
        decreases deltas.len(),
    {
        if deltas.len() == 0 {
            self
        } else {
            self.spec_tick_all(deltas.drop_last()).spec_tick(deltas.last())
        }
    }
}

/// A coin that is left alone after its spawn cannot be picked up while
/// less than the grace period has passed, and can be picked up from then
/// on; its removal has not begun.
pub proof fn lemma_spawn_grace(deltas: Seq<u64>)
    ensures
        spec_total(deltas) < SPAWN_GRACE ==> !Coin::spec_new().spec_tick_all(deltas).spec_pickable(),
        spec_total(deltas) >= SPAWN_GRACE ==> Coin::spec_new().spec_tick_all(deltas).spec_pickable(),
        Coin::spec_new().spec_tick_all(deltas).despawn_timer == Coin::spec_new().despawn_timer,
        Coin::spec_new().spec_tick_all(deltas).spawn_timer.finished == (spec_total(deltas)
            >= SPAWN_GRACE),
    decreases deltas.len(),
{
    lemma_spawn_elapsed(deltas);
}

/// The grace period of a coin that is left alone counts the time that has
/// passed, and stops when it is over.
proof fn lemma_spawn_elapsed(deltas: Seq<u64>)
    ensures
        ({
            let coin = Coin::spec_new().spec_tick_all(deltas);
            &&& coin.alive
            &&& coin.has_money
            &&& coin.despawn_timer == Coin::spec_new().despawn_timer
            &&& coin.spawn_timer.mode == TimerMode::Once
            &&& !coin.spawn_timer.paused
            &&& coin.spawn_timer.duration == SPAWN_GRACE
            &&& coin.spawn_timer.finished == (spec_total(deltas) >= SPAWN_GRACE)
            &&& !coin.spawn_timer.finished ==> coin.spawn_timer.elapsed == spec_total(deltas)
        }),
    decreases deltas.len(),
{
    if deltas.len() > 0 {
        lemma_spawn_elapsed(deltas.drop_last());
    }
}

impl CoinEntity {
    /// What the coin pays into the balance over the time steps: the payout
    /// of the step that completes its removal, after which it is gone.
    pub open spec fn spec_paid(self, deltas: Seq<u64>) -> nat
        decreases deltas.len(),
    {
        if deltas.len() == 0 {
            0
        } else if self.coin.spec_tick(deltas.first()).despawned() {
            self.spec_payout(deltas.first())
        } else {
            self.spec_tick(deltas.first()).spec_paid(deltas.drop_first())
        }
    }
}

/// The sum of the steps from the second on is the sum of all but the
/// first.
proof fn lemma_total_front(deltas: Seq<u64>)
    requires
        deltas.len() > 0,
    ensures
        spec_total(deltas) == deltas.first() + spec_total(deltas.drop_first()),
    decreases deltas.len(),
{
    if deltas.len() == 1 {
        assert(deltas.drop_last() =~= Seq::<u64>::empty());
        assert(deltas.drop_first() =~= Seq::<u64>::empty());
    } else {
        lemma_total_front(deltas.drop_last());
        assert(deltas.drop_last().drop_first() =~= deltas.drop_first().drop_last());
        assert(deltas.drop_last().first() == deltas.first());
        assert(deltas.drop_first().last() == deltas.last());
    }
}

/// A coin whose pickup is under way pays out exactly as its pickup asked:
/// its value where the pickup asked for the payout, nothing where it did
/// not, once the time for the removal has passed, and nothing before.
proof fn lemma_removal_pays(coin: CoinEntity, deltas: Seq<u64>)
    requires
        coin.coin.despawn_timer.mode == TimerMode::Once,
        !coin.coin.despawn_timer.paused,
        !coin.coin.despawn_timer.finished,
        coin.coin.despawn_timer.duration == DESPAWN_DURATION,
        coin.coin.despawn_timer.elapsed < DESPAWN_DURATION,
    ensures
        coin.coin.despawn_timer.elapsed + spec_total(deltas) >= DESPAWN_DURATION ==> coin.spec_paid(
            deltas,
        ) == (if coin.coin.has_money {
            coin.money.0.value()
        } else {
            0
        }),
        coin.coin.despawn_timer.elapsed + spec_total(deltas) < DESPAWN_DURATION ==> coin.spec_paid(
            deltas,
        ) == 0,
    decreases deltas.len(),
{
    if deltas.len() > 0 {
        lemma_total_front(deltas);
        if !coin.coin.spec_tick(deltas.first()).despawned() {
            lemma_removal_pays(coin.spec_tick(deltas.first()), deltas.drop_first());
        }
    }
}

/// A coin that is picked up once its grace period is over, and before any
/// other pickup, pays its value into the balance exactly if the pickup
/// asks for that, when the time for its removal has passed; a second
/// pickup request changes nothing.
pub proof fn lemma_pickup_pays(coin: CoinEntity, waited: Seq<u64>, add_money: bool, deltas: Seq<u64>)
    requires
        coin.coin == Coin::spec_new().spec_tick_all(waited),
        spec_total(waited) >= SPAWN_GRACE,
    ensures
        coin.coin.accepts_pickup(),
        !coin.spec_request_pickup(add_money).coin.accepts_pickup(),
        coin.spec_request_pickup(add_money).spec_request_pickup(!add_money)
            == coin.spec_request_pickup(add_money),
        spec_total(deltas) >= DESPAWN_DURATION ==> coin.spec_request_pickup(add_money).spec_paid(
            deltas,
        ) == (if add_money {
            coin.money.0.value()
        } else {
            0
        }),
        spec_total(deltas) < DESPAWN_DURATION ==> coin.spec_request_pickup(add_money).spec_paid(
            deltas,
        ) == 0,
{
    lemma_spawn_grace(waited);
    lemma_removal_pays(coin.spec_request_pickup(add_money), deltas);
}

/// The coins, each after `delta` nanoseconds.
pub open spec fn spec_coins_ticked(coins: Seq<CoinEntity>, delta: u64) -> Seq<CoinEntity> {
    Seq::new(coins.len(), |i: int| coins[i].spec_tick(delta))
}

/// While no removal completes, every coin stays and nothing is paid.
pub proof fn lemma_update_without_removal(coins: Seq<CoinEntity>, delta: u64)
    requires
        forall|j: int|
            0 <= j < coins.len() ==> !(#[trigger] coins[j]).coin.spec_tick(delta).despawned(),
    ensures
        spec_payout(coins, delta) == 0,
        spec_survivors(coins, delta) == spec_coins_ticked(coins, delta),
    decreases coins.len(),
{
    if coins.len() > 0 {
        let front = coins.drop_last();
        assert forall|j: int| 0 <= j < front.len() implies !(#[trigger] front[j]).coin.spec_tick(
            delta,
        ).despawned() by {
            assert(front[j] == coins[j]);
        }
        lemma_update_without_removal(front, delta);
        assert(!coins[coins.len() - 1].coin.spec_tick(delta).despawned());
    }
    assert(spec_survivors(coins, delta) =~= spec_coins_ticked(coins, delta));
}

/// A coin whose pickup is under way, among coins of which no other is
/// removed in this step. Before the time for its removal has passed, the
/// step pays nothing and the coin stays. With the step that completes the
/// time, the coin pays its value, if its pickup asked for the payout, and
/// is gone: the other coins are all that is left, so that no later step
/// can pay for it again.
pub proof fn lemma_update_pays_once(coins: Seq<CoinEntity>, place: int, delta: u64)
    requires
        0 <= place < coins.len(),
        coins[place].coin.despawn_timer.mode == TimerMode::Once,
        !coins[place].coin.despawn_timer.paused,
        !coins[place].coin.despawn_timer.finished,
        forall|j: int|
            0 <= j < coins.len() && j != place ==> !(#[trigger] coins[j]).coin.spec_tick(
                delta,
            ).despawned(),
    ensures
        coins[place].coin.despawn_timer.elapsed + delta < coins[place].coin.despawn_timer.duration
            ==> spec_payout(coins, delta) == 0 && spec_survivors(coins, delta)
            == spec_coins_ticked(coins, delta),
        coins[place].coin.despawn_timer.elapsed + delta >= coins[place].coin.despawn_timer.duration
            ==> spec_payout(coins, delta) == (if coins[place].coin.has_money {
            coins[place].money.0.value()
        } else {
            0
        }) && spec_survivors(coins, delta) == spec_coins_ticked(coins, delta).remove(place),
    decreases coins.len(),
{
    let front = coins.drop_last();
    let last = coins.len() - 1;
    let timer = coins[place].coin.despawn_timer;
    if timer.elapsed + delta < timer.duration {
        assert(!coins[place].coin.spec_tick(delta).despawned());
        lemma_update_without_removal(coins, delta);
    } else if place == last {
        assert forall|j: int| 0 <= j < front.len() implies !(#[trigger] front[j]).coin.spec_tick(
            delta,
        ).despawned() by {
            assert(front[j] == coins[j]);
        }
        lemma_update_without_removal(front, delta);
        assert(coins[last].coin.spec_tick(delta).despawned());
        assert(spec_survivors(coins, delta) =~= spec_coins_ticked(coins, delta).remove(place));
    } else {
        assert(front[place] == coins[place]);
        assert forall|j: int| 0 <= j < front.len() && j != place implies !(
        #[trigger] front[j]).coin.spec_tick(delta).despawned() by {
            assert(front[j] == coins[j]);
        }
        lemma_update_pays_once(front, place, delta);
        assert(!coins[last].coin.spec_tick(delta).despawned());
        assert(spec_survivors(coins, delta) =~= spec_coins_ticked(coins, delta).remove(place));
    }
}

} // verus!
