//! Building and demolishing machines on the tile grid, and the connector
//! spots that mark their open sides.

use vstd::prelude::*;
use crate::amount::{amount, Amount};
use crate::coins::{Balance, Currency};
use crate::entity::{EntityAllocator, EntityId};
use crate::machines::{Machine, MachineEntity, PlacedMachine};
use crate::tiles::TilePosition;
use crate::timer::{Timer, TimerMode};

verus! {

/// A request to build a machine of kind `machine` on the tile `position`.
#[derive(Clone, Copy, Debug, PartialEq, Eq, Structural)]
pub struct MachinePlaceRequest {
    pub machine: Machine,
    pub position: TilePosition,
}

/// A request to demolish what stands on the tile `position`.
#[derive(Clone, Copy, Debug, PartialEq, Eq, Structural)]
pub struct MachineDeleteRequest {
    pub position: TilePosition,
}

/// A request to show or hide the spots on the tile `position`.
#[derive(Clone, Copy, Debug, PartialEq, Eq, Structural)]
pub struct UpdateSpotsRequest {
    pub position: TilePosition,
}

/// A connector marker of the machine `owner`; hidden while a machine
/// stands on its tile.
#[derive(Clone, Copy, Debug, PartialEq, Eq, Structural)]
pub struct Spot {
    pub owner: EntityId,
    pub visible: bool,
}

/// A spot in the world, on its tile.
#[derive(Clone, Copy, Debug, PartialEq, Eq, Structural)]
pub struct SpotEntity {
    pub id: EntityId,
    pub position: TilePosition,
    pub spot: Spot,
}

/// Most entities that one placement creates: the machine and four spots.
pub const ENTITIES_PER_PLACEMENT: usize = 5;

/// Whether a machine stands on `tile`.
pub open spec fn spec_occupied(machines: Seq<MachineEntity>, tile: TilePosition) -> bool {
    exists|i: int| 0 <= i < machines.len() && (#[trigger] machines[i]).position == tile
}

/// Whether the machine `id` stands on `tile`.
pub open spec fn spec_stands_on(machines: Seq<MachineEntity>, id: EntityId, tile: TilePosition) -> bool {
    exists|i: int|
        0 <= i < machines.len() && (#[trigger] machines[i]).id == id && machines[i].position == tile
}

/// Says whether a machine stands on `tile`.
pub fn occupied(machines: &Vec<MachineEntity>, tile: TilePosition) -> (taken: bool)
    ensures
        taken == spec_occupied(machines@, tile),
{
    let mut i: usize = 0;
    while i < machines.len()
        invariant
            i <= machines.len(),
            forall|j: int| 0 <= j < i ==> (#[trigger] machines[j]).position != tile,
        decreases machines.len() - i,
    {
        if machines[i].position == tile {
            return true;
        }
        i += 1;
    }
    false
}

/// Says whether the machine `id` stands on `tile`.
pub fn stands_on(machines: &Vec<MachineEntity>, id: EntityId, tile: TilePosition) -> (there: bool)
    ensures
        there == spec_stands_on(machines@, id, tile),
{
    let mut i: usize = 0;
    while i < machines.len()
        invariant
            i <= machines.len(),
            forall|j: int|
                0 <= j < i ==> !((#[trigger] machines[j]).id == id && machines[j].position == tile),
        decreases machines.len() - i,
    {
        if machines[i].id == id && machines[i].position == tile {
            return true;
        }
        i += 1;
    }
    false
}

/// The building site: the balance, the machines and spots in place, the
/// next free identifier and the pending spot updates.
pub struct Site {
    pub balance: Currency,
    pub machines: Seq<MachineEntity>,
    pub spots: Seq<SpotEntity>,
    pub next: EntityId,
    pub updates: Seq<UpdateSpotsRequest>,
}

/// `spots` with one more at `position`, under the identifier that follows
/// those handed out since `first`, where `present` says so.
pub open spec fn spec_with_spot(
    spots: Seq<SpotEntity>,
    present: bool,
    owner: EntityId,
    first: EntityId,
    position: TilePosition,
) -> Seq<SpotEntity> {
    if present {
        spots.push(
            SpotEntity {
                id: (first + spots.len()) as EntityId,
                position,
                spot: Spot { owner, visible: true },
            },
        )
    } else {
        spots
    }
}

/// The spots of a new machine of kind `kind` on `tile`: one on each
/// neighbouring tile on a side where the kind has a connector, in the order
/// up, down, left, right, with identifiers from `first` on.
pub open spec fn spec_new_spots(
    kind: Machine,
    tile: TilePosition,
    owner: EntityId,
    first: EntityId,
) -> Seq<SpotEntity> {
    let sides = kind.spec_spot_sides();
    let up = spec_with_spot(Seq::empty(), sides.up, owner, first, tile.spec_offset(0, 1));
    let down = spec_with_spot(up, sides.down, owner, first, tile.spec_offset(0, -1));
    let left = spec_with_spot(down, sides.left, owner, first, tile.spec_offset(-1, 0));
    spec_with_spot(left, sides.right, owner, first, tile.spec_offset(1, 0))
}

/// The spot updates that follow a placement on `tile`: for the tile and
/// its four neighbours.
pub open spec fn spec_placement_updates(tile: TilePosition) -> Seq<UpdateSpotsRequest> {
    seq![
        UpdateSpotsRequest { position: tile },
        UpdateSpotsRequest { position: tile.spec_offset(-1, 0) },
        UpdateSpotsRequest { position: tile.spec_offset(1, 0) },
        UpdateSpotsRequest { position: tile.spec_offset(0, -1) },
        UpdateSpotsRequest { position: tile.spec_offset(0, 1) },
    ]
}

/// Whether a placement is carried out: the balance covers the cost and no
/// machine stands on the tile.
pub open spec fn spec_accepts(site: Site, request: MachinePlaceRequest) -> bool {
    request.machine.spec_cost() <= site.balance.value() && !spec_occupied(
        site.machines,
        request.position,
    )
}

/// The machine that a placement creates.
pub open spec fn spec_new_machine(request: MachinePlaceRequest, id: EntityId) -> MachineEntity {
    MachineEntity {
        id,
        position: request.position,
        placed: PlacedMachine {
            machine: request.machine,
            action_timer: Timer::spec_new(
                request.machine.spec_action_period(),
                TimerMode::Repeating,
            ),
        },
    }
}

/// The site after a placement request. A request that is carried out pays
/// the cost, puts the machine on the tile under the next identifier, its
/// spots behind it, and asks for the spot updates; any other leaves the
/// site as it is.
pub open spec fn spec_place(site: Site, request: MachinePlaceRequest) -> Site {
    if spec_accepts(site, request) {
        let spots = spec_new_spots(
            request.machine,
            request.position,
            site.next,
            (site.next + 1) as EntityId,
        );
        Site {
            balance: amount((site.balance.value() - request.machine.spec_cost()) as nat),
            machines: site.machines.push(spec_new_machine(request, site.next)),
            spots: site.spots + spots,
            next: (site.next + 1 + spots.len()) as EntityId,
            updates: site.updates + spec_placement_updates(request.position),
        }
    } else {
        site
    }
}

/// The site after the placement requests, taken in their order.
pub open spec fn spec_place_all(site: Site, requests: Seq<MachinePlaceRequest>) -> Site
    decreases requests.len(),
{
    if requests.len() == 0 {
        site
    } else {
        spec_place(spec_place_all(site, requests.drop_last()), requests.last())
    }
}

/// Adds the spot of one side of a new machine.
fn add_spot(
    spots: &mut Vec<SpotEntity>,
    present: bool,
    owner: EntityId,
    position: TilePosition,
    allocator: &mut EntityAllocator,
    Ghost(first): Ghost<EntityId>,
    Ghost(base): Ghost<Seq<SpotEntity>>,
    Ghost(made): Ghost<Seq<SpotEntity>>,
)
    requires
        old(spots)@ == base + made,
        old(allocator).next == first + made.len(),
        old(allocator).spec_has_room(1),
    ensures
        final(spots)@ == base + spec_with_spot(made, present, owner, first, position),
        final(allocator).next == first + spec_with_spot(made, present, owner, first, position).len(),
{
    if present {
        let id = allocator.spawn();
        spots.push(SpotEntity { id, position, spot: Spot { owner, visible: true } });
    }
    proof {
        assert(spots@ =~= base + spec_with_spot(made, present, owner, first, position));
    }
}

/// Carries out one placement request, or rejects it; returns the
/// identifier of the machine that was placed.
pub fn place_machine(
    request: MachinePlaceRequest,
    balance: &mut Balance,
    machines: &mut Vec<MachineEntity>,
    spots: &mut Vec<SpotEntity>,
    allocator: &mut EntityAllocator,
    update_spots_requests: &mut Vec<UpdateSpotsRequest>,
) -> (placed: Option<EntityId>)
    requires
        old(allocator).spec_has_room(ENTITIES_PER_PLACEMENT as int),
    ensures
        placed.is_some() == spec_accepts(
            Site {
                balance: old(balance).coins,
                machines: old(machines)@,
                spots: old(spots)@,
                next: old(allocator).next,
                updates: old(update_spots_requests)@,
            },
            request,
        ),
        placed.is_some() ==> placed.unwrap() == old(allocator).next,
        (Site {
            balance: final(balance).coins,
            machines: final(machines)@,
            spots: final(spots)@,
            next: final(allocator).next,
            updates: final(update_spots_requests)@,
        }) == spec_place(
            Site {
                balance: old(balance).coins,
                machines: old(machines)@,
                spots: old(spots)@,
                next: old(allocator).next,
                updates: old(update_spots_requests)@,
            },
            request,
        ),
{
    let machine = request.machine;
    let machine_cost = Amount::from_u128(machine.cost());
    proof {
        crate::amount::lemma_amount(machine.spec_cost() as nat);
    }
    let rest = match balance.coins.minus(&machine_cost) {
        Some(rest) => rest,
        None => {
            return None;
        },
    };
    if occupied(machines, request.position) {
        return None;
    }
    balance.coins = rest;
    let id = allocator.spawn();
    machines.push(
        MachineEntity {
            id,
            position: request.position,
            placed: PlacedMachine {
                machine,
                action_timer: Timer::new(machine.action_period(), TimerMode::Repeating),
            },
        },
    );
    let sides = machine.spot_sides();
    let tile = request.position;
    let ghost first = allocator.next;
    let ghost base = spots@;
    let ghost up = spec_with_spot(Seq::empty(), sides.up, id, first, tile.spec_offset(0, 1));
    let ghost down = spec_with_spot(up, sides.down, id, first, tile.spec_offset(0, -1));
    let ghost left = spec_with_spot(down, sides.left, id, first, tile.spec_offset(-1, 0));
    proof {
        assert(spots@ =~= base + Seq::<SpotEntity>::empty());
    }
    add_spot(spots, sides.up, id, tile.offset(0, 1), allocator, Ghost(first), Ghost(base), Ghost(Seq::empty()));
    add_spot(spots, sides.down, id, tile.offset(0, -1), allocator, Ghost(first), Ghost(base), Ghost(up));
    add_spot(spots, sides.left, id, tile.offset(-1, 0), allocator, Ghost(first), Ghost(base), Ghost(down));
    add_spot(spots, sides.right, id, tile.offset(1, 0), allocator, Ghost(first), Ghost(base), Ghost(left));
    update_spots_requests.push(UpdateSpotsRequest { position: tile });
    update_spots_requests.push(UpdateSpotsRequest { position: tile.offset(-1, 0) });
    update_spots_requests.push(UpdateSpotsRequest { position: tile.offset(1, 0) });
    update_spots_requests.push(UpdateSpotsRequest { position: tile.offset(0, -1) });
    update_spots_requests.push(UpdateSpotsRequest { position: tile.offset(0, 1) });
    proof {
        assert(update_spots_requests@ =~= old(update_spots_requests)@ + spec_placement_updates(tile));
    }
    Some(id)
}

/// A placement uses at most five identifiers.
pub proof fn lemma_place_all_next(site: Site, requests: Seq<MachinePlaceRequest>)
    requires
        site.next + ENTITIES_PER_PLACEMENT * requests.len() <= u64::MAX,
    ensures
        site.next <= spec_place_all(site, requests).next <= site.next + ENTITIES_PER_PLACEMENT
            * requests.len(),
    decreases requests.len(),
{
    if requests.len() > 0 {
        lemma_place_all_next(site, requests.drop_last());
    }
}

/// Carries out the placement requests in their order.
pub fn place_machines(
    requests: &Vec<MachinePlaceRequest>,
    balance: &mut Balance,
    machines: &mut Vec<MachineEntity>,
    spots: &mut Vec<SpotEntity>,
    allocator: &mut EntityAllocator,
    update_spots_requests: &mut Vec<UpdateSpotsRequest>,
)
    requires
        old(allocator).next + ENTITIES_PER_PLACEMENT * requests.len() <= u64::MAX,
    ensures
        (Site {
            balance: final(balance).coins,
            machines: final(machines)@,
            spots: final(spots)@,
            next: final(allocator).next,
            updates: final(update_spots_requests)@,
        }) == spec_place_all(
            Site {
                balance: old(balance).coins,
                machines: old(machines)@,
                spots: old(spots)@,
                next: old(allocator).next,
                updates: old(update_spots_requests)@,
            },
            requests@,
        ),
{
    let ghost start = Site {
        balance: balance.coins,
        machines: machines@,
        spots: spots@,
        next: allocator.next,
        updates: update_spots_requests@,
    };
    let mut i: usize = 0;
    while i < requests.len()
        invariant
            i <= requests.len(),
            start.next + ENTITIES_PER_PLACEMENT * requests.len() <= u64::MAX,
            (Site {
                balance: balance.coins,
                machines: machines@,
                spots: spots@,
                next: allocator.next,
                updates: update_spots_requests@,
            }) == spec_place_all(start, requests@.take(i as int)),
        decreases requests.len() - i,
    {
        proof {
            assert(requests@.take(i as int + 1).drop_last() =~= requests@.take(i as int));
            lemma_place_all_next(start, requests@.take(i as int));
        }
        place_machine(requests[i], balance, machines, spots, allocator, update_spots_requests);
        i += 1;
    }
    proof {
        assert(requests@.take(i as int) =~= requests@);
    }
}

/// The machines that do not stand on `tile`, in their order.
pub open spec fn spec_machines_off(machines: Seq<MachineEntity>, tile: TilePosition) -> Seq<
    MachineEntity,
>
    decreases machines.len(),
{
    if machines.len() == 0 {
        Seq::empty()
    } else {
        let earlier = spec_machines_off(machines.drop_last(), tile);
        if machines.last().position == tile {
            earlier
        } else {
            earlier.push(machines.last())
        }
    }
}

/// The spots whose owner is not one of `machines` standing on `tile`, in
/// their order.
pub open spec fn spec_spots_kept(
    spots: Seq<SpotEntity>,
    machines: Seq<MachineEntity>,
    tile: TilePosition,
) -> Seq<SpotEntity>
    decreases spots.len(),
{
    if spots.len() == 0 {
        Seq::empty()
    } else {
        let earlier = spec_spots_kept(spots.drop_last(), machines, tile);
        if spec_stands_on(machines, spots.last().spot.owner, tile) {
            earlier
        } else {
            earlier.push(spots.last())
        }
    }
}

/// What demolition works on: the machines and spots in place and the
/// pending spot updates.
pub struct Grounds {
    pub machines: Seq<MachineEntity>,
    pub spots: Seq<SpotEntity>,
    pub updates: Seq<UpdateSpotsRequest>,
}

/// The grounds after a demolition request: every machine on the tile is
/// gone, and with each its spots; where a machine went, a spot update for
/// the tile is asked for. A request for an empty tile changes nothing.
pub open spec fn spec_delete(grounds: Grounds, request: MachineDeleteRequest) -> Grounds {
    if spec_occupied(grounds.machines, request.position) {
        Grounds {
            machines: spec_machines_off(grounds.machines, request.position),
            spots: spec_spots_kept(grounds.spots, grounds.machines, request.position),
            updates: grounds.updates.push(UpdateSpotsRequest { position: request.position }),
        }
    } else {
        grounds
    }
}

/// The grounds after the demolition requests, taken in their order.
pub open spec fn spec_delete_all(grounds: Grounds, requests: Seq<MachineDeleteRequest>) -> Grounds
    decreases requests.len(),
{
    if requests.len() == 0 {
        grounds
    } else {
        spec_delete(spec_delete_all(grounds, requests.drop_last()), requests.last())
    }
}

/// Carries out one demolition request; says whether a machine went.
pub fn delete_machine(
    request: MachineDeleteRequest,
    machines: &mut Vec<MachineEntity>,
    spots: &mut Vec<SpotEntity>,
    update_spots_requests: &mut Vec<UpdateSpotsRequest>,
) -> (did_delete: bool)
    ensures
        did_delete == spec_occupied(old(machines)@, request.position),
        (Grounds {
            machines: final(machines)@,
            spots: final(spots)@,
            updates: final(update_spots_requests)@,
        }) == spec_delete(
            Grounds {
                machines: old(machines)@,
                spots: old(spots)@,
                updates: old(update_spots_requests)@,
            },
            request,
        ),
{
    if !occupied(machines, request.position) {
        return false;
    }
    let mut kept_spots: Vec<SpotEntity> = Vec::new();
    let mut s: usize = 0;
    while s < spots.len()
        invariant
            s <= spots.len(),
            kept_spots@ == spec_spots_kept(spots@.take(s as int), machines@, request.position),
        decreases spots.len() - s,
    {
        proof {
            assert(spots@.take(s as int + 1).drop_last() =~= spots@.take(s as int));
        }
        if !stands_on(machines, spots[s].spot.owner, request.position) {
            kept_spots.push(spots[s]);
        }
        s += 1;
    }
    let mut kept_machines: Vec<MachineEntity> = Vec::new();
    let mut m: usize = 0;
    while m < machines.len()
        invariant
            m <= machines.len(),
            kept_machines@ == spec_machines_off(machines@.take(m as int), request.position),
        decreases machines.len() - m,
    {
        proof {
            assert(machines@.take(m as int + 1).drop_last() =~= machines@.take(m as int));
        }
        if machines[m].position != request.position {
            kept_machines.push(machines[m]);
        }
        m += 1;
    }
    proof {
        assert(spots@.take(s as int) =~= spots@);
        assert(machines@.take(m as int) =~= machines@);
    }
    *spots = kept_spots;
    *machines = kept_machines;
    update_spots_requests.push(UpdateSpotsRequest { position: request.position });
    true
}

/// Carries out the demolition requests in their order.
pub fn delete_machines(
    requests: &Vec<MachineDeleteRequest>,
    machines: &mut Vec<MachineEntity>,
    spots: &mut Vec<SpotEntity>,
    update_spots_requests: &mut Vec<UpdateSpotsRequest>,
)
    ensures
        (Grounds {
            machines: final(machines)@,
            spots: final(spots)@,
            updates: final(update_spots_requests)@,
        }) == spec_delete_all(
            Grounds {
                machines: old(machines)@,
                spots: old(spots)@,
                updates: old(update_spots_requests)@,
            },
            requests@,
        ),
{
    let ghost start = Grounds {
        machines: machines@,
        spots: spots@,
        updates: update_spots_requests@,
    };
    let mut i: usize = 0;
    while i < requests.len()
        invariant
            i <= requests.len(),
            (Grounds { machines: machines@, spots: spots@, updates: update_spots_requests@ })
                == spec_delete_all(start, requests@.take(i as int)),
        decreases requests.len() - i,
    {
        proof {
            assert(requests@.take(i as int + 1).drop_last() =~= requests@.take(i as int));
        }
        delete_machine(requests[i], machines, spots, update_spots_requests);
        i += 1;
    }
    proof {
        assert(requests@.take(i as int) =~= requests@);
    }
}

impl SpotEntity {
    /// The spot after a spot update for `tile`: a spot on that tile shows
    /// exactly if no machine stands there; any other spot stays as it is.
    pub open spec fn spec_update(self, machines: Seq<MachineEntity>, tile: TilePosition) -> SpotEntity {
        if self.position == tile {
            SpotEntity {
                spot: Spot { visible: !spec_occupied(machines, tile), ..self.spot },
                ..self
            }
        } else {
            self
        }
    }
}

/// The spots after the spot updates, taken in their order.
pub open spec fn spec_update_spots(
    spots: Seq<SpotEntity>,
    machines: Seq<MachineEntity>,
    requests: Seq<UpdateSpotsRequest>,
) -> Seq<SpotEntity>
    decreases requests.len(),
{
    if requests.len() == 0 {
        spots
    } else {
        let earlier = spec_update_spots(spots, machines, requests.drop_last());
        Seq::new(
            earlier.len(),
            |i: int| earlier[i].spec_update(machines, requests.last().position),
        )
    }
}

/// Shows or hides the spots on each requested tile, by whether a machine
/// stands on it.
pub fn update_spots(
    requests: &Vec<UpdateSpotsRequest>,
    machines: &Vec<MachineEntity>,
    spots: &mut Vec<SpotEntity>,
)
    ensures
        final(spots)@ == spec_update_spots(old(spots)@, machines@, requests@),
{
    let mut r: usize = 0;
    while r < requests.len()
        invariant
            r <= requests.len(),
            spots@ == spec_update_spots(old(spots)@, machines@, requests@.take(r as int)),
        decreases requests.len() - r,
    {
        proof {
            assert(requests@.take(r as int + 1).drop_last() =~= requests@.take(r as int));
        }
        let tile = requests[r].position;
        let has_machine = occupied(machines, tile);
        let ghost earlier = spots@;
        let mut s: usize = 0;
        while s < spots.len()
            invariant
                s <= spots.len(),
                spots.len() == earlier.len(),
                has_machine == spec_occupied(machines@, tile),
                forall|j: int| 0 <= j < s ==> #[trigger] spots[j] == earlier[j].spec_update(machines@, tile),
                forall|j: int| s <= j < spots.len() ==> #[trigger] spots[j] == earlier[j],
            decreases spots.len() - s,
        {
            if spots[s].position == tile {
                let mut entity = spots[s];
                entity.spot.visible = !has_machine;
                spots.set(s, entity);
            }
            s += 1;
        }
        proof {
            assert(spots@ =~= Seq::new(
                earlier.len(),
                |i: int| earlier[i].spec_update(machines@, tile),
            ));
        }
        r += 1;
    }
    proof {
        assert(requests@.take(r as int) =~= requests@);
    }
}

/// Whether no two machines stand on one tile.
pub open spec fn spec_one_per_tile(machines: Seq<MachineEntity>) -> bool {
    forall|i: int, j: int|
        0 <= i < machines.len() && 0 <= j < machines.len() && i != j ==> (#[trigger] machines[i]).position
            != (#[trigger] machines[j]).position
}

/// A placement that the balance does not cover, or on a tile where a
/// machine stands, changes nothing. One that is carried out takes exactly
/// the cost from the balance and leaves a machine on the tile, so that any
/// later placement on that tile is rejected, whatever the balance.
pub proof fn lemma_place(site: Site, request: MachinePlaceRequest, later: MachinePlaceRequest, funds: Currency)
    requires
        later.position == request.position,
    ensures
        request.machine.spec_cost() > site.balance.value() ==> spec_place(site, request) == site,
        spec_occupied(site.machines, request.position) ==> spec_place(site, request) == site,
        spec_accepts(site, request) ==> spec_place(site, request).balance.value()
            == site.balance.value() - request.machine.spec_cost(),
        spec_accepts(site, request) ==> spec_occupied(
            spec_place(site, request).machines,
            request.position,
        ),
        spec_accepts(site, request) ==> !spec_accepts(
            Site { balance: funds, ..spec_place(site, request) },
            later,
        ),
{
    if spec_accepts(site, request) {
        let after = spec_place(site, request);
        assert(after.machines[site.machines.len() as int].position == request.position);
        crate::amount::lemma_amount((site.balance.value() - request.machine.spec_cost()) as nat);
    }
}

/// Placing keeps one machine to a tile.
pub proof fn lemma_place_keeps_one_per_tile(site: Site, request: MachinePlaceRequest)
    requires
        spec_one_per_tile(site.machines),
    ensures
        spec_one_per_tile(spec_place(site, request).machines),
{
}

/// Placing keeps one machine to a tile, over any requests.
pub proof fn lemma_place_all_keeps_one_per_tile(site: Site, requests: Seq<MachinePlaceRequest>)
    requires
        spec_one_per_tile(site.machines),
    ensures
        spec_one_per_tile(spec_place_all(site, requests).machines),
    decreases requests.len(),
{
    if requests.len() > 0 {
        lemma_place_all_keeps_one_per_tile(site, requests.drop_last());
        lemma_place_keeps_one_per_tile(spec_place_all(site, requests.drop_last()), requests.last());
    }
}

/// The machines off a tile are those of the machines that do not stand on
/// it.
pub proof fn lemma_machines_off(machines: Seq<MachineEntity>, tile: TilePosition)
    ensures
        !spec_occupied(spec_machines_off(machines, tile), tile),
        forall|other: TilePosition|
            other != tile ==> (#[trigger] spec_occupied(spec_machines_off(machines, tile), other)
                == spec_occupied(machines, other)),
        spec_one_per_tile(machines) ==> spec_one_per_tile(spec_machines_off(machines, tile)),
        spec_machines_off(machines, tile).len() <= machines.len(),
        forall|k: int|
            0 <= k < spec_machines_off(machines, tile).len() ==> machines.contains(
                #[trigger] spec_machines_off(machines, tile)[k],
            ),
    decreases machines.len(),
{
    let kept = spec_machines_off(machines, tile);
    if machines.len() > 0 {
        let front = machines.drop_last();
        let earlier = spec_machines_off(front, tile);
        lemma_machines_off(front, tile);
        assert forall|k: int| 0 <= k < kept.len() implies machines.contains(#[trigger] kept[k]) by {
            if k < earlier.len() {
                assert(front.contains(earlier[k]));
                let w = choose|w: int| 0 <= w < front.len() && front[w] == earlier[k];
                assert(machines[w] == earlier[k]);
            } else {
                assert(machines[machines.len() - 1] == kept[k]);
            }
        }
        assert forall|other: TilePosition| other != tile implies (#[trigger] spec_occupied(
            kept,
            other,
        ) == spec_occupied(machines, other)) by {
            if spec_occupied(machines, other) {
                let w = choose|w: int| 0 <= w < machines.len() && machines[w].position == other;
                if w < front.len() {
                    assert(front[w].position == other);
                    assert(spec_occupied(front, other));
                    assert(spec_occupied(earlier, other) == spec_occupied(front, other));
                    let v = choose|v: int| 0 <= v < earlier.len() && earlier[v].position == other;
                    assert(kept[v].position == other);
                } else {
                    assert(kept[kept.len() - 1].position == other);
                }
            }
            if spec_occupied(kept, other) {
                let v = choose|v: int| 0 <= v < kept.len() && kept[v].position == other;
                assert(machines.contains(kept[v]));
                let w = choose|w: int| 0 <= w < machines.len() && machines[w] == kept[v];
                assert(machines[w].position == other);
            }
        }
        if spec_one_per_tile(machines) {
            assert forall|i: int, j: int| 0 <= i < front.len() && 0 <= j < front.len() && i != j implies (
            #[trigger] front[i]).position != (#[trigger] front[j]).position by {
                assert(machines[i].position != machines[j].position);
            }
            assert forall|i: int, j: int| 0 <= i < kept.len() && 0 <= j < kept.len() && i != j implies (
            #[trigger] kept[i]).position != (#[trigger] kept[j]).position by {
                if i < earlier.len() && j < earlier.len() {
                } else if i < earlier.len() {
                    assert(front.contains(earlier[i]));
                    let w = choose|w: int| 0 <= w < front.len() && front[w] == earlier[i];
                    assert(machines[w].position != machines[machines.len() - 1].position);
                } else if j < earlier.len() {
                    assert(front.contains(earlier[j]));
                    let w = choose|w: int| 0 <= w < front.len() && front[w] == earlier[j];
                    assert(machines[w].position != machines[machines.len() - 1].position);
                }
            }
        }
    }
}

/// A demolition leaves no machine on its tile, leaves the other tiles as
/// they were, and keeps one machine to a tile.
pub proof fn lemma_delete(grounds: Grounds, request: MachineDeleteRequest)
    ensures
        !spec_occupied(spec_delete(grounds, request).machines, request.position),
        forall|other: TilePosition|
            other != request.position ==> (#[trigger] spec_occupied(
                spec_delete(grounds, request).machines,
                other,
            ) == spec_occupied(grounds.machines, other)),
        spec_one_per_tile(grounds.machines) ==> spec_one_per_tile(
            spec_delete(grounds, request).machines,
        ),
{
    lemma_machines_off(grounds.machines, request.position);
}

} // verus!
