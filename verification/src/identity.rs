//! Identifiers stay apart: every entity of the world has an identifier of
//! its own, below the next one to be handed out, and a tick keeps it so.

use vstd::prelude::*;
use crate::coins::{
    lemma_apply_pickups_keeps, lemma_click_spawns_len, spec_apply_pickups, spec_click_spawns,
    spec_survivors, CoinEntity, CoinPickup,
};
use crate::entity::EntityId;
use crate::input::WorldMouseEvent;
use crate::machines::{spec_act_machines, spec_fire, CoinField, MachineEntity};
use crate::placement::{
    spec_delete, spec_delete_all, spec_machines_off, spec_place, spec_place_all, spec_spots_kept,
    spec_update_spots, Grounds, MachineDeleteRequest, MachinePlaceRequest, Site, SpotEntity,
    UpdateSpotsRequest, ENTITIES_PER_PLACEMENT,
};
use crate::random::Scatter;
use crate::tiles::{TileIndex, TilePosition};

verus! {

/// The identifiers of the coins, in their order.
pub open spec fn coin_ids(coins: Seq<CoinEntity>) -> Seq<EntityId> {
    Seq::new(coins.len(), |i: int| coins[i].id)
}

/// The identifiers of the machines, in their order.
pub open spec fn machine_ids(machines: Seq<MachineEntity>) -> Seq<EntityId> {
    Seq::new(machines.len(), |i: int| machines[i].id)
}

/// The identifiers of the spots, in their order.
pub open spec fn spot_ids(spots: Seq<SpotEntity>) -> Seq<EntityId> {
    Seq::new(spots.len(), |i: int| spots[i].id)
}

/// Whether the identifiers are all below `next`.
pub open spec fn spec_below(ids: Seq<EntityId>, next: int) -> bool {
    forall|i: int| 0 <= i < ids.len() ==> #[trigger] ids[i] < next
}

/// Whether no identifier occurs twice.
pub open spec fn spec_distinct(ids: Seq<EntityId>) -> bool {
    forall|i: int, j: int|
        0 <= i < ids.len() && 0 <= j < ids.len() && i != j ==> #[trigger] ids[i] != #[trigger] ids[j]
}

/// Whether no identifier of `a` is one of `b`.
pub open spec fn spec_apart(a: Seq<EntityId>, b: Seq<EntityId>) -> bool {
    forall|i: int, j: int|
        0 <= i < a.len() && 0 <= j < b.len() ==> #[trigger] a[i] != #[trigger] b[j]
}

/// Whether every identifier of `part` is one of `whole`.
pub open spec fn spec_within(part: Seq<EntityId>, whole: Seq<EntityId>) -> bool {
    forall|k: int| 0 <= k < part.len() ==> whole.contains(#[trigger] part[k])
}

/// Whether every coin, machine and spot has an identifier of its own, below
/// `next`.
pub open spec fn spec_identified(
    coins: Seq<CoinEntity>,
    machines: Seq<MachineEntity>,
    spots: Seq<SpotEntity>,
    next: int,
) -> bool {
    &&& spec_below(coin_ids(coins), next)
    &&& spec_below(machine_ids(machines), next)
    &&& spec_below(spot_ids(spots), next)
    &&& spec_distinct(coin_ids(coins))
    &&& spec_distinct(machine_ids(machines))
    &&& spec_distinct(spot_ids(spots))
    &&& spec_apart(coin_ids(coins), machine_ids(machines))
    &&& spec_apart(coin_ids(coins), spot_ids(spots))
    &&& spec_apart(machine_ids(machines), spot_ids(spots))
}

/// A part of identifiers that are below `next` is below `next`, and a part
/// of identifiers that are apart from others is apart from them.
pub proof fn lemma_within(part: Seq<EntityId>, whole: Seq<EntityId>, other: Seq<EntityId>, next: int)
    requires
        spec_within(part, whole),
    ensures
        spec_below(whole, next) ==> spec_below(part, next),
        spec_apart(whole, other) ==> spec_apart(part, other),
        spec_apart(other, whole) ==> spec_apart(other, part),
{
    assert forall|k: int| 0 <= k < part.len() implies exists|w: int|
        0 <= w < whole.len() && whole[w] == #[trigger] part[k] by {
        assert(whole.contains(part[k]));
    }
    if spec_below(whole, next) {
        assert forall|i: int| 0 <= i < part.len() implies #[trigger] part[i] < next by {
            let w = choose|w: int| 0 <= w < whole.len() && whole[w] == part[i];
            assert(whole[w] < next);
        }
    }
    if spec_apart(whole, other) {
        assert forall|i: int, j: int| 0 <= i < part.len() && 0 <= j < other.len() implies #[trigger] part[i]
            != #[trigger] other[j] by {
            let w = choose|w: int| 0 <= w < whole.len() && whole[w] == part[i];
            assert(whole[w] != other[j]);
        }
    }
    if spec_apart(other, whole) {
        assert forall|i: int, j: int| 0 <= i < other.len() && 0 <= j < part.len() implies #[trigger] other[i]
            != #[trigger] part[j] by {
            let w = choose|w: int| 0 <= w < whole.len() && whole[w] == part[j];
            assert(other[i] != whole[w]);
        }
    }
}

/// The coins that are still there after a tick are some of the coins, each
/// under its identifier.
pub proof fn lemma_survivor_ids(coins: Seq<CoinEntity>, delta: u64)
    ensures
        spec_within(coin_ids(spec_survivors(coins, delta)), coin_ids(coins)),
        spec_distinct(coin_ids(coins)) ==> spec_distinct(coin_ids(spec_survivors(coins, delta))),
    decreases coins.len(),
{
    let kept = coin_ids(spec_survivors(coins, delta));
    let ids = coin_ids(coins);
    if coins.len() > 0 {
        let front = coins.drop_last();
        let earlier = coin_ids(spec_survivors(front, delta));
        lemma_survivor_ids(front, delta);
        assert forall|k: int| 0 <= k < kept.len() implies ids.contains(#[trigger] kept[k]) by {
            if k < earlier.len() {
                assert(kept[k] == earlier[k]);
                assert(coin_ids(front).contains(earlier[k]));
                let w = choose|w: int| 0 <= w < front.len() && coin_ids(front)[w] == earlier[k];
                assert(ids[w] == earlier[k]);
            } else {
                assert(ids[coins.len() - 1] == kept[k]);
            }
        }
        if spec_distinct(ids) {
            assert forall|i: int, j: int| 0 <= i < front.len() && 0 <= j < front.len() && i != j implies #[trigger] coin_ids(
                front,
            )[i] != #[trigger] coin_ids(front)[j] by {
                assert(ids[i] != ids[j]);
            }
            assert forall|i: int, j: int| 0 <= i < kept.len() && 0 <= j < kept.len() && i != j implies #[trigger] kept[i]
                != #[trigger] kept[j] by {
                if i < earlier.len() && j < earlier.len() {
                    assert(earlier[i] != earlier[j]);
                } else if i < earlier.len() {
                    assert(coin_ids(front).contains(earlier[i]));
                    let w = choose|w: int| 0 <= w < front.len() && coin_ids(front)[w] == earlier[i];
                    assert(ids[w] != ids[coins.len() - 1]);
                } else if j < earlier.len() {
                    assert(coin_ids(front).contains(earlier[j]));
                    let w = choose|w: int| 0 <= w < front.len() && coin_ids(front)[w] == earlier[j];
                    assert(ids[w] != ids[coins.len() - 1]);
                }
            }
        }
    }
}

/// The machines off a tile are some of the machines, each under its
/// identifier.
pub proof fn lemma_machines_off_ids(machines: Seq<MachineEntity>, tile: TilePosition)
    ensures
        spec_within(machine_ids(spec_machines_off(machines, tile)), machine_ids(machines)),
        spec_distinct(machine_ids(machines)) ==> spec_distinct(
            machine_ids(spec_machines_off(machines, tile)),
        ),
    decreases machines.len(),
{
    let kept = machine_ids(spec_machines_off(machines, tile));
    let ids = machine_ids(machines);
    if machines.len() > 0 {
        let front = machines.drop_last();
        let earlier = machine_ids(spec_machines_off(front, tile));
        lemma_machines_off_ids(front, tile);
        assert forall|k: int| 0 <= k < kept.len() implies ids.contains(#[trigger] kept[k]) by {
            if k < earlier.len() {
                assert(kept[k] == earlier[k]);
                assert(machine_ids(front).contains(earlier[k]));
                let w = choose|w: int| 0 <= w < front.len() && machine_ids(front)[w] == earlier[k];
                assert(ids[w] == earlier[k]);
            } else {
                assert(ids[machines.len() - 1] == kept[k]);
            }
        }
        if spec_distinct(ids) {
            assert forall|i: int, j: int| 0 <= i < front.len() && 0 <= j < front.len() && i != j implies #[trigger] machine_ids(
                front,
            )[i] != #[trigger] machine_ids(front)[j] by {
                assert(ids[i] != ids[j]);
            }
            assert forall|i: int, j: int| 0 <= i < kept.len() && 0 <= j < kept.len() && i != j implies #[trigger] kept[i]
                != #[trigger] kept[j] by {
                if i < earlier.len() && j < earlier.len() {
                    assert(earlier[i] != earlier[j]);
                } else if i < earlier.len() {
                    assert(machine_ids(front).contains(earlier[i]));
                    let w = choose|w: int|
                        0 <= w < front.len() && machine_ids(front)[w] == earlier[i];
                    assert(ids[w] != ids[machines.len() - 1]);
                } else if j < earlier.len() {
                    assert(machine_ids(front).contains(earlier[j]));
                    let w = choose|w: int|
                        0 <= w < front.len() && machine_ids(front)[w] == earlier[j];
                    assert(ids[w] != ids[machines.len() - 1]);
                }
            }
        }
    }
}

/// The spots that a demolition keeps are some of the spots, each under its
/// identifier.
pub proof fn lemma_spots_kept_ids(
    spots: Seq<SpotEntity>,
    machines: Seq<MachineEntity>,
    tile: TilePosition,
)
    ensures
        spec_within(spot_ids(spec_spots_kept(spots, machines, tile)), spot_ids(spots)),
        spec_distinct(spot_ids(spots)) ==> spec_distinct(
            spot_ids(spec_spots_kept(spots, machines, tile)),
        ),
    decreases spots.len(),
{
    let kept = spot_ids(spec_spots_kept(spots, machines, tile));
    let ids = spot_ids(spots);
    if spots.len() > 0 {
        let front = spots.drop_last();
        let earlier = spot_ids(spec_spots_kept(front, machines, tile));
        lemma_spots_kept_ids(front, machines, tile);
        assert forall|k: int| 0 <= k < kept.len() implies ids.contains(#[trigger] kept[k]) by {
            if k < earlier.len() {
                assert(kept[k] == earlier[k]);
                assert(spot_ids(front).contains(earlier[k]));
                let w = choose|w: int| 0 <= w < front.len() && spot_ids(front)[w] == earlier[k];
                assert(ids[w] == earlier[k]);
            } else {
                assert(ids[spots.len() - 1] == kept[k]);
            }
        }
        if spec_distinct(ids) {
            assert forall|i: int, j: int| 0 <= i < front.len() && 0 <= j < front.len() && i != j implies #[trigger] spot_ids(
                front,
            )[i] != #[trigger] spot_ids(front)[j] by {
                assert(ids[i] != ids[j]);
            }
            assert forall|i: int, j: int| 0 <= i < kept.len() && 0 <= j < kept.len() && i != j implies #[trigger] kept[i]
                != #[trigger] kept[j] by {
                if i < earlier.len() && j < earlier.len() {
                    assert(earlier[i] != earlier[j]);
                } else if i < earlier.len() {
                    assert(spot_ids(front).contains(earlier[i]));
                    let w = choose|w: int| 0 <= w < front.len() && spot_ids(front)[w] == earlier[i];
                    assert(ids[w] != ids[spots.len() - 1]);
                } else if j < earlier.len() {
                    assert(spot_ids(front).contains(earlier[j]));
                    let w = choose|w: int| 0 <= w < front.len() && spot_ids(front)[w] == earlier[j];
                    assert(ids[w] != ids[spots.len() - 1]);
                }
            }
        }
    }
}

/// The coins that clicks spawn get the identifiers from `first` on, one
/// after the other.
pub proof fn lemma_click_spawn_ids(
    events: Seq<WorldMouseEvent>,
    scatters: Seq<Scatter>,
    first: EntityId,
)
    requires
        first + events.len() <= u64::MAX,
    ensures
        forall|k: int|
            0 <= k < spec_click_spawns(events, scatters, first).len() ==> (
            #[trigger] spec_click_spawns(events, scatters, first)[k]).id == first + k,
    decreases events.len(),
{
    if events.len() > 0 {
        lemma_click_spawn_ids(events.drop_last(), scatters, first);
        lemma_click_spawns_len(events.drop_last(), scatters, first);
    }
}

/// Coins that grow by new coins, which get the identifiers from the next
/// one on, keep every identifier apart.
pub proof fn lemma_grown(
    before: Seq<CoinEntity>,
    after: Seq<CoinEntity>,
    machines: Seq<MachineEntity>,
    spots: Seq<SpotEntity>,
    next: int,
    grown: int,
)
    requires
        spec_identified(before, machines, spots, next),
        before.len() <= after.len(),
        grown == next + after.len() - before.len(),
        grown <= u64::MAX + 1,
        forall|k: int| 0 <= k < before.len() ==> (#[trigger] after[k]).id == before[k].id,
        forall|k: int|
            before.len() <= k < after.len() ==> (#[trigger] after[k]).id == next + k - before.len(),
    ensures
        spec_identified(after, machines, spots, grown),
{
    let old_ids = coin_ids(before);
    let ids = coin_ids(after);
    assert forall|i: int| 0 <= i < ids.len() implies #[trigger] ids[i] < grown by {
        if i < before.len() {
            assert(old_ids[i] < next);
            assert(after[i].id == before[i].id);
        } else {
            assert(after[i].id == next + i - before.len());
        }
    }
    assert forall|i: int| 0 <= i < ids.len() && i >= before.len() implies #[trigger] ids[i]
        >= next by {
        assert(after[i].id == next + i - before.len());
    }
    assert forall|i: int| 0 <= i < before.len() implies #[trigger] ids[i] == old_ids[i] by {
        assert(after[i].id == before[i].id);
    }
    assert forall|i: int, j: int| 0 <= i < ids.len() && 0 <= j < ids.len() && i != j implies #[trigger] ids[i]
        != #[trigger] ids[j] by {
        if i < before.len() && j < before.len() {
            assert(old_ids[i] != old_ids[j]);
        } else if i < before.len() {
            assert(old_ids[i] < next);
        } else if j < before.len() {
            assert(old_ids[j] < next);
        } else {
            assert(after[i].id == next + i - before.len());
            assert(after[j].id == next + j - before.len());
        }
    }
    assert forall|i: int, j: int| 0 <= i < ids.len() && 0 <= j < machines.len() implies #[trigger] ids[i]
        != #[trigger] machine_ids(machines)[j] by {
        assert(machine_ids(machines)[j] < next);
        if i < before.len() {
            assert(old_ids[i] != machine_ids(machines)[j]);
        }
    }
    assert forall|i: int, j: int| 0 <= i < ids.len() && 0 <= j < spots.len() implies #[trigger] ids[i]
        != #[trigger] spot_ids(spots)[j] by {
        assert(spot_ids(spots)[j] < next);
        if i < before.len() {
            assert(old_ids[i] != spot_ids(spots)[j]);
        }
    }
    assert forall|i: int| 0 <= i < machines.len() implies #[trigger] machine_ids(machines)[i]
        < grown by {
        assert(machine_ids(machines)[i] < next);
    }
    assert forall|i: int| 0 <= i < spots.len() implies #[trigger] spot_ids(spots)[i] < grown by {
        assert(spot_ids(spots)[i] < next);
    }
}

/// A placement keeps every identifier apart.
pub proof fn lemma_place_identified(coins: Seq<CoinEntity>, site: Site, request: MachinePlaceRequest)
    requires
        spec_identified(coins, site.machines, site.spots, site.next as int),
        site.next + ENTITIES_PER_PLACEMENT <= u64::MAX,
    ensures
        spec_identified(
            coins,
            spec_place(site, request).machines,
            spec_place(site, request).spots,
            spec_place(site, request).next as int,
        ),
        site.next <= spec_place(site, request).next <= site.next + ENTITIES_PER_PLACEMENT,
{
    let after = spec_place(site, request);
    if after != site {
        let new_spots = crate::placement::spec_new_spots(
            request.machine,
            request.position,
            site.next,
            (site.next + 1) as EntityId,
        );
        assert(new_spots.len() <= 4);
        assert forall|k: int| 0 <= k < new_spots.len() implies (#[trigger] new_spots[k]).id
            == site.next + 1 + k by {}
        let m_old = machine_ids(site.machines);
        let s_old = spot_ids(site.spots);
        let m = machine_ids(after.machines);
        let s = spot_ids(after.spots);
        let c = coin_ids(coins);
        assert forall|i: int| 0 <= i < m.len() implies (if i < m_old.len() {
            #[trigger] m[i] == m_old[i] && m[i] < site.next
        } else {
            m[i] == site.next
        }) by {
            if i < m_old.len() {
                assert(m_old[i] < site.next);
            }
        }
        assert forall|i: int| 0 <= i < s.len() implies (if i < s_old.len() {
            #[trigger] s[i] == s_old[i] && s[i] < site.next
        } else {
            s[i] == site.next + 1 + (i - s_old.len())
        }) by {
            if i < s_old.len() {
                assert(s_old[i] < site.next);
            } else {
                assert(after.spots[i] == new_spots[i - s_old.len()]);
            }
        }
        assert forall|i: int| 0 <= i < c.len() implies #[trigger] c[i] < site.next by {}
        assert(spec_distinct(m)) by {
            assert forall|i: int, j: int| 0 <= i < m.len() && 0 <= j < m.len() && i != j implies #[trigger] m[i]
                != #[trigger] m[j] by {
                if i < m_old.len() && j < m_old.len() {
                    assert(m_old[i] != m_old[j]);
                }
            }
        }
        assert(spec_distinct(s)) by {
            assert forall|i: int, j: int| 0 <= i < s.len() && 0 <= j < s.len() && i != j implies #[trigger] s[i]
                != #[trigger] s[j] by {
                if i < s_old.len() && j < s_old.len() {
                    assert(s_old[i] != s_old[j]);
                }
            }
        }
        assert(spec_apart(m, s)) by {
            assert forall|i: int, j: int| 0 <= i < m.len() && 0 <= j < s.len() implies #[trigger] m[i]
                != #[trigger] s[j] by {
                if i < m_old.len() && j < s_old.len() {
                    assert(m_old[i] != s_old[j]);
                }
            }
        }
        assert(spec_apart(c, m)) by {
            assert forall|i: int, j: int| 0 <= i < c.len() && 0 <= j < m.len() implies #[trigger] c[i]
                != #[trigger] m[j] by {
                if j < m_old.len() {
                    assert(c[i] != m_old[j]);
                }
            }
        }
        assert(spec_apart(c, s)) by {
            assert forall|i: int, j: int| 0 <= i < c.len() && 0 <= j < s.len() implies #[trigger] c[i]
                != #[trigger] s[j] by {
                if j < s_old.len() {
                    assert(c[i] != s_old[j]);
                }
            }
        }
    }
}

/// Placements keep every identifier apart.
pub proof fn lemma_place_all_identified(
    coins: Seq<CoinEntity>,
    site: Site,
    requests: Seq<MachinePlaceRequest>,
)
    requires
        spec_identified(coins, site.machines, site.spots, site.next as int),
        site.next + ENTITIES_PER_PLACEMENT * requests.len() <= u64::MAX,
    ensures
        spec_identified(
            coins,
            spec_place_all(site, requests).machines,
            spec_place_all(site, requests).spots,
            spec_place_all(site, requests).next as int,
        ),
        site.next <= spec_place_all(site, requests).next <= site.next + ENTITIES_PER_PLACEMENT
            * requests.len(),
    decreases requests.len(),
{
    if requests.len() > 0 {
        lemma_place_all_identified(coins, site, requests.drop_last());
        lemma_place_identified(coins, spec_place_all(site, requests.drop_last()), requests.last());
    }
}

/// A demolition keeps every identifier apart.
pub proof fn lemma_delete_identified(
    coins: Seq<CoinEntity>,
    grounds: Grounds,
    request: MachineDeleteRequest,
    next: int,
)
    requires
        spec_identified(coins, grounds.machines, grounds.spots, next),
    ensures
        spec_identified(
            coins,
            spec_delete(grounds, request).machines,
            spec_delete(grounds, request).spots,
            next,
        ),
{
    let after = spec_delete(grounds, request);
    lemma_machines_off_ids(grounds.machines, request.position);
    lemma_spots_kept_ids(grounds.spots, grounds.machines, request.position);
    if after != grounds {
        let m = machine_ids(after.machines);
        let s = spot_ids(after.spots);
        lemma_within(m, machine_ids(grounds.machines), spot_ids(grounds.spots), next);
        lemma_within(m, machine_ids(grounds.machines), coin_ids(coins), next);
        lemma_within(s, spot_ids(grounds.spots), coin_ids(coins), next);
        lemma_within(s, spot_ids(grounds.spots), m, next);
    }
}

/// Demolitions keep every identifier apart.
pub proof fn lemma_delete_all_identified(
    coins: Seq<CoinEntity>,
    grounds: Grounds,
    requests: Seq<MachineDeleteRequest>,
    next: int,
)
    requires
        spec_identified(coins, grounds.machines, grounds.spots, next),
    ensures
        spec_identified(
            coins,
            spec_delete_all(grounds, requests).machines,
            spec_delete_all(grounds, requests).spots,
            next,
        ),
    decreases requests.len(),
{
    if requests.len() > 0 {
        lemma_delete_all_identified(coins, grounds, requests.drop_last(), next);
        lemma_delete_identified(
            coins,
            spec_delete_all(grounds, requests.drop_last()),
            requests.last(),
            next,
        );
    }
}

/// Showing and hiding spots leaves each spot its identifier.
pub proof fn lemma_update_spots_ids(
    spots: Seq<SpotEntity>,
    machines: Seq<MachineEntity>,
    requests: Seq<UpdateSpotsRequest>,
)
    ensures
        spot_ids(spec_update_spots(spots, machines, requests)) == spot_ids(spots),
    decreases requests.len(),
{
    if requests.len() > 0 {
        lemma_update_spots_ids(spots, machines, requests.drop_last());
        let earlier = spec_update_spots(spots, machines, requests.drop_last());
        assert(spot_ids(earlier).len() == spots.len());
        assert forall|i: int| 0 <= i < spots.len() implies #[trigger] spot_ids(
            spec_update_spots(spots, machines, requests),
        )[i] == spot_ids(spots)[i] by {
            assert(spot_ids(earlier)[i] == spot_ids(spots)[i]);
        }
    }
    assert(spot_ids(spec_update_spots(spots, machines, requests)) =~= spot_ids(spots));
}

/// Pickup requests leave each coin its identifier.
pub proof fn lemma_apply_pickups_ids(coins: Seq<CoinEntity>, pickups: Seq<CoinPickup>)
    ensures
        coin_ids(spec_apply_pickups(coins, pickups)) == coin_ids(coins),
{
    lemma_apply_pickups_keeps(coins, pickups);
    assert(coin_ids(spec_apply_pickups(coins, pickups)) =~= coin_ids(coins));
}

/// Machines that act leave each coin its identifier, and the coins they
/// spawn get the identifiers from the next one on, one after the other.
pub proof fn lemma_act_machines_ids(
    field: CoinField,
    machines: Seq<MachineEntity>,
    tiles: TileIndex,
    delta: u64,
    scatters: Seq<Scatter>,
)
    requires
        field.next + machines.len() <= u64::MAX,
    ensures
        ({
            let after = spec_act_machines(field, machines, tiles, delta, scatters);
            &&& field.coins.len() <= after.coins.len() <= field.coins.len() + machines.len()
            &&& after.next == field.next + after.coins.len() - field.coins.len()
            &&& forall|k: int|
                0 <= k < field.coins.len() ==> (#[trigger] after.coins[k]).id == field.coins[k].id
            &&& forall|k: int|
                field.coins.len() <= k < after.coins.len() ==> (#[trigger] after.coins[k]).id
                    == field.next + k - field.coins.len()
        }),
    decreases machines.len(),
{
    if machines.len() > 0 {
        let earlier = spec_act_machines(field, machines.drop_last(), tiles, delta, scatters);
        lemma_act_machines_ids(field, machines.drop_last(), tiles, delta, scatters);
        let after = spec_act_machines(field, machines, tiles, delta, scatters);
        if machines.last().fires(delta) {
            assert(after == spec_fire(
                earlier,
                machines.last().placed.machine,
                machines.last().position,
                tiles,
                crate::random::spec_scatter_at(scatters, machines.len() - 1),
            ));
            assert forall|k: int| 0 <= k < earlier.coins.len() implies (#[trigger] after.coins[k]).id
                == earlier.coins[k].id by {}
            assert forall|k: int| earlier.coins.len() <= k < after.coins.len() implies (
            #[trigger] after.coins[k]).id == earlier.next by {}
        }
    }
}

/// What a part of the first coins and the coins behind them make together
/// keeps the identifiers of the coins, each once.
pub proof fn lemma_part_and_rest(coins: Seq<CoinEntity>, first: int, part: Seq<CoinEntity>)
    requires
        0 <= first <= coins.len(),
        spec_distinct(coin_ids(coins)),
        spec_within(coin_ids(part), coin_ids(coins.take(first))),
        spec_distinct(coin_ids(part)),
    ensures
        spec_within(coin_ids(part + coins.skip(first)), coin_ids(coins)),
        spec_distinct(coin_ids(part + coins.skip(first))),
{
    let ids = coin_ids(coins);
    let all = coin_ids(part + coins.skip(first));
    let head = coin_ids(part);
    assert forall|k: int| 0 <= k < part.len() implies exists|w: int|
        0 <= w < first && ids[w] == #[trigger] head[k] by {
        assert(coin_ids(coins.take(first)).contains(head[k]));
        let w = choose|w: int| 0 <= w < first && coin_ids(coins.take(first))[w] == head[k];
        assert(ids[w] == head[k]);
    }
    assert forall|k: int| 0 <= k < all.len() implies ids.contains(#[trigger] all[k]) by {
        if k < part.len() {
            assert(all[k] == head[k]);
            let w = choose|w: int| 0 <= w < first && ids[w] == head[k];
            assert(ids[w] == all[k]);
        } else {
            assert(ids[first + k - part.len()] == all[k]);
        }
    }
    assert forall|i: int, j: int| 0 <= i < all.len() && 0 <= j < all.len() && i != j implies #[trigger] all[i]
        != #[trigger] all[j] by {
        if i < part.len() && j < part.len() {
            assert(head[i] != head[j]);
        } else if i < part.len() {
            let w = choose|w: int| 0 <= w < first && ids[w] == head[i];
            assert(all[i] == head[i]);
            assert(ids[w] != ids[first + j - part.len()]);
        } else if j < part.len() {
            let w = choose|w: int| 0 <= w < first && ids[w] == head[j];
            assert(all[j] == head[j]);
            assert(ids[w] != ids[first + i - part.len()]);
        } else {
            assert(ids[first + i - part.len()] != ids[first + j - part.len()]);
        }
    }
}

} // verus!
