//! No coin is taken twice: through the actions of all machines in a tick,
//! each coin is named by one pickup request at most.

use vstd::prelude::*;
use crate::coins::{CoinEntity, CoinPickup};
use crate::entity::EntityId;
use crate::identity::{coin_ids, lemma_act_machines_ids, spec_below, spec_distinct};
use crate::machines::{
    lemma_find_among, lemma_plan_takes_pickable, spec_act_machines, spec_action_pickups,
    spec_fire, spec_tile_center, CoinField, Machine, MachineEntity,
};
use crate::random::{spec_scatter_at, Scatter};
use crate::tiles::{
    entities_on, spec_entities_in, spec_index, TileIndex, TilePosition, TileTrackedEntity,
};

verus! {

/// Whether a pickup request among `pickups` names the coin `id`.
pub open spec fn spec_names(pickups: Seq<CoinPickup>, id: EntityId) -> bool {
    exists|p: int| 0 <= p < pickups.len() && (#[trigger] pickups[p]).coin == id
}

/// Whether one of the coins has the identifier `id` and can be picked up.
pub open spec fn spec_holds_pickable(coins: Seq<CoinEntity>, id: EntityId) -> bool {
    exists|k: int|
        0 <= k < coins.len() && (#[trigger] coins[k]).id == id && coins[k].coin.spec_pickable()
}

/// Whether one of the first coins has the identifier `id`, can still be
/// picked up among `coins`, and is named by none of `pickups`.
spec fn spec_still_free(
    first: Seq<CoinEntity>,
    coins: Seq<CoinEntity>,
    pickups: Seq<CoinPickup>,
    id: EntityId,
) -> bool {
    exists|k: int|
        0 <= k < first.len() && (#[trigger] first[k]).id == id && coins[k].coin.spec_pickable()
            && !spec_names(pickups, id)
}

/// Whether the index files no entity under two tiles.
pub open spec fn spec_single_filed(tiles: TileIndex) -> bool {
    forall|first: TilePosition, second: TilePosition, i: int, j: int|
        first != second && 0 <= i < spec_entities_in(tiles, first).len() && 0 <= j
            < spec_entities_in(tiles, second).len() ==> #[trigger] spec_entities_in(
            tiles,
            first,
        )[i] != #[trigger] spec_entities_in(tiles, second)[j]
}

/// What machine actions leave of a field, against the field they began
/// with. The requests that were there stay in front. Each new request names
/// a coin that could be picked up before, and no two name the same coin.
/// The coins keep their places and identifiers; one of them can be picked
/// up afterwards exactly if it could be before and no new request names
/// it. The coins that were spawned stand behind, and cannot be picked up.
pub open spec fn spec_guarded(before: CoinField, after: CoinField) -> bool {
    let emitted = after.pickups.skip(before.pickups.len() as int);
    &&& before.pickups.len() <= after.pickups.len()
    &&& after.pickups.take(before.pickups.len() as int) == before.pickups
    &&& before.coins.len() <= after.coins.len()
    &&& forall|k: int|
        0 <= k < before.coins.len() ==> (#[trigger] after.coins[k]).id == before.coins[k].id
            && after.coins[k].coin.spec_pickable() == (before.coins[k].coin.spec_pickable()
            && !spec_names(emitted, before.coins[k].id))
    &&& forall|k: int|
        before.coins.len() <= k < after.coins.len() ==> !(#[trigger] after.coins[k]).coin.spec_pickable()
    &&& forall|p: int|
        0 <= p < emitted.len() ==> spec_holds_pickable(before.coins, (#[trigger] emitted[p]).coin)
    &&& forall|p: int, q: int|
        0 <= p < emitted.len() && 0 <= q < emitted.len() && p != q ==> (#[trigger] emitted[p]).coin
            != (#[trigger] emitted[q]).coin
}

/// One machine that acts takes each coin once at most, and only coins that
/// can be picked up.
pub proof fn lemma_fire_guarded(
    field: CoinField,
    kind: Machine,
    tile: TilePosition,
    tiles: TileIndex,
    scatter: Scatter,
)
    requires
        spec_distinct(coin_ids(field.coins)),
        field.coins.len() < usize::MAX,
        spec_single_filed(tiles),
    ensures
        spec_guarded(field, spec_fire(field, kind, tile, tiles, scatter)),
{
    let after = spec_fire(field, kind, tile, tiles, scatter);
    let action = kind.spec_plan(tile, field.coins, tiles);
    let position = spec_tile_center(tile);
    let emitted = after.pickups.skip(field.pickups.len() as int);
    let ids = coin_ids(field.coins);
    assert(emitted =~= spec_action_pickups(action, field.coins, position));
    assert(after.pickups.take(field.pickups.len() as int) =~= field.pickups);
    if action.first.is_some() {
        lemma_plan_takes_pickable(kind, tile, field.coins, tiles, action.first.unwrap() as int);
    }
    if action.second.is_some() {
        lemma_plan_takes_pickable(kind, tile, field.coins, tiles, action.second.unwrap() as int);
    }
    if action.first.is_some() && action.second.is_some() {
        let l = action.first.unwrap() as int;
        let r = action.second.unwrap() as int;
        let left = tile.spec_offset(-1, 0);
        let right = tile.spec_offset(1, 0);
        lemma_find_among(field.coins, spec_entities_in(tiles, left));
        lemma_find_among(field.coins, spec_entities_in(tiles, right));
        assert(left != right);
        let i = choose|i: int|
            0 <= i < spec_entities_in(tiles, left).len() && spec_entities_in(tiles, left)[i]
                == field.coins[l].id;
        let j = choose|j: int|
            0 <= j < spec_entities_in(tiles, right).len() && spec_entities_in(tiles, right)[j]
                == field.coins[r].id;
        assert(spec_entities_in(tiles, left)[i] != spec_entities_in(tiles, right)[j]);
        assert(field.coins[l].id != field.coins[r].id);
    }
    assert forall|k: int| 0 <= k < field.coins.len() implies (#[trigger] after.coins[k]).id
        == field.coins[k].id && after.coins[k].coin.spec_pickable() == (
    field.coins[k].coin.spec_pickable() && !spec_names(emitted, field.coins[k].id)) by {
        let taken = action.first == Some(k as usize) || action.second == Some(k as usize);
        if taken {
            if action.first == Some(k as usize) {
                assert(emitted[0].coin == field.coins[k].id);
            } else {
                assert(emitted[emitted.len() - 1].coin == field.coins[k].id);
            }
        } else {
            if spec_names(emitted, field.coins[k].id) {
                let p = choose|p: int| 0 <= p < emitted.len() && emitted[p].coin == ids[k];
                if action.first.is_some() && p == 0 {
                    assert(ids[action.first.unwrap() as int] == ids[k]);
                } else {
                    assert(ids[action.second.unwrap() as int] == ids[k]);
                }
            }
        }
    }
    assert forall|p: int| 0 <= p < emitted.len() implies spec_holds_pickable(
        field.coins,
        (#[trigger] emitted[p]).coin,
    ) by {
        if action.first.is_some() && p == 0 {
            assert(field.coins[action.first.unwrap() as int].id == emitted[p].coin);
        } else {
            assert(field.coins[action.second.unwrap() as int].id == emitted[p].coin);
        }
    }
}

/// Through the actions of the machines of a tick, each coin is named by
/// one pickup request at most, every coin that is named could be picked
/// up before, and a coin can be picked up afterwards exactly if it could
/// be before and no request names it: a machine that acts later finds a
/// coin that was taken as one that cannot be picked up.
#[verifier::rlimit(80)]
#[verifier::spinoff_prover]
pub proof fn lemma_act_machines_guarded(
    field: CoinField,
    machines: Seq<MachineEntity>,
    tiles: TileIndex,
    delta: u64,
    scatters: Seq<Scatter>,
)
    requires
        spec_distinct(coin_ids(field.coins)),
        spec_below(coin_ids(field.coins), field.next as int),
        field.next + machines.len() <= u64::MAX,
        field.coins.len() + machines.len() < usize::MAX,
        spec_single_filed(tiles),
    ensures
        spec_guarded(field, spec_act_machines(field, machines, tiles, delta, scatters)),
    decreases machines.len(),
{
    let after = spec_act_machines(field, machines, tiles, delta, scatters);
    if machines.len() == 0 {
        assert(after.pickups.skip(field.pickups.len() as int) =~= Seq::<CoinPickup>::empty());
        assert(after.pickups.take(field.pickups.len() as int) =~= field.pickups);
        assert(spec_guarded(field, after));
    } else {
        let earlier = spec_act_machines(field, machines.drop_last(), tiles, delta, scatters);
        lemma_act_machines_guarded(field, machines.drop_last(), tiles, delta, scatters);
        lemma_act_machines_ids(field, machines.drop_last(), tiles, delta, scatters);
        if machines.last().fires(delta) {
            let ids = coin_ids(earlier.coins);
            assert(spec_distinct(ids)) by {
                assert forall|i: int, j: int| 0 <= i < ids.len() && 0 <= j < ids.len() && i != j implies #[trigger] ids[i]
                    != #[trigger] ids[j] by {
                    if i < field.coins.len() && j < field.coins.len() {
                        assert(coin_ids(field.coins)[i] != coin_ids(field.coins)[j]);
                    } else if i < field.coins.len() {
                        assert(coin_ids(field.coins)[i] < field.next);
                    } else if j < field.coins.len() {
                        assert(coin_ids(field.coins)[j] < field.next);
                    }
                }
            }
            lemma_fire_guarded(
                earlier,
                machines.last().placed.machine,
                machines.last().position,
                tiles,
                spec_scatter_at(scatters, machines.len() - 1),
            );
            let first = field.pickups.len() as int;
            let mid = earlier.pickups.len() as int;
            let before = earlier.pickups.skip(first);
            let now = after.pickups.skip(mid);
            let emitted = after.pickups.skip(first);
            assert(emitted =~= before + now);
            assert(after.pickups.take(first) =~= field.pickups) by {
                assert(after.pickups.take(mid).take(first) =~= after.pickups.take(first));
            }
            // Each request of this action names one of the first coins.
            assert forall|q: int| 0 <= q < now.len() implies spec_still_free(
                field.coins,
                earlier.coins,
                before,
                (#[trigger] now[q]).coin,
            ) by {
                assert(spec_holds_pickable(earlier.coins, now[q].coin));
                let k = choose|k: int|
                    0 <= k < earlier.coins.len() && earlier.coins[k].id == now[q].coin
                        && earlier.coins[k].coin.spec_pickable();
                assert(k < field.coins.len());
                assert(field.coins[k].id == now[q].coin);
            }
            assert forall|k: int| 0 <= k < field.coins.len() implies (spec_names(
                emitted,
                #[trigger] field.coins[k].id,
            ) == (spec_names(before, field.coins[k].id) || spec_names(now, field.coins[k].id))) by {
                let id = field.coins[k].id;
                if spec_names(emitted, id) {
                    let p = choose|p: int| 0 <= p < emitted.len() && emitted[p].coin == id;
                    if p < before.len() {
                        assert(before[p].coin == id);
                    } else {
                        assert(now[p - before.len()].coin == id);
                    }
                }
                if spec_names(before, id) {
                    let p = choose|p: int| 0 <= p < before.len() && before[p].coin == id;
                    assert(emitted[p].coin == id);
                }
                if spec_names(now, id) {
                    let p = choose|p: int| 0 <= p < now.len() && now[p].coin == id;
                    assert(emitted[before.len() + p].coin == id);
                }
            }
            assert forall|k: int| 0 <= k < field.coins.len() implies (#[trigger] after.coins[k]).id
                == field.coins[k].id && after.coins[k].coin.spec_pickable() == (
            field.coins[k].coin.spec_pickable() && !spec_names(emitted, field.coins[k].id)) by {
                assert(earlier.coins[k].id == field.coins[k].id);
            }
            assert forall|k: int| field.coins.len() <= k < after.coins.len() implies !(
            #[trigger] after.coins[k]).coin.spec_pickable() by {
                if k < earlier.coins.len() {
                    assert(!earlier.coins[k].coin.spec_pickable());
                    assert(after.coins[k].coin.spec_pickable() == (
                    earlier.coins[k].coin.spec_pickable() && !spec_names(now, earlier.coins[k].id)));
                }
            }
            assert forall|p: int| 0 <= p < emitted.len() implies spec_holds_pickable(
                field.coins,
                (#[trigger] emitted[p]).coin,
            ) by {
                if p < before.len() {
                    assert(emitted[p] == before[p]);
                    assert(spec_holds_pickable(field.coins, before[p].coin));
                } else {
                    let q = p - before.len();
                    assert(emitted[p] == now[q]);
                    assert(spec_still_free(field.coins, earlier.coins, before, now[q].coin));
                    let k = choose|k: int|
                        0 <= k < field.coins.len() && field.coins[k].id == now[q].coin
                            && earlier.coins[k].coin.spec_pickable() && !spec_names(
                            before,
                            now[q].coin,
                        );
                    assert(earlier.coins[k].coin.spec_pickable() == (
                    field.coins[k].coin.spec_pickable() && !spec_names(before, field.coins[k].id)));
                    assert(field.coins[k].id == emitted[p].coin);
                }
            }
            assert forall|p: int, q: int| 0 <= p < emitted.len() && 0 <= q < emitted.len() && p
                != q implies (#[trigger] emitted[p]).coin != (#[trigger] emitted[q]).coin by {
                if p < before.len() && q < before.len() {
                    assert(before[p].coin != before[q].coin);
                } else if p >= before.len() && q >= before.len() {
                    assert(now[p - before.len()].coin != now[q - before.len()].coin);
                } else {
                    let (old_one, new_one) = if p < before.len() {
                        (p, q - before.len())
                    } else {
                        (q, p - before.len())
                    };
                    assert(spec_still_free(field.coins, earlier.coins, before, now[new_one].coin));
                    assert(!spec_names(before, now[new_one].coin));
                    assert(before[old_one].coin != now[new_one].coin);
                }
            }
            assert(spec_guarded(field, after));
        } else {
            assert(after == earlier);
        }
    }
}

/// Each entity filed under a tile is one of the listed entities, and lies
/// in that tile.
pub proof fn lemma_entities_on(listed: Seq<TileTrackedEntity>, tile: TilePosition, k: int)
    requires
        0 <= k < entities_on(listed, tile).len(),
    ensures
        exists|i: int|
            0 <= i < listed.len() && (#[trigger] listed[i]).entity == entities_on(listed, tile)[k]
                && TilePosition::spec_from_world(listed[i].position) == tile,
    decreases listed.len(),
{
    if listed.len() > 0 {
        let earlier = entities_on(listed.drop_last(), tile);
        if k < earlier.len() {
            lemma_entities_on(listed.drop_last(), tile, k);
            let i = choose|i: int|
                0 <= i < listed.drop_last().len() && (#[trigger] listed.drop_last()[i]).entity
                    == earlier[k] && TilePosition::spec_from_world(listed.drop_last()[i].position)
                    == tile;
            assert(listed[i].entity == entities_on(listed, tile)[k]);
        } else {
            assert(listed[listed.len() - 1].entity == entities_on(listed, tile)[k]);
        }
    }
}

/// The index of entities that each have an identifier of their own files
/// no entity under two tiles.
pub proof fn lemma_index_single_filed(listed: Seq<TileTrackedEntity>)
    requires
        forall|i: int, j: int|
            0 <= i < listed.len() && 0 <= j < listed.len() && i != j ==> (#[trigger] listed[i]).entity
                != (#[trigger] listed[j]).entity,
    ensures
        spec_single_filed(spec_index(listed)),
{
    let index = spec_index(listed);
    assert forall|first: TilePosition, second: TilePosition, i: int, j: int|
        first != second && 0 <= i < spec_entities_in(index, first).len() && 0 <= j
            < spec_entities_in(index, second).len() implies #[trigger] spec_entities_in(
        index,
        first,
    )[i] != #[trigger] spec_entities_in(index, second)[j] by {
        assert(spec_entities_in(index, first) == entities_on(listed, first));
        assert(spec_entities_in(index, second) == entities_on(listed, second));
        lemma_entities_on(listed, first, i);
        lemma_entities_on(listed, second, j);
        let a = choose|a: int|
            0 <= a < listed.len() && (#[trigger] listed[a]).entity == entities_on(listed, first)[i]
                && TilePosition::spec_from_world(listed[a].position) == first;
        let b = choose|b: int|
            0 <= b < listed.len() && (#[trigger] listed[b]).entity == entities_on(listed, second)[j]
                && TilePosition::spec_from_world(listed[b].position) == second;
        assert(a != b);
    }
}

} // verus!
