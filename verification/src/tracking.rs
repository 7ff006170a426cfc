//! The entities that the spatial index follows: coins where they are,
//! machines and spots at the middle of their tiles.

use vstd::prelude::*;
use crate::coins::CoinEntity;
use crate::machines::{spec_tile_center, tile_center, MachineEntity};
use crate::placement::SpotEntity;
use crate::tiles::TileTrackedEntity;

verus! {

/// The coins as entities to follow, in their order.
pub open spec fn spec_listed_coins(coins: Seq<CoinEntity>) -> Seq<TileTrackedEntity> {
    Seq::new(
        coins.len(),
        |i: int| TileTrackedEntity { entity: coins[i].id, position: coins[i].position },
    )
}

/// The machines as entities to follow, in their order.
pub open spec fn spec_listed_machines(machines: Seq<MachineEntity>) -> Seq<TileTrackedEntity> {
    Seq::new(
        machines.len(),
        |i: int|
            TileTrackedEntity {
                entity: machines[i].id,
                position: spec_tile_center(machines[i].position),
            },
    )
}

/// The spots as entities to follow, in their order.
pub open spec fn spec_listed_spots(spots: Seq<SpotEntity>) -> Seq<TileTrackedEntity> {
    Seq::new(
        spots.len(),
        |i: int|
            TileTrackedEntity { entity: spots[i].id, position: spec_tile_center(spots[i].position) },
    )
}

/// Every entity to follow: the coins, then the machines, then the spots.
pub open spec fn spec_listed(
    coins: Seq<CoinEntity>,
    machines: Seq<MachineEntity>,
    spots: Seq<SpotEntity>,
) -> Seq<TileTrackedEntity> {
    spec_listed_coins(coins) + spec_listed_machines(machines) + spec_listed_spots(spots)
}

/// Lists every entity that the spatial index follows, with its position.
pub fn tile_tracked(coins: &Vec<CoinEntity>, machines: &Vec<MachineEntity>, spots: &Vec<SpotEntity>) -> (listed:
    Vec<TileTrackedEntity>)
    ensures
        listed@ == spec_listed(coins@, machines@, spots@),
{
    let mut listed: Vec<TileTrackedEntity> = Vec::new();
    let mut c: usize = 0;
    while c < coins.len()
        invariant
            c <= coins.len(),
            listed@ == spec_listed_coins(coins@.take(c as int)),
        decreases coins.len() - c,
    {
        listed.push(TileTrackedEntity { entity: coins[c].id, position: coins[c].position });
        proof {
            assert(listed@ =~= spec_listed_coins(coins@.take(c as int + 1)));
        }
        c += 1;
    }
    proof {
        assert(coins@.take(c as int) =~= coins@);
    }
    let mut m: usize = 0;
    while m < machines.len()
        invariant
            m <= machines.len(),
            listed@ == spec_listed_coins(coins@) + spec_listed_machines(machines@.take(m as int)),
        decreases machines.len() - m,
    {
        listed.push(
            TileTrackedEntity { entity: machines[m].id, position: tile_center(machines[m].position) },
        );
        proof {
            assert(listed@ =~= spec_listed_coins(coins@) + spec_listed_machines(
                machines@.take(m as int + 1),
            ));
        }
        m += 1;
    }
    proof {
        assert(machines@.take(m as int) =~= machines@);
    }
    let mut s: usize = 0;
    while s < spots.len()
        invariant
            s <= spots.len(),
            listed@ == spec_listed_coins(coins@) + spec_listed_machines(machines@)
                + spec_listed_spots(spots@.take(s as int)),
        decreases spots.len() - s,
    {
        listed.push(
            TileTrackedEntity { entity: spots[s].id, position: tile_center(spots[s].position) },
        );
        proof {
            assert(listed@ =~= spec_listed_coins(coins@) + spec_listed_machines(machines@)
                + spec_listed_spots(spots@.take(s as int + 1)));
        }
        s += 1;
    }
    proof {
        assert(spots@.take(s as int) =~= spots@);
    }
    listed
}

} // verus!
