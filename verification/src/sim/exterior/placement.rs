//! Building defenses on the castle's outer wall ring.
use vstd::prelude::*;
use crate::sim::catalog::{defense_by_id, spec_defense_by_id, DefenseStats};
use crate::sim::entity::{EntityId, Tower, TowerView};

verus! {

pub open spec fn spec_abs(v: int) -> int {
    if v < 0 {
        -v
    } else {
        v
    }
}

/// The wall ring: the cells whose larger coordinate magnitude is exactly 4.
/// Cells further in, near the keep, cannot be built on.
pub open spec fn spec_buildable(cell_x: int, cell_z: int) -> bool {
    &&& spec_abs(cell_x) == 4 || spec_abs(cell_z) == 4
    &&& spec_abs(cell_x) <= 4
    &&& spec_abs(cell_z) <= 4
}

/// Whether a grid cell lies on the castle's outer wall ring.
pub fn is_buildable_cell(cell_x: i32, cell_z: i32) -> (r: bool)
    ensures
        r == spec_buildable(cell_x as int, cell_z as int),
{
    let ax: i32 = if cell_x < 0 {
        if cell_x == i32::MIN {
            i32::MAX
        } else {
            -cell_x
        }
    } else {
        cell_x
    };
    let az: i32 = if cell_z < 0 {
        if cell_z == i32::MIN {
            i32::MAX
        } else {
            -cell_z
        }
    } else {
        cell_z
    };
    (ax == 4 || az == 4) && ax <= 4 && az <= 4
}

/// `x + 1`, staying at `u32::MAX`.
pub open spec fn saturating_inc(x: u32) -> u32 {
    if x == u32::MAX {
        x
    } else {
        (x + 1) as u32
    }
}

/// What a placement request comes to, given whether the target cell was
/// reported occupied. The checks run in this order: the defense type, the
/// cell, occupancy, then gold.
pub open spec fn placement_outcome(
    type_id: Seq<char>,
    cell_x: i32,
    cell_z: i32,
    occupied: bool,
    resources: u32,
) -> Result<DefenseStats, PlaceError> {
    match spec_defense_by_id(type_id) {
        None => Err(PlaceError::UnknownType),
        Some(stats) => if !spec_buildable(cell_x as int, cell_z as int) {
            Err(PlaceError::InvalidCell)
        } else if occupied {
            Err(PlaceError::Occupied)
        } else if resources < stats.cost {
            Err(PlaceError::NotEnoughGold)
        } else {
            Ok(stats)
        },
    }
}

/// Whether the occupancy callback is asked at all: only for a known type on
/// a wall cell.
pub open spec fn placement_asks_occupancy(type_id: Seq<char>, cell_x: i32, cell_z: i32) -> bool {
    spec_defense_by_id(type_id) is Some && spec_buildable(cell_x as int, cell_z as int)
}

/// The tower that a successful placement builds.
pub open spec fn placed_tower(id: EntityId, stats: DefenseStats, cell_x: i32, cell_z: i32) -> TowerView {
    TowerView {
        id: id,
        type_id: stats.type_id@,
        visual_key: stats.visual_key@,
        cell_x: cell_x,
        cell_z: cell_z,
    }
}

/// Tries to build a defense of type `type_id` on a cell. On success the cost
/// is paid from `resources`, the tower takes the id `next_id`, and `next_id`
/// moves on (saturating). On failure nothing changes.
pub fn try_place_tower<F: FnMut(i32, i32) -> bool>(
    next_id: &mut EntityId,
    resources: &mut u32,
    occupied: &mut F,
    type_id: &str,
    cell_x: i32,
    cell_z: i32,
) -> (r: Result<Tower, PlaceError>)
    requires
        call_requires(*old(occupied), (cell_x, cell_z)),
    ensures
        exists|o: bool|
            #![trigger placement_outcome(type_id@, cell_x, cell_z, o, *old(resources))]
            {
                &&& placement_asks_occupancy(type_id@, cell_x, cell_z) ==> call_ensures(
                    *old(occupied),
                    (cell_x, cell_z),
                    o,
                )
                &&& match placement_outcome(type_id@, cell_x, cell_z, o, *old(resources)) {
                    Ok(stats) => {
                        &&& r matches Ok(t) && t@ == placed_tower(*old(next_id), stats, cell_x, cell_z)
                        &&& *final(resources) == *old(resources) - stats.cost
                        &&& *final(next_id) == saturating_inc(*old(next_id))
                    },
                    Err(e) => {
                        &&& r == Err::<Tower, PlaceError>(e)
                        &&& *final(resources) == *old(resources)
                        &&& *final(next_id) == *old(next_id)
                    },
                }
            },
{
    let stats = match defense_by_id(type_id) {
        Some(s) => s,
        None => {
            assert(placement_outcome(type_id@, cell_x, cell_z, false, *old(resources)) == Err::<DefenseStats, PlaceError>(PlaceError::UnknownType));
            return Err(PlaceError::UnknownType);
        },
    };
    if !is_buildable_cell(cell_x, cell_z) {
        assert(placement_outcome(type_id@, cell_x, cell_z, false, *old(resources)) == Err::<DefenseStats, PlaceError>(PlaceError::InvalidCell));
        return Err(PlaceError::InvalidCell);
    }
    let o = occupied(cell_x, cell_z);
    if o {
        assert(placement_outcome(type_id@, cell_x, cell_z, o, *old(resources)) == Err::<DefenseStats, PlaceError>(PlaceError::Occupied));
        return Err(PlaceError::Occupied);
    }
    if *resources < stats.cost {
        assert(placement_outcome(type_id@, cell_x, cell_z, o, *old(resources)) == Err::<DefenseStats, PlaceError>(PlaceError::NotEnoughGold));
        return Err(PlaceError::NotEnoughGold);
    }
    *resources = *resources - stats.cost;
    let id = *next_id;
    *next_id = next_id.saturating_add(1);
    let tower = Tower {
        id,
        type_id: stats.type_id.to_owned(),
        visual_key: stats.visual_key.to_owned(),
        cell_x,
        cell_z,
    };
    assert(placement_outcome(type_id@, cell_x, cell_z, o, *old(resources)) == Ok::<DefenseStats, PlaceError>(stats));
    Ok(tower)
}

/// Why a placement was refused.
#[derive(Debug, Clone, Copy, PartialEq, Eq, Structural)]
pub enum PlaceError {
    UnknownType,
    InvalidCell,
    Occupied,
    NotEnoughGold,
}

} // verus!
