use crate::facing::Facing;
use vstd::prelude::*;

verus! {

/// A coordinate moved by a signed offset, wrapping around at the ends of the
/// range of `usize`.
pub open spec fn moved_by(base: usize, offset: isize) -> usize {
    if base + offset > usize::MAX {
        (base + offset - (usize::MAX + 1)) as usize
    } else if base + offset < 0 {
        (base + offset + (usize::MAX + 1)) as usize
    } else {
        (base + offset) as usize
    }
}

/// Moves a coordinate by a signed offset: see [`moved_by`].
pub fn move_coord(base: usize, offset: isize) -> (moved: usize)
    ensures
        moved == moved_by(base, offset),
        0 <= base + offset <= usize::MAX ==> moved == base + offset,
{
    base.wrapping_add_signed(offset)
}

/// The air of a tile as the amount of each gas in it.
#[derive(Debug)]
pub struct AirData<Q> {
    pub nitrogen: Q,
    pub oxygen: Q,
    pub fumes: Q,
}

impl<Q: Copy> Copy for AirData<Q> {

}

impl<Q: Copy> Clone for AirData<Q> {
    fn clone(&self) -> (copy: Self)
        ensures
            copy == *self,
    {
        *self
    }
}

/// Sets the air of the tile `(x, y)` to fixed amounts, tick after tick.
#[derive(Debug)]
pub struct AirLeveler<COORD, Q> {
    pub x: COORD,
    pub y: COORD,
    pub nitrogen: Q,
    pub oxygen: Q,
    pub fumes: Q,
}

impl<COORD: Copy, Q: Copy> Copy for AirLeveler<COORD, Q> {

}

impl<COORD: Copy, Q: Copy> Clone for AirLeveler<COORD, Q> {
    fn clone(&self) -> (copy: Self)
        ensures
            copy == *self,
    {
        *self
    }
}

impl<COORD, Q> AirLeveler<COORD, Q> {
    /// The air that the leveler sets its tile to.
    pub open spec fn target(self) -> AirData<Q> {
        AirData { nitrogen: self.nitrogen, oxygen: self.oxygen, fumes: self.fumes }
    }
}

impl<Q> AirLeveler<isize, Q> {
    /// The leveler, placed relative to `(base_x, base_y)`, on the grid.
    pub fn to_absolute(self, base_x: usize, base_y: usize) -> (absolute: AirLeveler<usize, Q>)
        ensures
            absolute == (AirLeveler {
                x: moved_by(base_x, self.x),
                y: moved_by(base_y, self.y),
                nitrogen: self.nitrogen,
                oxygen: self.oxygen,
                fumes: self.fumes,
            }),
    {
        AirLeveler {
            x: move_coord(base_x, self.x),
            y: move_coord(base_y, self.y),
            nitrogen: self.nitrogen,
            oxygen: self.oxygen,
            fumes: self.fumes,
        }
    }
}

/// Turns oxygen of the tile `(x, y)` into fumes at a fixed rate.
#[derive(Debug)]
pub struct OxygenUser<COORD, Q> {
    pub x: COORD,
    pub y: COORD,
    pub change_per_sec: Q,
}

impl<COORD: Copy, Q: Copy> Copy for OxygenUser<COORD, Q> {

}

impl<COORD: Copy, Q: Copy> Clone for OxygenUser<COORD, Q> {
    fn clone(&self) -> (copy: Self)
        ensures
            copy == *self,
    {
        *self
    }
}

impl<Q> OxygenUser<isize, Q> {
    /// The user, placed relative to `(base_x, base_y)`, on the grid.
    pub fn to_absolute(self, base_x: usize, base_y: usize) -> (absolute: OxygenUser<usize, Q>)
        ensures
            absolute == (OxygenUser {
                x: moved_by(base_x, self.x),
                y: moved_by(base_y, self.y),
                change_per_sec: self.change_per_sec,
            }),
    {
        OxygenUser {
            x: move_coord(base_x, self.x),
            y: move_coord(base_y, self.y),
            change_per_sec: self.change_per_sec,
        }
    }
}

/// Pushes air from the tile `(x, y)` to the next tile in one direction.
#[derive(Debug)]
pub struct AirPusher<COORD, Q> {
    pub x: COORD,
    pub y: COORD,
    pub direction: Facing,
    /// Fraction of the air in the pusher location that is push into the given direction per second
    pub amount: Q,
}

impl<COORD: Copy, Q: Copy> Copy for AirPusher<COORD, Q> {

}

impl<COORD: Copy, Q: Copy> Clone for AirPusher<COORD, Q> {
    fn clone(&self) -> (copy: Self)
        ensures
            copy == *self,
    {
        *self
    }
}

impl<Q> AirPusher<isize, Q> {
    /// The pusher, placed and directed relative to something at `(base_x,
    /// base_y)` that faces `base_direction`, on the grid. The direction is
    /// turned with the base; the place is not.
    pub fn to_absolute(self, base_x: usize, base_y: usize, base_direction: Facing) -> (absolute:
        AirPusher<usize, Q>)
        ensures
            absolute == (AirPusher {
                x: moved_by(base_x, self.x),
                y: moved_by(base_y, self.y),
                direction: Facing::from_quarter_turns(
                    base_direction.quarter_turns() + self.direction.quarter_turns(),
                ),
                amount: self.amount,
            }),
    {
        AirPusher {
            x: move_coord(base_x, self.x),
            y: move_coord(base_y, self.y),
            direction: base_direction.rotate(self.direction),
            amount: self.amount,
        }
    }
}

impl<Q> AirPusher<usize, Q> {
    /// The tile that the pusher pushes air to on a grid of `WIDTH` by
    /// `HEIGHT` tiles, if there is one in its direction.
    pub fn target_coords<const WIDTH: usize, const HEIGHT: usize>(&self) -> (target: Option<
        (usize, usize),
    >)
        ensures
            match self.direction.step(WIDTH as int, HEIGHT as int, self.x as int, self.y as int) {
                Some((x, y)) => target == Some((x as usize, y as usize)) && 0 <= x <= usize::MAX
                    && 0 <= y <= usize::MAX,
                None => target.is_none(),
            },
    {
        self.direction.move_coords_in_direction::<WIDTH, HEIGHT>(self.x, self.y)
    }
}

} // verus!
