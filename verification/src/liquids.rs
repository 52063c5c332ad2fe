use crate::air::{move_coord, moved_by};
use vstd::prelude::*;

verus! {

/// The liquid on a tile. A tile holds one kind of liquid at a time.
#[derive(Debug)]
pub enum LiquidData<Q> {
    /// No liquid at all.
    Empty,
    Water { level: Q },
    Lava { level: Q },
}

impl<Q: Copy> Copy for LiquidData<Q> {

}

impl<Q: Copy> Clone for LiquidData<Q> {
    fn clone(&self) -> (copy: Self)
        ensures
            copy == *self,
    {
        *self
    }
}

/// A kind of liquid to ask a tile for.
#[derive(Debug, Clone, Copy, PartialEq, Eq, Structural)]
pub enum Liquid {
    /// Whatever liquid there is.
    AnyLiquid,
    Water,
    Lava,
}

impl<Q> LiquidData<Q> {
    /// The level of the liquid, if it is of the kind asked for.
    pub open spec fn level_of(self, liquid: Liquid) -> Option<Q> {
        match self {
            LiquidData::Empty => None,
            LiquidData::Water { level } => if liquid == Liquid::Lava {
                None
            } else {
                Some(level)
            },
            LiquidData::Lava { level } => if liquid == Liquid::Water {
                None
            } else {
                Some(level)
            },
        }
    }

    /// No liquid.
    pub fn new_default() -> (liquids: Self)
        ensures
            liquids == LiquidData::<Q>::Empty,
    {
        LiquidData::Empty
    }
}

impl<Q: Copy> LiquidData<Q> {
    /// The level of the liquid, if it is of the kind asked for.
    pub fn get_level_optional(&self, liquid: Liquid) -> (level: Option<Q>)
        ensures
            level == self.level_of(liquid),
    {
        match self {
            LiquidData::Empty => None,
            LiquidData::Water { level } => match liquid {
                Liquid::Lava => None,
                _ => Some(*level),
            },
            LiquidData::Lava { level } => match liquid {
                Liquid::Water => None,
                _ => Some(*level),
            },
        }
    }
}

impl<Q> Default for LiquidData<Q> {
    fn default() -> (liquids: Self)
        ensures
            liquids == LiquidData::<Q>::Empty,
    {
        LiquidData::Empty
    }
}

/// Sets the liquid of the tile `(x, y)` to a fixed state, tick after tick.
#[derive(Debug)]
pub struct LiquidLeveler<COORD, Q> {
    pub x: COORD,
    pub y: COORD,
    pub target: LiquidData<Q>,
}

impl<COORD: Copy, Q: Copy> Copy for LiquidLeveler<COORD, Q> {

}

impl<COORD: Copy, Q: Copy> Clone for LiquidLeveler<COORD, Q> {
    fn clone(&self) -> (copy: Self)
        ensures
            copy == *self,
    {
        *self
    }
}

impl<Q> LiquidLeveler<isize, Q> {
    /// The leveler, placed relative to `(base_x, base_y)`, on the grid.
    pub fn to_absolute(self, base_x: usize, base_y: usize) -> (absolute: LiquidLeveler<usize, Q>)
        ensures
            absolute == (LiquidLeveler {
                x: moved_by(base_x, self.x),
                y: moved_by(base_y, self.y),
                target: self.target,
            }),
    {
        LiquidLeveler {
            x: move_coord(base_x, self.x),
            y: move_coord(base_y, self.y),
            target: self.target,
        }
    }
}

/// What a tile is left with once water and lava have met on it.
#[derive(Debug, Clone, Copy, PartialEq, Eq, Structural)]
pub struct Settlement {
    /// The one kind of liquid that stays, if any does.
    pub remaining: Option<Liquid>,
    /// Whether water and lava met, so that rock sets and lifts the ground.
    pub solidifies: bool,
}

/// Settles what stays on a tile that ends a tick with water, lava, both or
/// neither: see [`settle`].
pub open spec fn settled(water_left: bool, lava_left: bool, water_prevails: bool) -> Settlement {
    Settlement {
        remaining: if !water_left && !lava_left {
            None
        } else if water_prevails {
            Some(Liquid::Water)
        } else {
            Some(Liquid::Lava)
        },
        solidifies: water_left && lava_left,
    }
}

/// Settles what stays on a tile that ends a tick with water (`water_left`),
/// lava (`lava_left`), both or neither, where `water_prevails` says that
/// there is at least as much water as lava.
///
/// A tile with neither is left without liquid. Any other tile keeps the
/// kind that prevails, and where both were there they set to rock.
pub fn settle(water_left: bool, lava_left: bool, water_prevails: bool) -> (settlement: Settlement)
    ensures
        settlement == settled(water_left, lava_left, water_prevails),
{
    let remaining = if !water_left && !lava_left {
        None
    } else if water_prevails {
        Some(Liquid::Water)
    } else {
        Some(Liquid::Lava)
    };
    Settlement { remaining, solidifies: water_left && lava_left }
}

/// Where water and lava meet, exactly one of the two stays and rock sets.
/// Whatever stays is the kind that prevails, so that the difference of the
/// two levels, taken its way round, is its level and is not negative; and
/// never does the settlement ask for whatever liquid there is.
pub proof fn lemma_collision_leaves_one_kind(water_left: bool, lava_left: bool, water_prevails: bool)
    ensures
        settled(water_left, lava_left, water_prevails).remaining != Some(Liquid::AnyLiquid),
        settled(water_left, lava_left, water_prevails).remaining == Some(Liquid::Water)
            ==> water_prevails,
        settled(water_left, lava_left, water_prevails).remaining == Some(Liquid::Lava)
            ==> !water_prevails,
        water_left && lava_left ==> settled(water_left, lava_left, water_prevails).solidifies && (
        settled(water_left, lava_left, water_prevails).remaining == Some(Liquid::Water)
            || settled(water_left, lava_left, water_prevails).remaining == Some(Liquid::Lava)),
        settled(water_left, lava_left, water_prevails).solidifies ==> water_left && lava_left,
{
}

} // verus!
