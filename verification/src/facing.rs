use vstd::prelude::*;

verus! {

/// A cardinal direction something can be facing to.
///
/// The coordinate system has 0,0 at the north-west corner: going north is -y,
/// east is +x, south is +y and west is -x. Used as a rotation, `North` is the
/// identity and every further facing is one more quarter turn clockwise.
#[derive(Debug, Clone, Copy, PartialEq, Eq, Structural)]
pub enum Facing {
    North,
    East,
    South,
    West,
}

impl Facing {
    /// Number of quarter turns clockwise from north.
    pub open spec fn quarter_turns(self) -> int {
        match self {
            Facing::North => 0,
            Facing::East => 1,
            Facing::South => 2,
            Facing::West => 3,
        }
    }

    /// The facing that lies `turns` quarter turns clockwise from north.
    pub open spec fn from_quarter_turns(turns: int) -> Facing {
        let t = turns % 4;
        if t == 0 {
            Facing::North
        } else if t == 1 {
            Facing::East
        } else if t == 2 {
            Facing::South
        } else {
            Facing::West
        }
    }

    /// The tile one step in this direction from `(x, y)` on a grid of
    /// `width` by `height` tiles, if that step stays on the grid.
    pub open spec fn step(self, width: int, height: int, x: int, y: int) -> Option<(int, int)> {
        match self {
            Facing::North => if y > 0 {
                Some((x, y - 1))
            } else {
                None
            },
            Facing::East => if x + 1 < width {
                Some((x + 1, y))
            } else {
                None
            },
            Facing::South => if y + 1 < height {
                Some((x, y + 1))
            } else {
                None
            },
            Facing::West => if x > 0 {
                Some((x - 1, y))
            } else {
                None
            },
        }
    }

    /// The point `(x, y)` turned around the origin by this facing.
    pub open spec fn turned(self, x: int, y: int) -> (int, int) {
        match self {
            Facing::North => (x, y),
            Facing::East => (-y, x),
            Facing::South => (-x, -y),
            Facing::West => (y, -x),
        }
    }

    /// Moves the coordinates one tile in the direction of the facing.
    ///
    /// Gives `None` exactly when the step would leave the grid through the
    /// edge that the facing points at.
    pub fn move_coords_in_direction<const WIDTH: usize, const HEIGHT: usize>(
        &self,
        x: usize,
        y: usize,
    ) -> (moved: Option<(usize, usize)>)
        ensures
            match self.step(WIDTH as int, HEIGHT as int, x as int, y as int) {
                Some((nx, ny)) => moved == Some((nx as usize, ny as usize)) && 0 <= nx
                    <= usize::MAX && 0 <= ny <= usize::MAX,
                None => moved.is_none(),
            },
    {
        match self {
            Facing::North => if y > 0 {
                Some((x, y - 1))
            } else {
                None
            },
            Facing::East => if WIDTH > 0 && x < WIDTH - 1 {
                Some((x + 1, y))
            } else {
                None
            },
            Facing::South => if HEIGHT > 0 && y < HEIGHT - 1 {
                Some((x, y + 1))
            } else {
                None
            },
            Facing::West => if x > 0 {
                Some((x - 1, y))
            } else {
                None
            },
        }
    }

    /// Rotates a facing by another one: the quarter turns add up.
    ///
    /// So east rotated by east is south.
    pub fn rotate(self, applied: Facing) -> (rotated: Facing)
        ensures
            rotated == Facing::from_quarter_turns(self.quarter_turns() + applied.quarter_turns()),
    {
        match self {
            Facing::North => applied,
            Facing::East => match applied {
                Facing::North => Facing::East,
                Facing::East => Facing::South,
                Facing::South => Facing::West,
                Facing::West => Facing::North,
            },
            Facing::South => match applied {
                Facing::North => Facing::South,
                Facing::East => Facing::West,
                Facing::South => Facing::North,
                Facing::West => Facing::East,
            },
            Facing::West => match applied {
                Facing::North => Facing::West,
                Facing::East => Facing::North,
                Facing::South => Facing::East,
                Facing::West => Facing::South,
            },
        }
    }

    /// Rotates the given coordinates according to the facing, relative to 0,0.
    ///
    /// A coordinate that gets negated must not be `isize::MIN`, which has no
    /// negation.
    pub fn rotate_isize_coords(&self, x: isize, y: isize) -> (rotated: (isize, isize))
        requires
            (*self == Facing::South || *self == Facing::West) ==> x > isize::MIN,
            (*self == Facing::East || *self == Facing::South) ==> y > isize::MIN,
        ensures
            (rotated.0 as int, rotated.1 as int) == self.turned(x as int, y as int),
    {
        match self {
            Facing::North => (x, y),
            Facing::East => (-y, x),
            Facing::South => (-x, -y),
            Facing::West => (y, -x),
        }
    }
}

/// A step that succeeds from a tile of the grid lands on a tile of the grid,
/// exactly one tile away, and the step back in the opposite direction returns
/// to where it started.
pub proof fn lemma_step_stays_adjacent(facing: Facing, width: int, height: int, x: int, y: int)
    requires
        0 <= x < width,
        0 <= y < height,
    ensures
        match facing.step(width, height, x, y) {
            Some((nx, ny)) => {
                &&& 0 <= nx < width
                &&& 0 <= ny < height
                &&& (nx == x && (ny == y - 1 || ny == y + 1)) || (ny == y && (nx == x - 1 || nx == x
                    + 1))
                &&& Facing::from_quarter_turns(facing.quarter_turns() + 2).step(
                    width,
                    height,
                    nx,
                    ny,
                ) == Some((x, y))
            },
            None => true,
        },
{
}

/// Rotation is addition of quarter turns modulo four: north changes nothing,
/// the order of two rotations does not matter, and four equal quarter turns
/// come back to the start.
pub proof fn lemma_rotation_adds_quarter_turns(a: Facing, b: Facing)
    ensures
        Facing::from_quarter_turns(a.quarter_turns()) == a,
        Facing::from_quarter_turns(a.quarter_turns() + Facing::North.quarter_turns()) == a,
        Facing::from_quarter_turns(a.quarter_turns() + b.quarter_turns())
            == Facing::from_quarter_turns(b.quarter_turns() + a.quarter_turns()),
        Facing::from_quarter_turns(4 * a.quarter_turns()) == Facing::North,
{
}

/// Turning a point by one facing and then by another is the same as turning
/// it once by the rotation of the first facing by the second.
pub proof fn lemma_turned_composes(first: Facing, second: Facing, x: int, y: int)
    ensures
        ({
            let once = first.turned(x, y);
            second.turned(once.0, once.1)
        }) == Facing::from_quarter_turns(first.quarter_turns() + second.quarter_turns()).turned(
            x,
            y,
        ),
{
}

} // verus!
