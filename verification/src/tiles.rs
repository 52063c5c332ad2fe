use crate::air::{AirData, AirLeveler};
use crate::grid::{lemma_neighbours_symmetric, neighbours, TileGrid};
use crate::liquids::{LiquidData, LiquidLeveler};
use vstd::prelude::*;

verus! {

/// One tile of the grid.
#[derive(Debug)]
pub struct Tile<Q> {
    pub ground_level: Q,
    pub tile_type: TileType<Q>,
}

impl<Q: Copy> Copy for Tile<Q> {

}

impl<Q: Copy> Clone for Tile<Q> {
    fn clone(&self) -> (copy: Self)
        ensures
            copy == *self,
    {
        *self
    }
}

/// What a tile is: a wall, which carries neither air nor liquid, or ground.
#[derive(Debug)]
pub enum TileType<Q> {
    Wall,
    Ground { air: AirData<Q>, liquids: LiquidData<Q> },
}

impl<Q: Copy> Copy for TileType<Q> {

}

impl<Q: Copy> Clone for TileType<Q> {
    fn clone(&self) -> (copy: Self)
        ensures
            copy == *self,
    {
        *self
    }
}

impl<Q> Tile<Q> {
    pub fn new(ground_level: Q, tile_type: TileType<Q>) -> (tile: Self)
        ensures
            tile == (Tile { ground_level, tile_type }),
    {
        Self { ground_level, tile_type }
    }

    /// This tile with `air` for its air; a wall stays as it is.
    pub open spec fn with_air(self, air: AirData<Q>) -> Tile<Q> {
        match self.tile_type {
            TileType::Wall => self,
            TileType::Ground { liquids, .. } => Tile {
                tile_type: TileType::Ground { air, liquids },
                ..self
            },
        }
    }

    /// This tile with `liquids` for its liquid; a wall stays as it is.
    pub open spec fn with_liquids(self, liquids: LiquidData<Q>) -> Tile<Q> {
        match self.tile_type {
            TileType::Wall => self,
            TileType::Ground { air, .. } => Tile {
                tile_type: TileType::Ground { air, liquids },
                ..self
            },
        }
    }
}

impl<Q> TileType<Q> {
    pub fn is_wall(&self) -> (wall: bool)
        ensures
            wall == (*self is Wall),
    {
        match self {
            TileType::Wall => true,
            TileType::Ground { .. } => false,
        }
    }

    pub fn get_ground(&self) -> (ground: Option<(&AirData<Q>, &LiquidData<Q>)>)
        ensures
            match *self {
                TileType::Wall => ground.is_none(),
                TileType::Ground { air, liquids } => ground == Some((&air, &liquids)),
            },
    {
        match self {
            TileType::Ground { air, liquids } => Some((air, liquids)),
            TileType::Wall => None,
        }
    }

    pub fn get_air(&self) -> (found: Option<&AirData<Q>>)
        ensures
            match *self {
                TileType::Wall => found.is_none(),
                TileType::Ground { air, .. } => found == Some(&air),
            },
    {
        match self {
            TileType::Ground { air, .. } => Some(air),
            TileType::Wall => None,
        }
    }

    pub fn get_liquids(&self) -> (found: Option<&LiquidData<Q>>)
        ensures
            match *self {
                TileType::Wall => found.is_none(),
                TileType::Ground { liquids, .. } => found == Some(&liquids),
            },
    {
        match self {
            TileType::Ground { liquids, .. } => Some(liquids),
            TileType::Wall => None,
        }
    }

    /// Mutable access to the air of ground: what the caller leaves in it is
    /// the air from then on, and the liquid stays.
    pub fn get_air_mut(&mut self) -> (found: Option<&mut AirData<Q>>)
        ensures
            match *old(self) {
                TileType::Wall => found.is_none() && *final(self) == *old(self),
                TileType::Ground { air, liquids } => found.is_some() && *found.unwrap() == air
                    && *final(self) == (TileType::Ground {
                    air: *final(found.unwrap()),
                    liquids,
                }),
            },
    {
        match self {
            TileType::Ground { air, .. } => Some(air),
            TileType::Wall => None,
        }
    }

    /// Mutable access to the liquid of ground: what the caller leaves in it
    /// is the liquid from then on, and the air stays.
    pub fn get_liquids_mut(&mut self) -> (found: Option<&mut LiquidData<Q>>)
        ensures
            match *old(self) {
                TileType::Wall => found.is_none() && *final(self) == *old(self),
                TileType::Ground { air, liquids } => found.is_some() && *found.unwrap() == liquids
                    && *final(self) == (TileType::Ground {
                    air,
                    liquids: *final(found.unwrap()),
                }),
            },
    {
        match self {
            TileType::Ground { liquids, .. } => Some(liquids),
            TileType::Wall => None,
        }
    }

    /// Mutable access to the air and the liquid of ground.
    pub fn get_ground_mut(&mut self) -> (ground: Option<(&mut AirData<Q>, &mut LiquidData<Q>)>)
        ensures
            match *old(self) {
                TileType::Wall => ground.is_none() && *final(self) == *old(self),
                TileType::Ground { air, liquids } => ground.is_some() && *ground.unwrap().0 == air
                    && *ground.unwrap().1 == liquids && *final(self) == (TileType::Ground {
                    air: *final(ground.unwrap().0),
                    liquids: *final(ground.unwrap().1),
                }),
            },
    {
        match self {
            TileType::Ground { air, liquids } => Some((air, liquids)),
            TileType::Wall => None,
        }
    }
}

/// The tiles after each of the first `upto` of `levelers` set the air of its
/// tile, one after the other. A wall stays as it is.
pub open spec fn air_levelled<Q, const WIDTH: usize, const HEIGHT: usize>(
    grid: TileGrid<Tile<Q>, WIDTH, HEIGHT>,
    levelers: Seq<AirLeveler<usize, Q>>,
    upto: int,
    x: int,
    y: int,
) -> Tile<Q>
    decreases upto,
{
    if upto <= 0 {
        grid.at(x, y)
    } else {
        let before = air_levelled(grid, levelers, upto - 1, x, y);
        let leveler = levelers[upto - 1];
        if leveler.x == x && leveler.y == y {
            before.with_air(leveler.target())
        } else {
            before
        }
    }
}

/// The tiles after each of the first `upto` of `levelers` set the liquid of
/// its tile, one after the other. A wall stays as it is.
pub open spec fn liquid_levelled<Q, const WIDTH: usize, const HEIGHT: usize>(
    grid: TileGrid<Tile<Q>, WIDTH, HEIGHT>,
    levelers: Seq<LiquidLeveler<usize, Q>>,
    upto: int,
    x: int,
    y: int,
) -> Tile<Q>
    decreases upto,
{
    if upto <= 0 {
        grid.at(x, y)
    } else {
        let before = liquid_levelled(grid, levelers, upto - 1, x, y);
        let leveler = levelers[upto - 1];
        if leveler.x == x && leveler.y == y {
            before.with_liquids(leveler.target)
        } else {
            before
        }
    }
}

impl<Q: Copy, const WIDTH: usize, const HEIGHT: usize> TileGrid<Tile<Q>, WIDTH, HEIGHT> {
    /// Lets each leveler set the air of its tile to its target, in the order
    /// of the list. Walls and the other tiles stay as they are.
    pub fn apply_air_levelers(&mut self, levelers: &Vec<AirLeveler<usize, Q>>)
        requires
            forall|i: int|
                0 <= i < levelers.len() ==> (#[trigger] levelers[i]).x < WIDTH && levelers[i].y
                    < HEIGHT,
        ensures
            forall|x: int, y: int|
                0 <= x < WIDTH && 0 <= y < HEIGHT ==> #[trigger] final(self).at(x, y)
                    == air_levelled(*old(self), levelers@, levelers.len() as int, x, y),
    {
        let mut index: usize = 0;
        while index < levelers.len()
            invariant
                index <= levelers.len(),
                forall|i: int|
                    0 <= i < levelers.len() ==> (#[trigger] levelers[i]).x < WIDTH
                        && levelers[i].y < HEIGHT,
                forall|x: int, y: int|
                    0 <= x < WIDTH && 0 <= y < HEIGHT ==> #[trigger] self.at(x, y) == air_levelled(
                        *old(self),
                        levelers@,
                        index as int,
                        x,
                        y,
                    ),
            decreases levelers.len() - index,
        {
            let air_leveler = levelers[index];
            let ghost before = *self;
            let tile = self.tile_mut(air_leveler.x, air_leveler.y);
            match tile.tile_type.get_air_mut() {
                Some(air) => {
                    air.nitrogen = air_leveler.nitrogen;
                    air.oxygen = air_leveler.oxygen;
                    air.fumes = air_leveler.fumes;
                },
                None => {},
            }
            assert(self.at(air_leveler.x as int, air_leveler.y as int) == before.at(
                air_leveler.x as int,
                air_leveler.y as int,
            ).with_air(air_leveler.target()));
            index = index + 1;
        }
    }

    /// Lets each leveler set the liquid of its tile to its target, in the
    /// order of the list. Walls and the other tiles stay as they are.
    pub fn apply_liquid_levelers(&mut self, levelers: &Vec<LiquidLeveler<usize, Q>>)
        requires
            forall|i: int|
                0 <= i < levelers.len() ==> (#[trigger] levelers[i]).x < WIDTH && levelers[i].y
                    < HEIGHT,
        ensures
            forall|x: int, y: int|
                0 <= x < WIDTH && 0 <= y < HEIGHT ==> #[trigger] final(self).at(x, y)
                    == liquid_levelled(*old(self), levelers@, levelers.len() as int, x, y),
    {
        let mut index: usize = 0;
        while index < levelers.len()
            invariant
                index <= levelers.len(),
                forall|i: int|
                    0 <= i < levelers.len() ==> (#[trigger] levelers[i]).x < WIDTH
                        && levelers[i].y < HEIGHT,
                forall|x: int, y: int|
                    0 <= x < WIDTH && 0 <= y < HEIGHT ==> #[trigger] self.at(x, y)
                        == liquid_levelled(*old(self), levelers@, index as int, x, y),
            decreases levelers.len() - index,
        {
            let liquid_leveler = levelers[index];
            let ghost before = *self;
            let tile = self.tile_mut(liquid_leveler.x, liquid_leveler.y);
            match tile.tile_type.get_liquids_mut() {
                Some(liquids) => {
                    *liquids = liquid_leveler.target;
                },
                None => {},
            }
            assert(self.at(liquid_leveler.x as int, liquid_leveler.y as int) == before.at(
                liquid_leveler.x as int,
                liquid_leveler.y as int,
            ).with_liquids(liquid_leveler.target));
            index = index + 1;
        }
    }
}

/// Those of the first `upto` of `coords` whose tile is ground, in order.
pub open spec fn ground_among<Q, const WIDTH: usize, const HEIGHT: usize>(
    grid: TileGrid<Tile<Q>, WIDTH, HEIGHT>,
    coords: Seq<(usize, usize)>,
    upto: int,
) -> Seq<(usize, usize)>
    decreases upto,
{
    if upto <= 0 {
        Seq::empty()
    } else {
        let before = ground_among(grid, coords, upto - 1);
        let c = coords[upto - 1];
        if grid.at(c.0 as int, c.1 as int).tile_type is Ground {
            before.push(c)
        } else {
            before
        }
    }
}

/// The neighbours of `(x, y)` whose tile is ground, in the order of the
/// neighbours.
pub open spec fn ground_neighbours_of<Q, const WIDTH: usize, const HEIGHT: usize>(
    grid: TileGrid<Tile<Q>, WIDTH, HEIGHT>,
    x: int,
    y: int,
) -> Seq<(usize, usize)> {
    let around = neighbours(WIDTH as int, HEIGHT as int, x, y);
    ground_among(grid, around, around.len() as int)
}

impl<Q, const WIDTH: usize, const HEIGHT: usize> TileGrid<Tile<Q>, WIDTH, HEIGHT> {
    /// The neighbours of the tile `(x, y)` that air and liquid can pass to:
    /// those that are ground. Walls are left out.
    pub fn ground_neighbours(&self, x: usize, y: usize) -> (around: Vec<(usize, usize)>)
        requires
            x < WIDTH,
            y < HEIGHT,
        ensures
            around@ == ground_neighbours_of(*self, x as int, y as int),
    {
        let mut around: Vec<(usize, usize)> = Vec::new();
        let mut tiles = self.neighbour_tiles(x, y);
        let ghost all = neighbours(WIDTH as int, HEIGHT as int, x as int, y as int);
        let ghost mut seen: int = 0;
        loop
            invariant
                tiles.grid() == *self,
                0 <= seen <= all.len(),
                tiles.remaining() == all.skip(seen),
                around@ == ground_among(*self, all, seen),
            ensures
                around@ == ground_among(*self, all, all.len() as int),
            decreases all.len() - seen,
        {
            match tiles.next() {
                Some((nx, ny, tile)) => {
                    proof {
                        assert(all.skip(seen)[0] == all[seen]);
                        assert(all.skip(seen).drop_first() == all.skip(seen + 1));
                        seen = seen + 1;
                    }
                    if !tile.tile_type.is_wall() {
                        around.push((nx, ny));
                    }
                },
                None => {
                    proof {
                        assert(all.skip(seen).len() == 0);
                    }
                    break ;
                },
            }
        }
        around
    }
}

/// A coordinate is among the ground ones of the first `upto` of `coords`
/// exactly when it stands there and its tile is ground.
pub proof fn lemma_ground_among<Q, const WIDTH: usize, const HEIGHT: usize>(
    grid: TileGrid<Tile<Q>, WIDTH, HEIGHT>,
    coords: Seq<(usize, usize)>,
    upto: int,
    c: (usize, usize),
)
    requires
        0 <= upto <= coords.len(),
    ensures
        ground_among(grid, coords, upto).contains(c) <==> grid.at(
            c.0 as int,
            c.1 as int,
        ).tile_type is Ground && exists|i: int| 0 <= i < upto && coords[i] == c,
    decreases upto,
{
    if upto > 0 {
        lemma_ground_among(grid, coords, upto - 1, c);
        let before = ground_among(grid, coords, upto - 1);
        let last = coords[upto - 1];
        if grid.at(last.0 as int, last.1 as int).tile_type is Ground {
            let now = before.push(last);
            if now.contains(c) {
                let i = choose|i: int| 0 <= i < now.len() && now[i] == c;
                if i < before.len() {
                    assert(before[i] == c);
                }
            }
            if before.contains(c) {
                let i = choose|i: int| 0 <= i < before.len() && before[i] == c;
                assert(now[i] == c);
            }
            if last == c {
                assert(now[before.len() as int] == c);
            }
        }
    }
}

/// Air and liquid pass both ways or not at all: of two ground tiles of the
/// grid, the one is a ground neighbour of the other exactly when the other
/// is a ground neighbour of it. And no tile passes anything to a wall or to
/// itself.
pub proof fn lemma_exchange_is_mutual<Q, const WIDTH: usize, const HEIGHT: usize>(
    grid: TileGrid<Tile<Q>, WIDTH, HEIGHT>,
    a: (usize, usize),
    b: (usize, usize),
)
    requires
        a.0 < WIDTH,
        a.1 < HEIGHT,
        b.0 < WIDTH,
        b.1 < HEIGHT,
    ensures
        ground_neighbours_of(grid, a.0 as int, a.1 as int).contains(b) ==> grid.at(
            b.0 as int,
            b.1 as int,
        ).tile_type is Ground && a != b,
        grid.at(a.0 as int, a.1 as int).tile_type is Ground ==> (ground_neighbours_of(
            grid,
            a.0 as int,
            a.1 as int,
        ).contains(b) <==> ground_neighbours_of(grid, b.0 as int, b.1 as int).contains(a)
            && grid.at(b.0 as int, b.1 as int).tile_type is Ground),
{
    let around_a = neighbours(WIDTH as int, HEIGHT as int, a.0 as int, a.1 as int);
    let around_b = neighbours(WIDTH as int, HEIGHT as int, b.0 as int, b.1 as int);
    lemma_ground_among(grid, around_a, around_a.len() as int, b);
    lemma_ground_among(grid, around_b, around_b.len() as int, a);
    lemma_neighbours_symmetric(WIDTH as int, HEIGHT as int, a.0, a.1, b.0, b.1);
    crate::grid::lemma_neighbours_are_the_adjacent_tiles(
        WIDTH as int,
        HEIGHT as int,
        a.0 as int,
        a.1 as int,
        b.0,
        b.1,
    );
    assert(around_a.contains(b) <==> exists|i: int| 0 <= i < around_a.len() && around_a[i] == b);
    assert(around_b.contains(a) <==> exists|i: int| 0 <= i < around_b.len() && around_b[i] == a);
}

} // verus!
