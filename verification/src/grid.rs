use vstd::prelude::*;

verus! {

/// The coordinates of the tile that comes `k`-th when a grid with columns of
/// `height` tiles is walked column by column, each column from the top.
pub open spec fn tile_at(height: nat, k: nat) -> (usize, usize) {
    ((k / height) as usize, (k % height) as usize)
}

/// All tile coordinates of a `width` by `height` grid in the order in which
/// [`TileCoordIter`] hands them out.
pub open spec fn tile_coords(width: nat, height: nat) -> Seq<(usize, usize)> {
    Seq::new(width * height, |k: int| tile_at(height, k as nat))
}

/// Walks over every tile coordinate of a grid: `x` from 0 up to the width,
/// and for every `x` each `y` from 0 up to the height.
pub struct TileCoordIter {
    current_width: usize,
    current_height: usize,
    width: usize,
    height: usize,
}

impl TileCoordIter {
    #[verifier::type_invariant]
    spec fn well_formed(self) -> bool {
        &&& self.current_width <= self.width
        &&& self.current_height <= self.height
        &&& self.current_width == self.width ==> self.current_height == 0
    }

    /// Width of the grid that is walked.
    pub closed spec fn width(self) -> nat {
        self.width as nat
    }

    /// Height of the grid that is walked.
    pub closed spec fn height(self) -> nat {
        self.height as nat
    }

    /// How many coordinates have been handed out so far.
    pub closed spec fn position(self) -> nat {
        (self.current_width * self.height + self.current_height) as nat
    }

    /// The coordinates that are still to come, in order.
    pub open spec fn remaining(self) -> Seq<(usize, usize)> {
        tile_coords(self.width(), self.height()).skip(self.position() as int)
    }

    pub fn new(width: usize, height: usize) -> (iter: Self)
        ensures
            iter.width() == width,
            iter.height() == height,
            iter.position() == 0,
    {
        Self { current_width: 0, width, current_height: 0, height }
    }

    /// Hands out the next coordinate, or `None` once every tile has been
    /// visited. A grid without tiles yields nothing.
    pub fn next(&mut self) -> (item: Option<(usize, usize)>)
        ensures
            final(self).width() == old(self).width(),
            final(self).height() == old(self).height(),
            old(self).position() <= old(self).width() * old(self).height(),
            old(self).position() < old(self).width() * old(self).height() ==> item == Some(
                tile_at(old(self).height(), old(self).position()),
            ) && final(self).position() == old(self).position() + 1,
            old(self).position() == old(self).width() * old(self).height() ==> item.is_none()
                && final(self).position() == old(self).position(),
    {
        proof {
            use_type_invariant(&*self);
            lemma_position_bound(
                self.current_width as nat,
                self.current_height as nat,
                self.width as nat,
                self.height as nat,
            );
        }
        let width = self.width;
        let height = self.height;
        let mut x = self.current_width;
        let mut y = self.current_height;
        if x == width || height == 0 {
            assert(self.position() == width * height) by (nonlinear_arith)
                requires
                    x == width || height == 0,
                    self.position() == x * height + y,
                    y <= height,
                    x == width ==> y == 0,
            ;
            return None;
        }
        if y == height {
            assert(x * height + y == (x + 1) * height + 0) by (nonlinear_arith)
                requires
                    y == height,
            ;
            y = 0;
            x = x + 1;
            if x == width {
                *self = Self { current_width: x, width, current_height: 0, height };
                return None;
            }
        }
        proof {
            vstd::arithmetic::div_mod::lemma_fundamental_div_mod_converse(
                x * height + y,
                height as int,
                x as int,
                y as int,
            );
            assert(x * height + y < width * height) by (nonlinear_arith)
                requires
                    x < width,
                    y < height,
            ;
        }
        *self = Self { current_width: x, width, current_height: y + 1, height };
        Some((x, y))
    }

    /// Walks the rest of the grid and gathers the coordinates in order.
    pub fn collect(self) -> (coords: Vec<(usize, usize)>)
        ensures
            coords@ == self.remaining(),
    {
        let ghost all = tile_coords(self.width(), self.height());
        let ghost start = self.position();
        proof {
            use_type_invariant(&self);
            lemma_position_bound(
                self.current_width as nat,
                self.current_height as nat,
                self.width as nat,
                self.height as nat,
            );
        }
        let mut iter = self;
        let mut coords: Vec<(usize, usize)> = Vec::new();
        loop
            invariant
                iter.width() == self.width(),
                iter.height() == self.height(),
                all == tile_coords(self.width(), self.height()),
                start == self.position(),
                start <= iter.position() <= all.len(),
                coords@ == all.subrange(start as int, iter.position() as int),
            ensures
                iter.position() == all.len(),
            decreases all.len() - iter.position(),
        {
            let ghost before = iter.position();
            match iter.next() {
                Some(c) => {
                    coords.push(c);
                    assert(coords@ == all.subrange(start as int, before as int + 1));
                },
                None => {
                    break ;
                },
            }
        }
        assert(coords@ == self.remaining());
        coords
    }
}

/// The horizontal and vertical offset of the neighbour in slot `slot`.
///
/// The eight slots go column by column from west to east, and inside a column
/// from north to south, leaving out the tile itself.
pub open spec fn neighbour_offset(slot: int) -> (int, int) {
    if slot == 0 {
        (-1, -1)
    } else if slot == 1 {
        (-1, 0)
    } else if slot == 2 {
        (-1, 1)
    } else if slot == 3 {
        (0, -1)
    } else if slot == 4 {
        (0, 1)
    } else if slot == 5 {
        (1, -1)
    } else if slot == 6 {
        (1, 0)
    } else {
        (1, 1)
    }
}

/// One coordinate moved by an offset of -1, 0 or 1 along an axis of length
/// `length`: `None` where there is no tile on that side.
pub open spec fn shifted(length: int, at: int, offset: int) -> Option<int> {
    if offset < 0 {
        if at > 0 {
            Some(at - 1)
        } else {
            None
        }
    } else if offset > 0 {
        if at + 1 < length {
            Some(at + 1)
        } else {
            None
        }
    } else {
        Some(at)
    }
}

/// The neighbour of `(x, y)` in slot `slot` on a `width` by `height` grid, if
/// there is a tile on that side in both directions.
pub open spec fn neighbour_in_slot(width: int, height: int, x: int, y: int, slot: int) -> Option<
    (usize, usize),
> {
    let offset = neighbour_offset(slot);
    match (shifted(width, x, offset.0), shifted(height, y, offset.1)) {
        (Some(nx), Some(ny)) => Some((nx as usize, ny as usize)),
        _ => None,
    }
}

/// The entries of `slots` from index `from` on that hold a coordinate, in
/// order.
pub open spec fn present_from(slots: Seq<Option<(usize, usize)>>, from: int) -> Seq<(usize, usize)>
    decreases slots.len() - from,
{
    if from < 0 || from >= slots.len() {
        Seq::empty()
    } else {
        match slots[from] {
            Some(c) => seq![c] + present_from(slots, from + 1),
            None => present_from(slots, from + 1),
        }
    }
}

/// The neighbours of `(x, y)` on a `width` by `height` grid, in slot order.
pub open spec fn neighbours(width: int, height: int, x: int, y: int) -> Seq<(usize, usize)> {
    present_from(Seq::new(8, |slot: int| neighbour_in_slot(width, height, x, y, slot)), 0)
}

/// Walks over the up to eight neighbours of one tile.
pub struct NeighbourCoordsIter {
    coords: [Option<(usize, usize)>; 8],
    index: usize,
}

impl Clone for NeighbourCoordsIter {
    fn clone(&self) -> (copy: Self)
        ensures
            copy == *self,
    {
        proof {
            use_type_invariant(self);
        }
        Self { coords: self.coords, index: self.index }
    }
}

impl NeighbourCoordsIter {
    #[verifier::type_invariant]
    spec fn well_formed(self) -> bool {
        self.index <= 8
    }

    /// The neighbours that are still to come, in order.
    pub closed spec fn remaining(self) -> Seq<(usize, usize)> {
        present_from(self.coords@, self.index as int)
    }

    /// Hands out the next neighbour, or `None` once there is none left.
    pub fn next(&mut self) -> (item: Option<(usize, usize)>)
        ensures
            match item {
                Some(c) => old(self).remaining().len() > 0 && c == old(self).remaining()[0]
                    && final(self).remaining() == old(self).remaining().drop_first(),
                None => old(self).remaining().len() == 0 && final(self).remaining().len() == 0,
            },
    {
        proof {
            use_type_invariant(&*self);
        }
        let coords = self.coords;
        let mut index = self.index;
        while index < 8
            invariant
                index <= 8,
                coords == old(self).coords,
                present_from(coords@, index as int) == old(self).remaining(),
            decreases 8 - index,
        {
            let entry = coords[index];
            index = index + 1;
            if entry.is_some() {
                proof {
                    let rest = present_from(coords@, index as int);
                    assert(old(self).remaining() == seq![entry.unwrap()] + rest);
                    assert(old(self).remaining().drop_first() == rest);
                }
                *self = Self { coords, index };
                return entry;
            }
        }
        *self = Self { coords, index };
        None
    }

    /// Gathers the neighbours that are left, in order.
    pub fn collect(self) -> (found: Vec<(usize, usize)>)
        ensures
            found@ == self.remaining(),
    {
        let ghost all = self.remaining();
        let mut iter = self;
        let mut found: Vec<(usize, usize)> = Vec::new();
        loop
            invariant
                found@ + iter.remaining() == all,
            ensures
                found@ == all,
            decreases iter.remaining().len(),
        {
            match iter.next() {
                Some(c) => {
                    found.push(c);
                },
                None => {
                    break ;
                },
            }
        }
        found
    }
}

/// The neighbours of the tile `(target_tile_x, target_tile_y)` on a grid of
/// `WIDTH` by `HEIGHT` tiles: every tile next to it, diagonals included, that
/// lies on the grid.
pub fn neighbour_tile_coords<const WIDTH: usize, const HEIGHT: usize>(
    target_tile_x: usize,
    target_tile_y: usize,
) -> (iter: NeighbourCoordsIter)
    ensures
        iter.remaining() == neighbours(
            WIDTH as int,
            HEIGHT as int,
            target_tile_x as int,
            target_tile_y as int,
        ),
{
    let has_neg_x_neighbour = target_tile_x > 0;
    let has_neg_y_neighbour = target_tile_y > 0;
    let has_pos_x_neighbour = WIDTH > 0 && target_tile_x < WIDTH - 1;
    let has_pos_y_neighbour = HEIGHT > 0 && target_tile_y < HEIGHT - 1;

    let coords = [
        if has_neg_x_neighbour && has_neg_y_neighbour {
            Some((target_tile_x - 1, target_tile_y - 1))
        } else {
            None
        },
        if has_neg_x_neighbour {
            Some((target_tile_x - 1, target_tile_y))
        } else {
            None
        },
        if has_neg_x_neighbour && has_pos_y_neighbour {
            Some((target_tile_x - 1, target_tile_y + 1))
        } else {
            None
        },
        if has_neg_y_neighbour {
            Some((target_tile_x, target_tile_y - 1))
        } else {
            None
        },
        if has_pos_y_neighbour {
            Some((target_tile_x, target_tile_y + 1))
        } else {
            None
        },
        if has_pos_x_neighbour && has_neg_y_neighbour {
            Some((target_tile_x + 1, target_tile_y - 1))
        } else {
            None
        },
        if has_pos_x_neighbour {
            Some((target_tile_x + 1, target_tile_y))
        } else {
            None
        },
        if has_pos_x_neighbour && has_pos_y_neighbour {
            Some((target_tile_x + 1, target_tile_y + 1))
        } else {
            None
        },
    ];
    assert(coords@ =~= Seq::new(
        8,
        |slot: int|
            neighbour_in_slot(
                WIDTH as int,
                HEIGHT as int,
                target_tile_x as int,
                target_tile_y as int,
                slot,
            ),
    ));
    NeighbourCoordsIter { coords, index: 0 }
}

/// How many tiles an axis of length `length` has within one step of `at`,
/// `at` itself included.
pub open spec fn reach(length: int, at: int) -> int {
    1 + if at > 0 {
        1int
    } else {
        0int
    } + if at + 1 < length {
        1int
    } else {
        0int
    }
}

/// A coordinate is among the present entries from `from` on exactly when one
/// of those slots holds it.
pub proof fn lemma_present_from_contains(
    slots: Seq<Option<(usize, usize)>>,
    from: int,
    c: (usize, usize),
)
    requires
        0 <= from <= slots.len(),
    ensures
        present_from(slots, from).contains(c) <==> exists|slot: int|
            from <= slot < slots.len() && #[trigger] slots[slot] == Some(c),
    decreases slots.len() - from,
{
    if from < slots.len() {
        lemma_present_from_contains(slots, from + 1, c);
        let rest = present_from(slots, from + 1);
        let all = present_from(slots, from);
        match slots[from] {
            Some(d) => {
                assert(all == seq![d] + rest);
                if all.contains(c) {
                    let i = choose|i: int| 0 <= i < all.len() && all[i] == c;
                    if i > 0 {
                        assert(rest[i - 1] == c);
                    }
                }
                if rest.contains(c) {
                    let i = choose|i: int| 0 <= i < rest.len() && rest[i] == c;
                    assert(all[i + 1] == c);
                }
                if d == c {
                    assert(all[0] == c);
                }
            },
            None => {},
        }
    }
}

/// The neighbours of a tile of the grid are exactly the other tiles of the
/// grid that lie within one step of it in both directions.
pub proof fn lemma_neighbours_are_the_adjacent_tiles(
    width: int,
    height: int,
    x: int,
    y: int,
    a: usize,
    b: usize,
)
    requires
        0 <= x < width <= usize::MAX,
        0 <= y < height <= usize::MAX,
    ensures
        neighbours(width, height, x, y).contains((a, b)) <==> {
            &&& a < width
            &&& b < height
            &&& -1 <= a - x <= 1
            &&& -1 <= b - y <= 1
            &&& !(a == x && b == y)
        },
{
    let slots = Seq::new(8, |slot: int| neighbour_in_slot(width, height, x, y, slot));
    lemma_present_from_contains(slots, 0, (a, b));
    if a < width && b < height && -1 <= a - x <= 1 && -1 <= b - y <= 1 && !(a == x && b == y) {
        let slot = if a - x == -1 {
            b - y + 1
        } else if a - x == 0 {
            if b - y == -1 {
                3int
            } else {
                4int
            }
        } else {
            b - y + 6
        };
        assert(slots[slot] == Some((a, b)));
    }
}

/// Being a neighbour goes both ways: on one grid, a tile is a neighbour of
/// another exactly when the other is a neighbour of it.
pub proof fn lemma_neighbours_symmetric(
    width: int,
    height: int,
    x: usize,
    y: usize,
    a: usize,
    b: usize,
)
    requires
        x < width <= usize::MAX,
        y < height <= usize::MAX,
        a < width,
        b < height,
    ensures
        neighbours(width, height, x as int, y as int).contains((a, b)) <==> neighbours(
            width,
            height,
            a as int,
            b as int,
        ).contains((x, y)),
{
    lemma_neighbours_are_the_adjacent_tiles(width, height, x as int, y as int, a, b);
    lemma_neighbours_are_the_adjacent_tiles(width, height, a as int, b as int, x, y);
}

/// A tile of the grid has one neighbour for every combination of a column
/// and a row within its reach, but for the tile itself: eight in the
/// interior, five along an edge, three in a corner, and no neighbour comes
/// twice.
pub proof fn lemma_neighbours_count(width: int, height: int, x: int, y: int)
    requires
        0 <= x < width <= usize::MAX,
        0 <= y < height <= usize::MAX,
    ensures
        neighbours(width, height, x, y).len() == reach(width, x) * reach(height, y) - 1,
        neighbours(width, height, x, y).no_duplicates(),
{
    let slots = Seq::new(8, |slot: int| neighbour_in_slot(width, height, x, y, slot));
    reveal_with_fuel(present_from, 9);
    assert(forall|slot: int| 0 <= slot < 8 ==> slots[slot] == neighbour_in_slot(width, height, x, y, slot));
    let all = neighbours(width, height, x, y);
    let west: int = if x > 0 {
        1
    } else {
        0
    };
    let east: int = if x + 1 < width {
        1
    } else {
        0
    };
    let north: int = if y > 0 {
        1
    } else {
        0
    };
    let south: int = if y + 1 < height {
        1
    } else {
        0
    };
    assert(all.len() == west * north + west + west * south + north + south + east * north + east
        + east * south);
    assert((1 + west + east) * (1 + north + south) - 1 == west * north + west + west * south
        + north + south + east * north + east + east * south) by (nonlinear_arith);
    assert(all.no_duplicates());
}

/// A grid of `WIDTH` by `HEIGHT` tiles whose size is fixed when it is made.
///
/// The tile at `(x, y)` is `tiles[x][y]`: the outer index is the column.
#[derive(Debug)]
pub struct TileGrid<T, const WIDTH: usize, const HEIGHT: usize> {
    pub tiles: [[T; HEIGHT]; WIDTH],
}

impl<T, const WIDTH: usize, const HEIGHT: usize> TileGrid<T, WIDTH, HEIGHT> {
    /// The tile at `(x, y)`.
    pub open spec fn at(self, x: int, y: int) -> T {
        self.tiles[x][y]
    }

    pub fn new(tiles: [[T; HEIGHT]; WIDTH]) -> (grid: Self)
        ensures
            grid.tiles == tiles,
    {
        Self { tiles }
    }

    pub fn tile(&self, x: usize, y: usize) -> (tile: &T)
        requires
            x < WIDTH,
            y < HEIGHT,
        ensures
            *tile == self.at(x as int, y as int),
    {
        &self.tiles[x][y]
    }

    /// Mutable access to the tile at `(x, y)`: whatever the caller leaves in
    /// it is the new tile there, and no other tile changes.
    pub fn tile_mut(&mut self, x: usize, y: usize) -> (tile: &mut T)
        requires
            x < WIDTH,
            y < HEIGHT,
        ensures
            *tile == old(self).at(x as int, y as int),
            final(self).at(x as int, y as int) == *final(tile),
            forall|i: int, j: int|
                0 <= i < WIDTH && 0 <= j < HEIGHT && !(i == x && j == y) ==> #[trigger] final(self).at(
                    i,
                    j,
                ) == old(self).at(i, j),
    {
        &mut self.tiles[x][y]
    }

    pub fn width(&self) -> (width: usize)
        ensures
            width == WIDTH,
    {
        WIDTH
    }

    pub fn height(&self) -> (height: usize)
        ensures
            height == HEIGHT,
    {
        HEIGHT
    }

    /// An iterator over the coordinates of every tile of the grid.
    pub fn all_tile_coords(&self) -> (iter: TileCoordIter)
        ensures
            iter.width() == WIDTH,
            iter.height() == HEIGHT,
            iter.position() == 0,
    {
        TileCoordIter::new(WIDTH, HEIGHT)
    }

    /// An iterator over the neighbours of the tile `(target_tile_x,
    /// target_tile_y)`, each with its coordinates.
    pub fn neighbour_tiles(&self, target_tile_x: usize, target_tile_y: usize) -> (iter:
        NeighbourTilesIter<'_, T, WIDTH, HEIGHT>)
        requires
            target_tile_x < WIDTH,
            target_tile_y < HEIGHT,
        ensures
            iter.grid() == *self,
            iter.remaining() == neighbours(
                WIDTH as int,
                HEIGHT as int,
                target_tile_x as int,
                target_tile_y as int,
            ),
    {
        let coords = neighbour_tile_coords::<WIDTH, HEIGHT>(target_tile_x, target_tile_y);
        proof {
            assert forall|i: int| 0 <= i < coords.remaining().len() implies (
            #[trigger] coords.remaining()[i]).0 < WIDTH && coords.remaining()[i].1 < HEIGHT by {
                let c = coords.remaining()[i];
                assert(coords.remaining().contains(c));
                lemma_neighbours_are_the_adjacent_tiles(
                    WIDTH as int,
                    HEIGHT as int,
                    target_tile_x as int,
                    target_tile_y as int,
                    c.0,
                    c.1,
                );
            }
        }
        NeighbourTilesIter { coords, map: self }
    }
}

/// Walks over the neighbours of one tile of a grid and hands out each
/// neighbour's coordinates together with the tile itself.
pub struct NeighbourTilesIter<'m, T, const WIDTH: usize, const HEIGHT: usize> {
    coords: NeighbourCoordsIter,
    map: &'m TileGrid<T, WIDTH, HEIGHT>,
}

impl<'m, T, const WIDTH: usize, const HEIGHT: usize> NeighbourTilesIter<'m, T, WIDTH, HEIGHT> {
    #[verifier::type_invariant]
    spec fn well_formed(self) -> bool {
        forall|i: int|
            0 <= i < self.coords.remaining().len() ==> (#[trigger] self.coords.remaining()[i]).0
                < WIDTH && self.coords.remaining()[i].1 < HEIGHT
    }

    /// The grid whose tiles are handed out.
    pub closed spec fn grid(self) -> TileGrid<T, WIDTH, HEIGHT> {
        *self.map
    }

    /// The coordinates of the neighbours that are still to come, in order.
    pub closed spec fn remaining(self) -> Seq<(usize, usize)> {
        self.coords.remaining()
    }

    /// Hands out the next neighbour, or `None` once there is none left.
    pub fn next(&mut self) -> (item: Option<(usize, usize, &'m T)>)
        ensures
            final(self).grid() == old(self).grid(),
            match item {
                Some((x, y, tile)) => {
                    &&& old(self).remaining().len() > 0
                    &&& (x, y) == old(self).remaining()[0]
                    &&& x < WIDTH
                    &&& y < HEIGHT
                    &&& *tile == old(self).grid().at(x as int, y as int)
                    &&& final(self).remaining() == old(self).remaining().drop_first()
                },
                None => old(self).remaining().len() == 0 && final(self).remaining().len() == 0,
            },
    {
        proof {
            use_type_invariant(&*self);
        }
        let map = self.map;
        let mut coords = self.coords.clone();
        let ghost before = coords.remaining();
        match coords.next() {
            Some((x, y)) => {
                assert(before[0] == (x, y));
                assert forall|i: int| 0 <= i < coords.remaining().len() implies (
                #[trigger] coords.remaining()[i]).0 < WIDTH && coords.remaining()[i].1
                    < HEIGHT by {
                    assert(coords.remaining()[i] == before[i + 1]);
                }
                *self = Self { coords, map };
                Some((x, y, map.tile(x, y)))
            },
            None => {
                *self = Self { coords, map };
                None
            },
        }
    }
}

proof fn lemma_position_bound(x: nat, y: nat, width: nat, height: nat)
    requires
        x <= width,
        y <= height,
        x == width ==> y == 0,
    ensures
        x * height + y <= width * height,
{
    if x < width {
        assert((x + 1) * height <= width * height) by (nonlinear_arith)
            requires
                x + 1 <= width,
        ;
        assert((x + 1) * height == x * height + height) by (nonlinear_arith);
    }
}

} // verus!
