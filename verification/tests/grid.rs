use aci_map::grid::{neighbour_tile_coords, NeighbourCoordsIter, TileGrid};
use aci_map::TileCoordIter;

#[test]
fn tile_iter() {
    let iter = TileCoordIter::new(2, 3).collect();
    assert_eq!(iter, &[(0, 0), (0, 1), (0, 2), (1, 0), (1, 1), (1, 2)]);
}

#[test]
fn neighbours() {
    let neighbours = neighbour_tile_coords::<10, 10>(0, 0).collect();

    assert!(neighbours.contains(&(0, 1)));
    assert!(neighbours.contains(&(1, 1)));
    assert!(neighbours.contains(&(1, 0)));
    assert_eq!(neighbours.len(), 3);

    let neighbours = neighbour_tile_coords::<10, 10>(9, 9).collect();

    assert!(neighbours.contains(&(8, 9)));
    assert!(neighbours.contains(&(8, 8)));
    assert!(neighbours.contains(&(9, 8)));
    assert_eq!(neighbours.len(), 3);

    let neighbours = neighbour_tile_coords::<10, 10>(5, 5).collect();

    assert!(neighbours.contains(&(4, 4)));
    assert!(neighbours.contains(&(4, 5)));
    assert!(neighbours.contains(&(4, 6)));
    assert!(neighbours.contains(&(5, 4)));
    assert!(neighbours.contains(&(5, 6)));
    assert!(neighbours.contains(&(6, 4)));
    assert!(neighbours.contains(&(6, 5)));
    assert!(neighbours.contains(&(6, 6)));
    assert_eq!(neighbours.len(), 8);

    let neighbours = neighbour_tile_coords::<10, 1>(1, 0).collect();

    assert!(neighbours.contains(&(0, 0)));
    assert!(neighbours.contains(&(2, 0)));
    assert_eq!(neighbours.len(), 2);
}

#[test]
fn tile_iter_step_by_step() {
    let mut iter = TileCoordIter::new(2, 2);
    assert_eq!(iter.next(), Some((0, 0)));
    assert_eq!(iter.next(), Some((0, 1)));
    assert_eq!(iter.next(), Some((1, 0)));
    assert_eq!(iter.next(), Some((1, 1)));
    assert_eq!(iter.next(), None);
    assert_eq!(iter.next(), None);
}

#[test]
fn tile_iter_collects_what_is_left() {
    let mut iter = TileCoordIter::new(2, 2);
    assert_eq!(iter.next(), Some((0, 0)));
    assert_eq!(iter.collect(), vec![(0, 1), (1, 0), (1, 1)]);
}

#[test]
fn tile_iter_of_a_grid_without_tiles() {
    assert_eq!(TileCoordIter::new(0, 0).collect(), vec![]);
    assert_eq!(TileCoordIter::new(0, 5).collect(), vec![]);
    assert_eq!(TileCoordIter::new(5, 0).collect(), vec![]);
    let mut iter = TileCoordIter::new(3, 0);
    assert_eq!(iter.next(), None);
    assert_eq!(iter.next(), None);
}

#[test]
fn tile_iter_counts_every_tile_once() {
    let coords = TileCoordIter::new(7, 5).collect();
    assert_eq!(coords.len(), 35);
    for (k, (x, y)) in coords.iter().enumerate() {
        assert_eq!((*x, *y), (k / 5, k % 5));
    }
}

#[test]
fn neighbours_come_in_column_order() {
    assert_eq!(
        neighbour_tile_coords::<3, 3>(1, 1).collect(),
        vec![(0, 0), (0, 1), (0, 2), (1, 0), (1, 2), (2, 0), (2, 1), (2, 2)]
    );
    assert_eq!(neighbour_tile_coords::<3, 3>(2, 0).collect(), vec![(1, 0), (1, 1), (2, 1)]);
    assert_eq!(neighbour_tile_coords::<1, 1>(0, 0).collect(), vec![]);
}

#[test]
fn neighbours_one_at_a_time() {
    let mut iter: NeighbourCoordsIter = neighbour_tile_coords::<2, 2>(0, 0);
    let copy = iter.clone();
    assert_eq!(iter.next(), Some((0, 1)));
    assert_eq!(iter.next(), Some((1, 0)));
    assert_eq!(iter.next(), Some((1, 1)));
    assert_eq!(iter.next(), None);
    assert_eq!(iter.next(), None);
    assert_eq!(copy.collect(), vec![(0, 1), (1, 0), (1, 1)]);
}

#[test]
fn neighbours_are_mutual_and_counted() {
    const W: usize = 4;
    const H: usize = 3;
    for x in 0..W {
        for y in 0..H {
            let around = neighbour_tile_coords::<W, H>(x, y).collect();
            let reach_x = 1 + usize::from(x > 0) + usize::from(x + 1 < W);
            let reach_y = 1 + usize::from(y > 0) + usize::from(y + 1 < H);
            assert_eq!(around.len(), reach_x * reach_y - 1);
            for (i, a) in around.iter().enumerate() {
                assert!(a.0 < W && a.1 < H);
                assert!(a.0.abs_diff(x) <= 1 && a.1.abs_diff(y) <= 1);
                assert_ne!(*a, (x, y));
                assert!(!around[..i].contains(a));
                assert!(neighbour_tile_coords::<W, H>(a.0, a.1).collect().contains(&(x, y)));
            }
        }
    }
}

#[test]
fn grid_tiles() {
    let mut grid: TileGrid<u32, 2, 3> = TileGrid::new([[1, 2, 3], [4, 5, 6]]);
    assert_eq!(grid.width(), 2);
    assert_eq!(grid.height(), 3);
    assert_eq!(*grid.tile(1, 2), 6);
    assert_eq!(*grid.tile(0, 1), 2);
    *grid.tile_mut(0, 1) = 20;
    assert_eq!(grid.tiles, [[1, 20, 3], [4, 5, 6]]);
    assert_eq!(grid.all_tile_coords().collect().len(), 6);
}

#[test]
fn grid_neighbour_tiles() {
    let grid: TileGrid<u32, 2, 3> = TileGrid::new([[1, 2, 3], [4, 5, 6]]);
    let mut iter = grid.neighbour_tiles(0, 0);
    assert_eq!(iter.next(), Some((0, 1, &2)));
    assert_eq!(iter.next(), Some((1, 0, &4)));
    assert_eq!(iter.next(), Some((1, 1, &5)));
    assert_eq!(iter.next(), None);
    let mut seen = Vec::new();
    let mut iter = grid.neighbour_tiles(1, 1);
    while let Some((x, y, tile)) = iter.next() {
        seen.push((x, y, *tile));
    }
    assert_eq!(seen, vec![(0, 0, 1), (0, 1, 2), (0, 2, 3), (1, 0, 4), (1, 2, 6)]);
}
