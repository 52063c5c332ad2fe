use aci_map::Facing;

#[test]
fn facing_rotation() {
    assert_eq!(Facing::North.rotate(Facing::North), Facing::North);
    assert_eq!(Facing::North.rotate(Facing::East), Facing::East);
    assert_eq!(Facing::North.rotate(Facing::South), Facing::South);
    assert_eq!(Facing::North.rotate(Facing::West), Facing::West);

    assert_eq!(Facing::East.rotate(Facing::North), Facing::East);
    assert_eq!(Facing::East.rotate(Facing::East), Facing::South);
    assert_eq!(Facing::East.rotate(Facing::South), Facing::West);
    assert_eq!(Facing::East.rotate(Facing::West), Facing::North);

    assert_eq!(Facing::South.rotate(Facing::North), Facing::South);
    assert_eq!(Facing::South.rotate(Facing::East), Facing::West);
    assert_eq!(Facing::South.rotate(Facing::South), Facing::North);
    assert_eq!(Facing::South.rotate(Facing::West), Facing::East);

    assert_eq!(Facing::West.rotate(Facing::North), Facing::West);
    assert_eq!(Facing::West.rotate(Facing::East), Facing::North);
    assert_eq!(Facing::West.rotate(Facing::South), Facing::East);
    assert_eq!(Facing::West.rotate(Facing::West), Facing::South);
}

#[test]
fn facing_move_coords_in_direction() {
    assert_eq!(Facing::North.move_coords_in_direction::<5, 10>(2, 0), None);
    assert_eq!(Facing::North.move_coords_in_direction::<5, 10>(0, 1), Some((0, 0)));
    assert_eq!(Facing::North.move_coords_in_direction::<5, 10>(4, 9), Some((4, 8)));

    assert_eq!(Facing::East.move_coords_in_direction::<5, 10>(4, 2), None);
    assert_eq!(Facing::East.move_coords_in_direction::<5, 10>(3, 1), Some((4, 1)));
    assert_eq!(Facing::East.move_coords_in_direction::<5, 10>(0, 9), Some((1, 9)));

    assert_eq!(Facing::South.move_coords_in_direction::<5, 10>(4, 9), None);
    assert_eq!(Facing::South.move_coords_in_direction::<5, 10>(0, 8), Some((0, 9)));
    assert_eq!(Facing::South.move_coords_in_direction::<5, 10>(2, 0), Some((2, 1)));

    assert_eq!(Facing::West.move_coords_in_direction::<5, 10>(0, 6), None);
    assert_eq!(Facing::West.move_coords_in_direction::<5, 10>(1, 1), Some((0, 1)));
    assert_eq!(Facing::West.move_coords_in_direction::<5, 10>(4, 9), Some((3, 9)));
}

#[test]
fn facing_rotate_isize() {
    assert_eq!(Facing::North.rotate_isize_coords(0, 0), (0, 0));
    assert_eq!(Facing::East.rotate_isize_coords(0, 0), (0, 0));
    assert_eq!(Facing::South.rotate_isize_coords(0, 0), (0, 0));
    assert_eq!(Facing::West.rotate_isize_coords(0, 0), (0, 0));

    assert_eq!(Facing::North.rotate_isize_coords(2, 1), (2, 1));
    assert_eq!(Facing::East.rotate_isize_coords(2, 1), (-1, 2));
    assert_eq!(Facing::South.rotate_isize_coords(2, 1), (-2, -1));
    assert_eq!(Facing::West.rotate_isize_coords(2, 1), (1, -2));
}

#[test]
fn facing_move_on_empty_grid_goes_nowhere_east_or_south() {
    assert_eq!(Facing::East.move_coords_in_direction::<0, 0>(0, 0), None);
    assert_eq!(Facing::South.move_coords_in_direction::<0, 0>(0, 0), None);
    assert_eq!(Facing::East.move_coords_in_direction::<1, 1>(0, 0), None);
    assert_eq!(Facing::South.move_coords_in_direction::<1, 1>(0, 0), None);
}

#[test]
fn facing_step_back_returns() {
    let all = [Facing::North, Facing::East, Facing::South, Facing::West];
    for facing in all {
        let back = facing.rotate(Facing::South);
        for x in 0..4usize {
            for y in 0..3usize {
                if let Some((nx, ny)) = facing.move_coords_in_direction::<4, 3>(x, y) {
                    assert!(nx < 4 && ny < 3);
                    assert_eq!(back.move_coords_in_direction::<4, 3>(nx, ny), Some((x, y)));
                }
            }
        }
    }
}

#[test]
fn facing_rotation_composes_on_coords() {
    let all = [Facing::North, Facing::East, Facing::South, Facing::West];
    for first in all {
        for second in all {
            let once = first.rotate_isize_coords(3, -7);
            let twice = second.rotate_isize_coords(once.0, once.1);
            assert_eq!(twice, first.rotate(second).rotate_isize_coords(3, -7));
        }
    }
}

#[test]
fn facing_rotate_isize_extremes() {
    assert_eq!(Facing::North.rotate_isize_coords(isize::MIN, isize::MIN), (isize::MIN, isize::MIN));
    assert_eq!(Facing::East.rotate_isize_coords(isize::MIN, isize::MAX), (-isize::MAX, isize::MIN));
    assert_eq!(Facing::West.rotate_isize_coords(isize::MAX, isize::MIN), (isize::MIN, -isize::MAX));
}
