use aci_map::air::{move_coord, AirData, AirLeveler, AirPusher, OxygenUser};
use aci_map::liquids::{settle, Liquid, LiquidData, LiquidLeveler, Settlement};
use aci_map::objects::characters::{find_path, position_walkable};
use aci_map::objects::environment_object::EnvironmentObject;
use aci_map::tiles::{Tile, TileType};
use aci_map::{Facing, TileGrid};

fn air(nitrogen: f32, oxygen: f32, fumes: f32) -> AirData<f32> {
    AirData { nitrogen, oxygen, fumes }
}

fn ground(ground_level: f32) -> Tile<f32> {
    Tile::new(
        ground_level,
        TileType::Ground { air: air(0.79, 0.21, 0.0), liquids: LiquidData::new_default() },
    )
}

fn wall() -> Tile<f32> {
    Tile::new(0.0, TileType::Wall)
}

fn air_of(tile: &Tile<f32>) -> Option<(f32, f32, f32)> {
    tile.tile_type.get_air().map(|a| (a.nitrogen, a.oxygen, a.fumes))
}

fn liquid_of(tile: &Tile<f32>) -> Option<(u8, f32)> {
    tile.tile_type.get_liquids().map(|l| match l {
        LiquidData::Empty => (0, 0.0),
        LiquidData::Water { level } => (1, *level),
        LiquidData::Lava { level } => (2, *level),
    })
}

#[test]
fn coordinates_move_and_wrap() {
    assert_eq!(move_coord(5, 3), 8);
    assert_eq!(move_coord(5, -3), 2);
    assert_eq!(move_coord(5, -5), 0);
    assert_eq!(move_coord(0, 0), 0);
    assert_eq!(move_coord(0, -1), usize::MAX);
    assert_eq!(move_coord(2, -5), usize::MAX - 2);
    assert_eq!(move_coord(usize::MAX, 1), 0);
    assert_eq!(move_coord(usize::MAX, 3), 2);
    assert_eq!(move_coord(usize::MAX, isize::MIN), usize::MAX / 2);
    assert_eq!(move_coord(0, isize::MAX), usize::MAX / 2);
}

#[test]
fn effects_are_placed_relative_to_their_base() {
    let leveler = AirLeveler { x: 2isize, y: -1isize, nitrogen: 0.5f32, oxygen: 0.25, fumes: 0.125 }
        .to_absolute(10, 20);
    assert_eq!((leveler.x, leveler.y), (12, 19));
    assert_eq!((leveler.nitrogen, leveler.oxygen, leveler.fumes), (0.5, 0.25, 0.125));

    let user = OxygenUser { x: -3isize, y: 4isize, change_per_sec: 0.5f32 }.to_absolute(3, 0);
    assert_eq!((user.x, user.y, user.change_per_sec), (0, 4, 0.5));

    let liquid = LiquidLeveler { x: 0isize, y: 1isize, target: LiquidData::Lava { level: 1.5f32 } }
        .to_absolute(7, 7);
    assert_eq!((liquid.x, liquid.y), (7, 8));
    assert!(matches!(liquid.target, LiquidData::Lava { level } if level == 1.5));

    let pusher = AirPusher { x: 1isize, y: 1isize, direction: Facing::East, amount: 2.0f32 }
        .to_absolute(4, 4, Facing::South);
    // The direction turns with the base, the place does not.
    assert_eq!((pusher.x, pusher.y, pusher.direction, pusher.amount), (5, 5, Facing::West, 2.0));
    let wrapped = AirPusher { x: -1isize, y: 0isize, direction: Facing::North, amount: 1.0f32 }
        .to_absolute(0, 0, Facing::North);
    assert_eq!((wrapped.x, wrapped.y, wrapped.direction), (usize::MAX, 0, Facing::North));
}

#[test]
fn pusher_pushes_to_the_next_tile_on_the_grid() {
    let pusher = |x, y, direction| AirPusher { x, y, direction, amount: 1.0f32 };
    assert_eq!(pusher(18, 4, Facing::South).target_coords::<20, 10>(), Some((18, 5)));
    assert_eq!(pusher(16, 8, Facing::West).target_coords::<20, 10>(), Some((15, 8)));
    assert_eq!(pusher(19, 9, Facing::East).target_coords::<20, 10>(), None);
    assert_eq!(pusher(19, 9, Facing::South).target_coords::<20, 10>(), None);
    assert_eq!(pusher(0, 0, Facing::North).target_coords::<20, 10>(), None);
    assert_eq!(pusher(0, 0, Facing::West).target_coords::<20, 10>(), None);
}

#[test]
fn liquid_levels_by_kind() {
    let none: LiquidData<f32> = LiquidData::new_default();
    let water = LiquidData::Water { level: 1.0f32 };
    let lava = LiquidData::Lava { level: 1.1f32 };
    assert!(matches!(none, LiquidData::Empty));
    assert!(matches!(LiquidData::<f32>::default(), LiquidData::Empty));
    for kind in [Liquid::AnyLiquid, Liquid::Water, Liquid::Lava] {
        assert_eq!(none.get_level_optional(kind), None);
    }
    assert_eq!(water.get_level_optional(Liquid::AnyLiquid), Some(1.0));
    assert_eq!(water.get_level_optional(Liquid::Water), Some(1.0));
    assert_eq!(water.get_level_optional(Liquid::Lava), None);
    assert_eq!(lava.get_level_optional(Liquid::AnyLiquid), Some(1.1));
    assert_eq!(lava.get_level_optional(Liquid::Water), None);
    assert_eq!(lava.get_level_optional(Liquid::Lava), Some(1.1));
    assert_eq!(water.clone().get_level_optional(Liquid::Water), Some(1.0));
}

#[test]
fn water_and_lava_settle_to_one_kind() {
    let is = |remaining, solidifies| Settlement { remaining, solidifies };
    assert_eq!(settle(false, false, true), is(None, false));
    assert_eq!(settle(false, false, false), is(None, false));
    assert_eq!(settle(true, false, true), is(Some(Liquid::Water), false));
    assert_eq!(settle(false, true, false), is(Some(Liquid::Lava), false));
    assert_eq!(settle(true, true, true), is(Some(Liquid::Water), true));
    assert_eq!(settle(true, true, false), is(Some(Liquid::Lava), true));
    for water in [false, true] {
        for lava in [false, true] {
            for prevails in [false, true] {
                let settlement = settle(water, lava, prevails);
                assert_eq!(settlement.solidifies, water && lava);
                assert_ne!(settlement.remaining, Some(Liquid::AnyLiquid));
                assert_eq!(settlement.remaining.is_none(), !water && !lava);
            }
        }
    }
}

#[test]
fn tile_kinds() {
    let mut tile = ground(0.5);
    assert!(!tile.tile_type.is_wall());
    assert_eq!(tile.ground_level, 0.5);
    assert_eq!(air_of(&tile), Some((0.79, 0.21, 0.0)));
    assert_eq!(liquid_of(&tile), Some((0, 0.0)));
    assert!(tile.tile_type.get_ground().is_some());
    tile.tile_type.get_air_mut().unwrap().fumes = 0.5;
    *tile.tile_type.get_liquids_mut().unwrap() = LiquidData::Water { level: 2.0 };
    assert_eq!(air_of(&tile), Some((0.79, 0.21, 0.5)));
    assert_eq!(liquid_of(&tile), Some((1, 2.0)));
    {
        let (air, liquids) = tile.tile_type.get_ground_mut().unwrap();
        air.oxygen = 0.0;
        *liquids = LiquidData::Empty;
    }
    assert_eq!(air_of(&tile), Some((0.79, 0.0, 0.5)));
    assert_eq!(liquid_of(&tile), Some((0, 0.0)));
    let copy = tile;
    assert_eq!(air_of(&copy.clone()), air_of(&tile));

    let mut wall = wall();
    assert!(wall.tile_type.is_wall());
    assert!(wall.tile_type.get_ground().is_none());
    assert!(wall.tile_type.get_air().is_none());
    assert!(wall.tile_type.get_liquids().is_none());
    assert!(wall.tile_type.get_air_mut().is_none());
    assert!(wall.tile_type.get_liquids_mut().is_none());
    assert!(wall.tile_type.get_ground_mut().is_none());
}

#[test]
fn levelers_set_their_tiles_and_pass_walls_by() {
    let mut grid: TileGrid<Tile<f32>, 2, 2> =
        TileGrid::new([[ground(0.0), wall()], [ground(1.0), ground(2.0)]]);
    let set = |x, y, oxygen| AirLeveler { x, y, nitrogen: 0.5f32, oxygen, fumes: 0.0 };
    grid.apply_air_levelers(&vec![set(0, 0, 0.1), set(0, 1, 0.2), set(1, 1, 0.3), set(0, 0, 0.4)]);
    assert_eq!(air_of(grid.tile(0, 0)), Some((0.5, 0.4, 0.0)));
    assert_eq!(air_of(grid.tile(0, 1)), None);
    assert_eq!(air_of(grid.tile(1, 0)), Some((0.79, 0.21, 0.0)));
    assert_eq!(air_of(grid.tile(1, 1)), Some((0.5, 0.3, 0.0)));
    assert_eq!(liquid_of(grid.tile(1, 1)), Some((0, 0.0)));
    assert_eq!(grid.tile(1, 1).ground_level, 2.0);

    let fill = |x, y, target| LiquidLeveler { x, y, target };
    grid.apply_liquid_levelers(&vec![
        fill(1, 0, LiquidData::Water { level: 1.0f32 }),
        fill(0, 1, LiquidData::Water { level: 1.0 }),
        fill(1, 1, LiquidData::Lava { level: 1.1 }),
        fill(1, 0, LiquidData::Empty),
    ]);
    assert_eq!(liquid_of(grid.tile(0, 0)), Some((0, 0.0)));
    assert_eq!(liquid_of(grid.tile(0, 1)), None);
    assert!(grid.tile(0, 1).tile_type.is_wall());
    assert_eq!(liquid_of(grid.tile(1, 0)), Some((0, 0.0)));
    assert_eq!(liquid_of(grid.tile(1, 1)), Some((2, 1.1)));
    assert_eq!(air_of(grid.tile(1, 1)), Some((0.5, 0.3, 0.0)));
    grid.apply_air_levelers(&vec![]);
    grid.apply_liquid_levelers(&vec![]);
    assert_eq!(liquid_of(grid.tile(1, 1)), Some((2, 1.1)));
}

#[test]
fn environment_objects_have_one_effect_each() {
    let leveler: EnvironmentObject<f32> =
        AirLeveler { x: 0, y: 9, nitrogen: 0.395, oxygen: 0.105, fumes: 0.0 }.into();
    let user: EnvironmentObject<f32> = OxygenUser { x: 5, y: 5, change_per_sec: 0.0001 }.into();
    let pusher: EnvironmentObject<f32> =
        AirPusher { x: 18, y: 4, direction: Facing::South, amount: 2.0 }.into();
    let liquid: EnvironmentObject<f32> =
        LiquidLeveler { x: 19, y: 0, target: LiquidData::Water { level: 1.0 } }.into();
    assert!(matches!(leveler, EnvironmentObject::AirLeveler(_)));
    assert!(matches!(user, EnvironmentObject::OxygenUser(_)));
    assert!(matches!(pusher, EnvironmentObject::AirPusher(_)));
    assert!(matches!(liquid, EnvironmentObject::LiquidLeveler(_)));

    let count = |o: &EnvironmentObject<f32>| {
        (
            o.air_levelers().len(),
            o.oxygen_users().len(),
            o.air_pushers().len(),
            o.liquid_levelers().len(),
        )
    };
    assert_eq!(count(&leveler), (1, 0, 0, 0));
    assert_eq!(count(&user), (0, 1, 0, 0));
    assert_eq!(count(&pusher), (0, 0, 1, 0));
    assert_eq!(count(&liquid), (0, 0, 0, 1));
    let got = leveler.air_levelers()[0];
    assert_eq!((got.x, got.y, got.nitrogen, got.oxygen, got.fumes), (0, 9, 0.395, 0.105, 0.0));
    let got = user.oxygen_users()[0];
    assert_eq!((got.x, got.y, got.change_per_sec), (5, 5, 0.0001));
    let got = pusher.air_pushers()[0];
    assert_eq!((got.x, got.y, got.direction, got.amount), (18, 4, Facing::South, 2.0));
    let got = liquid.liquid_levelers()[0];
    assert_eq!((got.x, got.y), (19, 0));
    assert!(matches!(got.target, LiquidData::Water { level } if level == 1.0));
}

#[test]
fn positions_that_can_be_stood_on() {
    // ground, will_drown, is_lava, avoid_lava, avoid_drowning
    assert!(position_walkable(true, false, false, true, true));
    assert!(position_walkable(true, false, false, false, false));
    assert!(!position_walkable(false, false, false, false, false));
    assert!(!position_walkable(false, false, false, true, true));
    assert!(!position_walkable(true, true, false, true, true));
    assert!(position_walkable(true, true, false, true, false));
    assert!(!position_walkable(true, false, true, true, true));
    assert!(position_walkable(true, false, true, false, true));
    assert!(!position_walkable(true, true, true, false, true));
    assert!(!position_walkable(true, true, true, true, false));
    assert!(position_walkable(true, true, true, false, false));
}

#[test]
fn a_way_needs_both_ends() {
    let from = (0.5f32, 0.5f32);
    let to = (3.2f32, 4.5f32);
    assert_eq!(find_path(from, to, true, true).unwrap().points, vec![from, to]);
    assert!(find_path(from, to, false, true).is_none());
    assert!(find_path(from, to, true, false).is_none());
    assert!(find_path(from, to, false, false).is_none());
    assert_eq!(find_path(from, from, true, true).unwrap().points, vec![from, from]);
}

#[test]
fn air_and_liquid_pass_to_ground_only() {
    let grid: TileGrid<Tile<f32>, 3, 3> = TileGrid::new([
        [ground(0.0), wall(), ground(0.0)],
        [wall(), ground(0.0), ground(0.0)],
        [ground(0.0), ground(0.0), wall()],
    ]);
    assert_eq!(grid.ground_neighbours(1, 1), vec![(0, 0), (0, 2), (1, 2), (2, 0), (2, 1)]);
    assert_eq!(grid.ground_neighbours(0, 0), vec![(1, 1)]);
    assert_eq!(grid.ground_neighbours(0, 1), vec![(0, 0), (0, 2), (1, 1), (1, 2)]);
    assert_eq!(grid.ground_neighbours(2, 2), vec![(1, 1), (1, 2), (2, 1)]);
    // Between ground tiles the passage goes both ways.
    for x in 0..3 {
        for y in 0..3 {
            for (nx, ny) in grid.ground_neighbours(x, y) {
                assert!(!grid.tile(nx, ny).tile_type.is_wall());
                assert_ne!((nx, ny), (x, y));
                if !grid.tile(x, y).tile_type.is_wall() {
                    assert!(grid.ground_neighbours(nx, ny).contains(&(x, y)));
                }
            }
        }
    }
    let walls: TileGrid<Tile<f32>, 2, 1> = TileGrid::new([[wall()], [wall()]]);
    assert_eq!(walls.ground_neighbours(0, 0), vec![]);
}
