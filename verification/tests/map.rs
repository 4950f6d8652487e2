use roguelike::color::Color;
use roguelike::item::Item;
use roguelike::map::{CanMoveResponse, GameMap, Tile, TileType};
use roguelike::point::Point;
use roguelike::rectangle::Rectangle;
use roguelike::traits::{Position, Renderable};

fn floor_tiles(map: &GameMap) -> Vec<Point> {
    map.get_tiles()
        .iter()
        .filter(|t| t.tile_type == TileType::Floor)
        .map(|t| t.position)
        .collect()
}

#[test]
fn terrain_flags() {
    assert!(TileType::Wall.blocks_move());
    assert!(TileType::Wall.blocks_sight());
    assert!(!TileType::Floor.blocks_move());
    assert!(!TileType::Floor.blocks_sight());
    assert_eq!(TileType::Wall.get_glyph(), '#');
    assert_eq!(TileType::Floor.get_glyph(), '.');
}

#[test]
fn terrain_colours() {
    assert_eq!(TileType::Floor.get_color_visible(), Color::new(200, 180, 50));
    assert_eq!(TileType::Wall.get_color_visible(), Color::new(130, 110, 50));
    assert_eq!(TileType::Floor.get_color_not_visible(), Color::new(50, 50, 150));
    assert_eq!(TileType::Wall.get_color_not_visible(), Color::new(0, 0, 100));
}

#[test]
fn tile_colour_follows_what_has_been_seen() {
    let mut tile = Tile::new(Point::new(2, 3), TileType::Floor);
    assert_eq!(tile.get_position(), Point::new(2, 3));
    assert_eq!(tile.get_x(), 2);
    assert_eq!(tile.get_y(), 3);
    assert_eq!(tile.get_glyph(), '.');
    assert!(!tile.is_explored && !tile.is_visible);
    assert_eq!(tile.get_color(), Color::black());
    tile.is_explored = true;
    assert_eq!(tile.get_color(), Color::new(50, 50, 150));
    tile.is_visible = true;
    assert_eq!(tile.get_color(), Color::new(200, 180, 50));
}

#[test]
fn new_map_is_all_unexplored_wall() {
    let map = GameMap::new(7, 4);
    assert_eq!(map.get_map_size(), (7, 4));
    assert_eq!(map.get_tiles().len(), 28);
    assert_eq!(map.get_items().len(), 0);
    for y in 0..4 {
        for x in 0..7 {
            let p = Point::new(x, y);
            let tile = &map.get_tiles()[(y * 7 + x) as usize];
            assert_eq!(tile.position, p);
            assert_eq!(map.get_tile_type(p), Ok(TileType::Wall));
            assert!(!map.point_in_fov(p));
            assert!(!map.point_is_explored(p));
        }
    }
}

#[test]
fn points_beyond_the_grid_are_not_in_the_map() {
    let map = GameMap::new(7, 4);
    assert!(map.point_in_map(Point::new(0, 0)));
    assert!(map.point_in_map(Point::new(6, 3)));
    assert!(!map.point_in_map(Point::new(7, 3)));
    assert!(!map.point_in_map(Point::new(6, 4)));
    assert!(!map.point_in_map(Point::new(-1, 0)));
    assert!(!map.point_in_map(Point::new(0, -1)));
    assert_eq!(map.get_tile_type(Point::new(7, 0)), Err(()));
    assert_eq!(map.get_tile_type(Point::new(-1, 2)), Err(()));
    assert!(!map.point_in_fov(Point::new(-1, 2)));
    assert!(!map.point_is_explored(Point::new(7, 0)));
}

#[test]
fn set_tile_type_changes_one_tile() {
    let mut map = GameMap::new(7, 4);
    assert_eq!(map.set_tile_type(Point::new(5, 2), TileType::Floor), Ok(()));
    assert_eq!(floor_tiles(&map), vec![Point::new(5, 2)]);
    assert_eq!(map.get_tile_type(Point::new(5, 2)), Ok(TileType::Floor));
    assert_eq!(map.set_tile_type(Point::new(5, 2), TileType::Wall), Ok(()));
    assert!(floor_tiles(&map).is_empty());
}

#[test]
fn set_tile_type_refuses_a_point_beyond_the_map() {
    let mut map = GameMap::new(7, 4);
    assert_eq!(map.set_tile_type(Point::new(7, 2), TileType::Floor), Err(()));
    assert_eq!(map.set_tile_type(Point::new(2, -1), TileType::Floor), Err(()));
    assert!(floor_tiles(&map).is_empty());
}

#[test]
fn only_walls_of_the_map_stand_in_the_way() {
    let mut map = GameMap::new(7, 4);
    map.set_tile_type(Point::new(3, 2), TileType::Floor).unwrap();
    assert_eq!(map.can_move_to(Point::new(3, 2)), CanMoveResponse::Open);
    assert_eq!(map.can_move_to(Point::new(3, 1)), CanMoveResponse::Scenery);
    assert_eq!(map.can_move_to(Point::new(-1, 1)), CanMoveResponse::Open);
    assert!(map.tile_is_open(Point::new(3, 2)));
    assert!(!map.tile_is_open(Point::new(3, 1)));
    assert!(!map.tile_is_open(Point::new(-1, 1)));
}

#[test]
fn room_is_dug_inside_its_walls() {
    let mut map = GameMap::new(12, 10);
    let room = Rectangle::new(Point::new(2, 3), (4, 3));
    assert_eq!(map.create_room(&room), Ok(()));
    let mut expected = vec![];
    for y in 4..6 {
        for x in 3..6 {
            expected.push(Point::new(x, y));
        }
    }
    assert_eq!(floor_tiles(&map), expected);
}

#[test]
fn room_that_leaves_the_map_is_not_dug() {
    let mut map = GameMap::new(12, 10);
    let room = Rectangle::new(Point::new(8, 3), (6, 3));
    assert_eq!(map.create_room(&room), Err(()));
    assert!(floor_tiles(&map).is_empty());
    let room = Rectangle::new(Point::new(-2, 3), (6, 3));
    assert_eq!(map.create_room(&room), Err(()));
    assert!(floor_tiles(&map).is_empty());
}

#[test]
fn room_without_an_inside_changes_nothing() {
    let mut map = GameMap::new(12, 10);
    let room = Rectangle::new(Point::new(20, 3), (1, 5));
    assert_eq!(map.create_room(&room), Ok(()));
    assert!(floor_tiles(&map).is_empty());
}

#[test]
fn horizontal_tunnel_includes_both_ends_in_either_direction() {
    let mut forth = GameMap::new(12, 10);
    assert_eq!(forth.create_h_tunnel(2, 6, 4), Ok(()));
    let mut back = GameMap::new(12, 10);
    assert_eq!(back.create_h_tunnel(6, 2, 4), Ok(()));
    let expected: Vec<Point> = (2..=6).map(|x| Point::new(x, 4)).collect();
    assert_eq!(floor_tiles(&forth), expected);
    assert_eq!(floor_tiles(&back), expected);
}

#[test]
fn vertical_tunnel_includes_both_ends_in_either_direction() {
    let mut forth = GameMap::new(12, 10);
    assert_eq!(forth.create_v_tunnel(3, 1, 5), Ok(()));
    let mut back = GameMap::new(12, 10);
    assert_eq!(back.create_v_tunnel(3, 5, 1), Ok(()));
    let expected: Vec<Point> = (1..=5).map(|y| Point::new(3, y)).collect();
    assert_eq!(floor_tiles(&forth), expected);
    assert_eq!(floor_tiles(&back), expected);
}

#[test]
fn tunnel_of_one_tile() {
    let mut map = GameMap::new(12, 10);
    assert_eq!(map.create_h_tunnel(5, 5, 2), Ok(()));
    assert_eq!(floor_tiles(&map), vec![Point::new(5, 2)]);
}

#[test]
fn tunnel_that_leaves_the_map_is_not_dug() {
    let mut map = GameMap::new(12, 10);
    assert_eq!(map.create_h_tunnel(8, 12, 4), Err(()));
    assert_eq!(map.create_h_tunnel(-1, 3, 4), Err(()));
    assert_eq!(map.create_h_tunnel(1, 3, 10), Err(()));
    assert_eq!(map.create_v_tunnel(3, 5, 10), Err(()));
    assert_eq!(map.create_v_tunnel(12, 1, 2), Err(()));
    assert!(floor_tiles(&map).is_empty());
}

#[test]
fn corridor_with_the_horizontal_leg_first() {
    let mut map = GameMap::new(12, 10);
    map.create_corridor(Point::new(2, 2), Point::new(5, 4), true);
    let mut got = floor_tiles(&map);
    got.sort_by_key(|p| (p.y, p.x));
    assert_eq!(
        got,
        vec![
            Point::new(2, 2),
            Point::new(3, 2),
            Point::new(4, 2),
            Point::new(5, 2),
            Point::new(5, 3),
            Point::new(5, 4),
        ]
    );
}

#[test]
fn corridor_with_the_vertical_leg_first() {
    let mut map = GameMap::new(12, 10);
    map.create_corridor(Point::new(2, 2), Point::new(5, 4), false);
    let mut got = floor_tiles(&map);
    got.sort_by_key(|p| (p.y, p.x));
    assert_eq!(
        got,
        vec![
            Point::new(2, 2),
            Point::new(2, 3),
            Point::new(2, 4),
            Point::new(3, 4),
            Point::new(4, 4),
            Point::new(5, 4),
        ]
    );
}

#[test]
fn corridor_backwards_covers_the_same_kind_of_path() {
    let mut map = GameMap::new(12, 10);
    map.create_corridor(Point::new(5, 4), Point::new(2, 2), true);
    let mut got = floor_tiles(&map);
    got.sort_by_key(|p| (p.y, p.x));
    assert_eq!(
        got,
        vec![
            Point::new(2, 2),
            Point::new(2, 3),
            Point::new(2, 4),
            Point::new(3, 4),
            Point::new(4, 4),
            Point::new(5, 4),
        ]
    );
}

#[test]
fn items_are_kept_in_order() {
    let mut map = GameMap::new(5, 5);
    map.place_item(Item::new("rat", 'r', Color::dark_red(), Point::new(1, 2)));
    map.place_item(Item::new("bat", 'b', Color::dark_red(), Point::new(3, 3)));
    let items = map.get_items();
    assert_eq!(items.len(), 2);
    assert_eq!(items[0].name, "rat");
    assert_eq!(items[0].get_glyph(), 'r');
    assert_eq!(items[0].get_color(), Color::new(191, 0, 0));
    assert_eq!(items[0].get_position(), Point::new(1, 2));
    assert_eq!(items[1].name, "bat");
    assert_eq!(items[1].get_x(), 3);
    assert_eq!(items[1].get_y(), 3);
}

#[test]
fn field_of_view_marks_tiles_visible_and_explored() {
    let mut map = GameMap::new(3, 2);
    let field = vec![true, false, false, false, true, false];
    map.update_fov(&field);
    assert!(map.point_in_fov(Point::new(0, 0)));
    assert!(map.point_is_explored(Point::new(0, 0)));
    assert!(map.point_in_fov(Point::new(1, 1)));
    assert!(!map.point_in_fov(Point::new(1, 0)));
    assert!(!map.point_is_explored(Point::new(1, 0)));
    for (i, tile) in map.get_tiles().iter().enumerate() {
        assert_eq!(tile.is_visible, field[i]);
        assert_eq!(tile.is_explored, field[i]);
        assert_eq!(tile.tile_type, TileType::Wall);
    }
}

#[test]
fn explored_tiles_stay_explored() {
    let mut map = GameMap::new(3, 2);
    map.update_fov(&vec![true, false, false, false, true, false]);
    map.update_fov(&vec![false, true, false, false, false, false]);
    assert!(!map.point_in_fov(Point::new(0, 0)));
    assert!(map.point_is_explored(Point::new(0, 0)));
    assert!(map.point_in_fov(Point::new(1, 0)));
    assert!(map.point_is_explored(Point::new(1, 0)));
    assert!(!map.point_in_fov(Point::new(1, 1)));
    assert!(map.point_is_explored(Point::new(1, 1)));
    assert!(!map.point_is_explored(Point::new(2, 1)));
    map.update_fov(&vec![false; 6]);
    let explored: Vec<bool> = map.get_tiles().iter().map(|t| t.is_explored).collect();
    assert_eq!(explored, vec![true, true, false, false, true, false]);
    assert!(map.get_tiles().iter().all(|t| !t.is_visible));
}

#[test]
fn same_field_of_view_twice_changes_nothing() {
    let field = vec![true, false, true, false, true, false];
    let mut map = GameMap::new(3, 2);
    map.update_fov(&vec![false, false, false, true, false, false]);
    map.update_fov(&field);
    let once: Vec<Tile> = map.get_tiles().clone();
    map.update_fov(&field);
    assert_eq!(&once, map.get_tiles());
}
