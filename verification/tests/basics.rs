use dragonslayer::carve::create_room;
use dragonslayer::color::{dark_red, darker_green, desaturated_green, violet, Color};
use dragonslayer::event::{emit, message, Event};
use dragonslayer::fov::{mark_explored, FovMap, Grid};
use dragonslayer::object::Object;
use dragonslayer::populate::{spawn_monster, spawn_potion};
use dragonslayer::rect::Rect;
use dragonslayer::tile::{Tile, TileMap};
use dragonslayer::ui::{draw_order, inventory_index, inventory_options, join_names};
use dragonslayer::ui::{menu_index, menu_letter, names_at};

#[test]
fn rect_new_adds_width_and_height() {
    let r = Rect::new(3, 4, 10, 6);
    assert_eq!(r, Rect { x1: 3, y1: 4, x2: 13, y2: 10 });
    let flat = Rect::new(3, 4, 0, -2);
    assert_eq!(flat, Rect { x1: 3, y1: 4, x2: 3, y2: 2 });
}

#[test]
fn rect_center_rounds_toward_zero() {
    assert_eq!(Rect::new(0, 0, 10, 6).center(), (5, 3));
    assert_eq!(Rect::new(3, 4, 7, 5).center(), (6, 6));
    assert_eq!(Rect::new(-7, -5, 4, 2).center(), (-5, -4));
    assert_eq!(Rect::new(-3, -3, 4, 4).center(), (-1, -1));
    assert_eq!(Rect::new(-4, -4, 3, 3).center(), (-2, -2));
    let wide = Rect { x1: i32::MAX - 2, x2: i32::MAX, y1: i32::MIN, y2: i32::MIN + 3 };
    assert_eq!(wide.center(), (i32::MAX - 1, i32::MIN + 2));
}

#[test]
fn rect_intersection_is_inclusive() {
    let a = Rect::new(0, 0, 5, 5);
    assert!(a.intersects_with(&a));
    assert!(a.intersects_with(&Rect::new(5, 5, 3, 3)));
    assert!(a.intersects_with(&Rect::new(5, 0, 3, 3)));
    assert!(a.intersects_with(&Rect::new(2, 2, 1, 1)));
    assert!(Rect::new(2, 2, 1, 1).intersects_with(&a));
    assert!(!a.intersects_with(&Rect::new(6, 0, 3, 3)));
    assert!(!a.intersects_with(&Rect::new(0, 6, 3, 3)));
    assert!(!Rect::new(-4, 0, 3, 3).intersects_with(&a));
}

#[test]
fn tiles_start_unexplored() {
    assert_eq!(Tile::empty(), Tile { blocked: false, block_sight: false, explored: false });
    assert_eq!(Tile::wall(), Tile { blocked: true, block_sight: true, explored: false });
}

#[test]
fn new_map_is_solid_rock() {
    let map = TileMap::new(7, 3);
    assert_eq!(map.tiles.len(), 7);
    for column in &map.tiles {
        assert_eq!(column.len(), 3);
        assert!(column.iter().all(|t| *t == Tile::wall()));
    }
    assert!(TileMap::new(0, 5).tiles.is_empty());
}

#[test]
fn map_cells_are_read_and_written_by_coordinates() {
    let mut map = TileMap::new(4, 6);
    map.set(3, 5, Tile::empty());
    assert_eq!(map.get(3, 5), Tile::empty());
    assert_eq!(map.get(2, 5), Tile::wall());
    assert_eq!(map.tiles[3][5], Tile::empty());
    assert!(!map.is_explored(3, 5));
}

#[test]
fn object_new_has_no_capabilities() {
    let o = Object::new(3, 9, 'x', "thing", Color { r: 1, g: 2, b: 3 }, true);
    assert_eq!((o.x, o.y), (3, 9));
    assert_eq!(o.pos(), (3, 9));
    assert_eq!(o.glyph, 'x');
    assert_eq!(o.name, "thing");
    assert_eq!(o.color, Color { r: 1, g: 2, b: 3 });
    assert!(o.blocks);
    assert!(!o.alive);
    assert!(o.fighter.is_none() && o.ai.is_none() && o.item.is_none());
}

#[test]
fn set_pos_changes_the_position_only() {
    let mut o = spawn_monster(1, 1, 0);
    o.set_pos(-4, 17);
    assert_eq!(o, spawn_monster(-4, 17, 0));
}

#[test]
fn colours_have_their_components() {
    assert_eq!(dark_red(), Color { r: 191, g: 0, b: 0 });
    assert_eq!(desaturated_green(), Color { r: 63, g: 127, b: 63 });
    assert_eq!(darker_green(), Color { r: 0, g: 127, b: 0 });
    assert_eq!(violet(), Color { r: 127, g: 0, b: 255 });
}

#[test]
fn tracker_is_derived_from_the_map() {
    let mut map = TileMap::new(6, 5);
    create_room(Rect::new(0, 0, 4, 3), &mut map);
    map.set(4, 3, Tile { blocked: true, block_sight: false, explored: false });
    let fov = FovMap::setup(&map);
    assert_eq!((fov.width, fov.height), (6, 5));
    for x in 0..6i32 {
        for y in 0..5i32 {
            let t = map.get(x as usize, y as usize);
            assert_eq!(fov.is_transparent(x, y), !t.block_sight);
            assert_eq!(fov.is_walkable(x, y), !t.blocked);
            assert!(!fov.is_in_fov(x, y));
        }
    }
    assert!(fov.is_transparent(4, 3) && !fov.is_walkable(4, 3));
    assert!(fov.is_walkable(1, 1) && !fov.is_walkable(0, 0));
}

#[test]
fn visibility_is_set_cell_by_cell() {
    let map = TileMap::new(4, 4);
    let mut fov = FovMap::setup(&map);
    fov.set_in_fov(2, 3, true);
    for x in 0..4 {
        for y in 0..4 {
            assert_eq!(fov.is_in_fov(x, y), (x, y) == (2, 3));
        }
    }
    fov.set_in_fov(2, 3, false);
    assert!(!fov.is_in_fov(2, 3));
}

#[test]
fn grid_is_filled_and_set() {
    let mut g = Grid::filled(3, 2, true);
    assert_eq!(g.cells, vec![vec![true, true]; 3]);
    g.set(1, 0, false);
    assert_eq!(g.cells, vec![vec![true, true], vec![false, true], vec![true, true]]);
}

#[test]
fn explored_is_a_one_way_latch() {
    let mut map = TileMap::new(5, 5);
    create_room(Rect::new(0, 0, 4, 4), &mut map);
    let mut fov = FovMap::setup(&map);
    fov.set_in_fov(1, 1, true);
    fov.set_in_fov(0, 0, true);
    mark_explored(&mut map, &fov);
    assert!(map.is_explored(1, 1) && map.is_explored(0, 0));
    assert!(!map.is_explored(2, 2));
    assert_eq!(map.get(1, 1), Tile { explored: true, ..Tile::empty() });
    assert_eq!(map.get(0, 0), Tile { explored: true, ..Tile::wall() });
    fov.set_in_fov(1, 1, false);
    fov.set_in_fov(0, 0, false);
    fov.set_in_fov(2, 2, true);
    mark_explored(&mut map, &fov);
    assert!(map.is_explored(1, 1) && map.is_explored(0, 0) && map.is_explored(2, 2));
    let empty = FovMap::setup(&map);
    mark_explored(&mut map, &empty);
    let explored: usize =
        map.tiles.iter().map(|c| c.iter().filter(|t| t.explored).count()).sum();
    assert_eq!(explored, 3);
}

#[test]
fn events_are_appended_in_order() {
    let mut events = Vec::new();
    emit(&mut events, Event::Healed);
    emit(&mut events, Event::Cancelled);
    assert_eq!(events, vec![Event::Healed, Event::Cancelled]);
}

#[test]
fn message_buffer_keeps_the_last_six_lines() {
    let white = Color { r: 255, g: 255, b: 255 };
    let mut log = Vec::new();
    for i in 0..6 {
        message(&mut log, format!("line {}", i), white);
    }
    assert_eq!(log.len(), 6);
    assert_eq!(log[0].0, "line 0");
    message(&mut log, "line 6".to_string(), dark_red());
    assert_eq!(log.len(), 6);
    assert_eq!(log[0].0, "line 1");
    assert_eq!(log[5], ("line 6".to_string(), dark_red()));
    message(&mut log, "line 7".to_string(), white);
    let texts: Vec<&str> = log.iter().map(|m| m.0.as_str()).collect();
    assert_eq!(texts, vec!["line 2", "line 3", "line 4", "line 5", "line 6", "line 7"]);
}

#[test]
fn menu_letters_select_their_options() {
    for i in 0..26 {
        let c = menu_letter(i);
        assert_eq!(c, (b'a' + i as u8) as char);
        assert_eq!(menu_index(c, 26), Some(i));
        assert_eq!(menu_index(c.to_ascii_uppercase(), 26), Some(i));
    }
}

#[test]
fn menu_ignores_keys_beyond_its_options() {
    assert_eq!(menu_index('c', 3), Some(2));
    assert_eq!(menu_index('d', 3), None);
    assert_eq!(menu_index('a', 0), None);
    assert_eq!(menu_index('1', 26), None);
    assert_eq!(menu_index(' ', 26), None);
    assert_eq!(menu_index('\0', 26), None);
    assert_eq!(menu_index('`', 26), None);
    assert_eq!(menu_index('{', 26), None);
    assert_eq!(menu_index('@', 26), None);
    assert_eq!(menu_index('[', 26), None);
    assert_eq!(menu_index('é', 26), None);
}

#[test]
fn menu_agrees_with_alphabetic_lowercase_decoding() {
    for code in 0u32..0x3000 {
        if let Some(c) = char::from_u32(code) {
            for n in [0usize, 1, 13, 26] {
                let expected = if c.is_alphabetic() {
                    let index = (c.to_ascii_lowercase() as usize).wrapping_sub('a' as usize);
                    if index < n { Some(index) } else { None }
                } else {
                    None
                };
                assert_eq!(menu_index(c, n), expected);
            }
        }
    }
}

#[test]
fn empty_inventory_offers_a_placeholder_and_selects_nothing() {
    let inventory: Vec<Object> = Vec::new();
    assert_eq!(inventory_options(&inventory), vec!["Inventory is empty".to_string()]);
    assert_eq!(inventory_index('a', &inventory), None);
}

#[test]
fn inventory_menu_lists_names_and_selects_by_letter() {
    let inventory = vec![spawn_potion(0, 0), spawn_monster(0, 0, 0), spawn_potion(1, 1)];
    assert_eq!(
        inventory_options(&inventory),
        vec!["healing potion".to_string(), "orc".to_string(), "healing potion".to_string()]
    );
    assert_eq!(inventory_index('b', &inventory), Some(1));
    assert_eq!(inventory_index('C', &inventory), Some(2));
    assert_eq!(inventory_index('d', &inventory), None);
}

#[test]
fn names_under_the_cursor_are_those_in_view() {
    let map = TileMap::new(6, 6);
    let mut fov = FovMap::setup(&map);
    let objects = vec![
        spawn_monster(2, 2, 0),
        spawn_potion(3, 3),
        spawn_potion(2, 2),
        spawn_monster(2, 2, 99),
    ];
    assert!(names_at(2, 2, &objects, &fov).is_empty());
    fov.set_in_fov(2, 2, true);
    let names = names_at(2, 2, &objects, &fov);
    assert_eq!(names, vec!["orc".to_string(), "healing potion".to_string(), "troll".to_string()]);
    assert_eq!(join_names(&names), "orc, healing potion, troll");
    assert!(names_at(3, 3, &objects, &fov).is_empty());
    assert!(names_at(4, 4, &objects, &fov).is_empty());
}

#[test]
fn names_are_joined_with_commas() {
    assert_eq!(join_names(&Vec::new()), "");
    assert_eq!(join_names(&vec!["orc".to_string()]), "orc");
    assert_eq!(join_names(&vec!["a".to_string(), "".to_string(), "b".to_string()]), "a, , b");
}

#[test]
fn blocking_entities_are_drawn_last() {
    let map = TileMap::new(8, 8);
    let mut fov = FovMap::setup(&map);
    let objects = vec![
        spawn_monster(1, 1, 0),
        spawn_potion(2, 2),
        spawn_monster(3, 3, 0),
        spawn_potion(4, 4),
        spawn_potion(1, 1),
        spawn_monster(5, 5, 99),
    ];
    assert!(draw_order(&objects, &fov).is_empty());
    for (x, y) in [(1, 1), (2, 2), (4, 4), (5, 5)] {
        fov.set_in_fov(x, y, true);
    }
    assert_eq!(draw_order(&objects, &fov), vec![1, 3, 4, 0, 5]);
}
