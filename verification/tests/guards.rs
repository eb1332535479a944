use dragonslayer::carve::create_room;
use dragonslayer::color::Color;
use dragonslayer::dungeon::make_map;
use dragonslayer::event::Event;
use dragonslayer::fov::{mark_explored, FovMap};
use dragonslayer::generate::MapConfig;
use dragonslayer::guard::{checked_tick, command_is_fit, is_on_map, roster_is_ok, world_is_ok};
use dragonslayer::object::{Ai, DeathCallBack, Fighter, Item, Object};
use dragonslayer::populate::{spawn_monster, spawn_potion};
use dragonslayer::rect::Rect;
use dragonslayer::tile::{Tile, TileMap};
use dragonslayer::turn::{Command, Direction, PlayerAction};

fn config() -> MapConfig {
    MapConfig {
        width: 80,
        height: 43,
        max_rooms: 30,
        room_min_size: 6,
        room_max_size: 10,
        max_room_monsters: 3,
        max_room_items: 2,
    }
}

fn player_at(x: i32, y: i32) -> Object {
    let mut p = Object::new(x, y, '@', "player", Color { r: 255, g: 255, b: 255 }, true);
    p.alive = true;
    p.fighter = Some(Fighter {
        max_hp: 30,
        hp: 30,
        defense: 2,
        power: 5,
        on_death: DeathCallBack::Player,
    });
    p
}

fn open_map() -> TileMap {
    let mut map = TileMap::new(12, 12);
    create_room(Rect::new(0, 0, 11, 11), &mut map);
    map
}

#[test]
fn configuration_validity_is_decided() {
    assert!(config().is_valid());
    assert!(MapConfig { max_rooms: 0, ..config() }.is_valid());
    assert!(MapConfig { room_min_size: 2, room_max_size: 2, width: 3, height: 3, ..config() }
        .is_valid());
    assert!(!MapConfig { room_min_size: 1, ..config() }.is_valid());
    assert!(!MapConfig { room_min_size: 11, ..config() }.is_valid());
    assert!(!MapConfig { width: 10, ..config() }.is_valid());
    assert!(!MapConfig { height: 10, ..config() }.is_valid());
    assert!(!MapConfig { max_rooms: -1, ..config() }.is_valid());
    assert!(!MapConfig { max_room_monsters: -1, ..config() }.is_valid());
    assert!(!MapConfig { max_room_items: i32::MAX, ..config() }.is_valid());
}

#[test]
fn ragged_map_is_not_well_formed() {
    let mut map = TileMap::new(4, 4);
    assert!(map.is_wf());
    map.tiles[2].pop();
    assert!(!map.is_wf());
    assert!(TileMap { tiles: Vec::new() }.is_wf());
    assert!(!TileMap { tiles: vec![Vec::new(), vec![Tile::wall()]] }.is_wf());
}

#[test]
fn tracker_shape_is_checked() {
    let map = open_map();
    let mut fov = FovMap::setup(&map);
    assert!(fov.is_wf());
    assert!(fov.is_cover_of(&map));
    assert!(!fov.is_cover_of(&TileMap::new(12, 11)));
    assert!(!fov.is_cover_of(&TileMap::new(11, 12)));
    fov.visible.cells[3].pop();
    assert!(!fov.is_wf());
    let mut other = FovMap::setup(&map);
    other.height = 11;
    assert!(!other.is_wf());
}

#[test]
fn standing_on_the_map_includes_the_edge() {
    let map = open_map();
    assert!(is_on_map(&player_at(1, 1), &map));
    assert!(is_on_map(&player_at(0, 0), &map));
    assert!(is_on_map(&player_at(11, 11), &map));
    assert!(is_on_map(&player_at(0, 11), &map));
    assert!(!is_on_map(&player_at(12, 5), &map));
    assert!(!is_on_map(&player_at(5, 12), &map));
    assert!(!is_on_map(&player_at(-1, 5), &map));
    assert!(!is_on_map(&player_at(5, -1), &map));
    assert!(!is_on_map(&player_at(0, 0), &TileMap { tiles: Vec::new() }));
    assert!(!is_on_map(&player_at(0, 0), &TileMap { tiles: vec![Vec::new()] }));
}

#[test]
fn roster_needs_a_player_who_is_no_monster() {
    let map = open_map();
    assert!(!roster_is_ok(&map, &Vec::new()));
    assert!(roster_is_ok(&map, &vec![player_at(0, 0)]));
    assert!(!roster_is_ok(&map, &vec![player_at(12, 0)]));
    assert!(roster_is_ok(&map, &vec![player_at(5, 5), spawn_monster(1, 1, 0)]));
    assert!(roster_is_ok(&map, &vec![player_at(5, 5), spawn_monster(0, 1, 0)]));
    assert!(!roster_is_ok(&map, &vec![player_at(5, 5), spawn_monster(-1, 1, 0)]));
    assert!(roster_is_ok(&map, &vec![player_at(5, 5), spawn_potion(-1, 1)]));
    let mut possessed = player_at(5, 5);
    possessed.ai = Some(Ai);
    assert!(!roster_is_ok(&map, &vec![possessed]));
}

#[test]
fn world_needs_every_part() {
    let map = open_map();
    let fov = FovMap::setup(&map);
    let objects = vec![player_at(5, 5), spawn_monster(3, 3, 0)];
    assert!(world_is_ok(&map, &fov, &objects));
    assert!(world_is_ok(&map, &fov, &vec![player_at(0, 0)]));
    assert!(!world_is_ok(&map, &fov, &Vec::new()));
    assert!(!world_is_ok(&map, &fov, &vec![player_at(12, 12)]));
    assert!(!world_is_ok(&TileMap::new(12, 11), &fov, &objects));
    let mut ragged = open_map();
    ragged.tiles[4].pop();
    assert!(!world_is_ok(&ragged, &fov, &objects));
    let mut carried = player_at(5, 5);
    carried.item = Some(Item::Heal);
    assert!(!world_is_ok(&map, &fov, &vec![carried]));
}

#[test]
fn commands_fit_when_they_can_be_carried_out() {
    let map = TileMap::new(3, 3);
    let objects = vec![player_at(0, 2)];
    assert!(command_is_fit(Command::Move(Direction::Up), &map, &objects));
    assert!(command_is_fit(Command::Move(Direction::Right), &map, &objects));
    assert!(!command_is_fit(Command::Move(Direction::Left), &map, &objects));
    assert!(!command_is_fit(Command::Move(Direction::Down), &map, &objects));
    assert!(command_is_fit(Command::UseItem(0), &map, &objects));
    assert!(command_is_fit(Command::UseItem(7), &map, &objects));
    assert!(command_is_fit(Command::PickUp, &map, &objects));
    assert!(command_is_fit(Command::Exit, &map, &objects));
    let mut dead = player_at(0, 2);
    dead.alive = false;
    assert!(command_is_fit(Command::Move(Direction::Left), &map, &vec![dead]));
}

#[test]
fn checked_tick_refuses_and_changes_nothing() {
    let map = TileMap::new(3, 3);
    let fov = FovMap::setup(&map);
    let mut objects = vec![player_at(0, 1), spawn_monster(1, 1, 0)];
    let mut inventory = vec![spawn_potion(0, 0)];
    let mut events = vec![Event::Healed];
    let r = checked_tick(
        Command::Move(Direction::Left),
        &map,
        &mut objects,
        &mut inventory,
        &fov,
        &mut events,
    );
    assert_eq!(r, None);
    assert_eq!(objects, vec![player_at(0, 1), spawn_monster(1, 1, 0)]);
    assert_eq!(inventory, vec![spawn_potion(0, 0)]);
    assert_eq!(events, vec![Event::Healed]);
    let mut nobody = Vec::new();
    let r = checked_tick(Command::Nothing, &map, &mut nobody, &mut inventory, &fov, &mut events);
    assert_eq!(r, None);
    let mut outside = vec![player_at(3, 0)];
    let r = checked_tick(Command::Exit, &map, &mut outside, &mut inventory, &fov, &mut events);
    assert_eq!(r, None);
    assert_eq!(events, vec![Event::Healed]);
}

#[test]
fn checked_tick_reports_refused_actions() {
    let map = open_map();
    let fov = FovMap::setup(&map);
    let mut objects = vec![player_at(1, 1)];
    let mut inventory = Vec::new();
    let mut events = Vec::new();
    for command in [Command::Move(Direction::Up), Command::PickUp, Command::UseItem(0)] {
        let r = checked_tick(command, &map, &mut objects, &mut inventory, &fov, &mut events);
        assert!(r.is_some());
    }
    assert_eq!(objects, vec![player_at(1, 1)]);
    assert_eq!(events, vec![Event::MoveBlocked, Event::NothingToPickUp, Event::EmptySlot]);
}

#[test]
fn checked_tick_runs_a_tick_when_all_is_well() {
    let map = open_map();
    let mut fov = FovMap::setup(&map);
    fov.set_in_fov(5, 8, true);
    let mut objects = vec![player_at(5, 5), spawn_monster(5, 8, 0)];
    let mut inventory = Vec::new();
    let mut events = Vec::new();
    let r = checked_tick(
        Command::Move(Direction::Down),
        &map,
        &mut objects,
        &mut inventory,
        &fov,
        &mut events,
    );
    assert_eq!(r, Some(PlayerAction::TookTurn));
    assert_eq!(objects[0].pos(), (5, 6));
    assert_eq!(objects[1].pos(), (5, 7));
    assert_eq!(objects[0].fighter.unwrap().hp, 30);
    assert!(events.is_empty());
    let r = checked_tick(
        Command::Move(Direction::Up),
        &map,
        &mut objects,
        &mut inventory,
        &fov,
        &mut events,
    );
    assert_eq!(r, Some(PlayerAction::TookTurn));
    assert_eq!(objects[0].pos(), (5, 5));
    assert_eq!(objects[1].pos(), (5, 7));
    assert_eq!(
        checked_tick(Command::Exit, &map, &mut objects, &mut inventory, &fov, &mut events),
        Some(PlayerAction::Exit)
    );
}

#[test]
fn generated_world_is_what_a_tick_relies_on() {
    for _ in 0..25 {
        let mut objects = vec![player_at(0, 0)];
        let level = make_map(&mut objects, &config());
        let fov = FovMap::setup(&level.map);
        assert!(world_is_ok(&level.map, &fov, &objects));
    }
}

#[test]
fn a_long_game_keeps_its_invariants() {
    for round in 0..10u32 {
        let mut objects = vec![player_at(0, 0)];
        let level = make_map(&mut objects, &config());
        let mut map = level.map;
        let mut fov = FovMap::setup(&map);
        let mut inventory = Vec::new();
        let mut events = Vec::new();
        let mut explored = vec![vec![false; 43]; 80];
        let mut deaths = 0;
        let mut state = 12345u32 + round;
        for step in 0..400 {
            let (px, py) = objects[0].pos();
            for x in 0..80i32 {
                for y in 0..43i32 {
                    let near = (x - px).abs() + (y - py).abs() <= 6 && (x + y + step) % 3 != 0;
                    fov.set_in_fov(x, y, near);
                }
            }
            mark_explored(&mut map, &fov);
            for x in 0..80usize {
                for y in 0..43usize {
                    let now = map.tiles[x][y].explored;
                    assert!(now || !explored[x][y]);
                    assert_eq!(now, explored[x][y] || fov.is_in_fov(x as i32, y as i32));
                    explored[x][y] = now;
                }
            }
            state = state.wrapping_mul(1664525).wrapping_add(1013904223);
            let command = match (state >> 16) % 7 {
                0 => Command::Move(Direction::Up),
                1 => Command::Move(Direction::Down),
                2 => Command::Move(Direction::Left),
                3 => Command::Move(Direction::Right),
                4 => Command::PickUp,
                5 if !inventory.is_empty() => Command::UseItem(0),
                _ => Command::Nothing,
            };
            let before = events.len();
            let r = checked_tick(command, &map, &mut objects, &mut inventory, &fov, &mut events);
            assert!(r.is_some());
            deaths += events[before..].iter().filter(|e| **e == Event::PlayerDied).count();
            assert!(inventory.len() <= 26);
            for o in &objects {
                assert!(!map.tiles[o.x as usize][o.y as usize].blocked);
                if let Some(f) = o.fighter {
                    assert!(0 <= f.hp && f.hp <= f.max_hp);
                }
                assert_eq!(o.name.starts_with("remains of remains"), false);
            }
            for i in 0..objects.len() {
                for j in (i + 1)..objects.len() {
                    if objects[i].blocks && objects[j].blocks && i != 0 {
                        assert!(objects[i].pos() != objects[j].pos());
                    }
                }
            }
        }
        assert!(deaths <= 1);
    }
}
