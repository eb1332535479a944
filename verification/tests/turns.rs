use dragonslayer::carve::create_room;
use dragonslayer::color::Color;
use dragonslayer::event::Event;
use dragonslayer::fov::FovMap;
use dragonslayer::object::{DeathCallBack, Fighter, Object};
use dragonslayer::populate::{spawn_monster, spawn_potion};
use dragonslayer::rect::Rect;
use dragonslayer::schedule::{monsters_take_turns, tick};
use dragonslayer::tile::TileMap;
use dragonslayer::turn::{find_item, handle_keys, Command, Direction, PlayerAction};

fn player_at(x: i32, y: i32) -> Object {
    let mut p = Object::new(x, y, '@', "player", Color { r: 255, g: 255, b: 255 }, true);
    p.alive = true;
    p.fighter = Some(Fighter {
        max_hp: 30,
        hp: 30,
        defense: 2,
        power: 5,
        on_death: DeathCallBack::Player,
    });
    p
}

fn open_map() -> TileMap {
    let mut map = TileMap::new(12, 12);
    create_room(Rect::new(0, 0, 11, 11), &mut map);
    map
}

fn all_visible(map: &TileMap) -> FovMap {
    let mut fov = FovMap::setup(map);
    for x in 0..fov.width {
        for y in 0..fov.height {
            fov.set_in_fov(x as i32, y as i32, true);
        }
    }
    fov
}

#[test]
fn directions_have_their_deltas() {
    assert_eq!(Direction::Up.delta(), (0, -1));
    assert_eq!(Direction::Down.delta(), (0, 1));
    assert_eq!(Direction::Left.delta(), (-1, 0));
    assert_eq!(Direction::Right.delta(), (1, 0));
}

#[test]
fn a_step_takes_a_turn() {
    let map = open_map();
    let mut objects = vec![player_at(5, 5)];
    let mut events = Vec::new();
    let mut inventory = Vec::new();
    let moves = [
        (Direction::Up, (5, 4)),
        (Direction::Left, (4, 4)),
        (Direction::Down, (4, 5)),
        (Direction::Right, (5, 5)),
    ];
    for (d, expected) in moves {
        let action =
            handle_keys(Command::Move(d), &mut objects, &map, &mut events, &mut inventory);
        assert_eq!(action, PlayerAction::TookTurn);
        assert_eq!(objects[0].pos(), expected);
    }
}

#[test]
fn a_step_into_a_wall_still_takes_a_turn() {
    let map = open_map();
    let mut objects = vec![player_at(1, 1)];
    let mut events = Vec::new();
    let mut inventory = Vec::new();
    let action =
        handle_keys(Command::Move(Direction::Up), &mut objects, &map, &mut events, &mut inventory);
    assert_eq!(action, PlayerAction::TookTurn);
    assert_eq!(objects[0].pos(), (1, 1));
    assert_eq!(events, vec![Event::MoveBlocked]);
}

#[test]
fn a_dead_player_does_not_act() {
    let map = open_map();
    let mut dead = player_at(5, 5);
    dead.alive = false;
    let mut objects = vec![dead, spawn_potion(5, 5), spawn_monster(5, 4, 0)];
    let before = objects.clone();
    let mut events = Vec::new();
    let mut inventory = vec![spawn_potion(0, 0)];
    for command in [Command::Move(Direction::Up), Command::PickUp, Command::UseItem(0)] {
        let action = handle_keys(command, &mut objects, &map, &mut events, &mut inventory);
        assert_eq!(action, PlayerAction::DidntTakeTurn);
    }
    assert_eq!(objects, before);
    assert_eq!(inventory, vec![spawn_potion(0, 0)]);
    assert!(events.is_empty());
}

#[test]
fn exit_is_honoured_alive_or_dead() {
    let map = open_map();
    let mut events = Vec::new();
    let mut inventory = Vec::new();
    let mut objects = vec![player_at(5, 5)];
    assert_eq!(
        handle_keys(Command::Exit, &mut objects, &map, &mut events, &mut inventory),
        PlayerAction::Exit
    );
    objects[0].alive = false;
    assert_eq!(
        handle_keys(Command::Exit, &mut objects, &map, &mut events, &mut inventory),
        PlayerAction::Exit
    );
}

#[test]
fn display_toggle_and_unknown_keys_take_no_turn() {
    let map = open_map();
    let mut objects = vec![player_at(5, 5), spawn_monster(5, 6, 0)];
    let before = objects.clone();
    let mut events = Vec::new();
    let mut inventory = Vec::new();
    for command in [Command::ToggleFullscreen, Command::Nothing] {
        assert_eq!(
            handle_keys(command, &mut objects, &map, &mut events, &mut inventory),
            PlayerAction::DidntTakeTurn
        );
    }
    assert_eq!(objects, before);
    assert!(events.is_empty());
}

#[test]
fn pick_up_takes_the_first_item_underfoot_and_no_turn() {
    let map = open_map();
    let mut objects = vec![
        player_at(5, 5),
        spawn_potion(4, 4),
        spawn_potion(5, 5),
        spawn_monster(8, 8, 0),
    ];
    assert_eq!(find_item(&objects, 5, 5), Some(2));
    assert_eq!(find_item(&objects, 8, 8), None);
    let mut events = Vec::new();
    let mut inventory = Vec::new();
    let action = handle_keys(Command::PickUp, &mut objects, &map, &mut events, &mut inventory);
    assert_eq!(action, PlayerAction::DidntTakeTurn);
    assert_eq!(objects, vec![player_at(5, 5), spawn_potion(4, 4), spawn_monster(8, 8, 0)]);
    assert_eq!(inventory, vec![spawn_potion(5, 5)]);
    assert_eq!(events, vec![Event::PickedUp { name: "healing potion".to_string() }]);
}

#[test]
fn pick_up_with_nothing_underfoot_does_nothing() {
    let map = open_map();
    let mut objects = vec![player_at(5, 5), spawn_potion(4, 4)];
    let before = objects.clone();
    let mut events = Vec::new();
    let mut inventory = Vec::new();
    let action = handle_keys(Command::PickUp, &mut objects, &map, &mut events, &mut inventory);
    assert_eq!(action, PlayerAction::DidntTakeTurn);
    assert_eq!(objects, before);
    assert!(inventory.is_empty());
    assert_eq!(events, vec![Event::NothingToPickUp]);
}

#[test]
fn using_an_entry_that_does_not_exist_is_reported() {
    let map = open_map();
    let mut hurt = player_at(5, 5);
    hurt.fighter = Some(Fighter { hp: 20, ..hurt.fighter.unwrap() });
    let mut objects = vec![hurt.clone()];
    let mut events = Vec::new();
    let mut inventory = vec![spawn_potion(0, 0)];
    let action =
        handle_keys(Command::UseItem(1), &mut objects, &map, &mut events, &mut inventory);
    assert_eq!(action, PlayerAction::DidntTakeTurn);
    assert_eq!(objects, vec![hurt]);
    assert_eq!(inventory, vec![spawn_potion(0, 0)]);
    assert_eq!(events, vec![Event::EmptySlot]);
}

#[test]
fn pick_up_with_full_inventory_leaves_the_item_on_the_map() {
    let map = open_map();
    let mut objects = vec![player_at(5, 5), spawn_potion(5, 5)];
    let before = objects.clone();
    let mut events = Vec::new();
    let mut inventory: Vec<Object> = (0..26).map(|i| spawn_potion(i, 0)).collect();
    let action = handle_keys(Command::PickUp, &mut objects, &map, &mut events, &mut inventory);
    assert_eq!(action, PlayerAction::DidntTakeTurn);
    assert_eq!(objects, before);
    assert_eq!(inventory.len(), 26);
    assert_eq!(events, vec![Event::InventoryFull { name: "healing potion".to_string() }]);
}

#[test]
fn using_an_item_takes_no_turn() {
    let map = open_map();
    let mut hurt = player_at(5, 5);
    hurt.fighter = Some(Fighter { hp: 20, ..hurt.fighter.unwrap() });
    let mut objects = vec![hurt];
    let mut events = Vec::new();
    let mut inventory = vec![spawn_potion(0, 0)];
    let action =
        handle_keys(Command::UseItem(0), &mut objects, &map, &mut events, &mut inventory);
    assert_eq!(action, PlayerAction::DidntTakeTurn);
    assert_eq!(objects[0].fighter.unwrap().hp, 24);
    assert!(inventory.is_empty());
    assert_eq!(events, vec![Event::Healed]);
}

#[test]
fn monsters_act_in_registry_order() {
    let map = open_map();
    let fov = all_visible(&map);
    let mut objects = vec![
        player_at(8, 5),
        spawn_monster(5, 5, 0),
        spawn_potion(7, 5),
        spawn_monster(4, 5, 0),
        spawn_monster(8, 6, 99),
    ];
    let mut events = Vec::new();
    monsters_take_turns(&map, &mut objects, &fov, &mut events);
    assert_eq!(objects[1].pos(), (6, 5));
    assert_eq!(objects[3].pos(), (5, 5));
    assert_eq!(objects[2], spawn_potion(7, 5));
    assert_eq!(objects[4].pos(), (8, 6));
    assert_eq!(objects[0].fighter.unwrap().hp, 28);
    assert_eq!(
        events,
        vec![Event::Attacked {
            attacker: "troll".to_string(),
            target: "player".to_string(),
            damage: 2
        }]
    );
}

#[test]
fn tick_runs_the_monsters_after_a_step() {
    let map = open_map();
    let fov = all_visible(&map);
    let mut objects = vec![player_at(5, 5), spawn_monster(5, 8, 0)];
    let mut inventory = Vec::new();
    let mut events = Vec::new();
    let action = tick(
        Command::Move(Direction::Up),
        &map,
        &mut objects,
        &mut inventory,
        &fov,
        &mut events,
    );
    assert_eq!(action, PlayerAction::TookTurn);
    assert_eq!(objects[0].pos(), (5, 4));
    assert_eq!(objects[1].pos(), (5, 7));
}

#[test]
fn tick_gives_the_world_no_time_without_a_turn() {
    let map = open_map();
    let fov = all_visible(&map);
    let mut objects = vec![player_at(5, 5), spawn_monster(5, 6, 0), spawn_potion(5, 5)];
    let mut inventory = Vec::new();
    let mut events = Vec::new();
    for command in [Command::Nothing, Command::ToggleFullscreen, Command::PickUp, Command::Exit] {
        tick(command, &map, &mut objects, &mut inventory, &fov, &mut events);
    }
    assert_eq!(objects, vec![player_at(5, 5), spawn_monster(5, 6, 0)]);
    assert_eq!(inventory, vec![spawn_potion(5, 5)]);
    assert_eq!(events, vec![Event::PickedUp { name: "healing potion".to_string() }]);
}

#[test]
fn a_fight_to_the_death_ends_with_one_death() {
    let map = open_map();
    let fov = all_visible(&map);
    let mut objects = vec![player_at(5, 5), spawn_monster(6, 5, 99)];
    let mut inventory = Vec::new();
    let mut events = Vec::new();
    for _ in 0..4 {
        tick(
            Command::Move(Direction::Right),
            &map,
            &mut objects,
            &mut inventory,
            &fov,
            &mut events,
        );
    }
    assert_eq!(objects[1].name, "remains of troll");
    assert_eq!(objects[0].fighter.unwrap().hp, 24);
    assert_eq!(objects[0].pos(), (5, 5));
    assert_eq!(events.iter().filter(|e| matches!(e, Event::MonsterDied { .. })).count(), 1);
    tick(Command::Move(Direction::Right), &map, &mut objects, &mut inventory, &fov, &mut events);
    assert_eq!(objects[0].pos(), (6, 5));
    assert_eq!(events.iter().filter(|e| matches!(e, Event::MonsterDied { .. })).count(), 1);
}

#[test]
fn monsters_stop_once_the_player_is_dead() {
    let map = open_map();
    let fov = all_visible(&map);
    let mut weak = player_at(1, 1);
    weak.fighter = Some(Fighter { hp: 2, ..weak.fighter.unwrap() });
    let mut objects = vec![weak, spawn_monster(1, 2, 99), spawn_monster(8, 8, 0)];
    let mut inventory = Vec::new();
    let mut events = Vec::new();
    let action =
        tick(Command::Move(Direction::Left), &map, &mut objects, &mut inventory, &fov, &mut events);
    assert_eq!(action, PlayerAction::TookTurn);
    assert_eq!(objects[0].pos(), (1, 1));
    assert!(!objects[0].alive);
    assert_eq!(objects[0].fighter.unwrap().hp, 0);
    assert_eq!(objects[2].pos(), (7, 7));
    let after = objects.clone();
    let action =
        tick(Command::Move(Direction::Left), &map, &mut objects, &mut inventory, &fov, &mut events);
    assert_eq!(action, PlayerAction::DidntTakeTurn);
    assert_eq!(objects, after);
    assert_eq!(events.iter().filter(|e| **e == Event::PlayerDied).count(), 1);
}
