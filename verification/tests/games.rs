use aabb_world::game::{Event, GameState, Key, Shot};
use aabb_world::player::Player;
use aabb_world::ray::HitTime;
use aabb_world::vector::Vec3;

const AHEAD: Vec3 = Vec3 { x: 0, y: 0, z: 1000 };

const ALL_KEYS: [Key; 11] = [
    Key::W,
    Key::A,
    Key::S,
    Key::D,
    Key::Q,
    Key::E,
    Key::R,
    Key::LShift,
    Key::Space,
    Key::Tab,
    Key::Escape,
];

fn held(game: &GameState) -> Vec<Key> {
    ALL_KEYS.iter().copied().filter(|key| game.key_down(*key)).collect()
}

fn settle(game: &mut GameState) {
    for _ in 0..200 {
        assert!(game.update(AHEAD, 16));
    }
    assert!(game.player.grounded);
    assert_eq!(game.player.position.y, 1500);
}

#[test]
fn new_game_starts_behind_the_origin() {
    let game = GameState::new();
    assert!(game.running());
    assert!(game.pressed_keys.is_empty());
    assert_eq!(held(&game), vec![]);
    assert_eq!(
        game.player,
        Player {
            position: Vec3::new(0, 1000, -2000),
            velocity: Vec3::new(0, 0, 0),
            size: 1000,
            grounded: false,
        }
    );
    assert_eq!(game.world.rooms.len(), 1);
    assert_eq!(game.world.passages.len(), 0);
}

#[test]
fn keys_are_held_until_released() {
    let mut game = GameState::new();
    assert_eq!(game.handle_event(Event::KeyPressed(Key::W), AHEAD), None);
    assert_eq!(game.handle_event(Event::KeyPressed(Key::LShift), AHEAD), None);
    assert!(game.key_down(Key::W));
    assert!(game.key_down(Key::LShift));
    assert!(!game.key_down(Key::S));
    assert_eq!(held(&game), vec![Key::W, Key::LShift]);
    assert_eq!(game.pressed_keys.len(), 2);
    game.handle_event(Event::KeyReleased(Key::W), AHEAD);
    assert_eq!(held(&game), vec![Key::LShift]);
    game.handle_event(Event::KeyReleased(Key::W), AHEAD);
    assert_eq!(held(&game), vec![Key::LShift]);
    game.handle_event(Event::KeyPressed(Key::LShift), AHEAD);
    assert_eq!(game.pressed_keys.len(), 1);
    assert!(game.running());
}

#[test]
fn every_key_has_its_own_place() {
    for key in ALL_KEYS.iter() {
        let mut game = GameState::new();
        game.handle_event(Event::KeyPressed(*key), AHEAD);
        for other in ALL_KEYS.iter() {
            assert_eq!(game.key_down(*other), other == key);
            assert_eq!(other.code() == key.code(), other == key);
        }
        game.handle_event(Event::KeyReleased(*key), AHEAD);
        assert!(game.pressed_keys.is_empty());
    }
    assert_eq!(Key::W.code(), 0);
    assert_eq!(Key::Escape.code(), 10);
}

#[test]
fn escape_and_closing_end_the_game() {
    let mut game = GameState::new();
    game.handle_event(Event::KeyPressed(Key::Escape), AHEAD);
    assert!(!game.running());
    let mut other = GameState::new();
    other.handle_event(Event::Closed, AHEAD);
    assert!(!other.running());
    assert!(other.pressed_keys.is_empty());
}

#[test]
fn held_keys_walk_the_player() {
    let mut game = GameState::new();
    settle(&mut game);
    let start = game.player.position;
    game.handle_event(Event::KeyPressed(Key::W), AHEAD);
    assert!(game.update(AHEAD, 100));
    assert_eq!(game.player.position, Vec3::new(start.x, 1500, start.z + 600));
    game.handle_event(Event::KeyPressed(Key::LShift), AHEAD);
    assert!(game.update(AHEAD, 100));
    assert_eq!(game.player.position, Vec3::new(start.x, 1500, start.z + 1800));
    game.handle_event(Event::KeyReleased(Key::W), AHEAD);
    game.handle_event(Event::KeyPressed(Key::D), AHEAD);
    assert!(game.update(AHEAD, 100));
    assert_eq!(game.player.position, Vec3::new(start.x - 1200, 1500, start.z + 1800));
}

#[test]
fn space_jumps_once_per_press_and_only_from_the_ground() {
    let mut game = GameState::new();
    game.handle_event(Event::KeyPressed(Key::Space), AHEAD);
    assert_eq!(game.player.velocity.y, 0);
    game.handle_event(Event::KeyReleased(Key::Space), AHEAD);
    settle(&mut game);
    game.handle_event(Event::KeyPressed(Key::Space), AHEAD);
    assert_eq!(game.player.velocity.y, 4500);
    game.handle_event(Event::KeyPressed(Key::Space), AHEAD);
    assert_eq!(game.player.velocity.y, 4500);
    assert!(game.update(AHEAD, 100));
    assert!(!game.player.grounded);
    assert_eq!(game.player.velocity.y, 3700);
    assert_eq!(game.player.position.y, 1870);
    game.handle_event(Event::KeyReleased(Key::Space), AHEAD);
    game.handle_event(Event::KeyPressed(Key::Space), AHEAD);
    assert_eq!(game.player.velocity.y, 3700);
}

#[test]
fn r_respawns_above_the_origin() {
    let mut game = GameState::new();
    game.handle_event(Event::KeyPressed(Key::R), AHEAD);
    assert_eq!(game.player.position, Vec3::new(0, 1800, 0));
    assert!(game.running());
}

#[test]
fn tab_explores_where_the_player_stands() {
    let mut game = GameState::new();
    assert!(!game.world.rooms[0].explored);
    game.handle_event(Event::KeyPressed(Key::Tab), AHEAD);
    assert!(game.world.rooms[0].explored);
    let rooms = game.world.rooms.len();
    assert_eq!(game.world.passages.len() + 1, rooms);
    game.handle_event(Event::KeyPressed(Key::Tab), AHEAD);
    game.handle_event(Event::KeyReleased(Key::Tab), AHEAD);
    game.handle_event(Event::KeyPressed(Key::Tab), AHEAD);
    assert_eq!(game.world.rooms.len(), rooms);
}

#[test]
fn q_and_e_resize_while_held() {
    let mut game = GameState::new();
    settle(&mut game);
    game.handle_event(Event::KeyPressed(Key::E), AHEAD);
    assert!(game.update(AHEAD, 100));
    assert_eq!(game.player.size, 1400);
    game.handle_event(Event::KeyReleased(Key::E), AHEAD);
    game.handle_event(Event::KeyPressed(Key::Q), AHEAD);
    assert!(game.update(AHEAD, 1000));
    assert_eq!(game.player.size, 100);
}

#[test]
fn a_shot_lands_on_the_nearest_wall() {
    let mut game = GameState::new();
    let ahead = game.handle_event(Event::MousePressed, AHEAD);
    assert_eq!(
        ahead,
        Some(Shot {
            time: HitTime { num: 10000, den: 1000 },
            normal: Vec3::new(0, 0, -1),
            reflection: Vec3::new(0, 0, -1000),
        })
    );
    let down = game.handle_event(Event::MousePressed, Vec3::new(600, -800, 0));
    assert_eq!(
        down,
        Some(Shot {
            time: HitTime { num: 1000, den: 800 },
            normal: Vec3::new(0, 1, 0),
            reflection: Vec3::new(600, 800, 0),
        })
    );
    assert_eq!(game.handle_event(Event::MousePressed, Vec3::new(0, 1000, 0)), None);
    assert!(game.pressed_keys.is_empty());
    assert!(game.running());
}

#[test]
fn a_player_beyond_the_limits_does_not_step() {
    let mut game = GameState::new();
    game.player.position.x = 3_000_000_000_000_000;
    let before = game.player;
    assert!(!game.update(AHEAD, 16));
    assert_eq!(game.player, before);
    game.handle_event(Event::KeyPressed(Key::R), AHEAD);
    assert_eq!(game.player, before);
    assert_eq!(game.handle_event(Event::MousePressed, AHEAD), None);
}
