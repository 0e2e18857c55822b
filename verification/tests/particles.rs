use aabb_world::game::GameState;
use aabb_world::particle::{update_particles, Particle, SHRINK_SPEED};
use aabb_world::player::travel;
use aabb_world::vector::Vec3;

fn spark(size: i64) -> Particle {
    Particle { position: Vec3::new(0, 1000, 0), velocity: Vec3::new(8000, -4000, 1), size }
}

#[test]
fn travel_rounds_towards_zero() {
    assert_eq!(travel(8000, 16), 128);
    assert_eq!(travel(-8000, 16), -128);
    assert_eq!(travel(999, 1), 0);
    assert_eq!(travel(-999, 1), 0);
    assert_eq!(travel(1500, 1), 1);
    assert_eq!(travel(-1500, 1), -1);
    assert_eq!(travel(123, 0), 0);
    assert_eq!(travel(1_000_000_000, 1_000_000), 1_000_000_000_000);
}

#[test]
fn a_particle_flies_on_and_shrinks() {
    let later = spark(200).age(100);
    assert_eq!(later.position, Vec3::new(800, 600, 0));
    assert_eq!(later.velocity, Vec3::new(8000, -4000, 1));
    assert_eq!(later.size, 150);
    assert_eq!(spark(200).age(0), spark(200));
    assert_eq!(SHRINK_SPEED, 500);
}

#[test]
fn particles_are_gone_when_nothing_is_left() {
    let mut particles = vec![spark(50), spark(200), spark(100), spark(101)];
    update_particles(&mut particles, 200);
    assert_eq!(particles, vec![spark(200).age(200), spark(101).age(200)]);
    assert_eq!(particles[0].size, 100);
    assert_eq!(particles[1].size, 1);
    update_particles(&mut particles, 2);
    assert_eq!(particles.len(), 1);
    assert_eq!(particles[0].size, 99);
    update_particles(&mut particles, 1_000_000);
    assert!(particles.is_empty());
}

#[test]
fn particles_beyond_the_limits_are_gone() {
    let mut far = spark(1000);
    far.position.x = 2_000_000_000_000_000;
    let mut particles = vec![far, spark(1000)];
    update_particles(&mut particles, 1000);
    assert_eq!(particles, vec![spark(1000).age(1000)]);
}

#[test]
fn the_game_keeps_its_particles_moving() {
    let mut game = GameState::new();
    assert!(game.spark(spark(200)));
    assert!(game.spark(spark(10)));
    let mut wild = spark(200);
    wild.velocity.y = 2_000_000_000;
    assert!(!game.spark(wild));
    assert_eq!(game.particles, vec![spark(200), spark(10)]);
    game.update(Vec3::new(0, 0, 1000), 100);
    assert_eq!(game.particles, vec![spark(200).age(100)]);
    game.update(Vec3::new(0, 0, 1000), -5);
    assert_eq!(game.particles, vec![spark(200).age(100)]);
}
