//! The game between frames: which keys are held, whether it still runs,
//! and the player in the world. Events come in as plain values; what has
//! to happen outside comes back as a plain value.

use vstd::prelude::*;
use std::collections::HashSet;
use crate::particle::{aged_all, all_in_bounds, update_particles, Particle};
use crate::player::{nearest_hit, nearest_hit_spec, Intent, Player, TICK_MAX};
use crate::ray::HitTime;
use crate::vector::{Vec3, UNIT};
use crate::world::{first_enclosing, World};

verus! {

broadcast use vstd::std_specs::hash::group_hash_axioms;

/// The keys that the game knows.
#[derive(Clone, Copy, Debug, PartialEq, Eq, Structural)]
pub enum Key {
    W,
    A,
    S,
    D,
    Q,
    E,
    R,
    LShift,
    Space,
    Tab,
    Escape,
}

/// What reaches the game from outside.
#[derive(Clone, Copy, Debug, PartialEq, Eq, Structural)]
pub enum Event {
    KeyPressed(Key),
    KeyReleased(Key),
    MousePressed,
    Closed,
}

/// Where a shot has hit: the ray parameter in lengths of the direction of
/// view, the normal of the face, and the direction in which the shot
/// bounces off.
#[derive(Clone, Copy, Debug, PartialEq, Eq, Structural)]
pub struct Shot {
    pub time: HitTime,
    pub normal: Vec3,
    pub reflection: Vec3,
}

/// The state of the game.
#[derive(Debug)]
pub struct GameState {
    pub running: bool,
    pub pressed_keys: HashSet<u8>,
    pub player: Player,
    pub world: World,
    pub particles: Vec<Particle>,
}

impl Key {
    /// The number under which the key is held in the set of held keys.
    pub open spec fn code_spec(self) -> u8 {
        match self {
            Key::W => 0,
            Key::A => 1,
            Key::S => 2,
            Key::D => 3,
            Key::Q => 4,
            Key::E => 5,
            Key::R => 6,
            Key::LShift => 7,
            Key::Space => 8,
            Key::Tab => 9,
            Key::Escape => 10,
        }
    }

    /// The number under which the key is held, see `code_spec`.
    pub fn code(self) -> (code: u8)
        ensures
            code == self.code_spec(),
    {
        match self {
            Key::W => 0,
            Key::A => 1,
            Key::S => 2,
            Key::D => 3,
            Key::Q => 4,
            Key::E => 5,
            Key::R => 6,
            Key::LShift => 7,
            Key::Space => 8,
            Key::Tab => 9,
            Key::Escape => 10,
        }
    }
}

/// `key` is among the held keys.
pub open spec fn held(keys: Set<u8>, key: Key) -> bool {
    keys.contains(key.code_spec())
}

/// What the held keys ask of the player: W, S, A and D walk forward, back,
/// left and right, the left shift key sprints, Q shrinks and E grows.
pub open spec fn intent_of(keys: Set<u8>) -> Intent {
    Intent {
        forward: held(keys, Key::W),
        back: held(keys, Key::S),
        left: held(keys, Key::A),
        right: held(keys, Key::D),
        sprint: held(keys, Key::LShift),
        shrink: held(keys, Key::Q),
        grow: held(keys, Key::E),
    }
}

/// Two keys with one number are one key.
pub proof fn codes_differ(a: Key, b: Key)
    ensures
        a.code_spec() == b.code_spec() <==> a == b,
{
}

impl GameState {
    /// The world is well formed, and every particle lies within the limits.
    pub open spec fn wf(self) -> bool {
        self.world.wf() && all_in_bounds(self.particles@)
    }

    /// The player at the start: two world units behind the origin, one
    /// above the ground, at rest, of a size of one world unit.
    pub open spec fn first_player() -> Player {
        Player {
            position: Vec3 { x: 0, y: UNIT, z: (-2 * UNIT) as i64 },
            velocity: Vec3 { x: 0, y: 0, z: 0 },
            size: UNIT,
            grounded: false,
        }
    }

    /// The player after a key went down that was not held: the space key
    /// jumps, R respawns, and no other key touches the player. A player
    /// beyond the limits is left alone.
    pub open spec fn player_after_key(player: Player, key: Key) -> Player {
        if !player.wf() {
            player
        } else if key == Key::Space && player.grounded {
            Player {
                position: player.position,
                velocity: Vec3 {
                    x: player.velocity.x,
                    y: (player.velocity.y + Player::jump_impulse(player.size)) as i64,
                    z: player.velocity.z,
                },
                size: player.size,
                grounded: player.grounded,
            }
        } else if key == Key::R {
            Player {
                position: Vec3 {
                    x: 0,
                    y: (player.hull().max.y - player.hull().min.y) as i64,
                    z: 0,
                },
                velocity: player.velocity,
                size: player.size,
                grounded: player.grounded,
            }
        } else {
            player
        }
    }

    /// The shot along `facing` from where the player is: at the nearest
    /// collider that the ray hits, if it hits any and `facing` and the
    /// player's position are within the limits of the geometry.
    pub open spec fn shot(self, facing: Vec3) -> Option<Shot> {
        if self.player.position.in_range() && facing.in_range() {
            match nearest_hit_spec(
                self.world.colliders(),
                self.player.position,
                facing,
                self.world.colliders().len(),
            ) {
                Some(hit) => Some(
                    Shot { time: hit.0, normal: hit.1, reflection: facing.reflected(hit.1) },
                ),
                None => None,
            }
        } else {
            None
        }
    }

    /// A new game: running, no key held, the player at the start in a
    /// world of one room.
    pub fn new() -> (game: GameState)
        ensures
            game.wf(),
            game.running,
            game.pressed_keys@ == Set::<u8>::empty(),
            game.player == GameState::first_player(),
            game.world.is_new(),
            game.world.welcomes(game.world.rooms@[0].floor),
            game.particles@.len() == 0,
    {
        GameState {
            running: true,
            pressed_keys: HashSet::new(),
            player: Player {
                position: Vec3::new(0, UNIT, -2 * UNIT),
                velocity: Vec3::new(0, 0, 0),
                size: UNIT,
                grounded: false,
            },
            world: World::new(),
            particles: Vec::new(),
        }
    }

    /// Whether `key` is held.
    pub fn key_down(&self, key: Key) -> (down: bool)
        ensures
            down == held(self.pressed_keys@, key),
    {
        self.pressed_keys.contains(&key.code())
    }

    /// Whether the game goes on.
    pub fn running(&self) -> (yes: bool)
        ensures
            yes == self.running,
    {
        self.running
    }

    /// One step of the simulation under the held keys, see
    /// `Player::update`, and of the particles, see `update_particles`. A
    /// player beyond the limits does not step, and in a time beyond the
    /// limits nothing moves.
    pub fn update(&mut self, facing: Vec3, ticks: i64) -> (taken: bool)
        requires
            old(self).wf(),
        ensures
            final(self).wf(),
            final(self).running == old(self).running,
            final(self).pressed_keys@ == old(self).pressed_keys@,
            taken == (old(self).player.wf() && old(self).player.can_step(
                facing,
                intent_of(old(self).pressed_keys@),
                ticks,
            )),
            !taken ==> final(self).player == old(self).player && final(self).world.rooms@ == old(
                self,
            ).world.rooms@ && final(self).world.passages@ == old(self).world.passages@,
            taken ==> final(self).player == old(self).player.stepped(
                old(self).world.colliders(),
                facing,
                intent_of(old(self).pressed_keys@),
                ticks,
            ),
            final(self).world.rooms@.len() >= old(self).world.rooms@.len(),
            final(self).world.passages@.len() >= old(self).world.passages@.len(),
            taken ==> forall|found: Option<usize>|
                (#[trigger] first_enclosing(
                    old(self).world.rooms@,
                    final(self).player.position.ground(),
                    found,
                )) ==> final(self).world.explored_at(old(self).world, found),
            taken ==> forall|found: Option<usize>|
                (#[trigger] first_enclosing(
                    old(self).world.rooms@,
                    final(self).player.position.ground(),
                    found,
                )) && old(self).world.grows_at(found) ==> final(self).world.rooms@.len() > old(
                    self,
                ).world.rooms@.len(),
            final(self).particles@ == (if 0 <= ticks <= TICK_MAX {
                aged_all(old(self).particles@, ticks, old(self).particles@.len())
            } else {
                old(self).particles@
            }),
    {
        if 0 <= ticks && ticks <= TICK_MAX {
            update_particles(&mut self.particles, ticks);
        }
        if !self.player.in_bounds() {
            return false;
        }
        let intent = Intent {
            forward: self.key_down(Key::W),
            back: self.key_down(Key::S),
            left: self.key_down(Key::A),
            right: self.key_down(Key::D),
            sprint: self.key_down(Key::LShift),
            shrink: self.key_down(Key::Q),
            grow: self.key_down(Key::E),
        };
        self.player.update(&mut self.world, facing, intent, ticks)
    }

    /// Takes in one event. Closing ends the game. A key that goes down is
    /// held from then on, and where it was not held before it acts once:
    /// Escape ends the game, the space key jumps, Tab grows the world from
    /// where the player stands (by at least one room where that room was
    /// not explored and the world welcomes every neighbour of it), R
    /// respawns. A key that goes up is held no
    /// more. A press of the mouse button shoots along `facing`, and where
    /// the shot lands comes back.
    pub fn handle_event(&mut self, event: Event, facing: Vec3) -> (shot: Option<Shot>)
        requires
            old(self).wf(),
        ensures
            final(self).wf(),
            final(self).particles@ == old(self).particles@,
            final(self).world.rooms@.len() >= old(self).world.rooms@.len(),
            final(self).world.passages@.len() >= old(self).world.passages@.len(),
            match event {
                Event::Closed => {
                    &&& !final(self).running
                    &&& final(self).pressed_keys@ == old(self).pressed_keys@
                    &&& final(self).player == old(self).player
                    &&& final(self).world == old(self).world
                    &&& shot is None
                },
                Event::KeyReleased(key) => {
                    &&& final(self).running == old(self).running
                    &&& final(self).pressed_keys@ == old(self).pressed_keys@.remove(key.code_spec())
                    &&& final(self).player == old(self).player
                    &&& final(self).world == old(self).world
                    &&& shot is None
                },
                Event::MousePressed => {
                    &&& final(self).running == old(self).running
                    &&& final(self).pressed_keys@ == old(self).pressed_keys@
                    &&& final(self).player == old(self).player
                    &&& final(self).world == old(self).world
                    &&& shot == old(self).shot(facing)
                },
                Event::KeyPressed(key) => {
                    &&& shot is None
                    &&& final(self).pressed_keys@ == old(self).pressed_keys@.insert(key.code_spec())
                    &&& held(old(self).pressed_keys@, key) ==> {
                        &&& final(self).running == old(self).running
                        &&& final(self).player == old(self).player
                        &&& final(self).world == old(self).world
                    }
                    &&& !held(old(self).pressed_keys@, key) ==> {
                        &&& final(self).running == (old(self).running && key != Key::Escape)
                        &&& final(self).player == GameState::player_after_key(
                            old(self).player,
                            key,
                        )
                        &&& key != Key::Tab ==> final(self).world == old(self).world
                        &&& key == Key::Tab ==> forall|found: Option<usize>|
                            (#[trigger] first_enclosing(
                                old(self).world.rooms@,
                                old(self).player.position.ground(),
                                found,
                            )) ==> final(self).world.explored_at(old(self).world, found)
                        &&& key == Key::Tab ==> forall|found: Option<usize>|
                            (#[trigger] first_enclosing(
                                old(self).world.rooms@,
                                old(self).player.position.ground(),
                                found,
                            )) && old(self).world.grows_at(found)
                                ==> final(self).world.rooms@.len() > old(self).world.rooms@.len()
                    }
                },
            },
    {
        match event {
            Event::Closed => {
                self.running = false;
                None
            },
            Event::KeyReleased(key) => {
                self.pressed_keys.remove(&key.code());
                None
            },
            Event::MousePressed => { self.fire(facing) },
            Event::KeyPressed(key) => {
                let fresh = self.pressed_keys.insert(key.code());
                if fresh {
                    self.key_pressed(key);
                }
                None
            },
        }
    }

    /// Adds a particle, where it lies within the limits; says whether it did.
    pub fn spark(&mut self, particle: Particle) -> (added: bool)
        requires
            old(self).wf(),
        ensures
            final(self).wf(),
            added == particle.wf(),
            final(self).particles@ == (if added {
                old(self).particles@.push(particle)
            } else {
                old(self).particles@
            }),
            final(self).running == old(self).running,
            final(self).pressed_keys@ == old(self).pressed_keys@,
            final(self).player == old(self).player,
            final(self).world == old(self).world,
    {
        if particle.in_bounds() {
            self.particles.push(particle);
            true
        } else {
            false
        }
    }

    fn key_pressed(&mut self, key: Key)
        requires
            old(self).wf(),
        ensures
            final(self).wf(),
            final(self).particles@ == old(self).particles@,
            final(self).pressed_keys@ == old(self).pressed_keys@,
            final(self).running == (old(self).running && key != Key::Escape),
            final(self).player == GameState::player_after_key(old(self).player, key),
            final(self).world.rooms@.len() >= old(self).world.rooms@.len(),
            final(self).world.passages@.len() >= old(self).world.passages@.len(),
            key != Key::Tab ==> final(self).world == old(self).world,
            key == Key::Tab ==> forall|found: Option<usize>|
                (#[trigger] first_enclosing(
                    old(self).world.rooms@,
                    old(self).player.position.ground(),
                    found,
                )) ==> final(self).world.explored_at(old(self).world, found),
            key == Key::Tab ==> forall|found: Option<usize>|
                (#[trigger] first_enclosing(
                    old(self).world.rooms@,
                    old(self).player.position.ground(),
                    found,
                )) && old(self).world.grows_at(found) ==> final(self).world.rooms@.len() > old(
                    self,
                ).world.rooms@.len(),
    {
        match key {
            Key::Escape => {
                self.running = false;
            },
            Key::Space => {
                if self.player.in_bounds() {
                    self.player.jump();
                }
            },
            Key::Tab => {
                self.world.explore(self.player.position);
            },
            Key::R => {
                if self.player.in_bounds() {
                    self.player.respawn();
                }
            },
            _ => {},
        }
    }

    fn fire(&self, facing: Vec3) -> (shot: Option<Shot>)
        requires
            self.wf(),
        ensures
            shot == self.shot(facing),
    {
        let limit: i64 = crate::vector::COORD_MAX;
        let at = self.player.position;
        if at.x < -limit || at.x > limit || at.y < -limit || at.y > limit || at.z < -limit || at.z
            > limit {
            return None;
        }
        if facing.x < -limit || facing.x > limit || facing.y < -limit || facing.y > limit
            || facing.z < -limit || facing.z > limit {
            return None;
        }
        let colliders = self.world.get_colliders();
        proof {
            assert forall|i: int| 0 <= i < colliders@.len() implies (
            #[trigger] colliders@[i]).in_range() by {
                assert(crate::room::sited(colliders@[i]));
            }
        }
        match nearest_hit(&colliders, at, facing) {
            Some(hit) => {
                proof {
                    crate::player::lemma_nearest_is_signs(
                        colliders@,
                        at,
                        facing,
                        colliders@.len(),
                    );
                }
                Some(Shot { time: hit.0, normal: hit.1, reflection: facing.reflect(hit.1) })
            },
            None => None,
        }
    }
}

} // verus!
