//! The player's step: motion under gravity, the hull that stands for the
//! player among the colliders, and the single pass that pushes the hull out
//! of whatever it has run into.

use vstd::prelude::*;
use crate::bounding_box::{hit_time_positive, BoundingBox, Color};
use crate::ray::{lemma_earlier_transitive, HitTime};
use crate::room::{all_sited, sited};
use crate::vector::{root, root_of, Vec3, UNIT};
use crate::world::{first_enclosing, World};

verus! {

/// Downward acceleration, in grid steps per second per second.
pub const GRAVITY: i64 = 8000;

/// Ticks of elapsed time in one second.
pub const TICKS: i64 = 1000;

/// Least size of the player: a tenth of a world unit.
pub const MIN_SIZE: i64 = 100;

/// Greatest size of the player: four world units.
pub const MAX_SIZE: i64 = 4000;

/// Change of size per tick while the player shrinks or grows.
pub const RESIZE_RATE: i64 = 4;

/// Largest magnitude of a coordinate of the player's position.
pub const REACH_MAX: i64 = 2_000_000_000_000_000;

/// Largest magnitude of a component of the player's velocity, in grid steps
/// per second.
pub const SPEED_MAX: i64 = 1_000_000_000;

/// Longest step in time, in ticks.
pub const TICK_MAX: i64 = 1_000_000;

/// Where the player's eye is, how fast it moves in grid steps per second,
/// how large the player is and whether the last pass over the colliders
/// found ground underfoot.
#[derive(Clone, Copy, Debug, PartialEq, Eq, Structural)]
pub struct Player {
    pub position: Vec3,
    pub velocity: Vec3,
    pub size: i64,
    pub grounded: bool,
}

/// What the player asks for in one step: to walk forward, back, left or
/// right, to sprint, to shrink and to grow.
#[derive(Clone, Copy, Debug, PartialEq, Eq, Structural)]
pub struct Intent {
    pub forward: bool,
    pub back: bool,
    pub left: bool,
    pub right: bool,
    pub sprint: bool,
    pub shrink: bool,
    pub grow: bool,
}

/// A number divided by a positive one, rounded towards zero.
pub open spec fn towards_zero(n: int, d: int) -> int {
    if n >= 0 {
        n / d
    } else {
        -((-n) / d)
    }
}

/// The direction in which the player wants to walk, not yet of unit
/// length: `facing` flattened to the ground for forward, its opposite for
/// back, and `facing` turned by a quarter to either side for left and right.
pub open spec fn heading_of(facing: Vec3, intent: Intent) -> (int, int) {
    let ahead: int = (if intent.forward { 1int } else { 0int })
        - (if intent.back { 1int } else { 0int });
    let aside: int = (if intent.right { 1int } else { 0int })
        - (if intent.left { 1int } else { 0int });
    (ahead * facing.x - aside * facing.z, ahead * facing.z + aside * facing.x)
}

/// The walking speed in grid steps per second: six times the size, and
/// twice that in a sprint.
pub open spec fn walking_speed(size: i64, sprint: bool) -> int {
    if sprint {
        12 * size
    } else {
        6 * size
    }
}

/// The way the player walks in `ticks`: along the wanted direction, at the
/// walking speed, each component rounded towards zero; nothing where no
/// direction is wanted. The length of the direction is taken as the whole
/// part of its square root.
pub open spec fn walk_spec(facing: Vec3, intent: Intent, size: i64, ticks: i64) -> Vec3 {
    let (x, z) = heading_of(facing, intent);
    if x * x + z * z > 0 {
        let length = root_of(x * x + z * z);
        let speed = walking_speed(size, intent.sprint);
        Vec3 {
            x: towards_zero(speed * ticks * x, (TICKS as int) * length) as i64,
            y: 0,
            z: towards_zero(speed * ticks * z, (TICKS as int) * length) as i64,
        }
    } else {
        Vec3 { x: 0, y: 0, z: 0 }
    }
}

/// The way made in `ticks` at `speed` grid steps per second, in whole grid
/// steps, rounded towards zero.
pub open spec fn travelled(speed: i64, ticks: i64) -> int {
    if speed >= 0 {
        (speed * ticks) / (TICKS as int)
    } else {
        -((-speed * ticks) / (TICKS as int))
    }
}

/// A push and a motion along one axis oppose each other: one is positive
/// and the other negative, so that their product is negative.
pub open spec fn opposes(push: i64, motion: i64) -> bool {
    (push > 0 && motion < 0) || (push < 0 && motion > 0)
}

/// Of two hits the earlier one; the first where neither is earlier.
pub open spec fn nearer_hit(best: Option<(HitTime, Vec3)>, hit: Option<(HitTime, Vec3)>)
    -> Option<(HitTime, Vec3)> {
    match (best, hit) {
        (None, _) => hit,
        (_, None) => best,
        (Some(b), Some(h)) => if h.0.earlier(b.0) {
            hit
        } else {
            best
        },
    }
}

/// The earliest hit of a ray among the first `upto` colliders; of equally
/// early hits the one that comes first.
pub open spec fn nearest_hit_spec(
    colliders: Seq<BoundingBox>,
    origin: Vec3,
    direction: Vec3,
    upto: nat,
) -> Option<(HitTime, Vec3)>
    decreases upto,
{
    if upto == 0 {
        None
    } else {
        nearer_hit(
            nearest_hit_spec(colliders, origin, direction, (upto - 1) as nat),
            colliders[upto - 1].hit_spec(origin, direction),
        )
    }
}

/// A player whose hull intersects none of the first `upto` colliders comes
/// out of the pass over them where it went in, off the ground.
pub proof fn lemma_clear_of_contacts(player: Player, colliders: Seq<BoundingBox>, upto: nat)
    requires
        upto <= colliders.len(),
        forall|i: int| 0 <= i < upto ==> !player.hull().crosses(#[trigger] colliders[i]),
    ensures
        player.after_contacts(colliders, upto) == (Player {
            position: player.position,
            velocity: player.velocity,
            size: player.size,
            grounded: false,
        }),
    decreases upto,
{
    if upto > 0 {
        lemma_clear_of_contacts(player, colliders, (upto - 1) as nat);
        let before = player.after_contacts(colliders, (upto - 1) as nat);
        assert(before.hull() == player.hull());
        assert(!player.hull().crosses(colliders[upto - 1]));
    }
}

/// A step of no time with no key held moves nothing: a player within the
/// limits whose hull intersects no collider keeps position, velocity and
/// size.
pub proof fn idle_step_moves_nothing(
    player: Player,
    colliders: Seq<BoundingBox>,
    facing: Vec3,
    intent: Intent,
)
    requires
        player.wf(),
        !intent.forward && !intent.back && !intent.left && !intent.right,
        forall|i: int| 0 <= i < colliders.len() ==> !player.hull().crosses(#[trigger] colliders[i]),
    ensures
        player.stepped(colliders, facing, intent, 0).position == player.position,
        player.stepped(colliders, facing, intent, 0).velocity == player.velocity,
        player.stepped(colliders, facing, intent, 0).size == player.size,
{
    let way = walk_spec(facing, intent, player.size, 0);
    assert(way == Vec3 { x: 0, y: 0, z: 0 });
    let moved = player.moved(way, 0);
    assert(moved == player);
    let sized = moved.sized(Player::resized(moved.size, intent.shrink, intent.grow, 0));
    assert(sized == player);
    lemma_clear_of_contacts(player, colliders, colliders.len());
}

/// No collider among the first `upto` is hit earlier than the nearest hit
/// among them, and where one is hit there is a nearest hit.
pub proof fn nearest_hit_is_earliest(
    colliders: Seq<BoundingBox>,
    origin: Vec3,
    direction: Vec3,
    upto: nat,
    i: int,
)
    requires
        direction.in_range(),
        0 <= i < upto <= colliders.len(),
    ensures
        colliders[i].hit_spec(origin, direction) is Some ==> {
            let best = nearest_hit_spec(colliders, origin, direction, upto);
            &&& best is Some
            &&& best.unwrap().0.wf()
            &&& !colliders[i].hit_spec(origin, direction).unwrap().0.earlier(best.unwrap().0)
        },
    decreases upto,
{
    let before = nearest_hit_spec(colliders, origin, direction, (upto - 1) as nat);
    let last = colliders[upto - 1].hit_spec(origin, direction);
    let hit = colliders[i].hit_spec(origin, direction);
    if last is Some {
        hit_time_positive(colliders[upto - 1], origin, direction);
    }
    if hit is Some {
        hit_time_positive(colliders[i], origin, direction);
        if i < upto - 1 {
            nearest_hit_is_earliest(colliders, origin, direction, (upto - 1) as nat, i);
            if last is Some && last.unwrap().0.earlier(before.unwrap().0) && hit.unwrap().0.earlier(
                last.unwrap().0,
            ) {
                lemma_earlier_transitive(hit.unwrap().0, last.unwrap().0, before.unwrap().0);
            }
        } else {
            if before is Some {
                lemma_nearest_is_a_hit(colliders, origin, direction, (upto - 1) as nat);
            }
        }
    }
}

/// The normal of the nearest hit has components of -1, 0 and 1 only.
pub proof fn lemma_nearest_is_signs(
    colliders: Seq<BoundingBox>,
    origin: Vec3,
    direction: Vec3,
    upto: nat,
)
    requires
        upto <= colliders.len(),
        nearest_hit_spec(colliders, origin, direction, upto) is Some,
    ensures
        nearest_hit_spec(colliders, origin, direction, upto).unwrap().1.is_signs(),
    decreases upto,
{
    if upto > 0 {
        let before = nearest_hit_spec(colliders, origin, direction, (upto - 1) as nat);
        if before is Some {
            lemma_nearest_is_signs(colliders, origin, direction, (upto - 1) as nat);
        }
    }
}

/// The nearest hit among the first `upto` colliders is the hit of one of them.
pub proof fn lemma_nearest_is_a_hit(
    colliders: Seq<BoundingBox>,
    origin: Vec3,
    direction: Vec3,
    upto: nat,
)
    requires
        direction.in_range(),
        upto <= colliders.len(),
        nearest_hit_spec(colliders, origin, direction, upto) is Some,
    ensures
        exists|i: int|
            0 <= i < upto && nearest_hit_spec(colliders, origin, direction, upto)
                == (#[trigger] colliders[i]).hit_spec(origin, direction),
        nearest_hit_spec(colliders, origin, direction, upto).unwrap().0.wf(),
    decreases upto,
{
    if upto > 0 {
        let before = nearest_hit_spec(colliders, origin, direction, (upto - 1) as nat);
        let last = colliders[upto - 1].hit_spec(origin, direction);
        let best = nearest_hit_spec(colliders, origin, direction, upto);
        if best == last {
            hit_time_positive(colliders[upto - 1], origin, direction);
        } else {
            lemma_nearest_is_a_hit(colliders, origin, direction, (upto - 1) as nat);
            let i = choose|i: int|
                0 <= i < upto - 1 && before == (#[trigger] colliders[i]).hit_spec(origin, direction);
            assert(best == colliders[i].hit_spec(origin, direction));
        }
    }
}

proof fn lemma_travel_fits(speed: i64, ticks: i64)
    by (nonlinear_arith)
    requires
        -SPEED_MAX <= speed <= SPEED_MAX,
        0 <= ticks <= TICK_MAX,
    ensures
        -1_000_000_000_000_000 <= speed * ticks <= 1_000_000_000_000_000,
        ticks == 0 ==> speed * ticks == 0,
{
}

/// The way made in `ticks` at `speed`, see `travelled`.
pub fn travel(speed: i64, ticks: i64) -> (way: i64)
    requires
        -SPEED_MAX <= speed <= SPEED_MAX,
        0 <= ticks <= TICK_MAX,
    ensures
        way == travelled(speed, ticks),
        -1_000_000_000_000 <= way <= 1_000_000_000_000,
        ticks == 0 ==> way == 0,
{
    proof {
        lemma_travel_fits(speed, ticks);
        lemma_travel_fits((-speed) as i64, ticks);
        assert(-speed * ticks == (-speed) * ticks);
    }
    if speed >= 0 {
        (speed * ticks) / TICKS
    } else {
        -((-speed * ticks) / TICKS)
    }
}

proof fn lemma_walk_fits(pace: int, c: int, length: int)
    by (nonlinear_arith)
    requires
        0 <= pace <= 48_000_000_000,
        -2 * UNIT <= c <= 2 * UNIT,
        1 <= length <= 3 * UNIT,
    ensures
        -96_000_000_000_000 <= pace * c <= 96_000_000_000_000,
        1 <= TICKS * length <= 3_000_000,
{
}

proof fn lemma_unit_product(sign: int, c: int)
    by (nonlinear_arith)
    requires
        -1 <= sign <= 1,
        -UNIT <= c <= UNIT,
    ensures
        -UNIT <= sign * c <= UNIT,
{
}

proof fn lemma_heading_fits(x: int, z: int)
    by (nonlinear_arith)
    requires
        -2 * UNIT <= x <= 2 * UNIT,
        -2 * UNIT <= z <= 2 * UNIT,
    ensures
        0 <= x * x + z * z <= 8_000_000,
        0 <= x * x <= 4_000_000,
        0 <= z * z <= 4_000_000,
{
}

proof fn lemma_pace_fits(speed: int, ticks: int)
    by (nonlinear_arith)
    requires
        0 <= speed <= 48_000,
        0 <= ticks <= TICK_MAX,
    ensures
        0 <= speed * ticks <= 48_000_000_000,
{
}

proof fn lemma_root_bounds(n: int, r: int)
    by (nonlinear_arith)
    requires
        0 < n <= 8_000_000,
        r >= 0,
        r * r <= n,
        n < (r + 1) * (r + 1),
    ensures
        1 <= r <= 3 * UNIT,
{
}

fn divide_towards_zero(n: i64, d: i64) -> (q: i64)
    requires
        d > 0,
        n > i64::MIN,
    ensures
        q == towards_zero(n as int, d as int),
{
    if n >= 0 {
        n / d
    } else {
        -((-n) / d)
    }
}

/// The way the player walks in `ticks`, see `walk_spec`. `facing` is the
/// direction of view, a thousand grid steps long.
pub fn walk(facing: Vec3, intent: Intent, size: i64, ticks: i64) -> (way: Vec3)
    requires
        -UNIT <= facing.x <= UNIT,
        -UNIT <= facing.z <= UNIT,
        MIN_SIZE <= size <= MAX_SIZE,
        0 <= ticks <= TICK_MAX,
    ensures
        way == walk_spec(facing, intent, size, ticks),
        way.y == 0,
        -REACH_MAX <= way.x <= REACH_MAX,
        -REACH_MAX <= way.z <= REACH_MAX,
        !intent.forward && !intent.back && !intent.left && !intent.right ==> way == (Vec3 {
            x: 0,
            y: 0,
            z: 0,
        }),
{
    let ahead: i64 = (if intent.forward { 1 } else { 0 }) - (if intent.back { 1 } else { 0 });
    let aside: i64 = (if intent.right { 1 } else { 0 }) - (if intent.left { 1 } else { 0 });
    proof {
        lemma_unit_product(ahead as int, facing.x as int);
        lemma_unit_product(ahead as int, facing.z as int);
        lemma_unit_product(aside as int, facing.x as int);
        lemma_unit_product(aside as int, facing.z as int);
    }
    let x: i64 = ahead * facing.x - aside * facing.z;
    let z: i64 = ahead * facing.z + aside * facing.x;
    proof {
        lemma_heading_fits(x as int, z as int);
    }
    let square: i64 = x * x + z * z;
    if square > 0 {
        let length: i64 = root(square);
        let speed: i64 = if intent.sprint { 12 * size } else { 6 * size };
        proof {
            lemma_root_bounds(square as int, length as int);
            lemma_pace_fits(speed as int, ticks as int);
            lemma_walk_fits(speed * ticks, x as int, length as int);
            lemma_walk_fits(speed * ticks, z as int, length as int);
        }
        let pace: i64 = speed * ticks;
        let span: i64 = TICKS * length;
        Vec3::new(divide_towards_zero(pace * x, span), 0, divide_towards_zero(pace * z, span))
    } else {
        Vec3::new(0, 0, 0)
    }
}

/// The earliest hit of a ray from `origin` along `direction` among the
/// colliders, with the normal of the face that is hit.
pub fn nearest_hit(colliders: &Vec<BoundingBox>, origin: Vec3, direction: Vec3) -> (hit: Option<
    (HitTime, Vec3),
>)
    requires
        forall|i: int| 0 <= i < colliders@.len() ==> (#[trigger] colliders@[i]).in_range(),
        origin.in_range(),
        direction.in_range(),
    ensures
        hit == nearest_hit_spec(colliders@, origin, direction, colliders@.len()),
{
    let mut best: Option<(HitTime, Vec3)> = None;
    let mut i: usize = 0;
    while i < colliders.len()
        invariant
            i <= colliders@.len(),
            forall|k: int| 0 <= k < colliders@.len() ==> (#[trigger] colliders@[k]).in_range(),
            origin.in_range(),
            direction.in_range(),
            best == nearest_hit_spec(colliders@, origin, direction, i as nat),
        decreases colliders@.len() - i,
    {
        assert(colliders@[i as int].in_range());
        let hit = colliders[i].hit_scan(origin, direction);
        best = match (best, hit) {
            (None, _) => hit,
            (_, None) => best,
            (Some(b), Some(h)) => if h.0.before(&b.0) {
                hit
            } else {
                best
            },
        };
        i += 1;
    }
    best
}

impl Player {
    /// Position, speed and size lie within their limits.
    pub open spec fn wf(self) -> bool {
        &&& -REACH_MAX <= self.position.x <= REACH_MAX
        &&& -REACH_MAX <= self.position.y <= REACH_MAX
        &&& -REACH_MAX <= self.position.z <= REACH_MAX
        &&& -SPEED_MAX <= self.velocity.x <= SPEED_MAX
        &&& -SPEED_MAX <= self.velocity.y <= SPEED_MAX
        &&& -SPEED_MAX <= self.velocity.z <= SPEED_MAX
        &&& MIN_SIZE <= self.size <= MAX_SIZE
    }

    /// The box that stands for the player: two fifths of the size to each
    /// side, and of a height of nine fifths of the size, five sixths of it
    /// below the eye and one sixth above. Fractions of a grid step are
    /// dropped. The hull is red.
    pub open spec fn hull(self) -> BoundingBox {
        let half = self.size * 2 / 5;
        let below = self.size * 3 / 2;
        let above = self.size * 3 / 10;
        BoundingBox {
            min: Vec3 {
                x: (self.position.x - half) as i64,
                y: (self.position.y - below) as i64,
                z: (self.position.z - half) as i64,
            },
            max: Vec3 {
                x: (self.position.x + half) as i64,
                y: (self.position.y + above) as i64,
                z: (self.position.z + half) as i64,
            },
            color: Some(Color { red: 255, green: 0, blue: 0, alpha: 255 }),
        }
    }

    /// The player after meeting one collider: pushed out of it where the
    /// hull intersects it. A push that opposes the vertical motion stops
    /// that motion, and an upward one puts the player on the ground.
    pub open spec fn after_contact(self, collider: BoundingBox) -> Player {
        match self.hull().overlap_spec(collider) {
            None => self,
            Some(push) => Player {
                position: Vec3 {
                    x: (self.position.x + push.x) as i64,
                    y: (self.position.y + push.y) as i64,
                    z: (self.position.z + push.z) as i64,
                },
                velocity: Vec3 {
                    x: self.velocity.x,
                    y: if opposes(push.y, self.velocity.y) {
                        0
                    } else {
                        self.velocity.y
                    },
                    z: self.velocity.z,
                },
                size: self.size,
                grounded: self.grounded || (opposes(push.y, self.velocity.y) && push.y > 0),
            },
        }
    }

    /// The player after meeting the first `upto` colliders in order,
    /// starting off the ground.
    pub open spec fn after_contacts(self, colliders: Seq<BoundingBox>, upto: nat) -> Player
        decreases upto,
    {
        if upto == 0 {
            Player {
                position: self.position,
                velocity: self.velocity,
                size: self.size,
                grounded: false,
            }
        } else {
            self.after_contacts(colliders, (upto - 1) as nat).after_contact(colliders[upto - 1])
        }
    }

    /// The player after `ticks` of time: moved by `walk`, slowed or sped up
    /// by gravity, and moved on by the new velocity.
    pub open spec fn moved(self, walk: Vec3, ticks: i64) -> Player {
        let fall = (self.velocity.y - GRAVITY * ticks / (TICKS as int)) as i64;
        Player {
            position: Vec3 {
                x: (self.position.x + walk.x + travelled(self.velocity.x, ticks)) as i64,
                y: (self.position.y + walk.y + travelled(fall, ticks)) as i64,
                z: (self.position.z + walk.z + travelled(self.velocity.z, ticks)) as i64,
            },
            velocity: Vec3 { x: self.velocity.x, y: fall, z: self.velocity.z },
            size: self.size,
            grounded: self.grounded,
        }
    }

    /// The size after `ticks` of shrinking, growing or both, held within
    /// its limits after each.
    pub open spec fn resized(size: i64, shrink: bool, grow: bool, ticks: i64) -> int {
        let shrunk: int = if shrink {
            if size - RESIZE_RATE * ticks < MIN_SIZE {
                MIN_SIZE as int
            } else {
                size - RESIZE_RATE * ticks
            }
        } else {
            size as int
        };
        if grow {
            if shrunk + RESIZE_RATE * ticks > MAX_SIZE {
                MAX_SIZE as int
            } else {
                shrunk + RESIZE_RATE * ticks
            }
        } else {
            shrunk
        }
    }

    /// Whether position, speed and size lie within their limits.
    pub fn in_bounds(&self) -> (yes: bool)
        ensures
            yes == self.wf(),
    {
        -REACH_MAX <= self.position.x && self.position.x <= REACH_MAX && -REACH_MAX
            <= self.position.y && self.position.y <= REACH_MAX && -REACH_MAX <= self.position.z
            && self.position.z <= REACH_MAX && -SPEED_MAX <= self.velocity.x && self.velocity.x
            <= SPEED_MAX && -SPEED_MAX <= self.velocity.y && self.velocity.y <= SPEED_MAX
            && -SPEED_MAX <= self.velocity.z && self.velocity.z <= SPEED_MAX && MIN_SIZE
            <= self.size && self.size <= MAX_SIZE
    }

    /// The hull around the player's position, see `hull`.
    pub fn get_hull(&self) -> (hull: BoundingBox)
        requires
            self.wf(),
        ensures
            hull == self.hull(),
            hull.wf(),
            hull.in_range(),
    {
        let half: i64 = self.size * 2 / 5;
        let below: i64 = self.size * 3 / 2;
        let above: i64 = self.size * 3 / 10;
        BoundingBox {
            min: Vec3::new(
                self.position.x - half,
                self.position.y - below,
                self.position.z - half,
            ),
            max: Vec3::new(
                self.position.x + half,
                self.position.y + above,
                self.position.z + half,
            ),
            color: Some(Color::new(255, 0, 0, 255)),
        }
    }

    /// Moves the player through `ticks` of time. `walk` is the way the
    /// player walks in that time. Gravity takes `GRAVITY` grid steps per
    /// second off the vertical velocity in every second, and the player
    /// then moves on by the new velocity. With no time elapsed and no walk,
    /// position and velocity stay as they are.
    pub fn check_player_movement(&mut self, walk: Vec3, ticks: i64)
        requires
            old(self).wf(),
            0 <= ticks <= TICK_MAX,
            -SPEED_MAX <= old(self).velocity.y - GRAVITY * ticks / (TICKS as int),
            -REACH_MAX <= walk.x <= REACH_MAX,
            -REACH_MAX <= walk.y <= REACH_MAX,
            -REACH_MAX <= walk.z <= REACH_MAX,
        ensures
            *final(self) == old(self).moved(walk, ticks),
            ticks == 0 && walk == (Vec3 { x: 0, y: 0, z: 0 }) ==> *final(self) == *old(self),
    {
        let fall: i64 = self.velocity.y - GRAVITY * ticks / TICKS;
        self.velocity.y = fall;
        self.position.x = self.position.x + walk.x + travel(self.velocity.x, ticks);
        self.position.y = self.position.y + walk.y + travel(fall, ticks);
        self.position.z = self.position.z + walk.z + travel(self.velocity.z, ticks);
    }

    /// Pushes the player out of the colliders, one after the other in the
    /// order given, each against the hull at the position reached so far.
    /// A single pass: a push may move the hull into a collider that was
    /// passed already.
    pub fn check_collisions(&mut self, colliders: &Vec<BoundingBox>)
        requires
            old(self).wf(),
            all_sited(colliders@),
        ensures
            *final(self) == old(self).after_contacts(colliders@, colliders@.len()),
            final(self).wf(),
    {
        self.grounded = false;
        let mut i: usize = 0;
        while i < colliders.len()
            invariant
                i <= colliders@.len(),
                all_sited(colliders@),
                self.wf(),
                *self == old(self).after_contacts(colliders@, i as nat),
            decreases colliders@.len() - i,
        {
            assert(sited(colliders@[i as int]));
            let hull = self.get_hull();
            match hull.overlap(&colliders[i]) {
                Some(push) => {
                    let stops = (push.y > 0 && self.velocity.y < 0) || (push.y < 0
                        && self.velocity.y > 0);
                    self.position.x = self.position.x + push.x;
                    self.position.y = self.position.y + push.y;
                    self.position.z = self.position.z + push.z;
                    if stops {
                        self.velocity.y = 0;
                        if push.y > 0 {
                            self.grounded = true;
                        }
                    }
                },
                None => {},
            }
            i += 1;
        }
    }

    /// Shrinks the player, grows it, or both in that order, by `RESIZE_RATE`
    /// grid steps per tick, never below `MIN_SIZE` nor above `MAX_SIZE`.
    pub fn resize(&mut self, shrink: bool, grow: bool, ticks: i64)
        requires
            MIN_SIZE <= old(self).size <= MAX_SIZE,
            0 <= ticks <= TICK_MAX,
        ensures
            final(self).size == Player::resized(old(self).size, shrink, grow, ticks),
            MIN_SIZE <= final(self).size <= MAX_SIZE,
            final(self).position == old(self).position,
            final(self).velocity == old(self).velocity,
            final(self).grounded == old(self).grounded,
    {
        if shrink {
            self.size = self.size - RESIZE_RATE * ticks;
            if self.size < MIN_SIZE {
                self.size = MIN_SIZE;
            }
        }
        if grow {
            self.size = self.size + RESIZE_RATE * ticks;
            if self.size > MAX_SIZE {
                self.size = MAX_SIZE;
            }
        }
    }

    /// The upward speed that a jump adds: four and a half world units per
    /// second for a player of one world unit, and in proportion to the
    /// square root of the size, in whole grid steps per second.
    pub open spec fn jump_impulse(size: i64) -> int {
        9 * root_of(UNIT * size) / 2
    }

    /// Jumps, but only while the player stands on the ground: adds the
    /// jump impulse to the upward velocity; says whether it did.
    pub fn jump(&mut self) -> (jumped: bool)
        requires
            old(self).wf(),
        ensures
            jumped == old(self).grounded,
            final(self).velocity.y == (if jumped {
                old(self).velocity.y + Player::jump_impulse(old(self).size)
            } else {
                old(self).velocity.y as int
            }),
            final(self).velocity.x == old(self).velocity.x,
            final(self).velocity.z == old(self).velocity.z,
            final(self).position == old(self).position,
            final(self).size == old(self).size,
            final(self).grounded == old(self).grounded,
    {
        if self.grounded {
            let impulse: i64 = 9 * root(UNIT * self.size) / 2;
            self.velocity.y = self.velocity.y + impulse;
            true
        } else {
            false
        }
    }

    /// Puts the player back over the origin, as high above the ground as
    /// the hull is tall.
    pub fn respawn(&mut self)
        requires
            old(self).wf(),
        ensures
            final(self).position == (Vec3 {
                x: 0,
                y: (old(self).hull().max.y - old(self).hull().min.y) as i64,
                z: 0,
            }),
            final(self).velocity == old(self).velocity,
            final(self).size == old(self).size,
            final(self).grounded == old(self).grounded,
    {
        let hull = self.get_hull();
        self.position = Vec3::new(0, hull.size().y, 0);
    }
    /// A step of `ticks` while facing `facing` stays within the limits: of
    /// time, of the length of `facing`, of speed and, after the move, of
    /// position.
    pub open spec fn can_step(self, facing: Vec3, intent: Intent, ticks: i64) -> bool {
        &&& 0 <= ticks <= TICK_MAX
        &&& -UNIT <= facing.x <= UNIT
        &&& -UNIT <= facing.z <= UNIT
        &&& -SPEED_MAX <= self.velocity.y - GRAVITY * ticks / (TICKS as int)
        &&& self.moved(walk_spec(facing, intent, self.size, ticks), ticks).wf()
    }

    /// The player with another size.
    pub open spec fn sized(self, size: int) -> Player {
        Player {
            position: self.position,
            velocity: self.velocity,
            size: size as i64,
            grounded: self.grounded,
        }
    }

    /// The player after one step among `colliders`: moved, resized, and
    /// pushed out of the colliders in one pass.
    pub open spec fn stepped(
        self,
        colliders: Seq<BoundingBox>,
        facing: Vec3,
        intent: Intent,
        ticks: i64,
    ) -> Player {
        let moved = self.moved(walk_spec(facing, intent, self.size, ticks), ticks);
        moved.sized(
            Player::resized(moved.size, intent.shrink, intent.grow, ticks),
        ).after_contacts(colliders, colliders.len())
    }

    /// One step of the simulation: the player walks as `intent` asks and
    /// moves through `ticks` of time, changes size, is pushed out of the
    /// world's colliders, and the world grows where the player has come to
    /// stand: by at least one room where that room was not explored and the
    /// world welcomes every neighbour of it. A step that would leave the
    /// limits is not taken: it changes nothing and gives `false`.
    pub fn update(&mut self, world: &mut World, facing: Vec3, intent: Intent, ticks: i64) -> (taken:
        bool)
        requires
            old(self).wf(),
            old(world).wf(),
        ensures
            taken == old(self).can_step(facing, intent, ticks),
            !taken ==> *final(self) == *old(self) && final(world).rooms@ == old(world).rooms@
                && final(world).passages@ == old(world).passages@,
            taken ==> *final(self) == old(self).stepped(
                old(world).colliders(),
                facing,
                intent,
                ticks,
            ),
            final(self).wf(),
            final(world).wf(),
            final(world).rooms@.len() >= old(world).rooms@.len(),
            final(world).passages@.len() >= old(world).passages@.len(),
            taken ==> forall|found: Option<usize>|
                (#[trigger] first_enclosing(
                    old(world).rooms@,
                    final(self).position.ground(),
                    found,
                )) ==> final(world).explored_at(*old(world), found),
            taken ==> forall|found: Option<usize>|
                (#[trigger] first_enclosing(
                    old(world).rooms@,
                    final(self).position.ground(),
                    found,
                )) && old(world).grows_at(found) ==> final(world).rooms@.len() > old(
                    world,
                ).rooms@.len(),
    {
        if ticks < 0 || ticks > TICK_MAX {
            return false;
        }
        if facing.x < -UNIT || facing.x > UNIT || facing.z < -UNIT || facing.z > UNIT {
            return false;
        }
        if self.velocity.y - GRAVITY * ticks / TICKS < -SPEED_MAX {
            return false;
        }
        let way = walk(facing, intent, self.size, ticks);
        let mut next = *self;
        next.check_player_movement(way, ticks);
        if !next.in_bounds() {
            return false;
        }
        next.resize(intent.shrink, intent.grow, ticks);
        let colliders = world.get_colliders();
        next.check_collisions(&colliders);
        world.explore(next.position);
        *self = next;
        true
    }
}

} // verus!
