use vstd::prelude::*;

use crate::damping::{
    damping_fraction, lemma_damping_in_unit_interval, lemma_damping_non_increasing,
    lemma_pow5_at_limit, lemma_pow5_monotone, pow4, pow5,
};
use crate::entropy::random_lateral_offset;
use crate::particle::Particle;
use crate::switch::SwitchController;

verus! {

// All coordinates are in thousandths of a world unit.
/// Horizontal position of the left vertical rail of the loop.
pub const LEFT_RAIL_X: i64 = -140000;

/// Horizontal position of the right vertical rail of the loop.
pub const RIGHT_RAIL_X: i64 = 140000;

/// Vertical position of the top horizontal rail, where particles enter.
pub const TOP_RAIL_Y: i64 = 126000;

/// Vertical position of the bottom horizontal rail.
pub const BOTTOM_RAIL_Y: i64 = -126000;

/// Half-width of the click bands around the rails that accept a resistor.
pub const RAIL_BAND_HALF_WIDTH: i64 = 5000;

/// Position of the LED indicator.
pub const LED_X: i64 = 140000;

/// Position of the LED indicator.
pub const LED_Y: i64 = 40000;

/// Entity handle of the seed resistor placed at the origin on start-up.
pub const SEED_RESISTOR_ENTITY: u64 = 0;

/// Entity handle of the LED sensor.
pub const LED_ENTITY: u64 = 1;

/// Entity handle of the first of the four corner sensors.
pub const FIRST_WALL_ENTITY: u64 = 2;

/// Number of corner sensors on the loop.
pub const WALL_COUNT: u64 = 4;

/// First entity handle handed out to spawned particles and placed resistors.
pub const FIRST_DYNAMIC_ENTITY: u64 = 6;

/// Spawn-cadence ticks beyond this keep every lateral spawn offset well
/// inside `i64`.
pub const SPAWN_TICK_LIMIT: u64 = 1000000000000;

/// A fixed obstacle that attenuates particles on first contact.
#[derive(Clone, Copy, Debug, PartialEq, Eq, Structural)]
pub struct Resistor {
    /// entity handle of this resistor's sensor in the simulation world
    pub entity: u64,
    /// resistor identifier, unique and monotonically assigned
    pub rid: u32,
    /// horizontal position, in thousandths of a world unit
    pub x: i64,
    /// vertical position, in thousandths of a world unit
    pub y: i64,
}

/// What a particle can collide with, as the collision handler sees it.
#[derive(Clone, Copy, Debug, PartialEq, Eq, Structural)]
pub enum Obstacle {
    /// a corner sensor of the loop: changes the heading, nothing else
    Corner,
    /// a resistor sensor: attenuates on first contact and changes the heading
    Resistor { rid: u32 },
    /// the LED sensor: reads the particle's damping factor into the power value
    Led,
}

/// Whether a world coordinate lies in the click band of the left vertical
/// rail. The bands are open coordinate windows around each rail.
pub open spec fn in_left_band(x: i64) -> bool {
    LEFT_RAIL_X - RAIL_BAND_HALF_WIDTH < x < LEFT_RAIL_X + RAIL_BAND_HALF_WIDTH
}

/// Whether a world coordinate lies in the click band of the right vertical
/// rail.
pub open spec fn in_right_band(x: i64) -> bool {
    RIGHT_RAIL_X - RAIL_BAND_HALF_WIDTH < x < RIGHT_RAIL_X + RAIL_BAND_HALF_WIDTH
}

/// Whether a world coordinate lies in the click band of the bottom
/// horizontal rail.
pub open spec fn in_bottom_band(y: i64) -> bool {
    BOTTOM_RAIL_Y - RAIL_BAND_HALF_WIDTH < y < BOTTOM_RAIL_Y + RAIL_BAND_HALF_WIDTH
}

/// Where a click at `(x, y)` puts a resistor, if anywhere: the left band
/// snaps to the left rail keeping the click's height, the right band to the
/// right rail likewise, and the bottom band to the bottom rail keeping the
/// click's easting — checked in that order. Outside all bands: `None`.
pub open spec fn snapped_position(x: i64, y: i64) -> Option<(i64, i64)> {
    if in_left_band(x) {
        Some((LEFT_RAIL_X, y))
    } else if in_right_band(x) {
        Some((RIGHT_RAIL_X, y))
    } else if in_bottom_band(y) {
        Some((x, BOTTOM_RAIL_Y))
    } else {
        None
    }
}

/// Whether an entity handle belongs to one of the four corner sensors.
pub open spec fn is_wall_entity(id: u64) -> bool {
    FIRST_WALL_ENTITY <= id < FIRST_WALL_ENTITY + WALL_COUNT
}

/// Whether this collision attenuates the particle: the obstacle is a
/// resistor the particle has not visited yet.
pub open spec fn hits_new_resistor(p: Particle, ob: Obstacle) -> bool {
    match ob {
        Obstacle::Resistor { rid } => !p.visited@.contains(rid),
        _ => false,
    }
}

/// Whether this collision advances the direction state machine: every
/// obstacle except the LED and an already-visited resistor does.
pub open spec fn bumps_count(p: Particle, ob: Obstacle) -> bool {
    ob == Obstacle::Corner || hits_new_resistor(p, ob)
}

/// The resistor identifier carried by a resistor obstacle.
pub open spec fn obstacle_rid(ob: Obstacle) -> u32 {
    match ob {
        Obstacle::Resistor { rid } => rid,
        _ => 0,
    }
}

/// How one collision changes the colliding particle: the position is
/// untouched, the collision count advances exactly on a heading-changing
/// obstacle, and a first resistor contact is recorded (which is what
/// attenuates the damping factor by 4/5).
pub open spec fn collision_step(pre: Particle, ob: Obstacle, post: Particle) -> bool {
    &&& post.id == pre.id
    &&& post.x == pre.x
    &&& post.y == pre.y
    &&& post.collisions == pre.collisions + (if bumps_count(pre, ob) {
        1int
    } else {
        0int
    })
    &&& post.visited@ == (if hits_new_resistor(pre, ob) {
        pre.visited@.push(obstacle_rid(ob))
    } else {
        pre.visited@
    })
}

/// How one collision changes the power value: an LED contact overwrites it
/// with the colliding particle's damping exponent, any other contact leaves
/// it alone.
pub open spec fn power_step(pre: Particle, ob: Obstacle, power: Option<usize>) -> Option<
    usize,
> {
    if ob == Obstacle::Led {
        Some(pre.visited@.len() as usize)
    } else {
        power
    }
}

/// The whole simulation world: every entity the core reasons about, the
/// global power value, the on/off switch, and the spawn and placement
/// counters.
pub struct Circuit {
    /// all particles spawned so far (particles are never despawned)
    pub particles: Vec<Particle>,
    /// all resistors, the seed resistor first, then in placement order
    pub resistors: Vec<Resistor>,
    /// damping exponent of the last particle to touch the LED; `None` until
    /// a particle does, which renders as zero power
    pub power: Option<usize>,
    /// the global on/off switch
    pub switch: SwitchController,
    /// spawn-cadence ticks seen so far; a pure tick counter, not a live
    /// population count
    pub spawn_ticks: u64,
    /// spawning stops once `spawn_ticks` reaches this cap
    pub spawn_cap: u64,
    /// how many resistors the placement controller has created
    pub resistor_count: u32,
    /// next fresh entity handle
    pub next_entity: u64,
}

impl Circuit {
    /// Particles are well-formed, carry dynamic entity handles below the
    /// allocation cursor, and no two share a handle.
    pub open spec fn particles_wf(self) -> bool {
        &&& forall|i: int|
            0 <= i < self.particles@.len() ==> (#[trigger] self.particles@[i]).wf()
        &&& forall|i: int|
            0 <= i < self.particles@.len() ==> FIRST_DYNAMIC_ENTITY <= (
            #[trigger] self.particles@[i]).id < self.next_entity
        &&& forall|i: int, j: int|
            0 <= i < j < self.particles@.len() ==> self.particles@[i].id
                != self.particles@[j].id
    }

    /// Resistors carry the seed handle or dynamic handles below the
    /// allocation cursor, no two share a handle, and their identifiers are
    /// strictly increasing and never exceed the placement counter.
    pub open spec fn resistors_wf(self) -> bool {
        &&& forall|i: int|
            0 <= i < self.resistors@.len() ==> ((#[trigger] self.resistors@[i]).entity
                == SEED_RESISTOR_ENTITY || FIRST_DYNAMIC_ENTITY <= self.resistors@[i].entity)
                && self.resistors@[i].entity < self.next_entity
        &&& forall|i: int, j: int|
            0 <= i < j < self.resistors@.len() ==> self.resistors@[i].entity
                != self.resistors@[j].entity
        &&& forall|i: int, j: int|
            0 <= i < j < self.resistors@.len() ==> self.resistors@[i].rid
                < self.resistors@[j].rid
        &&& forall|i: int|
            0 <= i < self.resistors@.len() ==> (#[trigger] self.resistors@[i]).rid
                <= self.resistor_count
    }

    /// Well-formedness of the world: both entity arenas are well-formed and
    /// no particle shares an entity handle with a resistor.
    pub open spec fn wf(self) -> bool {
        &&& self.next_entity >= FIRST_DYNAMIC_ENTITY
        &&& self.particles_wf()
        &&& self.resistors_wf()
        &&& forall|i: int, j: int|
            0 <= i < self.particles@.len() && 0 <= j < self.resistors@.len()
                ==> self.particles@[i].id != self.resistors@[j].entity
    }

    /// Whether some live particle carries this entity handle.
    pub open spec fn has_particle(self, id: u64) -> bool {
        exists|i: int| 0 <= i < self.particles@.len() && (#[trigger] self.particles@[i]).id == id
    }

    /// Index of the particle carrying this entity handle; meaningful only
    /// when `has_particle(id)` holds, and then unique by well-formedness.
    pub open spec fn particle_index_of(self, id: u64) -> int {
        choose|i: int| 0 <= i < self.particles@.len() && (#[trigger] self.particles@[i]).id == id
    }

    /// Whether some resistor's sensor carries this entity handle.
    pub open spec fn has_resistor_entity(self, id: u64) -> bool {
        exists|i: int|
            0 <= i < self.resistors@.len() && (#[trigger] self.resistors@[i]).entity == id
    }

    /// Index of the resistor whose sensor carries this entity handle;
    /// meaningful only when `has_resistor_entity(id)` holds.
    pub open spec fn resistor_index_of(self, id: u64) -> int {
        choose|i: int|
            0 <= i < self.resistors@.len() && (#[trigger] self.resistors@[i]).entity == id
    }

    /// Whether this entity handle names something a particle reacts to: the
    /// LED, a corner sensor, or a live resistor.
    pub open spec fn is_obstacle(self, id: u64) -> bool {
        id == LED_ENTITY || is_wall_entity(id) || self.has_resistor_entity(id)
    }

    /// The obstacle behind an entity handle; meaningful only when
    /// `is_obstacle(id)` holds.
    pub open spec fn obstacle_kind(self, id: u64) -> Obstacle {
        if id == LED_ENTITY {
            Obstacle::Led
        } else if is_wall_entity(id) {
            Obstacle::Corner
        } else {
            Obstacle::Resistor { rid: self.resistors@[self.resistor_index_of(id)].rid }
        }
    }

    /// Whether an unordered collision pair pairs a live particle with an
    /// obstacle. Entity handles are unique, so at most one reading exists.
    pub open spec fn resolves_to(self, a: u64, b: u64) -> bool {
        (self.has_particle(a) && self.is_obstacle(b)) || (self.has_particle(b)
            && self.is_obstacle(a))
    }

    /// The index of the particle in a resolving collision pair.
    pub open spec fn event_particle_index(self, a: u64, b: u64) -> int {
        if self.has_particle(a) && self.is_obstacle(b) {
            self.particle_index_of(a)
        } else {
            self.particle_index_of(b)
        }
    }

    /// The obstacle in a resolving collision pair.
    pub open spec fn event_obstacle(self, a: u64, b: u64) -> Obstacle {
        if self.has_particle(a) && self.is_obstacle(b) {
            self.obstacle_kind(b)
        } else {
            self.obstacle_kind(a)
        }
    }

    /// How one collision-started event changes the world. Everything but
    /// the colliding particle and the power value is untouched; a pair that
    /// does not pair a live particle with an obstacle changes nothing.
    pub open spec fn event_step(self, a: u64, b: u64, post: Circuit) -> bool {
        &&& post.particles@.len() == self.particles@.len()
        &&& post.resistors == self.resistors
        &&& post.switch == self.switch
        &&& post.spawn_ticks == self.spawn_ticks
        &&& post.spawn_cap == self.spawn_cap
        &&& post.resistor_count == self.resistor_count
        &&& post.next_entity == self.next_entity
        &&& if self.resolves_to(a, b) {
            let i = self.event_particle_index(a, b);
            let ob = self.event_obstacle(a, b);
            &&& collision_step(self.particles@[i], ob, post.particles@[i])
            &&& forall|j: int|
                0 <= j < self.particles@.len() && j != i ==> post.particles@[j]
                    == self.particles@[j]
            &&& post.power == power_step(self.particles@[i], ob, self.power)
        } else {
            post.particles == self.particles && post.power == self.power
        }
    }

    /// How one frame's batch of collision events, drained in emission
    /// order, changes the world: each event takes one [`Self::event_step`]
    /// from the state the previous events left behind.
    pub open spec fn events_trace(self, events: Seq<(u64, u64)>, post: Circuit) -> bool
        decreases events.len(),
    {
        if events.len() == 0 {
            &&& post.particles == self.particles
            &&& post.resistors == self.resistors
            &&& post.power == self.power
            &&& post.switch == self.switch
            &&& post.spawn_ticks == self.spawn_ticks
            &&& post.spawn_cap == self.spawn_cap
            &&& post.resistor_count == self.resistor_count
            &&& post.next_entity == self.next_entity
        } else {
            exists|mid: Circuit|
                #[trigger] self.event_step(events[0].0, events[0].1, mid) && mid.events_trace(
                    events.skip(1),
                    post,
                )
        }
    }

    /// A fresh world: no particles, the seed resistor at the origin, zero
    /// power, the switch on, and all counters at their start values.
    pub fn new(spawn_cap: u64) -> (c: Circuit)
        ensures
            c.wf(),
            c.particles@.len() == 0,
            c.resistors@.len() == 1,
            c.resistors@[0] == (Resistor {
                entity: SEED_RESISTOR_ENTITY,
                rid: 0u32,
                x: 0i64,
                y: 0i64,
            }),
            c.power is None,
            c.switch.on,
            !c.switch.held,
            c.spawn_ticks == 0,
            c.spawn_cap == spawn_cap,
            c.resistor_count == 0,
            c.next_entity == FIRST_DYNAMIC_ENTITY,
    {
        let mut resistors: Vec<Resistor> = Vec::new();
        resistors.push(Resistor { entity: SEED_RESISTOR_ENTITY, rid: 0, x: 0, y: 0 });
        Circuit {
            particles: Vec::new(),
            resistors,
            power: None,
            switch: SwitchController::new(),
            spawn_ticks: 0,
            spawn_cap,
            resistor_count: 0,
            next_entity: FIRST_DYNAMIC_ENTITY,
        }
    }

    /// Whether the circuit is switched on.
    pub fn is_on(&self) -> (b: bool)
        ensures
            b == self.switch.on,
    {
        self.switch.on
    }

    /// Feed one frame's raw toggle-input level to the switch controller;
    /// nothing but the switch state changes.
    pub fn switch_tick(&mut self, level: bool)
        ensures
            old(self).wf() ==> final(self).wf(),
            final(self).switch == old(self).switch.stepped(level),
            final(self).particles == old(self).particles,
            final(self).resistors == old(self).resistors,
            final(self).power == old(self).power,
            final(self).spawn_ticks == old(self).spawn_ticks,
            final(self).spawn_cap == old(self).spawn_cap,
            final(self).resistor_count == old(self).resistor_count,
            final(self).next_entity == old(self).next_entity,
    {
        self.switch.step(level);
    }

    /// The power value the LED renders: the stored power gated by the
    /// switch — forced to zero (`None`) while the circuit is off.
    pub open spec fn gated_power_spec(self) -> Option<usize> {
        if self.switch.on {
            self.power
        } else {
            None
        }
    }

    /// Power as the renderer must show it, gated by the on/off switch.
    pub fn gated_power(&self) -> (r: Option<usize>)
        ensures
            r == self.gated_power_spec(),
    {
        if self.switch.on {
            self.power
        } else {
            None
        }
    }

    /// Whether the next spawn-cadence tick creates a particle: the tick
    /// counter is under the cap and the circuit is switched on. The cap
    /// check reads the tick counter, not the live population — the counter
    /// keeps counting past blocked spawns.
    pub open spec fn spawn_due(self) -> bool {
        self.spawn_ticks < self.spawn_cap && self.switch.on
    }

    /// One spawn-cadence tick with a given lateral offset. If a spawn is
    /// due, a new particle enters the loop on the top rail, shifted sideways
    /// by `offset` hundredths of a world unit per tick counted so far, with
    /// the default heading (West), full damping, no collisions and an empty
    /// visited-resistor set. The tick counter always advances, spawn or not.
    pub fn spawn_tick_with_offset(&mut self, offset: i32) -> (spawned: bool)
        requires
            old(self).wf(),
            -10 <= offset < 10,
            old(self).spawn_ticks < SPAWN_TICK_LIMIT,
            old(self).next_entity < u64::MAX,
        ensures
            final(self).wf(),
            spawned == old(self).spawn_due(),
            final(self).spawn_ticks == old(self).spawn_ticks + 1,
            final(self).resistors == old(self).resistors,
            final(self).power == old(self).power,
            final(self).switch == old(self).switch,
            final(self).spawn_cap == old(self).spawn_cap,
            final(self).resistor_count == old(self).resistor_count,
            !spawned ==> final(self).particles == old(self).particles && final(self).next_entity
                == old(self).next_entity,
            spawned ==> {
                &&& final(self).next_entity == old(self).next_entity + 1
                &&& final(self).particles@.len() == old(self).particles@.len() + 1
                &&& forall|j: int|
                    0 <= j < old(self).particles@.len() ==> final(self).particles@[j] == old(
                        self,
                    ).particles@[j]
                &&& {
                    let p = final(self).particles@[old(self).particles@.len() as int];
                    &&& p.id == old(self).next_entity
                    &&& p.x == offset as int * 10 * old(self).spawn_ticks as int
                    &&& p.y == TOP_RAIL_Y
                    &&& p.collisions == 0
                    &&& p.visited@ == Seq::<u32>::empty()
                }
            },
    {
        let due = self.spawn_ticks < self.spawn_cap && self.switch.on;
        if due {
            proof {
                let o = offset as int;
                let t = self.spawn_ticks as int;
                assert(-100 * 1000000000000 <= o * 10 * t <= 100 * 1000000000000)
                    by (nonlinear_arith)
                    requires
                        -10 <= o < 10,
                        0 <= t < 1000000000000,
                {
                }
            }
            let x: i64 = (offset as i64) * 10 * (self.spawn_ticks as i64);
            let p = Particle {
                id: self.next_entity,
                x,
                y: TOP_RAIL_Y,
                collisions: 0,
                visited: Vec::new(),
            };
            self.particles.push(p);
            self.next_entity = self.next_entity + 1;
        }
        self.spawn_ticks = self.spawn_ticks + 1;
        due
    }

    /// One spawn-cadence tick, drawing the lateral offset at random to avoid
    /// exact stacking of particles. Apart from the spawn position, which is
    /// pinned only to the top rail and a bounded sideways shift, the outcome
    /// equals [`Self::spawn_tick_with_offset`].
    pub fn spawn_tick(&mut self) -> (spawned: bool)
        requires
            old(self).wf(),
            old(self).spawn_ticks < SPAWN_TICK_LIMIT,
            old(self).next_entity < u64::MAX,
        ensures
            final(self).wf(),
            spawned == old(self).spawn_due(),
            final(self).spawn_ticks == old(self).spawn_ticks + 1,
            final(self).resistors == old(self).resistors,
            final(self).power == old(self).power,
            final(self).switch == old(self).switch,
            final(self).spawn_cap == old(self).spawn_cap,
            final(self).resistor_count == old(self).resistor_count,
            !spawned ==> final(self).particles == old(self).particles && final(self).next_entity
                == old(self).next_entity,
            spawned ==> {
                &&& final(self).next_entity == old(self).next_entity + 1
                &&& final(self).particles@.len() == old(self).particles@.len() + 1
                &&& forall|j: int|
                    0 <= j < old(self).particles@.len() ==> final(self).particles@[j] == old(
                        self,
                    ).particles@[j]
                &&& {
                    let p = final(self).particles@[old(self).particles@.len() as int];
                    &&& p.id == old(self).next_entity
                    &&& -100 * old(self).spawn_ticks as int <= p.x <= 90 * old(
                        self,
                    ).spawn_ticks as int
                    &&& p.y == TOP_RAIL_Y
                    &&& p.collisions == 0
                    &&& p.visited@ == Seq::<u32>::empty()
                }
            },
    {
        let offset = random_lateral_offset();
        let spawned = self.spawn_tick_with_offset(offset);
        proof {
            if spawned {
                let o = offset as int;
                let t = old(self).spawn_ticks as int;
                assert(-100 * t <= o * 10 * t && o * 10 * t <= 90 * t) by (nonlinear_arith)
                    requires
                        -10 <= o <= 9,
                        t >= 0,
                {
                }
            }
        }
        spawned
    }

    /// Look a particle up by its entity handle.
    fn find_particle(&self, id: u64) -> (r: Option<usize>)
        ensures
            match r {
                Some(i) => i < self.particles@.len() && self.particles@[i as int].id == id,
                None => !self.has_particle(id),
            },
    {
        let n = self.particles.len();
        let mut i: usize = 0;
        while i < n
            invariant
                i <= n == self.particles@.len(),
                forall|j: int| 0 <= j < i ==> (#[trigger] self.particles@[j]).id != id,
            decreases n - i,
        {
            if self.particles[i].id == id {
                return Some(i);
            }
            i = i + 1;
        }
        None
    }

    /// Any two positions holding a particle with the same entity handle are
    /// one and the same, so the handle picks out the particle uniquely.
    pub proof fn lemma_particle_index_unique(self, id: u64, i: int)
        requires
            self.wf(),
            0 <= i < self.particles@.len(),
            self.particles@[i].id == id,
        ensures
            self.has_particle(id),
            self.particle_index_of(id) == i,
    {
        assert(self.has_particle(id));
        let j = self.particle_index_of(id);
        if j < i {
            assert(self.particles@[j].id != self.particles@[i].id);
        } else if j > i {
            assert(self.particles@[i].id != self.particles@[j].id);
        }
    }

    /// Same for resistors: the sensor handle picks the resistor uniquely.
    pub proof fn lemma_resistor_index_unique(self, id: u64, i: int)
        requires
            self.wf(),
            0 <= i < self.resistors@.len(),
            self.resistors@[i].entity == id,
        ensures
            self.has_resistor_entity(id),
            self.resistor_index_of(id) == i,
    {
        assert(self.has_resistor_entity(id));
        let j = self.resistor_index_of(id);
        if j < i {
            assert(self.resistors@[j].entity != self.resistors@[i].entity);
        } else if j > i {
            assert(self.resistors@[i].entity != self.resistors@[j].entity);
        }
    }

    /// A live particle's entity handle never names an obstacle: particles
    /// use dynamic handles above the fixed sensors' and are disjoint from
    /// every resistor's.
    proof fn lemma_particle_not_obstacle(self, id: u64)
        requires
            self.wf(),
            self.has_particle(id),
        ensures
            !self.is_obstacle(id),
    {
        let i = choose|i: int|
            0 <= i < self.particles@.len() && (#[trigger] self.particles@[i]).id == id;
        assert(self.particles@[i].id >= FIRST_DYNAMIC_ENTITY);
        if self.has_resistor_entity(id) {
            let j = choose|j: int|
                0 <= j < self.resistors@.len() && (#[trigger] self.resistors@[j]).entity == id;
            assert(self.particles@[i].id != self.resistors@[j].entity);
        }
    }

    /// Classify an entity handle as the obstacle it names, if any.
    fn classify_obstacle(&self, id: u64) -> (r: Option<Obstacle>)
        requires
            self.wf(),
        ensures
            r is Some <==> self.is_obstacle(id),
            r matches Some(ob) ==> ob == self.obstacle_kind(id),
    {
        if id == LED_ENTITY {
            return Some(Obstacle::Led);
        }
        if FIRST_WALL_ENTITY <= id && id < FIRST_WALL_ENTITY + WALL_COUNT {
            return Some(Obstacle::Corner);
        }
        let n = self.resistors.len();
        let mut i: usize = 0;
        while i < n
            invariant
                i <= n == self.resistors@.len(),
                self.wf(),
                id != LED_ENTITY,
                !is_wall_entity(id),
                forall|j: int| 0 <= j < i ==> (#[trigger] self.resistors@[j]).entity != id,
            decreases n - i,
        {
            if self.resistors[i].entity == id {
                proof {
                    self.lemma_resistor_index_unique(id, i as int);
                }
                return Some(Obstacle::Resistor { rid: self.resistors[i].rid });
            }
            i = i + 1;
        }
        None
    }

    /// Apply one collision with a known obstacle to the particle at `i`.
    fn apply_at(&mut self, i: usize, ob: Obstacle)
        requires
            old(self).wf(),
            i < old(self).particles@.len(),
            old(self).particles@[i as int].collisions < u64::MAX,
        ensures
            final(self).wf(),
            final(self).particles@.len() == old(self).particles@.len(),
            collision_step(old(self).particles@[i as int], ob, final(self).particles@[i as int]),
            forall|j: int|
                0 <= j < old(self).particles@.len() && j != i ==> final(self).particles@[j] == old(
                    self,
                ).particles@[j],
            final(self).power == power_step(old(self).particles@[i as int], ob, old(self).power),
            final(self).resistors == old(self).resistors,
            final(self).switch == old(self).switch,
            final(self).spawn_ticks == old(self).spawn_ticks,
            final(self).spawn_cap == old(self).spawn_cap,
            final(self).resistor_count == old(self).resistor_count,
            final(self).next_entity == old(self).next_entity,
    {
        apply_obstacle(&mut self.particles[i], ob, &mut self.power);
    }

    /// React to one collision-started event, given as an unordered pair of
    /// entity handles, exactly as the broad-phase detector reports it. If
    /// one handle names a live particle and the other an obstacle, the
    /// particle (and, on an LED contact, the power value) takes one
    /// collision step; any other pair — unknown handles, two particles, two
    /// obstacles — is silently skipped.
    pub fn process_event(&mut self, a: u64, b: u64)
        requires
            old(self).wf(),
            forall|i: int|
                0 <= i < old(self).particles@.len() ==> (#[trigger] old(
                    self,
                ).particles@[i]).collisions < u64::MAX,
        ensures
            final(self).wf(),
            old(self).event_step(a, b, *final(self)),
    {
        if let Some(i) = self.find_particle(a) {
            proof {
                self.lemma_particle_index_unique(a, i as int);
                self.lemma_particle_not_obstacle(a);
            }
            if let Some(ob) = self.classify_obstacle(b) {
                self.apply_at(i, ob);
            }
        } else if let Some(i) = self.find_particle(b) {
            proof {
                self.lemma_particle_index_unique(b, i as int);
                self.lemma_particle_not_obstacle(b);
            }
            if let Some(ob) = self.classify_obstacle(a) {
                self.apply_at(i, ob);
            }
        }
    }

    /// A trace extends by one event at its end: processing a batch and then
    /// one more event is a trace of the batch with that event appended.
    proof fn lemma_events_trace_snoc(
        self,
        events: Seq<(u64, u64)>,
        mid: Circuit,
        a: u64,
        b: u64,
        post: Circuit,
    )
        requires
            self.events_trace(events, mid),
            mid.event_step(a, b, post),
        ensures
            self.events_trace(events.push((a, b)), post),
        decreases events.len(),
    {
        let extended = events.push((a, b));
        if events.len() == 0 {
            assert(mid == self);
            assert(extended[0].0 == a && extended[0].1 == b);
            assert(extended.skip(1) =~= Seq::<(u64, u64)>::empty());
            assert(self.event_step(extended[0].0, extended[0].1, post));
            assert(post.events_trace(extended.skip(1), post));
            assert(self.events_trace(extended, post));
        } else {
            let step1 = choose|m: Circuit|
                #[trigger] self.event_step(events[0].0, events[0].1, m) && m.events_trace(
                    events.skip(1),
                    mid,
                );
            step1.lemma_events_trace_snoc(events.skip(1), mid, a, b, post);
            assert(extended[0].0 == events[0].0 && extended[0].1 == events[0].1);
            assert(extended.skip(1) =~= events.skip(1).push((a, b)));
            assert(self.event_step(extended[0].0, extended[0].1, step1));
            assert(step1.events_trace(extended.skip(1), post));
            assert(self.events_trace(extended, post));
        }
    }

    /// Drain one frame's collision events, in emission order, as the
    /// broad-phase detector handed them over. All per-particle state
    /// changes of the batch are visible once this returns, before the next
    /// frame's physics step runs.
    pub fn process_events(&mut self, events: &Vec<(u64, u64)>)
        requires
            old(self).wf(),
            forall|i: int|
                0 <= i < old(self).particles@.len() ==> (#[trigger] old(
                    self,
                ).particles@[i]).collisions + events@.len() <= u64::MAX,
        ensures
            final(self).wf(),
            old(self).events_trace(events@, *final(self)),
    {
        let n = events.len();
        let mut i: usize = 0;
        proof {
            assert(events@.take(0) =~= Seq::<(u64, u64)>::empty());
        }
        while i < n
            invariant
                i <= n == events@.len(),
                self.wf(),
                old(self).events_trace(events@.take(i as int), *self),
                self.particles@.len() == old(self).particles@.len(),
                forall|j: int|
                    0 <= j < old(self).particles@.len() ==> (#[trigger] old(
                        self,
                    ).particles@[j]).collisions + events@.len() <= u64::MAX,
                forall|j: int|
                    0 <= j < self.particles@.len() ==> (#[trigger] self.particles@[j]).collisions
                        <= old(self).particles@[j].collisions + i,
            decreases n - i,
        {
            let e = events[i];
            let ghost pre = *self;
            proof {
                assert forall|j: int|
                    0 <= j < self.particles@.len() implies (#[trigger] self.particles@[j]).collisions
                    < u64::MAX by {
                    assert(old(self).particles@[j].collisions + n <= u64::MAX);
                }
            }
            self.process_event(e.0, e.1);
            proof {
                old(self).lemma_events_trace_snoc(events@.take(i as int), pre, e.0, e.1, *self);
                assert(events@.take(i as int).push(events@[i as int]) =~= events@.take(
                    i as int + 1,
                ));
                assert forall|j: int|
                    0 <= j < self.particles@.len() implies (#[trigger] self.particles@[j]).collisions
                    <= old(self).particles@[j].collisions + (i + 1) by {
                    if pre.resolves_to(e.0, e.1) {
                        let k = pre.event_particle_index(e.0, e.1);
                        if j != k {
                            assert(self.particles@[j] == pre.particles@[j]);
                        }
                    } else {
                        assert(self.particles@[j] == pre.particles@[j]);
                    }
                }
            }
            i = i + 1;
        }
        proof {
            assert(events@.take(n as int) =~= events@);
        }
    }

    /// Whether every particle sits far enough from the coordinate rim to
    /// take one tick of motion with base step `step`: exactly the headroom
    /// [`Self::move_particles`] asks for.
    pub fn motion_headroom(&self, step: u64) -> (ok: bool)
        requires
            step <= u64::MAX / 4,
        ensures
            ok == (forall|i: int|
                0 <= i < self.particles@.len() ==> {
                    let p = #[trigger] self.particles@[i];
                    &&& p.x - step >= i64::MIN
                    &&& p.x + step <= i64::MAX
                    &&& p.y - step >= i64::MIN
                    &&& p.y + step <= i64::MAX
                }),
    {
        let margin = step as i64;
        let n = self.particles.len();
        let mut i: usize = 0;
        while i < n
            invariant
                i <= n == self.particles@.len(),
                step <= u64::MAX / 4,
                margin == step as i64,
                forall|j: int|
                    0 <= j < i ==> {
                        let p = #[trigger] self.particles@[j];
                        &&& p.x - step >= i64::MIN
                        &&& p.x + step <= i64::MAX
                        &&& p.y - step >= i64::MIN
                        &&& p.y + step <= i64::MAX
                    },
            decreases n - i,
        {
            let p = &self.particles[i];
            if !(p.x >= i64::MIN + margin && p.x <= i64::MAX - margin && p.y >= i64::MIN + margin
                && p.y <= i64::MAX - margin) {
                return false;
            }
            i = i + 1;
        }
        true
    }

    /// Whether every particle's collision count has room for `count` more
    /// collisions: exactly the headroom [`Self::process_events`] asks for on
    /// a batch of `count` events.
    pub fn collision_headroom(&self, count: usize) -> (ok: bool)
        ensures
            ok == (forall|i: int|
                0 <= i < self.particles@.len() ==> (#[trigger] self.particles@[i]).collisions
                    + count <= u64::MAX),
    {
        let n = self.particles.len();
        let mut i: usize = 0;
        while i < n
            invariant
                i <= n == self.particles@.len(),
                forall|j: int|
                    0 <= j < i ==> (#[trigger] self.particles@[j]).collisions + count
                        <= u64::MAX,
            decreases n - i,
        {
            if self.particles[i].collisions > u64::MAX - (count as u64) {
                return false;
            }
            i = i + 1;
        }
        true
    }

    /// Move every particle for one tick. `step` is the distance an undamped
    /// particle covers this tick, in thousandths of a world unit; each
    /// particle covers it scaled down by its own damping factor, along its
    /// own heading. While the switch is off, no particle's position changes,
    /// whatever its heading and damping.
    pub fn move_particles(&mut self, step: u64)
        requires
            old(self).wf(),
            step <= u64::MAX / 4,
            forall|i: int|
                0 <= i < old(self).particles@.len() ==> {
                    let p = #[trigger] old(self).particles@[i];
                    &&& p.x - step >= i64::MIN
                    &&& p.x + step <= i64::MAX
                    &&& p.y - step >= i64::MIN
                    &&& p.y + step <= i64::MAX
                },
        ensures
            final(self).wf(),
            final(self).particles@.len() == old(self).particles@.len(),
            final(self).resistors == old(self).resistors,
            final(self).power == old(self).power,
            final(self).switch == old(self).switch,
            final(self).spawn_ticks == old(self).spawn_ticks,
            final(self).spawn_cap == old(self).spawn_cap,
            final(self).resistor_count == old(self).resistor_count,
            final(self).next_entity == old(self).next_entity,
            forall|i: int|
                0 <= i < old(self).particles@.len() ==> old(self).particles@[i].move_step(
                    step as nat,
                    old(self).switch.on,
                    #[trigger] final(self).particles@[i],
                ),
            !old(self).switch.on ==> forall|i: int|
                0 <= i < old(self).particles@.len() ==> (#[trigger] final(self).particles@[i]).x
                    == old(self).particles@[i].x && final(self).particles@[i].y == old(
                    self,
                ).particles@[i].y,
    {
        let on = self.switch.on;
        let n = self.particles.len();
        let mut i: usize = 0;
        while i < n
            invariant
                i <= n == self.particles@.len(),
                n == old(self).particles@.len(),
                on == old(self).switch.on,
                step <= u64::MAX / 4,
                self.resistors == old(self).resistors,
                self.power == old(self).power,
                self.switch == old(self).switch,
                self.spawn_ticks == old(self).spawn_ticks,
                self.spawn_cap == old(self).spawn_cap,
                self.resistor_count == old(self).resistor_count,
                self.next_entity == old(self).next_entity,
                forall|j: int|
                    0 <= j < old(self).particles@.len() ==> {
                        let p = #[trigger] old(self).particles@[j];
                        &&& p.x - step >= i64::MIN
                        &&& p.x + step <= i64::MAX
                        &&& p.y - step >= i64::MIN
                        &&& p.y + step <= i64::MAX
                    },
                forall|j: int| i <= j < n ==> self.particles@[j] == old(self).particles@[j],
                forall|j: int|
                    0 <= j < i ==> old(self).particles@[j].move_step(
                        step as nat,
                        on,
                        #[trigger] self.particles@[j],
                    ),
                old(self).wf(),
            decreases n - i,
        {
            let p = &mut self.particles[i];
            p.advance(step, on);
            i = i + 1;
        }
        proof {
            assert forall|j: int|
                0 <= j < self.particles@.len() implies (#[trigger] self.particles@[j]).wf()
                && FIRST_DYNAMIC_ENTITY <= self.particles@[j].id < self.next_entity by {
                assert(old(self).particles@[j].move_step(step as nat, on, self.particles@[j]));
                assert(self.particles@[j].visited == old(self).particles@[j].visited);
            }
            assert forall|j: int, k: int|
                0 <= j < k < self.particles@.len() implies self.particles@[j].id
                != self.particles@[k].id by {
                assert(self.particles@[j].id == old(self).particles@[j].id);
                assert(self.particles@[k].id == old(self).particles@[k].id);
            }
            assert forall|j: int, k: int|
                0 <= j < self.particles@.len() && 0 <= k < self.resistors@.len()
                implies self.particles@[j].id != self.resistors@[k].entity by {
                assert(self.particles@[j].id == old(self).particles@[j].id);
            }
        }
    }

    /// Handle a primary click at world coordinate `(x, y)`. Inside one of
    /// the three placement bands this creates exactly one new resistor,
    /// snapped to the band's rail and free on the other axis, with a fresh
    /// identifier from the monotonic placement counter; outside all bands it
    /// is a no-op. Returns the new resistor's identifier, if one was placed.
    pub fn place_resistor(&mut self, x: i64, y: i64) -> (placed: Option<u32>)
        requires
            old(self).wf(),
            old(self).resistor_count < u32::MAX,
            old(self).next_entity < u64::MAX,
        ensures
            final(self).wf(),
            final(self).particles == old(self).particles,
            final(self).power == old(self).power,
            final(self).switch == old(self).switch,
            final(self).spawn_ticks == old(self).spawn_ticks,
            final(self).spawn_cap == old(self).spawn_cap,
            snapped_position(x, y) is None ==> placed is None
                && final(self).resistors == old(self).resistors
                && final(self).resistor_count == old(self).resistor_count
                && final(self).next_entity == old(self).next_entity,
            snapped_position(x, y) matches Some(pos) ==> {
                &&& placed == Some((old(self).resistor_count + 1) as u32)
                &&& final(self).resistor_count == old(self).resistor_count + 1
                &&& final(self).next_entity == old(self).next_entity + 1
                &&& final(self).resistors@ == old(self).resistors@.push(
                    Resistor {
                        entity: old(self).next_entity,
                        rid: (old(self).resistor_count + 1) as u32,
                        x: pos.0,
                        y: pos.1,
                    },
                )
            },
    {
        let sx: i64;
        let sy: i64;
        if LEFT_RAIL_X - RAIL_BAND_HALF_WIDTH < x && x < LEFT_RAIL_X + RAIL_BAND_HALF_WIDTH {
            sx = LEFT_RAIL_X;
            sy = y;
        } else if RIGHT_RAIL_X - RAIL_BAND_HALF_WIDTH < x && x < RIGHT_RAIL_X
            + RAIL_BAND_HALF_WIDTH {
            sx = RIGHT_RAIL_X;
            sy = y;
        } else if BOTTOM_RAIL_Y - RAIL_BAND_HALF_WIDTH < y && y < BOTTOM_RAIL_Y
            + RAIL_BAND_HALF_WIDTH {
            sx = x;
            sy = BOTTOM_RAIL_Y;
        } else {
            return None;
        }
        self.resistor_count = self.resistor_count + 1;
        let r = Resistor { entity: self.next_entity, rid: self.resistor_count, x: sx, y: sy };
        self.resistors.push(r);
        self.next_entity = self.next_entity + 1;
        Some(self.resistor_count)
    }

}

/// Entity handles and positions of the four corner sensors, one at each
/// corner of the rectangular loop; the renderer and the broad-phase detector
/// place their sensor volumes here.
pub fn corner_sensors() -> (v: Vec<(u64, i64, i64)>)
    ensures
        v@.len() == 4,
        v@[0] == (FIRST_WALL_ENTITY, LEFT_RAIL_X, TOP_RAIL_Y),
        v@[1] == ((FIRST_WALL_ENTITY + 1) as u64, RIGHT_RAIL_X, TOP_RAIL_Y),
        v@[2] == ((FIRST_WALL_ENTITY + 2) as u64, LEFT_RAIL_X, BOTTOM_RAIL_Y),
        v@[3] == ((FIRST_WALL_ENTITY + 3) as u64, RIGHT_RAIL_X, BOTTOM_RAIL_Y),
{
    let mut v: Vec<(u64, i64, i64)> = Vec::new();
    v.push((FIRST_WALL_ENTITY, LEFT_RAIL_X, TOP_RAIL_Y));
    v.push((FIRST_WALL_ENTITY + 1, RIGHT_RAIL_X, TOP_RAIL_Y));
    v.push((FIRST_WALL_ENTITY + 2, LEFT_RAIL_X, BOTTOM_RAIL_Y));
    v.push((FIRST_WALL_ENTITY + 3, RIGHT_RAIL_X, BOTTOM_RAIL_Y));
    v
}

/// Position of the LED sensor on the right rail.
pub fn led_position() -> (pos: (i64, i64))
    ensures
        pos == (LED_X, LED_Y),
{
    (LED_X, LED_Y)
}

/// The LED's rendered brightness for a given damping exponent, as the exact
/// fraction `9 * 4^steps / (10 * 5^steps)`: the base saturation 9/10 scaled
/// by the damping factor the power value stands for. The renderer divides
/// the two; the switch gate is applied beforehand through
/// [`Circuit::gated_power`].
pub fn led_brightness_fraction(steps: u64) -> (r: (u64, u64))
    requires
        steps <= 26,
    ensures
        r.0 == 9 * pow4(steps as nat),
        r.1 == 10 * pow5(steps as nat),
{
    let (num, den) = damping_fraction(steps);
    proof {
        lemma_damping_in_unit_interval(steps as nat);
        lemma_pow5_monotone(steps as nat, 26);
        lemma_pow5_at_limit();
        assert(pow5(27) == 5 * pow5(26));
    }
    (9 * num, 10 * den)
}

/// A particle's state after any one collision, chained: `pre` reaches `post`
/// through the obstacles of `obs`, one [`collision_step`] each, in order.
pub open spec fn collision_trace(pre: Particle, obs: Seq<Obstacle>, post: Particle) -> bool
    decreases obs.len(),
{
    if obs.len() == 0 {
        &&& post.id == pre.id
        &&& post.x == pre.x
        &&& post.y == pre.y
        &&& post.collisions == pre.collisions
        &&& post.visited@ == pre.visited@
    } else {
        exists|mid: Particle|
            #[trigger] collision_step(pre, obs[0], mid) && collision_trace(
                mid,
                obs.skip(1),
                post,
            )
    }
}

/// One collision never raises the damping factor: the visited-resistor set
/// only grows (by at most one resistor, and only by one the particle has not
/// met before), and a larger damping exponent means a damping factor that is
/// no larger, compared here by cross-multiplying the exact fractions.
pub proof fn lemma_collision_step_damping(pre: Particle, ob: Obstacle, post: Particle)
    requires
        pre.wf(),
        collision_step(pre, ob, post),
    ensures
        post.wf(),
        pre.damping_exponent() <= post.damping_exponent() <= pre.damping_exponent() + 1,
        pow4(post.damping_exponent()) * pow5(pre.damping_exponent()) <= pow4(
            pre.damping_exponent(),
        ) * pow5(post.damping_exponent()),
{
    if hits_new_resistor(pre, ob) {
        let rid = obstacle_rid(ob);
        assert forall|i: int, j: int|
            0 <= i < j < post.visited@.len() implies post.visited@[i] != post.visited@[j] by {
            if j == post.visited@.len() - 1 {
                assert(pre.visited@[i] != rid);
            }
        }
    }
    lemma_damping_non_increasing(pre.damping_exponent(), post.damping_exponent());
}

/// A particle's damping factor is monotonically non-increasing across its
/// whole lifetime: over any sequence of collisions the damping exponent only
/// grows, the damping factor `pow4/pow5` only falls, and the
/// visited-resistor set stays duplicate-free, so each resistor attenuates a
/// given particle at most once.
pub proof fn lemma_damping_monotone_over_lifetime(
    pre: Particle,
    obs: Seq<Obstacle>,
    post: Particle,
)
    requires
        pre.wf(),
        collision_trace(pre, obs, post),
    ensures
        post.wf(),
        pre.damping_exponent() <= post.damping_exponent(),
        pow4(post.damping_exponent()) * pow5(pre.damping_exponent()) <= pow4(
            pre.damping_exponent(),
        ) * pow5(post.damping_exponent()),
    decreases obs.len(),
{
    if obs.len() == 0 {
        lemma_damping_non_increasing(pre.damping_exponent(), post.damping_exponent());
    } else {
        let mid = choose|mid: Particle|
            #[trigger] collision_step(pre, obs[0], mid) && collision_trace(
                mid,
                obs.skip(1),
                post,
            );
        lemma_collision_step_damping(pre, obs[0], mid);
        lemma_damping_monotone_over_lifetime(mid, obs.skip(1), post);
        lemma_damping_non_increasing(pre.damping_exponent(), post.damping_exponent());
    }
}

/// The particle-lifetime damping law lifted to whole frames: across any
/// batch of collision events, a particle's damping exponent never falls, its
/// damping factor never rises, and its visited-resistor set stays
/// duplicate-free.
pub proof fn lemma_batch_damping_monotone(
    pre: Circuit,
    events: Seq<(u64, u64)>,
    post: Circuit,
    i: int,
)
    requires
        0 <= i < pre.particles@.len(),
        pre.particles@[i].wf(),
        pre.events_trace(events, post),
    ensures
        post.particles@.len() == pre.particles@.len(),
        post.particles@[i].wf(),
        pre.particles@[i].damping_exponent() <= post.particles@[i].damping_exponent(),
        pow4(post.particles@[i].damping_exponent()) * pow5(
            pre.particles@[i].damping_exponent(),
        ) <= pow4(pre.particles@[i].damping_exponent()) * pow5(
            post.particles@[i].damping_exponent(),
        ),
    decreases events.len(),
{
    if events.len() == 0 {
        assert(post.particles@[i] == pre.particles@[i]);
        lemma_damping_non_increasing(
            pre.particles@[i].damping_exponent(),
            post.particles@[i].damping_exponent(),
        );
    } else {
        let mid = choose|mid: Circuit|
            #[trigger] pre.event_step(events[0].0, events[0].1, mid) && mid.events_trace(
                events.skip(1),
                post,
            );
        if pre.resolves_to(events[0].0, events[0].1) && pre.event_particle_index(
            events[0].0,
            events[0].1,
        ) == i {
            let ob = pre.event_obstacle(events[0].0, events[0].1);
            lemma_collision_step_damping(pre.particles@[i], ob, mid.particles@[i]);
        } else {
            assert(mid.particles@[i] == pre.particles@[i]);
        }
        lemma_batch_damping_monotone(mid, events.skip(1), post, i);
        lemma_damping_non_increasing(
            pre.particles@[i].damping_exponent(),
            post.particles@[i].damping_exponent(),
        );
    }
}

/// The power value changes only on an LED collision event, and then it
/// equals the damping exponent of the colliding particle at that instant —
/// writing and immediately reading back inside the same event yields the
/// written value.
pub proof fn lemma_power_changes_only_on_led(p: Particle, ob: Obstacle, power: Option<usize>)
    ensures
        power_step(p, ob, power) != power ==> ob == Obstacle::Led,
        ob == Obstacle::Led ==> power_step(p, ob, power) == Some(
            p.damping_exponent() as usize,
        ),
{
}

/// Apply one collision with a known obstacle to a particle and to the power
/// value: a corner advances the collision count; a first resistor contact
/// records the resistor and advances the count (attenuating the damping
/// factor by 4/5), a repeated one does nothing; an LED contact copies the
/// particle's damping exponent into the power value.
fn apply_obstacle(p: &mut Particle, ob: Obstacle, power: &mut Option<usize>)
    requires
        old(p).wf(),
        old(p).collisions < u64::MAX,
    ensures
        final(p).wf(),
        collision_step(*old(p), ob, *final(p)),
        *final(power) == power_step(*old(p), ob, *old(power)),
{
    match ob {
        Obstacle::Corner => {
            p.collisions = p.collisions + 1;
        },
        Obstacle::Resistor { rid } => {
            if !p.has_visited(rid) {
                p.visited.push(rid);
                p.collisions = p.collisions + 1;
                proof {
                    assert forall|i: int, j: int|
                        0 <= i < j < p.visited@.len() implies p.visited@[i] != p.visited@[j] by {
                        if j == p.visited@.len() - 1 {
                            assert(old(p).visited@[i] != rid);
                        }
                    }
                }
            }
        },
        Obstacle::Led => {
            *power = Some(p.visited.len());
        },
    }
}

} // verus!
