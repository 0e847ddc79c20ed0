//! The entity store and the systems that advance it by one frame.
use vstd::prelude::*;
use crate::bounds::{ScreenBounds, wrap_coordinate, wrapped, updated_bounds};
use crate::chance::{random_point, random_velocity, is_spawn_velocity};
use crate::entity::{
    AsteroidSize, Entity, Kind, HEADING_STEPS, direction, spec_direction,
};
use crate::input::{Controls, KeyboardState, MobileInputState, merge_input, merged};
use crate::vector::{
    Vec2, abs, bounded, norm2, dist2, rescale, rescaled, ceil_root, trunc_scale, scale_component,
    lemma_rescaled_within_length, lemma_component_within_root, SCALE,
};

verus! {

/// Speed of every asteroid, in millionths per frame.
pub const ASTEROID_VELOCITY: u64 = 2_000_000;

/// Asteroids in a fresh scene.
pub const INITIAL_ASTEROIDS: usize = 6;

/// Speed that thrust may not push the ship past, in millionths per frame.
pub const STARSHIP_MAX_VELOCITY: u64 = 10_000_000;

/// Speed gained per frame of thrust, in millionths per frame.
pub const STARSHIP_ACCELERATION: u64 = 200_000;

/// Speed of a bullet, in units per frame.
pub const BULLET_VELOCITY: i64 = 6;

/// Componentwise sum.
pub open spec fn sum(a: Vec2, b: Vec2) -> Vec2 {
    Vec2 { x: (a.x + b.x) as i64, y: (a.y + b.y) as i64 }
}

/// The heading after one frame of turning: left wins over right.
pub open spec fn turned(h: int, c: Controls) -> int {
    if c.left_pressed {
        (h + 1) % (HEADING_STEPS as int)
    } else if c.right_pressed {
        (h + HEADING_STEPS - 1) % (HEADING_STEPS as int)
    } else {
        h
    }
}

/// The velocity one frame of thrust along direction `d` adds.
pub open spec fn thrust(d: Vec2) -> Vec2 {
    Vec2 {
        x: trunc_scale(d.x as int, STARSHIP_ACCELERATION as int, SCALE as int) as i64,
        y: trunc_scale(d.y as int, STARSHIP_ACCELERATION as int, SCALE as int) as i64,
    }
}

/// `v`, rescaled to the ship's top speed where it is faster.
pub open spec fn clamped(v: Vec2) -> Vec2 {
    let m = STARSHIP_MAX_VELOCITY as int;
    if norm2(v) > m * m {
        rescaled(v, m, ceil_root(norm2(v)))
    } else {
        v
    }
}

/// An entity after one frame of the controls: a ship turns, then thrusts
/// along its new heading; anything else is left alone.
pub open spec fn steered(e: Entity, c: Controls) -> Entity {
    match e.kind {
        Kind::Starship { heading } => {
            let h = turned(heading as int, c);
            Entity {
                kind: Kind::Starship { heading: h as u8 },
                position: e.position,
                velocity: if c.up_pressed {
                    clamped(sum(e.velocity, thrust(spec_direction(h))))
                } else {
                    e.velocity
                },
            }
        },
        _ => e,
    }
}

/// The bullet a ship with heading `h` at `p` fires.
pub open spec fn bullet_from(p: Vec2, h: int) -> Entity {
    let d = spec_direction(h);
    Entity {
        kind: Kind::Bullet { start: p },
        position: p,
        velocity: Vec2 { x: (d.x * BULLET_VELOCITY) as i64, y: (d.y * BULLET_VELOCITY) as i64 },
    }
}

/// The bullets that the ships among the first `n` entities fire this frame.
pub open spec fn shots(s: Seq<Entity>, c: Controls, n: int) -> Seq<Entity>
    decreases n,
{
    if n <= 0 {
        Seq::empty()
    } else {
        let prev = shots(s, c, n - 1);
        let e = steered(s[n - 1], c);
        match e.kind {
            Kind::Starship { heading } => if c.fire_just_pressed {
                prev.push(bullet_from(e.position, heading as int))
            } else {
                prev
            },
            _ => prev,
        }
    }
}

/// Distance a bullet flies before it is removed: 0.8 of the 720-unit
/// viewport height, in millionths.
pub const BULLET_DISTANCE: i64 = 576_000_000;

/// Share of its speed, in percent, that a coasting ship keeps each frame.
pub const STARSHIP_SPEED_KEPT_PERCENT: u64 = 99;

/// A coasting ship loses a hundredth of its speed; anything else keeps its velocity.
pub open spec fn decelerated(e: Entity) -> Entity {
    match e.kind {
        Kind::Starship { .. } => Entity {
            velocity: Vec2 {
                x: trunc_scale(e.velocity.x as int, STARSHIP_SPEED_KEPT_PERCENT as int, 100) as i64,
                y: trunc_scale(e.velocity.y as int, STARSHIP_SPEED_KEPT_PERCENT as int, 100) as i64,
            },
            ..e
        },
        _ => e,
    }
}

/// A bullet that has flown farther than `BULLET_DISTANCE` from where it was fired.
pub open spec fn out_of_range(e: Entity) -> bool {
    match e.kind {
        Kind::Bullet { start } => dist2(start, e.position) > BULLET_DISTANCE * BULLET_DISTANCE,
        _ => false,
    }
}

/// The first `n` entities without the bullets out of range, in order.
pub open spec fn in_range_prefix(s: Seq<Entity>, n: int) -> Seq<Entity>
    decreases n,
{
    if n <= 0 {
        Seq::empty()
    } else if out_of_range(s[n - 1]) {
        in_range_prefix(s, n - 1)
    } else {
        in_range_prefix(s, n - 1).push(s[n - 1])
    }
}

/// An entity after one step of motion: moved by its velocity, then wrapped
/// at each edge of the field, half its size beyond it.
pub open spec fn integrated(e: Entity, b: ScreenBounds) -> Entity {
    let hs = e.spec_scale() / 2;
    Entity {
        position: Vec2 {
            x: wrapped(e.position.x + e.velocity.x, b.half_width as int, hs) as i64,
            y: wrapped(e.position.y + e.velocity.y, b.half_height as int, hs) as i64,
        },
        ..e
    }
}

/// The ship `a` touches asteroid `b`: closer than a quarter of the ship's
/// size plus half the asteroid's.
pub open spec fn ship_touches(a: Entity, b: Entity) -> bool {
    &&& a.is_starship()
    &&& b.is_asteroid()
    &&& dist2(a.position, b.position) < (a.spec_scale() / 4 + b.spec_scale() / 2) * (a.spec_scale() / 4
        + b.spec_scale() / 2)
}

/// Some ship of the store touches some asteroid.
pub open spec fn starship_hit(s: Seq<Entity>) -> bool {
    exists|i: int, j: int|
        #![trigger ship_touches(s[i], s[j])]
        0 <= i < s.len() && 0 <= j < s.len() && ship_touches(s[i], s[j])
}

/// Bullet `a` touches asteroid `b`: closer than half their sizes together.
pub open spec fn bullet_touches(a: Entity, b: Entity) -> bool {
    &&& a.is_bullet()
    &&& b.is_asteroid()
    &&& dist2(a.position, b.position) < (a.spec_scale() / 2 + b.spec_scale() / 2) * (a.spec_scale() / 2
        + b.spec_scale() / 2)
}

/// Entities `k` and `i` are a bullet and an asteroid that it touches, in either order.
pub open spec fn linked(s: Seq<Entity>, k: int, i: int) -> bool {
    bullet_touches(s[k], s[i]) || bullet_touches(s[i], s[k])
}

/// Entity `k` is a bullet touching some asteroid, or an asteroid that some bullet touches.
pub open spec fn destroyed(s: Seq<Entity>, k: int) -> bool {
    exists|i: int| 0 <= i < s.len() && #[trigger] linked(s, k, i)
}

/// The first `n` entities without those destroyed, in order.
pub open spec fn survivors(s: Seq<Entity>, n: int) -> Seq<Entity>
    decreases n,
{
    if n <= 0 {
        Seq::empty()
    } else if destroyed(s, n - 1) {
        survivors(s, n - 1)
    } else {
        survivors(s, n - 1).push(s[n - 1])
    }
}

/// The tier of an asteroid; `Small` for anything else.
pub open spec fn tier(e: Entity) -> AsteroidSize {
    match e.kind {
        Kind::Asteroid { size } => size,
        _ => AsteroidSize::Small,
    }
}

/// Tier and position of the fragments that the hits of bullet `i` on the
/// first `m` entities leave: two of the next tier down, where the destroyed
/// asteroid stood, for each hit.
pub open spec fn row_fragments(s: Seq<Entity>, i: int, m: int) -> Seq<(AsteroidSize, Vec2)>
    decreases m,
{
    if m <= 0 {
        Seq::empty()
    } else {
        let prev = row_fragments(s, i, m - 1);
        let a = s[m - 1];
        if bullet_touches(s[i], a) {
            match tier(a).spec_split() {
                Some(t) => prev.push((t, a.position)).push((t, a.position)),
                None => prev,
            }
        } else {
            prev
        }
    }
}

/// The fragments that the hits of the first `n` entities leave, bullet by
/// bullet, each bullet's hits in store order.
pub open spec fn all_fragments(s: Seq<Entity>, n: int) -> Seq<(AsteroidSize, Vec2)>
    decreases n,
{
    if n <= 0 {
        Seq::empty()
    } else {
        all_fragments(s, n - 1) + row_fragments(s, n - 1, s.len() as int)
    }
}

/// Tier and position of an entity.
pub open spec fn placement(e: Entity) -> (AsteroidSize, Vec2) {
    (tier(e), e.position)
}

/// `r` is store `s` after its bullet hits: the survivors in order, then the
/// fragments, each an asteroid moving at asteroid speed toward some point of
/// field `b`.
pub open spec fn hits_resolved(s: Seq<Entity>, r: Seq<Entity>, b: ScreenBounds) -> bool {
    let kept = survivors(s, s.len() as int);
    &&& r.len() == kept.len() + all_fragments(s, s.len() as int).len()
    &&& r.take(kept.len() as int) == kept
    &&& r.skip(kept.len() as int).map_values(|e: Entity| placement(e)) == all_fragments(s, s.len() as int)
    &&& forall|k: int| kept.len() <= k < r.len() ==> {
        &&& (#[trigger] r[k]).is_asteroid()
        &&& is_spawn_velocity(r[k].velocity, ASTEROID_VELOCITY as int)
        &&& abs(r[k].velocity.x as int) <= ASTEROID_VELOCITY
        &&& abs(r[k].velocity.y as int) <= ASTEROID_VELOCITY
    }
}

/// The store after the controls, friction, the removal of spent bullets and
/// one step of motion on a field of bounds `b`.
pub open spec fn advanced(s: Seq<Entity>, b: ScreenBounds, c: Controls) -> Seq<Entity> {
    let s1 = s.map_values(|e: Entity| steered(e, c)) + shots(s, c, s.len() as int);
    let s2 = if c.up_pressed { s1 } else { s1.map_values(|e: Entity| decelerated(e)) };
    let s3 = in_range_prefix(s2, s2.len() as int);
    s3.map_values(|e: Entity| integrated(e, b))
}

/// How many ships the store holds.
pub open spec fn ship_count(s: Seq<Entity>) -> int
    decreases s.len(),
{
    if s.len() == 0 {
        0
    } else {
        ship_count(s.drop_last()) + if s.last().is_starship() { 1int } else { 0 }
    }
}

/// Every entity of the store keeps the bounds its arithmetic is proved for.
pub open spec fn all_wf(s: Seq<Entity>) -> bool {
    forall|i: int| 0 <= i < s.len() ==> #[trigger] s[i].wf()
}

/// A freshly spawned Big asteroid inside `bounds`.
pub open spec fn is_fresh_asteroid(e: Entity, bounds: ScreenBounds) -> bool {
    &&& e.kind == (Kind::Asteroid { size: AsteroidSize::Big })
    &&& abs(e.position.x as int) <= bounds.half_width
    &&& abs(e.position.y as int) <= bounds.half_height
    &&& is_spawn_velocity(e.velocity, ASTEROID_VELOCITY as int)
    &&& abs(e.velocity.x as int) <= ASTEROID_VELOCITY
    &&& abs(e.velocity.y as int) <= ASTEROID_VELOCITY
}

/// The ship as every game starts it: at the origin, at rest, heading up.
pub open spec fn initial_starship() -> Entity {
    Entity {
        kind: Kind::Starship { heading: 0 },
        position: Vec2 { x: 0, y: 0 },
        velocity: Vec2 { x: 0, y: 0 },
    }
}

/// The scene a game starts from: the ship first, then six Big asteroids.
pub open spec fn is_initial_scene(s: Seq<Entity>, bounds: ScreenBounds) -> bool {
    &&& s.len() == 1 + INITIAL_ASTEROIDS
    &&& s[0] == initial_starship()
    &&& forall|i: int| 1 <= i < s.len() ==> is_fresh_asteroid(#[trigger] s[i], bounds)
}

/// The entity store and the field it lives on.
pub struct World {
    pub entities: Vec<Entity>,
    pub bounds: ScreenBounds,
}

impl World {
    pub open spec fn wf(&self) -> bool {
        &&& self.bounds.wf()
        &&& all_wf(self.entities@)
    }

    /// A game on a field of the given bounds, in its starting scene.
    pub fn new(bounds: ScreenBounds) -> (r: World)
        requires
            bounds.wf(),
        ensures
            r.wf(),
            r.bounds == bounds,
            is_initial_scene(r.entities@, bounds),
    {
        World { entities: initial_scene(&bounds), bounds }
    }

    /// One frame of the controls: each ship turns and thrusts, and fires a
    /// bullet from where it stands if fire went down this frame. Bullets are
    /// added after the entities that were there.
    pub fn apply_controls(&mut self, c: Controls)
        requires
            old(self).wf(),
        ensures
            final(self).wf(),
            final(self).bounds == old(self).bounds,
            final(self).entities@ == old(self).entities@.map_values(|e: Entity| steered(e, c))
                + shots(old(self).entities@, c, old(self).entities@.len() as int),
    {
        let ghost s = self.entities@;
        let n = self.entities.len();
        let mut moved: Vec<Entity> = Vec::new();
        let mut fired: Vec<Entity> = Vec::new();
        let mut i: usize = 0;
        while i < n
            invariant
                s == self.entities@,
                n == s.len(),
                all_wf(s),
                i <= n,
                moved@ =~= s.take(i as int).map_values(|e: Entity| steered(e, c)),
                fired@ == shots(s, c, i as int),
                all_wf(moved@),
                all_wf(fired@),
            decreases n - i,
        {
            let e = steer(self.entities[i], c);
            if c.fire_just_pressed {
                if let Kind::Starship { heading } = e.kind {
                    fired.push(fire_bullet(e.position, heading));
                }
            }
            moved.push(e);
            proof {
                assert(s.take(i + 1) =~= s.take(i as int).push(s[i as int]));
            }
            i += 1;
        }
        let mut k: usize = 0;
        let ghost base = moved@;
        while k < fired.len()
            invariant
                moved@ =~= base + fired@.take(k as int),
                k <= fired@.len(),
                all_wf(moved@),
                all_wf(fired@),
            decreases fired@.len() - k,
        {
            moved.push(fired[k]);
            proof {
                assert(fired@.take(k + 1) =~= fired@.take(k as int).push(fired@[k as int]));
            }
            k += 1;
        }
        proof {
            assert(s.take(n as int) =~= s);
            assert(fired@.take(fired@.len() as int) =~= fired@);
        }
        self.entities = moved;
    }

    /// Friction: unless thrust is held, each ship keeps 99% of its velocity.
    pub fn decelerate_starship(&mut self, up_pressed: bool)
        requires
            old(self).wf(),
        ensures
            final(self).wf(),
            final(self).bounds == old(self).bounds,
            up_pressed ==> final(self).entities@ == old(self).entities@,
            !up_pressed ==> final(self).entities@ == old(self).entities@.map_values(|e: Entity| decelerated(e)),
    {
        if up_pressed {
            return;
        }
        let ghost s = self.entities@;
        let n = self.entities.len();
        let mut i: usize = 0;
        while i < n
            invariant
                n == s.len(),
                self.entities@.len() == n,
                self.bounds == old(self).bounds,
                self.bounds.wf(),
                s == old(self).entities@,
                all_wf(s),
                i <= n,
                forall|k: int| 0 <= k < i ==> self.entities@[k] == decelerated(#[trigger] s[k]),
                forall|k: int| i <= k < n ==> self.entities@[k] == #[trigger] s[k],
                all_wf(self.entities@),
            decreases n - i,
        {
            assert(self.entities@[i as int].wf());
            let e = self.entities[i];
            if let Kind::Starship { .. } = e.kind {
                let v = Vec2 {
                    x: scale_component(e.velocity.x, STARSHIP_SPEED_KEPT_PERCENT, 100),
                    y: scale_component(e.velocity.y, STARSHIP_SPEED_KEPT_PERCENT, 100),
                };
                proof {
                    crate::vector::lemma_trunc_scale_shrinks(e.velocity.x as int, 99, 100);
                    crate::vector::lemma_trunc_scale_shrinks(e.velocity.y as int, 99, 100);
                    assert(abs(v.x as int) <= abs(e.velocity.x as int)) by (nonlinear_arith)
                        requires
                            abs(v.x as int) * 100 <= abs(e.velocity.x as int) * 99,
                            abs(e.velocity.x as int) >= 0,
                    ;
                    assert(abs(v.y as int) <= abs(e.velocity.y as int)) by (nonlinear_arith)
                        requires
                            abs(v.y as int) * 100 <= abs(e.velocity.y as int) * 99,
                            abs(e.velocity.y as int) >= 0,
                    ;
                }
                self.entities.set(i, Entity { velocity: v, ..e });
            }
            i += 1;
        }
        proof {
            assert(self.entities@ =~= s.map_values(|e: Entity| decelerated(e)));
        }
    }

    /// Removes each bullet that has flown farther than `BULLET_DISTANCE` from
    /// where it was fired; everything else stays, in order.
    pub fn remove_bullet(&mut self)
        requires
            old(self).wf(),
        ensures
            final(self).wf(),
            final(self).bounds == old(self).bounds,
            final(self).entities@ == in_range_prefix(old(self).entities@, old(self).entities@.len() as int),
    {
        let ghost s = self.entities@;
        let n = self.entities.len();
        let limit: u128 = BULLET_DISTANCE as u128;
        assert(limit * limit == 331_776_000_000_000_000) by (nonlinear_arith)
            requires
                limit == 576_000_000,
        ;
        let mut kept: Vec<Entity> = Vec::new();
        let mut i: usize = 0;
        while i < n
            invariant
                s == self.entities@,
                n == s.len(),
                all_wf(s),
                i <= n,
                limit * limit == BULLET_DISTANCE * BULLET_DISTANCE,
                kept@ == in_range_prefix(s, i as int),
                all_wf(kept@),
            decreases n - i,
        {
            assert(s[i as int].wf());
            let e = self.entities[i];
            let gone = match e.kind {
                Kind::Bullet { start } => start.distance_squared(e.position) > limit * limit,
                _ => false,
            };
            if !gone {
                kept.push(e);
            }
            i += 1;
        }
        self.entities = kept;
    }

    /// One step of motion: every entity moves by its velocity and wraps at
    /// the edges of the field.
    pub fn update_position(&mut self)
        requires
            old(self).wf(),
        ensures
            final(self).wf(),
            final(self).bounds == old(self).bounds,
            final(self).entities@ == old(self).entities@.map_values(|e: Entity| integrated(e, old(self).bounds)),
    {
        let ghost s = self.entities@;
        let b = self.bounds;
        let n = self.entities.len();
        let mut i: usize = 0;
        while i < n
            invariant
                n == s.len(),
                self.entities@.len() == n,
                self.bounds == b,
                b == old(self).bounds,
                b.wf(),
                s == old(self).entities@,
                all_wf(s),
                i <= n,
                forall|k: int| 0 <= k < i ==> self.entities@[k] == integrated(#[trigger] s[k], b),
                forall|k: int| i <= k < n ==> self.entities@[k] == #[trigger] s[k],
                all_wf(self.entities@),
            decreases n - i,
        {
            assert(self.entities@[i as int].wf());
            let e = self.entities[i];
            let hs = e.scale() / 2;
            let x = wrap_coordinate(e.position.x + e.velocity.x, b.half_width, hs);
            let y = wrap_coordinate(e.position.y + e.velocity.y, b.half_height, hs);
            self.entities.set(i, Entity { position: Vec2 { x, y }, ..e });
            i += 1;
        }
        proof {
            assert(self.entities@ =~= s.map_values(|e: Entity| integrated(e, b)));
        }
    }

    /// Whether any ship touches any asteroid, which calls for a reset.
    pub fn detect_starship_asteroid_collision(&self) -> (r: bool)
        requires
            self.wf(),
        ensures
            r == starship_hit(self.entities@),
    {
        let n = self.entities.len();
        let mut i: usize = 0;
        while i < n
            invariant
                n == self.entities@.len(),
                all_wf(self.entities@),
                i <= n,
                forall|a: int, b: int| 0 <= a < i && 0 <= b < n ==> !#[trigger] ship_touches(self.entities@[a], self.entities@[b]),
            decreases n - i,
        {
            let mut j: usize = 0;
            while j < n
                invariant
                    n == self.entities@.len(),
                    all_wf(self.entities@),
                    i < n,
                    j <= n,
                    forall|a: int, b: int| 0 <= a < i && 0 <= b < n ==> !#[trigger] ship_touches(self.entities@[a], self.entities@[b]),
                    forall|b: int| 0 <= b < j ==> !#[trigger] ship_touches(self.entities@[i as int], self.entities@[b]),
                decreases n - j,
            {
                if touches(&self.entities[i], &self.entities[j], 4) {
                    assert(ship_touches(self.entities@[i as int], self.entities@[j as int]));
                    assert(starship_hit(self.entities@));
                    return true;
                }
                j += 1;
            }
            i += 1;
        }
        false
    }

    /// Every bullet touching an asteroid destroys it and is destroyed with it;
    /// each hit on an asteroid above the smallest tier leaves two asteroids of
    /// the next tier where it stood, each moving at asteroid speed in a random
    /// direction. Hits are found on the store as it was, so a bullet over two
    /// asteroids destroys both, and an asteroid hit by two bullets splits twice.
    /// The survivors keep their order; the fragments follow them.
    pub fn detect_bullet_asteroid_collision(&mut self)
        requires
            old(self).wf(),
        ensures
            final(self).wf(),
            final(self).bounds == old(self).bounds,
            hits_resolved(old(self).entities@, final(self).entities@, old(self).bounds),
    {
        let ghost s = self.entities@;
        let n = self.entities.len();
        let mut out: Vec<Entity> = Vec::new();
        let mut k: usize = 0;
        while k < n
            invariant
                s == self.entities@,
                n == s.len(),
                all_wf(s),
                k <= n,
                out@ == survivors(s, k as int),
                all_wf(out@),
            decreases n - k,
        {
            if !is_destroyed(&self.entities, k) {
                out.push(self.entities[k]);
            }
            k += 1;
        }
        let ghost kept = out@;
        let mut frags: Vec<Entity> = Vec::new();
        let mut i: usize = 0;
        while i < n
            invariant
                s == self.entities@,
                n == s.len(),
                all_wf(s),
                self.bounds.wf(),
                i <= n,
                frags@.map_values(|e: Entity| placement(e)) =~= all_fragments(s, i as int),
                all_wf(frags@),
                forall|q: int| 0 <= q < frags@.len() ==> {
                    &&& (#[trigger] frags@[q]).is_asteroid()
                    &&& is_spawn_velocity(frags@[q].velocity, ASTEROID_VELOCITY as int)
                    &&& abs(frags@[q].velocity.x as int) <= ASTEROID_VELOCITY
                    &&& abs(frags@[q].velocity.y as int) <= ASTEROID_VELOCITY
                },
            decreases n - i,
        {
            let ghost before = frags@.map_values(|e: Entity| placement(e));
            let mut j: usize = 0;
            while j < n
                invariant
                    s == self.entities@,
                    n == s.len(),
                    all_wf(s),
                    self.bounds.wf(),
                    i < n,
                    j <= n,
                    before == all_fragments(s, i as int),
                    frags@.map_values(|e: Entity| placement(e)) =~= before + row_fragments(s, i as int, j as int),
                    all_wf(frags@),
                    forall|q: int| 0 <= q < frags@.len() ==> {
                        &&& (#[trigger] frags@[q]).is_asteroid()
                        &&& is_spawn_velocity(frags@[q].velocity, ASTEROID_VELOCITY as int)
                        &&& abs(frags@[q].velocity.x as int) <= ASTEROID_VELOCITY
                        &&& abs(frags@[q].velocity.y as int) <= ASTEROID_VELOCITY
                    },
                decreases n - j,
            {
                assert(s[j as int].wf());
                let ghost prior = frags@;
                if touches(&self.entities[i], &self.entities[j], 2) {
                    let a = self.entities[j];
                    if let Kind::Asteroid { size } = a.kind {
                        if let Some(t) = size.split() {
                            let v1 = random_velocity(&self.bounds, ASTEROID_VELOCITY);
                            frags.push(Entity { kind: Kind::Asteroid { size: t }, position: a.position, velocity: v1 });
                            let v2 = random_velocity(&self.bounds, ASTEROID_VELOCITY);
                            frags.push(Entity { kind: Kind::Asteroid { size: t }, position: a.position, velocity: v2 });
                            assert(frags@.map_values(|e: Entity| placement(e)) =~= prior.map_values(
                                |e: Entity| placement(e),
                            ).push((t, a.position)).push((t, a.position)));
                        }
                    }
                }
                proof {
                    assert(row_fragments(s, i as int, j + 1) == {
                        let prev = row_fragments(s, i as int, j as int);
                        if bullet_touches(s[i as int], s[j as int]) {
                            match tier(s[j as int]).spec_split() {
                                Some(t) => prev.push((t, s[j as int].position)).push((t, s[j as int].position)),
                                None => prev,
                            }
                        } else {
                            prev
                        }
                    });
                }
                j += 1;
            }
            i += 1;
        }
        let ghost children = frags@;
        let mut q: usize = 0;
        while q < frags.len()
            invariant
                out@ =~= kept + children.take(q as int),
                children == frags@,
                q <= children.len(),
                all_wf(out@),
                all_wf(children),
            decreases children.len() - q,
        {
            out.push(frags[q]);
            proof {
                assert(children.take(q + 1) =~= children.take(q as int).push(children[q as int]));
            }
            q += 1;
        }
        proof {
            assert(children.take(children.len() as int) =~= children);
            assert(out@.take(kept.len() as int) =~= kept);
            assert(out@.skip(kept.len() as int) =~= children);
        }
        self.entities = out;
    }

    /// One frame, in order: the field takes the window's size; the keyboard
    /// and touch controls are merged; the ship turns, thrusts and fires;
    /// friction slows it unless thrust is held; spent bullets go; everything
    /// moves and wraps; then collisions: a ship touching an asteroid resets
    /// the game after the bullet hits are resolved. Returns whether it reset.
    pub fn step(
        &mut self,
        keys: KeyboardState,
        mobile: Option<MobileInputState>,
        window: Option<(u32, u32)>,
    ) -> (reset: bool)
        requires
            old(self).wf(),
        ensures
            final(self).wf(),
            ({
                let b = updated_bounds(old(self).bounds, window);
                let moved = advanced(old(self).entities@, b, merged(keys, mobile));
                &&& final(self).bounds == b
                &&& reset == starship_hit(moved)
                &&& reset ==> is_initial_scene(final(self).entities@, b)
                &&& !reset ==> hits_resolved(moved, final(self).entities@, b)
            }),
            ship_count(old(self).entities@) == 1 ==> ship_count(final(self).entities@) == 1,
    {
        self.bounds.update_screen_bounds(window);
        let c = merge_input(keys, mobile);
        self.apply_controls(c);
        self.decelerate_starship(c.up_pressed);
        self.remove_bullet();
        self.update_position();
        let hit = self.detect_starship_asteroid_collision();
        self.detect_bullet_asteroid_collision();
        if hit {
            self.reset_game();
        }
        proof {
            if ship_count(old(self).entities@) == 1 {
                crate::laws::lemma_step_keeps_ship_count(
                    old(self).entities@,
                    self.bounds,
                    merged(keys, mobile),
                    self.entities@,
                    hit,
                );
            }
        }
        hit
    }

    /// Clears every ship, bullet and asteroid and spawns the starting scene
    /// again within the current bounds.
    pub fn reset_game(&mut self)
        requires
            old(self).wf(),
        ensures
            final(self).wf(),
            final(self).bounds == old(self).bounds,
            is_initial_scene(final(self).entities@, old(self).bounds),
    {
        self.entities = initial_scene(&self.bounds);
    }
}

/// Rescales `v` to the ship's top speed where it is faster.
pub fn clamp_velocity(v: Vec2) -> (r: Vec2)
    requires
        bounded(v),
    ensures
        r == clamped(v),
        abs(r.x as int) <= STARSHIP_MAX_VELOCITY,
        abs(r.y as int) <= STARSHIP_MAX_VELOCITY,
{
    let n = v.length_squared();
    let m: u128 = STARSHIP_MAX_VELOCITY as u128;
    assert(m * m == 100_000_000_000_000) by (nonlinear_arith)
        requires
            m == 10_000_000,
    ;
    if n > m * m {
        rescale(v, STARSHIP_MAX_VELOCITY)
    } else {
        proof {
            lemma_component_within_root(v.x as int, v.y as int, STARSHIP_MAX_VELOCITY as int);
            lemma_component_within_root(v.y as int, v.x as int, STARSHIP_MAX_VELOCITY as int);
        }
        v
    }
}

/// Thrust never leaves the ship faster than its top speed. Where it was
/// faster, the clamped velocity is the top speed up to rounding (its square
/// falls short of the top speed's square by less than six top speeds and
/// two), keeps the sign of each component and which component is the larger;
/// otherwise the velocity is left as it was.
pub proof fn lemma_clamp_limits_speed(v: Vec2)
    requires
        bounded(v),
    ensures
        norm2(clamped(v)) <= STARSHIP_MAX_VELOCITY * STARSHIP_MAX_VELOCITY,
        norm2(v) <= STARSHIP_MAX_VELOCITY * STARSHIP_MAX_VELOCITY ==> clamped(v) == v,
        norm2(v) > STARSHIP_MAX_VELOCITY * STARSHIP_MAX_VELOCITY ==> norm2(clamped(v))
            > STARSHIP_MAX_VELOCITY * STARSHIP_MAX_VELOCITY - 6 * STARSHIP_MAX_VELOCITY - 2,
        v.x >= 0 ==> clamped(v).x >= 0,
        v.x <= 0 ==> clamped(v).x <= 0,
        v.y >= 0 ==> clamped(v).y >= 0,
        v.y <= 0 ==> clamped(v).y <= 0,
        abs(v.x as int) >= abs(v.y as int) ==> abs(clamped(v).x as int) >= abs(clamped(v).y as int),
{
    lemma_rescaled_within_length(v, STARSHIP_MAX_VELOCITY as int);
    let m = STARSHIP_MAX_VELOCITY as int;
    assert(m * m == 100_000_000_000_000) by (nonlinear_arith)
        requires
            m == 10_000_000,
    ;
    if norm2(v) > m * m {
        crate::vector::lemma_rescaled_near_length(v, m);
    }
    if v.x == 0 && v.y == 0 {
        assert(v.x * v.x + v.y * v.y == 0) by (nonlinear_arith)
            requires
                v.x == 0,
                v.y == 0,
        ;
    }
}

/// One frame of the controls on one entity.
pub fn steer(e: Entity, c: Controls) -> (r: Entity)
    requires
        e.wf(),
    ensures
        r == steered(e, c),
        r.wf(),
{
    match e.kind {
        Kind::Starship { heading } => {
            let h: u8 = if c.left_pressed {
                (heading + 1) % HEADING_STEPS
            } else if c.right_pressed {
                (heading + HEADING_STEPS - 1) % HEADING_STEPS
            } else {
                heading
            };
            let velocity = if c.up_pressed {
                let d = direction(h);
                let push = Vec2 {
                    x: scale_component(d.x, STARSHIP_ACCELERATION, SCALE as u64),
                    y: scale_component(d.y, STARSHIP_ACCELERATION, SCALE as u64),
                };
                proof {
                    crate::vector::lemma_trunc_scale_shrinks(d.x as int, STARSHIP_ACCELERATION as int, SCALE as int);
                    crate::vector::lemma_trunc_scale_shrinks(d.y as int, STARSHIP_ACCELERATION as int, SCALE as int);
                }
                clamp_velocity(e.velocity.plus(push))
            } else {
                e.velocity
            };
            Entity { kind: Kind::Starship { heading: h }, position: e.position, velocity }
        },
        _ => e,
    }
}

/// `v` has the bullet speed, to within six millionths of its square.
pub open spec fn has_bullet_speed(v: Vec2) -> bool {
    36_000_000_000_000 - 36_000_000 <= norm2(v) <= 36_000_000_000_000 + 36_000_000
}

/// The bullet fired by a ship at `p` with heading `h`: it starts where the
/// ship stands and flies at bullet speed along the ship's nose.
pub fn fire_bullet(p: Vec2, h: u8) -> (r: Entity)
    requires
        bounded(p),
        h < HEADING_STEPS,
    ensures
        r == bullet_from(p, h as int),
        r.kind == (Kind::Bullet { start: p }),
        r.position == p,
        has_bullet_speed(r.velocity),
        r.wf(),
{
    let d = direction(h);
    assert((d.x * 6) * (d.x * 6) + (d.y * 6) * (d.y * 6) == 36 * (d.x * d.x + d.y * d.y)) by (nonlinear_arith);
    Entity {
        kind: Kind::Bullet { start: p },
        position: p,
        velocity: Vec2 { x: d.x * BULLET_VELOCITY, y: d.y * BULLET_VELOCITY },
    }
}

/// Whether entity `k` is destroyed by a hit this frame.
fn is_destroyed(s: &Vec<Entity>, k: usize) -> (r: bool)
    requires
        all_wf(s@),
        k < s@.len(),
    ensures
        r == destroyed(s@, k as int),
{
    let n = s.len();
    let mut i: usize = 0;
    assert(s@[k as int].wf());
    while i < n
        invariant
            n == s@.len(),
            all_wf(s@),
            k < n,
            i <= n,
            forall|m: int| 0 <= m < i ==> !#[trigger] linked(s@, k as int, m),
        decreases n - i,
    {
        assert(s@[i as int].wf());
        if touches(&s[k], &s[i], 2) || touches(&s[i], &s[k], 2) {
            assert(linked(s@, k as int, i as int));
            return true;
        }
        i += 1;
    }
    false
}

/// Whether `a`, a ship (`div == 4`) or a bullet (`div == 2`), touches asteroid `b`:
/// closer than its size over `div` plus half the asteroid's.
fn touches(a: &Entity, b: &Entity, div: i64) -> (r: bool)
    requires
        a.wf(),
        b.wf(),
        div == 2 || div == 4,
    ensures
        div == 4 ==> (r == (a.is_starship() && ship_touches(*a, *b))),
        div == 2 ==> (r == (a.is_bullet() && bullet_touches(*a, *b))),
{
    let right_kind = match (&a.kind, &b.kind, div) {
        (Kind::Starship { .. }, Kind::Asteroid { .. }, 4) => true,
        (Kind::Bullet { .. }, Kind::Asteroid { .. }, 2) => true,
        _ => false,
    };
    if !right_kind {
        return false;
    }
    let own = if div == 4 { a.scale() / 4 } else { a.scale() / 2 };
    let reach = (own + b.scale() / 2) as u128;
    assert(reach * reach <= 0x40_0000_0000_0000) by (nonlinear_arith)
        requires
            reach <= 0x800_0000,
    ;
    a.position.distance_squared(b.position) < reach * reach
}

/// The ship at rest at the origin, then six Big asteroids at random points
/// of the field, each moving at asteroid speed in a random direction.
pub fn initial_scene(bounds: &ScreenBounds) -> (r: Vec<Entity>)
    requires
        bounds.wf(),
    ensures
        is_initial_scene(r@, *bounds),
        all_wf(r@),
{
    let mut r: Vec<Entity> = Vec::new();
    r.push(Entity {
        kind: Kind::Starship { heading: 0 },
        position: Vec2::zero(),
        velocity: Vec2::zero(),
    });
    let mut k: usize = 0;
    while k < INITIAL_ASTEROIDS
        invariant
            bounds.wf(),
            k <= INITIAL_ASTEROIDS,
            r@.len() == 1 + k,
            r@[0] == initial_starship(),
            forall|i: int| 1 <= i < r@.len() ==> is_fresh_asteroid(#[trigger] r@[i], *bounds),
            all_wf(r@),
        decreases INITIAL_ASTEROIDS - k,
    {
        let position = random_point(bounds);
        let velocity = random_velocity(bounds, ASTEROID_VELOCITY);
        r.push(Entity { kind: Kind::Asteroid { size: AsteroidSize::Big }, position, velocity });
        k += 1;
    }
    r
}

} // verus!
