//! The entities of the play field: the ship, its bullets and the asteroids.
use vstd::prelude::*;
use crate::vector::{Vec2, bounded, abs, norm2};

verus! {

/// Turning steps in a full circle; one step is five degrees.
pub const HEADING_STEPS: u8 = 72;

/// Visual and collision size of the ship.
pub const STARSHIP_SCALE: i64 = 50_000_000;

/// Visual and collision size of a bullet.
pub const BULLET_SCALE: i64 = 5_000_000;

/// Size tier of an asteroid.
#[derive(Clone, Copy, Debug, PartialEq, Eq, Structural)]
pub enum AsteroidSize {
    Big,
    Medium,
    Small,
}

impl AsteroidSize {
    pub open spec fn spec_scale(self) -> int {
        match self {
            AsteroidSize::Big => 100_000_000,
            AsteroidSize::Medium => 65_000_000,
            AsteroidSize::Small => 30_000_000,
        }
    }

    /// Visual and collision size of the tier.
    pub fn scale(&self) -> (r: i64)
        ensures
            r == self.spec_scale(),
    {
        match self {
            AsteroidSize::Big => 100_000_000,
            AsteroidSize::Medium => 65_000_000,
            AsteroidSize::Small => 30_000_000,
        }
    }

    pub open spec fn spec_split(self) -> Option<AsteroidSize> {
        match self {
            AsteroidSize::Big => Some(AsteroidSize::Medium),
            AsteroidSize::Medium => Some(AsteroidSize::Small),
            AsteroidSize::Small => None,
        }
    }

    /// The tier of the fragments left when an asteroid of this tier is destroyed;
    /// the smallest tier leaves none.
    pub fn split(&self) -> (r: Option<AsteroidSize>)
        ensures
            r == self.spec_split(),
    {
        match self {
            AsteroidSize::Big => Some(AsteroidSize::Medium),
            AsteroidSize::Medium => Some(AsteroidSize::Small),
            AsteroidSize::Small => None,
        }
    }
}

/// The tiers of the asteroids that destroying one of tier `s` leaves behind.
pub open spec fn fragments(s: AsteroidSize) -> Seq<AsteroidSize> {
    match s.spec_split() {
        Some(t) => seq![t, t],
        None => Seq::empty(),
    }
}

/// Destroying a Big asteroid leaves exactly two Medium ones, a Medium one
/// exactly two Small ones, and a Small one nothing; each split makes the
/// tier strictly smaller.
pub proof fn lemma_split_tiers()
    ensures
        fragments(AsteroidSize::Big) =~= seq![AsteroidSize::Medium, AsteroidSize::Medium],
        fragments(AsteroidSize::Medium) =~= seq![AsteroidSize::Small, AsteroidSize::Small],
        fragments(AsteroidSize::Small).len() == 0,
        forall|s: AsteroidSize, i: int|
            0 <= i < fragments(s).len() ==> #[trigger] fragments(s)[i].spec_scale() < s.spec_scale(),
{
}

/// What an entity is, with what only that variant carries.
#[derive(Clone, Copy, Debug, PartialEq, Eq, Structural)]
pub enum Kind {
    /// The player's ship; `heading` counts five-degree turns counterclockwise.
    Starship { heading: u8 },
    /// A shot, with the point where it was fired.
    Bullet { start: Vec2 },
    Asteroid { size: AsteroidSize },
}

/// One live entity of the play field.
#[derive(Clone, Copy, Debug, PartialEq, Eq, Structural)]
pub struct Entity {
    pub kind: Kind,
    pub position: Vec2,
    pub velocity: Vec2,
}

/// Bound on each velocity component that every entity keeps.
pub const VELOCITY_LIMIT: i64 = 0x1_0000_0000;

impl Entity {
    pub open spec fn spec_scale(self) -> int {
        match self.kind {
            Kind::Starship { .. } => STARSHIP_SCALE as int,
            Kind::Bullet { .. } => BULLET_SCALE as int,
            Kind::Asteroid { size } => size.spec_scale(),
        }
    }

    /// Position, velocity and the variant's data lie within the bounds that the
    /// simulation's arithmetic is proved for.
    pub open spec fn wf(self) -> bool {
        &&& bounded(self.position)
        &&& abs(self.velocity.x as int) <= VELOCITY_LIMIT
        &&& abs(self.velocity.y as int) <= VELOCITY_LIMIT
        &&& match self.kind {
            Kind::Starship { heading } => heading < HEADING_STEPS,
            Kind::Bullet { start } => bounded(start),
            Kind::Asteroid { .. } => true,
        }
    }

    pub open spec fn is_starship(self) -> bool {
        self.kind is Starship
    }

    pub open spec fn is_bullet(self) -> bool {
        self.kind is Bullet
    }

    pub open spec fn is_asteroid(self) -> bool {
        self.kind is Asteroid
    }

    /// Visual and collision size: the largest dimension of the entity.
    pub fn scale(&self) -> (r: i64)
        ensures
            r == self.spec_scale(),
    {
        match &self.kind {
            Kind::Starship { .. } => STARSHIP_SCALE,
            Kind::Bullet { .. } => BULLET_SCALE,
            Kind::Asteroid { size } => size.scale(),
        }
    }
}

/// `sin(5k degrees)` in millionths, rounded to nearest, for `k` in `0..=18`.
pub open spec fn spec_sine_step(k: int) -> int {
    if k <= 0 { 0 }
    else if k == 1 { 87156 }
    else if k == 2 { 173648 }
    else if k == 3 { 258819 }
    else if k == 4 { 342020 }
    else if k == 5 { 422618 }
    else if k == 6 { 500000 }
    else if k == 7 { 573576 }
    else if k == 8 { 642788 }
    else if k == 9 { 707107 }
    else if k == 10 { 766044 }
    else if k == 11 { 819152 }
    else if k == 12 { 866025 }
    else if k == 13 { 906308 }
    else if k == 14 { 939693 }
    else if k == 15 { 965926 }
    else if k == 16 { 984808 }
    else if k == 17 { 996195 }
    else { 1000000 }
}

fn sine_step(k: u8) -> (r: i64)
    requires
        k <= 18,
    ensures
        r == spec_sine_step(k as int),
{
    let table: [i64; 19] = [
        0, 87156, 173648, 258819, 342020, 422618, 500000, 573576, 642788, 707107, 766044, 819152, 866025, 906308, 939693, 965926, 984808, 996195, 1000000,
    ];
    assert(table@ =~= seq![
        0i64, 87156, 173648, 258819, 342020, 422618, 500000, 573576, 642788, 707107, 766044, 819152, 866025, 906308, 939693, 965926, 984808, 996195, 1000000,
    ]);
    table[k as usize]
}

/// Sine of a heading, in millionths.
pub open spec fn spec_sin(h: int) -> int {
    let q = h / 18;
    let r = h % 18;
    if q == 0 { spec_sine_step(r) }
    else if q == 1 { spec_sine_step(18 - r) }
    else if q == 2 { -spec_sine_step(r) }
    else { -spec_sine_step(18 - r) }
}

/// Cosine of a heading, in millionths.
pub open spec fn spec_cos(h: int) -> int {
    let q = h / 18;
    let r = h % 18;
    if q == 0 { spec_sine_step(18 - r) }
    else if q == 1 { -spec_sine_step(r) }
    else if q == 2 { -spec_sine_step(18 - r) }
    else { spec_sine_step(r) }
}

/// The unit vector (in millionths) along which a ship with heading `h`
/// points: the heading's angle plus a quarter turn.
pub open spec fn spec_direction(h: int) -> Vec2 {
    Vec2 { x: (-spec_sin(h)) as i64, y: spec_cos(h) as i64 }
}

/// `d` has length one, in millionths, to within a millionth of its square.
pub open spec fn is_unit(d: Vec2) -> bool {
    1_000_000_000_000 - 1_000_000 <= norm2(d) <= 1_000_000_000_000 + 1_000_000
}

/// Each entry of the sine table, with its complement, lies on the unit circle
/// to within a millionth.
proof fn lemma_sine_table_on_circle(k: int)
    requires
        0 <= k <= 18,
    ensures
        ({
            let n = spec_sine_step(k) * spec_sine_step(k) + spec_sine_step(18 - k) * spec_sine_step(18 - k);
            1_000_000_000_000 - 1_000_000 <= n <= 1_000_000_000_000 + 1_000_000
        }),
{
    if k == 0 {
        assert(0int * 0 + 1000000int * 1000000 == 1000000000000);
    }
    if k == 1 {
        assert(87156int * 87156 + 996195int * 996195 == 1000000646361);
    }
    if k == 2 {
        assert(173648int * 173648 + 984808int * 984808 == 1000000424768);
    }
    if k == 3 {
        assert(258819int * 258819 + 965926int * 965926 == 1000000312237);
    }
    if k == 4 {
        assert(342020int * 342020 + 939693int * 939693 == 1000000614649);
    }
    if k == 5 {
        assert(422618int * 422618 + 906308int * 906308 == 1000000164788);
    }
    if k == 6 {
        assert(500000int * 500000 + 866025int * 866025 == 999999300625);
    }
    if k == 7 {
        assert(573576int * 573576 + 819152int * 819152 == 999999426880);
    }
    if k == 8 {
        assert(642788int * 642788 + 766044int * 766044 == 999999822880);
    }
    if k == 9 {
        assert(707107int * 707107 + 707107int * 707107 == 1000000618898);
    }
    if k == 10 {
        assert(766044int * 766044 + 642788int * 642788 == 999999822880);
    }
    if k == 11 {
        assert(819152int * 819152 + 573576int * 573576 == 999999426880);
    }
    if k == 12 {
        assert(866025int * 866025 + 500000int * 500000 == 999999300625);
    }
    if k == 13 {
        assert(906308int * 906308 + 422618int * 422618 == 1000000164788);
    }
    if k == 14 {
        assert(939693int * 939693 + 342020int * 342020 == 1000000614649);
    }
    if k == 15 {
        assert(965926int * 965926 + 258819int * 258819 == 1000000312237);
    }
    if k == 16 {
        assert(984808int * 984808 + 173648int * 173648 == 1000000424768);
    }
    if k == 17 {
        assert(996195int * 996195 + 87156int * 87156 == 1000000646361);
    }
    if k == 18 {
        assert(1000000int * 1000000 + 0int * 0 == 1000000000000);
    }
}

/// Every heading's nose direction has unit length, to within a millionth.
pub proof fn lemma_direction_is_unit(h: int)
    requires
        0 <= h < HEADING_STEPS,
    ensures
        is_unit(spec_direction(h)),
{
    let r = h % 18;
    lemma_sine_table_on_circle(r);
    let a = spec_sine_step(r);
    let b = spec_sine_step(18 - r);
    assert((-a) * (-a) == a * a && (-b) * (-b) == b * b) by (nonlinear_arith);
    assert(a * a + b * b == b * b + a * a);
}

/// The nose direction of a ship with the given heading, a unit vector in
/// millionths: its squared length is within a millionth of one.
pub fn direction(heading: u8) -> (r: Vec2)
    requires
        heading < HEADING_STEPS,
    ensures
        r == spec_direction(heading as int),
        abs(r.x as int) <= 1_000_000,
        abs(r.y as int) <= 1_000_000,
        is_unit(r),
{
    proof {
        lemma_direction_is_unit(heading as int);
    }
    let q = heading / 18;
    let r = heading % 18;
    let (s, c) = if q == 0 {
        (sine_step(r), sine_step(18 - r))
    } else if q == 1 {
        (sine_step(18 - r), -sine_step(r))
    } else if q == 2 {
        (-sine_step(r), -sine_step(18 - r))
    } else {
        (-sine_step(18 - r), sine_step(r))
    };
    Vec2 { x: -s, y: c }
}

} // verus!
