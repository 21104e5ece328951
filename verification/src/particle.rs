//! The particle type model: terrain, ore, gem, liquid and solid kinds, each
//! with its world-generation and movement parameters.
use vstd::prelude::*;

verus! {

/// Horizontal bias of a liquid: the side it will try when it cannot fall.
#[derive(Clone, Copy, PartialEq, Eq, Hash, Debug, Structural)]
pub enum Direction {
    /// Not drifting to either side.
    Still,
    /// Drifting towards smaller x.
    Left,
    /// Drifting towards larger x.
    Right,
}

/// The mirror image of a direction; `Still` is its own mirror.
pub open spec fn opposite_dir(d: Direction) -> Direction {
    match d {
        Direction::Still => Direction::Still,
        Direction::Left => Direction::Right,
        Direction::Right => Direction::Left,
    }
}

/// The signed horizontal step a direction stands for.
pub open spec fn dir_step(d: Direction) -> int {
    match d {
        Direction::Still => 0,
        Direction::Left => -1,
        Direction::Right => 1,
    }
}

impl Direction {
    /// The direction a blocked liquid flips to.
    pub fn get_opposite(&self) -> (r: Direction)
        ensures
            r == opposite_dir(*self),
    {
        match self {
            Direction::Left => Direction::Right,
            Direction::Right => Direction::Left,
            Direction::Still => Direction::Still,
        }
    }

    /// The step this direction stands for: -1, 0 or 1.
    pub fn as_int(self) -> (r: i32)
        ensures
            r == dir_step(self),
    {
        match self {
            Direction::Still => 0,
            Direction::Left => -1,
            Direction::Right => 1,
        }
    }

    /// Draws Left or Right with equal chance; never Still.
    pub fn random() -> (r: Direction)
        ensures
            r == Direction::Left || r == Direction::Right,
    {
        if crate::rng::rand_coin() {
            Direction::Left
        } else {
            Direction::Right
        }
    }
}

/// Kinds that have a sprite in the render atlas.
pub trait ParticleType: Copy {
    /// The index this kind maps to in the spritesheet.
    spec fn sprite_spec(&self) -> u32;

    /// Returns the spritesheet index of this kind.
    fn get_spritesheet_index(&self) -> (r: u32)
        ensures
            r == self.sprite_spec(),
    ;
}

/// Kinds the world generator may place, each eligible on a half-open
/// depth interval and, for weighted kinds, with a spawn weight.
pub trait WorldGenType: ParticleType {
    /// The inclusive lower bound of the spawn-depth interval.
    spec fn min_depth_spec(&self) -> u32;

    /// The exclusive upper bound of the spawn-depth interval.
    spec fn max_depth_spec(&self) -> u32;

    /// The spawn weight on a 0 to 1000 scale.
    spec fn spawn_chance_spec(&self) -> i32;

    /// The minimum depth at which this particle type can spawn.
    fn min_depth(&self) -> (r: u32)
        ensures
            r == self.min_depth_spec(),
    ;

    /// The maximum depth at which this particle type can spawn.
    fn max_depth(&self) -> (r: u32)
        ensures
            r == self.max_depth_spec(),
    ;

    /// The chance of a particle of this type to spawn at an eligible depth.
    fn spawn_chance(&self) -> (r: i32)
        ensures
            r == self.spawn_chance_spec(),
    ;
}

/// Bulk terrain kinds; together their depth intervals cover every depth.
#[derive(Clone, Copy, PartialEq, Eq, Hash, Debug, Structural)]
pub enum Common {
    Dirt,
    Stone,
}

/// Ore kinds, spawned in veins by the generator.
#[derive(Clone, Copy, PartialEq, Eq, Hash, Debug, Structural)]
pub enum Ore {
    Gold,
}

/// Gem kinds, spawned as single cells by the generator.
#[derive(Clone, Copy, PartialEq, Eq, Hash, Debug, Structural)]
pub enum Gem {
    Ruby,
}

/// Weighted rare kinds the generator may roll in place of bulk terrain.
#[derive(Clone, Copy, PartialEq, Eq, Hash, Debug, Structural)]
pub enum Special {
    Ore(Ore),
    Gem(Gem),
}

/// Flowing kinds; the direction is simulation state, not identity.
#[derive(Clone, Copy, PartialEq, Eq, Hash, Debug, Structural)]
pub enum Liquid {
    Water(Direction),
    Lava(Direction),
    Acid(Direction),
}

/// Kinds that neither flow nor spawn in bulk, such as interaction products.
#[derive(Clone, Copy, PartialEq, Eq, Hash, Debug, Structural)]
pub enum Solid {
    Obsidian,
}

/// One cell's occupant: the closed union of every particle kind.
#[derive(Clone, Copy, PartialEq, Eq, Hash, Debug, Structural)]
pub enum Particle {
    /// The generic terrain particle for a given depth.
    Common(Common),
    /// Rare particles such as ores and gems, placed by the world generator.
    Special(Special),
    /// Particles that flow under the fluid-movement rules.
    Liquid(Liquid),
    /// Inert particles outside both bulk terrain and generator rolls.
    Solid(Solid),
}

impl ParticleType for Common {
    open spec fn sprite_spec(&self) -> u32 {
        match self {
            Common::Dirt => 1u32,
            Common::Stone => 2u32,
        }
    }

    fn get_spritesheet_index(&self) -> (r: u32) {
        match self {
            Common::Dirt => 1,
            Common::Stone => 2,
        }
    }
}

impl ParticleType for Ore {
    open spec fn sprite_spec(&self) -> u32 {
        4u32
    }

    fn get_spritesheet_index(&self) -> (r: u32) {
        4
    }
}

impl ParticleType for Gem {
    open spec fn sprite_spec(&self) -> u32 {
        3u32
    }

    fn get_spritesheet_index(&self) -> (r: u32) {
        3
    }
}

impl ParticleType for Special {
    open spec fn sprite_spec(&self) -> u32 {
        match self {
            Special::Ore(ore) => ore.sprite_spec(),
            Special::Gem(gem) => gem.sprite_spec(),
        }
    }

    fn get_spritesheet_index(&self) -> (r: u32) {
        match self {
            Special::Ore(ore) => ore.get_spritesheet_index(),
            Special::Gem(gem) => gem.get_spritesheet_index(),
        }
    }
}

impl ParticleType for Liquid {
    open spec fn sprite_spec(&self) -> u32 {
        match self {
            Liquid::Water(_) => 5u32,
            Liquid::Lava(_) => 6u32,
            Liquid::Acid(_) => 8u32,
        }
    }

    fn get_spritesheet_index(&self) -> (r: u32) {
        match self {
            Liquid::Water(_) => 5,
            Liquid::Lava(_) => 6,
            Liquid::Acid(_) => 8,
        }
    }
}

impl ParticleType for Solid {
    open spec fn sprite_spec(&self) -> u32 {
        7u32
    }

    fn get_spritesheet_index(&self) -> (r: u32) {
        7
    }
}

impl ParticleType for Particle {
    open spec fn sprite_spec(&self) -> u32 {
        match self {
            Particle::Common(common) => common.sprite_spec(),
            Particle::Special(special) => special.sprite_spec(),
            Particle::Liquid(fluid) => fluid.sprite_spec(),
            Particle::Solid(solid) => solid.sprite_spec(),
        }
    }

    fn get_spritesheet_index(&self) -> (r: u32) {
        match self {
            Particle::Common(common) => common.get_spritesheet_index(),
            Particle::Special(special) => special.get_spritesheet_index(),
            Particle::Liquid(fluid) => fluid.get_spritesheet_index(),
            Particle::Solid(solid) => solid.get_spritesheet_index(),
        }
    }
}

/// Whether depth `d` lies in the half-open spawn interval of `c`.
pub open spec fn common_contains_depth(c: Common, d: u32) -> bool {
    c.min_depth_spec() <= d < c.max_depth_spec()
}

impl WorldGenType for Common {
    open spec fn min_depth_spec(&self) -> u32 {
        match self {
            Common::Dirt => 0u32,
            Common::Stone => 12u32,
        }
    }

    open spec fn max_depth_spec(&self) -> u32 {
        match self {
            Common::Dirt => 12u32,
            Common::Stone => u32::MAX,
        }
    }

    open spec fn spawn_chance_spec(&self) -> i32 {
        0i32
    }

    fn min_depth(&self) -> (r: u32) {
        match self {
            Common::Dirt => 0,
            Common::Stone => 12,
        }
    }

    fn max_depth(&self) -> (r: u32) {
        match self {
            Common::Dirt => 12,
            Common::Stone => u32::MAX,
        }
    }

    fn spawn_chance(&self) -> (r: i32) {
        0
    }
}

impl Common {
    /// Every common variant, in authoring order.
    pub fn all_variants() -> (r: Vec<Common>)
        ensures
            r@ == seq![Common::Dirt, Common::Stone],
    {
        let mut v: Vec<Common> = Vec::new();
        v.push(Common::Dirt);
        v.push(Common::Stone);
        proof {
            assert(v@ =~= seq![Common::Dirt, Common::Stone]);
        }
        v
    }

    /// The unique common variant whose interval holds `depth`.
    pub open spec fn at_depth(depth: u32) -> Common {
        if depth < 12 {
            Common::Dirt
        } else {
            Common::Stone
        }
    }

    /// Returns the common particle for a given depth; the depth intervals of
    /// the common variants are an exact partition, so exactly one variant
    /// matches every depth a generated cell can have.
    pub fn get_exclusive_at_depth(depth: u32) -> (r: Common)
        requires
            depth < u32::MAX,
        ensures
            r == Common::at_depth(depth),
            common_contains_depth(r, depth),
            forall|c: Common| common_contains_depth(c, depth) ==> c == r,
    {
        let variants = Common::all_variants();
        let mut found: Option<Common> = None;
        let mut i: usize = 0;
        while i < variants.len()
            invariant
                i <= variants.len(),
                variants@ == seq![Common::Dirt, Common::Stone],
                depth < u32::MAX,
                found matches Some(c) ==> common_contains_depth(c, depth),
                found is None ==> forall|j: int|
                    0 <= j < i ==> !common_contains_depth(variants@[j], depth),
            decreases variants.len() - i,
        {
            let variant = variants[i];
            if depth >= variant.min_depth() && depth < variant.max_depth() {
                found = Some(variant);
            }
            i += 1;
        }
        match found {
            Some(c) => c,
            None => {
                proof {
                    assert(common_contains_depth(Common::at_depth(depth), depth));
                    assert(false);
                }
                Common::Dirt
            },
        }
    }
}

/// The depth intervals of the common variants partition the depths: each
/// depth a generated cell can have lies in exactly one variant's interval.
pub proof fn lemma_common_depth_partition(depth: u32)
    requires
        depth < u32::MAX,
    ensures
        common_contains_depth(Common::at_depth(depth), depth),
        forall|c: Common| common_contains_depth(c, depth) ==> c == Common::at_depth(depth),
{
}

impl WorldGenType for Ore {
    open spec fn min_depth_spec(&self) -> u32 {
        23u32
    }

    open spec fn max_depth_spec(&self) -> u32 {
        u32::MAX
    }

    open spec fn spawn_chance_spec(&self) -> i32 {
        20i32
    }

    fn min_depth(&self) -> (r: u32) {
        23
    }

    fn max_depth(&self) -> (r: u32) {
        u32::MAX
    }

    fn spawn_chance(&self) -> (r: i32) {
        20
    }
}

impl WorldGenType for Gem {
    open spec fn min_depth_spec(&self) -> u32 {
        80u32
    }

    open spec fn max_depth_spec(&self) -> u32 {
        150u32
    }

    open spec fn spawn_chance_spec(&self) -> i32 {
        3i32
    }

    fn min_depth(&self) -> (r: u32) {
        80
    }

    fn max_depth(&self) -> (r: u32) {
        150
    }

    fn spawn_chance(&self) -> (r: i32) {
        3
    }
}

impl Special {
    /// The inclusive lower bound of this special's spawn-depth interval.
    pub open spec fn min_depth_spec(self) -> u32 {
        match self {
            Special::Ore(ore) => ore.min_depth_spec(),
            Special::Gem(gem) => gem.min_depth_spec(),
        }
    }

    /// The exclusive upper bound of this special's spawn-depth interval.
    pub open spec fn max_depth_spec(self) -> u32 {
        match self {
            Special::Ore(ore) => ore.max_depth_spec(),
            Special::Gem(gem) => gem.max_depth_spec(),
        }
    }

    /// This special's spawn weight out of 1000.
    pub open spec fn spawn_chance_spec(self) -> i32 {
        match self {
            Special::Ore(ore) => ore.spawn_chance_spec(),
            Special::Gem(gem) => gem.spawn_chance_spec(),
        }
    }

    /// The minimum depth at which this special can spawn.
    pub fn min_depth(&self) -> (r: u32)
        ensures
            r == self.min_depth_spec(),
    {
        match self {
            Special::Ore(ore) => ore.min_depth(),
            Special::Gem(gem) => gem.min_depth(),
        }
    }

    /// The maximum depth at which this special can spawn.
    pub fn max_depth(&self) -> (r: u32)
        ensures
            r == self.max_depth_spec(),
    {
        match self {
            Special::Ore(ore) => ore.max_depth(),
            Special::Gem(gem) => gem.max_depth(),
        }
    }

    /// This special's spawn weight out of 1000.
    pub fn spawn_chance(&self) -> (r: i32)
        ensures
            r == self.spawn_chance_spec(),
    {
        match self {
            Special::Ore(ore) => ore.spawn_chance(),
            Special::Gem(gem) => gem.spawn_chance(),
        }
    }

    /// Every special variant: all ores, then all gems.
    pub fn all_variants() -> (r: Vec<Special>)
        ensures
            r@ == seq![Special::Ore(Ore::Gold), Special::Gem(Gem::Ruby)],
    {
        let mut v: Vec<Special> = Vec::new();
        v.push(Special::Ore(Ore::Gold));
        v.push(Special::Gem(Gem::Ruby));
        proof {
            assert(v@ =~= seq![Special::Ore(Ore::Gold), Special::Gem(Gem::Ruby)]);
        }
        v
    }
}

impl WorldGenType for Liquid {
    open spec fn min_depth_spec(&self) -> u32 {
        match self {
            Liquid::Water(_) => 0u32,
            Liquid::Lava(_) => 1u32,
            Liquid::Acid(_) => 1u32,
        }
    }

    open spec fn max_depth_spec(&self) -> u32 {
        100u32
    }

    open spec fn spawn_chance_spec(&self) -> i32 {
        100i32
    }

    fn min_depth(&self) -> (r: u32) {
        match self {
            Liquid::Water(_) => 0,
            Liquid::Lava(_) => 1,
            Liquid::Acid(_) => 1,
        }
    }

    fn max_depth(&self) -> (r: u32) {
        100
    }

    fn spawn_chance(&self) -> (r: i32) {
        100
    }
}

/// The stored bias direction of a liquid.
pub open spec fn direction_of(l: Liquid) -> Direction {
    match l {
        Liquid::Water(d) => d,
        Liquid::Lava(d) => d,
        Liquid::Acid(d) => d,
    }
}

/// The same liquid kind carrying direction `d` instead.
pub open spec fn with_direction(l: Liquid, d: Direction) -> Liquid {
    match l {
        Liquid::Water(_) => Liquid::Water(d),
        Liquid::Lava(_) => Liquid::Lava(d),
        Liquid::Acid(_) => Liquid::Acid(d),
    }
}

/// The per-tick reach of a liquid's vertical and diagonal scans.
pub open spec fn viscosity_of(l: Liquid) -> i32 {
    match l {
        Liquid::Water(_) => 5i32,
        Liquid::Lava(_) => 3i32,
        Liquid::Acid(_) => 4i32,
    }
}

impl Liquid {
    /// The signed vertical step bias: every liquid sinks.
    pub fn get_buoyancy(&self) -> (r: i32)
        ensures
            r == -1,
    {
        -1
    }

    /// How far the vertical and diagonal scans reach in one tick.
    pub fn get_viscosity(&self) -> (r: i32)
        ensures
            r == viscosity_of(*self),
            1 <= r <= 5,
    {
        match self {
            Liquid::Water(_) => 5,
            Liquid::Lava(_) => 3,
            Liquid::Acid(_) => 4,
        }
    }

    /// The stored horizontal bias direction.
    pub fn get_direction(&self) -> (r: &Direction)
        ensures
            *r == direction_of(*self),
    {
        match self {
            Liquid::Water(direction) => direction,
            Liquid::Lava(direction) => direction,
            Liquid::Acid(direction) => direction,
        }
    }

    /// The same liquid with its bias direction mirrored.
    pub fn get_flipped_direction(&self) -> (r: Self)
        ensures
            r == with_direction(*self, opposite_dir(direction_of(*self))),
    {
        match self {
            Liquid::Water(direction) => Liquid::Water(direction.get_opposite()),
            Liquid::Lava(direction) => Liquid::Lava(direction.get_opposite()),
            Liquid::Acid(direction) => Liquid::Acid(direction.get_opposite()),
        }
    }
}

impl Particle {
    /// The minimum spawn depth of a kind the generator places.
    pub fn min_depth(&self) -> (r: u32)
        requires
            !(self matches Particle::Solid(_)),
        ensures
            r == match *self {
                Particle::Common(c) => c.min_depth_spec(),
                Particle::Special(s) => s.min_depth_spec(),
                Particle::Liquid(l) => l.min_depth_spec(),
                Particle::Solid(_) => 0u32,
            },
    {
        match self {
            Particle::Common(common) => common.min_depth(),
            Particle::Special(special) => special.min_depth(),
            Particle::Liquid(fluid) => fluid.min_depth(),
            Particle::Solid(_) => 0,
        }
    }

    /// The maximum spawn depth of a kind the generator places.
    pub fn max_depth(&self) -> (r: u32)
        requires
            !(self matches Particle::Solid(_)),
        ensures
            r == match *self {
                Particle::Common(c) => c.max_depth_spec(),
                Particle::Special(s) => s.max_depth_spec(),
                Particle::Liquid(l) => l.max_depth_spec(),
                Particle::Solid(_) => 0u32,
            },
    {
        match self {
            Particle::Common(common) => common.max_depth(),
            Particle::Special(special) => special.max_depth(),
            Particle::Liquid(fluid) => fluid.max_depth(),
            Particle::Solid(_) => 0,
        }
    }

    /// The spawn weight of a weighted kind.
    pub fn spawn_chance(&self) -> (r: i32)
        requires
            self matches Particle::Special(_) || self matches Particle::Liquid(_),
        ensures
            r == match *self {
                Particle::Special(s) => s.spawn_chance_spec(),
                Particle::Liquid(l) => l.spawn_chance_spec(),
                _ => 0i32,
            },
    {
        match self {
            Particle::Special(special) => special.spawn_chance(),
            Particle::Liquid(fluid) => fluid.spawn_chance(),
            _ => 0,
        }
    }
}

} // verus!
