use vstd::prelude::*;
use vstd::seq_lib::group_to_multiset_ensures;
use vstd::arithmetic::div_mod::{lemma_fundamental_div_mod, lemma_fundamental_div_mod_converse};
use crate::geom::{
    clamp_spec, decay_spec, impulse_spec, sat_add_spec, unit_dir_spec, modulus, clamp_vel,
    decay_vel, impulse, sat_add_energy, normalize_dir, DIR_SCALE, ENERGY_MAX, IMPULSE_MAX,
    MAX_EXTENT, SCALE, VEL_MAX,
};
use crate::rng;
use crate::spatial::{
    contents_bounded, dist2, dist2_exec, index_contents, neighbors_by_distance, sorted_by_dist,
    SpatialIndex, TreePoint,
};

verus! {

/// Number of genes in every genome.
pub const GENOME_LEN: usize = 13;

/// Trait value contributed by one Attack, Defense, Photosynthesis or
/// Motion gene: 0.1 in fixed-point units.
pub const TRAIT_UNIT: i64 = 1_000;

/// Trait value contributed by one Intelligence gene: 10.0 in fixed-point
/// units.
pub const INTEL_UNIT: i64 = 100_000;

/// Squared-distance crowding threshold for reproduction: 200 in world
/// units, scaled twice.
pub const CROWD_DIST2: i64 = 200 * SCALE * SCALE;

/// Age at which an organism dies regardless of energy.
pub const DEATH_AGE: u32 = 10_000;

/// Ages are kept below this cap so one more step can always increment.
pub const AGE_CAP: u32 = 100_000;

/// Denominator of the per-step probability draws.
pub const PROB_DEN: u32 = 1_000_000;

/// Chance (out of `PROB_DEN`) of one more mutation while reproducing.
pub const MUTATE_PROB: u32 = 200_000;

/// Hard cap on the geometric mutation loop so it provably terminates;
/// reaching it would take a run of draws of probability `0.2^1000`.
pub const MUTATE_CAP: u32 = 1_000;

/// Speed of the impulse a newborn receives: 1.5 in fixed-point units.
pub const REPRO_IMPULSE: i64 = 15_000;

/// One categorical trait-influence unit. Immutable once drawn; replaced
/// wholesale on mutation.
#[derive(Clone, Copy, Debug, PartialEq, Eq, Structural)]
pub enum Gene {
    /// A gene that does nothing observable.
    Nothing,
    /// Influences the attack value of the biot.
    Attack,
    /// Influences the defensive value of the biot.
    Defense,
    /// Influences how well the biot can generate energy from sunlight.
    Photosynthesis,
    /// Influences how fast the biot can move around.
    Motion,
    /// Influences the intelligence of the biot.
    Intelligence,
}

/// The total mapping from a bounded random draw to a gene variant.
pub open spec fn index_gene(i: int) -> Gene {
    if i == 0 {
        Gene::Nothing
    } else if i == 1 {
        Gene::Attack
    } else if i == 2 {
        Gene::Defense
    } else if i == 3 {
        Gene::Photosynthesis
    } else if i == 4 {
        Gene::Motion
    } else {
        Gene::Intelligence
    }
}

impl Gene {
    /// Maps a random draw to a variant; a draw outside the closed range
    /// is an internal-consistency fault and proved unreachable.
    fn from_index(i: u32) -> (g: Gene)
        requires
            i < 6,
        ensures
            g == index_gene(i as int),
    {
        match i {
            0u32 => Gene::Nothing,
            1u32 => Gene::Attack,
            2u32 => Gene::Defense,
            3u32 => Gene::Photosynthesis,
            4u32 => Gene::Motion,
            5u32 => Gene::Intelligence,
            _ => vstd::pervasive::unreached(),
        }
    }

    /// Creates a new random gene; each of the six variants can be drawn.
    pub fn random() -> Gene {
        Gene::from_index(rng::rand_below(6))
    }
}

/// How many genes of a sequence are the given variant.
pub open spec fn count_gene(s: Seq<Gene>, g: Gene) -> int
    decreases s.len(),
{
    if s.len() == 0 {
        0
    } else {
        count_gene(s.drop_last(), g) + if s.last() == g {
            1int
        } else {
            0int
        }
    }
}

pub proof fn lemma_count_gene_bounds(s: Seq<Gene>, g: Gene)
    ensures
        0 <= count_gene(s, g) <= s.len(),
    decreases s.len(),
{
    if s.len() > 0 {
        lemma_count_gene_bounds(s.drop_last(), g);
    }
}

pub proof fn lemma_count_gene_step(s: Seq<Gene>, g: Gene, i: int)
    requires
        0 <= i < s.len(),
    ensures
        count_gene(s.take(i + 1), g) == count_gene(s.take(i), g) + if s[i] == g {
            1int
        } else {
            0int
        },
{
    assert(s.take(i + 1).drop_last() =~= s.take(i));
    assert(s.take(i + 1).last() == s[i]);
}

/// Every slot except possibly `k` holds the same gene in both sequences.
pub open spec fn unchanged_except(s0: Seq<Gene>, s1: Seq<Gene>, k: int) -> bool {
    forall|i: int| 0 <= i < s0.len() && i != k ==> s1[i] == s0[i]
}

/// The ordered, fixed-length set of genes a biot is made of.
#[derive(Debug)]
pub struct Genome {
    genes: Vec<Gene>,
}

impl View for Genome {
    type V = Seq<Gene>;

    closed spec fn view(&self) -> Seq<Gene> {
        self.genes@
    }
}

impl Clone for Genome {
    /// A genome is never shared: a clone is a fully independent copy
    /// with the same genes.
    fn clone(&self) -> (r: Self)
        ensures
            r@ == self@,
    {
        let mut genes: Vec<Gene> = Vec::new();
        let mut i: usize = 0;
        while i < self.genes.len()
            invariant
                i <= self.genes.len(),
                genes@ =~= self.genes@.take(i as int),
            decreases self.genes.len() - i,
        {
            genes.push(self.genes[i]);
            i = i + 1;
        }
        proof {
            assert(self.genes@.take(self.genes@.len() as int) =~= self.genes@);
        }
        Genome { genes }
    }
}

impl Genome {
    /// The genome invariant: always exactly `GENOME_LEN` genes.
    pub open spec fn wf(&self) -> bool {
        self@.len() == GENOME_LEN
    }

    /// Creates a random biot genome of 13 independent draws.
    pub fn random() -> (g: Genome)
        ensures
            g.wf(),
    {
        let mut genes: Vec<Gene> = Vec::new();
        let mut i: usize = 0;
        while i < GENOME_LEN
            invariant
                i <= GENOME_LEN,
                genes@.len() == i,
            decreases GENOME_LEN - i,
        {
            genes.push(Gene::random());
            i = i + 1;
        }
        Genome { genes }
    }

    /// Randomly mutate a single gene: one slot is redrawn, every other
    /// slot keeps its gene (the redraw may coincide with the old value).
    pub fn mutate(&mut self)
        requires
            old(self).wf(),
        ensures
            final(self).wf(),
            exists|k: int|
                0 <= k < GENOME_LEN && #[trigger] unchanged_except(old(self)@, final(self)@, k),
    {
        let slot = rng::rand_below(GENOME_LEN as u32) as usize;
        let g = Gene::random();
        self.genes[slot] = g;
        proof {
            assert(unchanged_except(old(self)@, self@, slot as int));
        }
    }

    /// The genes of the genome, in order.
    pub fn genes(&self) -> (r: &Vec<Gene>)
        ensures
            r@ == self@,
    {
        &self.genes
    }

    /// Builds a genome from an explicit gene sequence; refused unless it
    /// has exactly `GENOME_LEN` genes.
    pub fn from_genes(genes: Vec<Gene>) -> (r: Option<Genome>)
        ensures
            r is Some <==> genes@.len() == GENOME_LEN,
            r matches Some(g) ==> g@ == genes@ && g.wf(),
    {
        if genes.len() == GENOME_LEN {
            Some(Genome { genes })
        } else {
            None
        }
    }
}

/// The five traits of a biot, fully derived from its genome, in
/// fixed-point units.
#[derive(Clone, Copy, Debug)]
pub struct Properties {
    pub attack: i64,
    pub defense: i64,
    pub photosynthesis: i64,
    pub motion: i64,
    pub intelligence: i64,
}

/// Each trait equals its per-gene contribution times the number of its
/// genes: the no-drift accumulation rule.
pub open spec fn props_match(p: Properties, s: Seq<Gene>) -> bool {
    &&& p.attack == TRAIT_UNIT * count_gene(s, Gene::Attack)
    &&& p.defense == TRAIT_UNIT * count_gene(s, Gene::Defense)
    &&& p.photosynthesis == TRAIT_UNIT * count_gene(s, Gene::Photosynthesis)
    &&& p.motion == TRAIT_UNIT * count_gene(s, Gene::Motion)
    &&& p.intelligence == INTEL_UNIT * count_gene(s, Gene::Intelligence)
}

/// Trait bounds every genome-derived property set satisfies.
pub open spec fn props_wf(p: Properties) -> bool {
    &&& 0 <= p.attack <= GENOME_LEN * TRAIT_UNIT
    &&& 0 <= p.defense <= GENOME_LEN * TRAIT_UNIT
    &&& 0 <= p.photosynthesis <= GENOME_LEN * TRAIT_UNIT
    &&& 0 <= p.motion <= GENOME_LEN * TRAIT_UNIT
    &&& 0 <= p.intelligence <= GENOME_LEN * INTEL_UNIT
}

/// Energy upkeep per step: `0.2 * (4.5*attack + 2.3*defense + 2.5*motion
/// + 0.1*intelligence)` in fixed-point units.
pub open spec fn metabolism_of(p: Properties) -> int {
    (90 * p.attack + 46 * p.defense + 50 * p.motion + 2 * p.intelligence) / 100
}

/// Total weight: attack + defense + photosynthesis + motion.
pub open spec fn weight_of(p: Properties) -> int {
    p.attack + p.defense + p.photosynthesis + p.motion
}

/// Original life points: 8 times the weight.
pub open spec fn base_life_of(p: Properties) -> int {
    8 * weight_of(p)
}

/// The speed of a motion impulse: `7 * motion / weight` in fixed-point
/// units, rounded down; meaningful only for positive weight (and motion
/// is at most the weight, so the speed never exceeds 7.0).
pub open spec fn motion_speed_of(p: Properties) -> int
    recommends
        weight_of(p) > 0,
{
    (70_000 * p.motion) / weight_of(p)
}

/// Net energy change per step: `0.4 * (photosynthesis - metabolism)`,
/// computed exactly in fixed-point units.
pub open spec fn energy_delta_of(p: Properties) -> int {
    4 * p.photosynthesis / 10 - (360 * p.attack + 184 * p.defense + 200 * p.motion + 8
        * p.intelligence) / 1000
}

impl Default for Properties {
    /// All traits start at zero.
    fn default() -> (r: Self)
        ensures
            r.attack == 0 && r.defense == 0 && r.photosynthesis == 0 && r.motion == 0
                && r.intelligence == 0,
    {
        Properties { attack: 0, defense: 0, photosynthesis: 0, motion: 0, intelligence: 0 }
    }
}

impl Properties {
    /// Reset properties to their default values.
    fn reset(&mut self)
        ensures
            final(self).attack == 0 && final(self).defense == 0 && final(self).photosynthesis == 0
                && final(self).motion == 0 && final(self).intelligence == 0,
    {
        self.attack = 0;
        self.defense = 0;
        self.photosynthesis = 0;
        self.motion = 0;
        self.intelligence = 0;
    }

    /// Recomputes all traits from scratch out of the genome. The result
    /// depends on the genome alone, so recomputation is idempotent.
    pub fn adjust_to_genome(&mut self, genome: &Genome)
        requires
            genome.wf(),
        ensures
            props_match(*final(self), genome@),
            props_wf(*final(self)),
    {
        self.reset();
        let gs = genome.genes();
        let ghost s = genome@;
        let mut i: usize = 0;
        while i < gs.len()
            invariant
                gs@ == s,
                s.len() == GENOME_LEN,
                i <= GENOME_LEN,
                self.attack == TRAIT_UNIT * count_gene(s.take(i as int), Gene::Attack),
                self.defense == TRAIT_UNIT * count_gene(s.take(i as int), Gene::Defense),
                self.photosynthesis == TRAIT_UNIT * count_gene(
                    s.take(i as int),
                    Gene::Photosynthesis,
                ),
                self.motion == TRAIT_UNIT * count_gene(s.take(i as int), Gene::Motion),
                self.intelligence == INTEL_UNIT * count_gene(s.take(i as int), Gene::Intelligence),
            decreases gs@.len() - i,
        {
            proof {
                lemma_count_gene_bounds(s.take(i as int), Gene::Attack);
                lemma_count_gene_bounds(s.take(i as int), Gene::Defense);
                lemma_count_gene_bounds(s.take(i as int), Gene::Photosynthesis);
                lemma_count_gene_bounds(s.take(i as int), Gene::Motion);
                lemma_count_gene_bounds(s.take(i as int), Gene::Intelligence);
                lemma_count_gene_step(s, Gene::Attack, i as int);
                lemma_count_gene_step(s, Gene::Defense, i as int);
                lemma_count_gene_step(s, Gene::Photosynthesis, i as int);
                lemma_count_gene_step(s, Gene::Motion, i as int);
                lemma_count_gene_step(s, Gene::Intelligence, i as int);
            }
            match gs[i] {
                Gene::Nothing => (),
                Gene::Attack => {
                    self.attack = self.attack + TRAIT_UNIT;
                },
                Gene::Defense => {
                    self.defense = self.defense + TRAIT_UNIT;
                },
                Gene::Photosynthesis => {
                    self.photosynthesis = self.photosynthesis + TRAIT_UNIT;
                },
                Gene::Motion => {
                    self.motion = self.motion + TRAIT_UNIT;
                },
                Gene::Intelligence => {
                    self.intelligence = self.intelligence + INTEL_UNIT;
                },
            }
            i = i + 1;
        }
        proof {
            assert(s.take(GENOME_LEN as int) =~= s);
            lemma_count_gene_bounds(s, Gene::Attack);
            lemma_count_gene_bounds(s, Gene::Defense);
            lemma_count_gene_bounds(s, Gene::Photosynthesis);
            lemma_count_gene_bounds(s, Gene::Motion);
            lemma_count_gene_bounds(s, Gene::Intelligence);
        }
    }

    /// Calculates the metabolism cost of the properties: how much energy
    /// the biot needs for living.
    pub fn metabolism(&self) -> (r: i64)
        requires
            props_wf(*self),
        ensures
            r == metabolism_of(*self),
            0 <= r,
    {
        ((90 * (self.attack as u64) + 46 * (self.defense as u64) + 50 * (self.motion as u64) + 2 * (
        self.intelligence as u64)) / 100) as i64
    }

    /// Total weight of the biot, used for size, base life and movement.
    pub fn weight(&self) -> (r: i64)
        requires
            props_wf(*self),
        ensures
            r == weight_of(*self),
            0 <= r <= 4 * GENOME_LEN * TRAIT_UNIT,
    {
        self.attack + self.defense + self.photosynthesis + self.motion
    }

    /// Net energy change of one step, exact in fixed-point units.
    pub fn energy_delta(&self) -> (r: i64)
        requires
            props_wf(*self),
        ensures
            r == energy_delta_of(*self),
            -100_000 <= r <= 100_000,
    {
        let gain: u64 = 4 * (self.photosynthesis as u64) / 10;
        let cost: u64 = (360 * (self.attack as u64) + 184 * (self.defense as u64) + 200 * (
        self.motion as u64) + 8 * (self.intelligence as u64)) / 1000;
        (gain as i64) - (cost as i64)
    }
}

/// The mutable runtime state of a biot: energy ("life"), position,
/// velocity and age, all in fixed-point units.
#[derive(Clone, Copy, Debug)]
pub struct Stats {
    pub life: i64,
    pub x: i64,
    pub y: i64,
    pub vx: i64,
    pub vy: i64,
    pub age: u32,
}

/// Runtime-state bounds every biot keeps: position inside the largest
/// world, velocity and energy inside their saturation bounds.
pub open spec fn stats_wf(s: Stats) -> bool {
    &&& -ENERGY_MAX <= s.life <= ENERGY_MAX
    &&& 0 <= s.x <= MAX_EXTENT
    &&& 0 <= s.y <= MAX_EXTENT
    &&& -VEL_MAX <= s.vx <= VEL_MAX
    &&& -VEL_MAX <= s.vy <= VEL_MAX
    &&& s.age <= AGE_CAP
}

impl Default for Stats {
    /// A biot starts at the origin, at rest, with no energy and age 0.
    fn default() -> (r: Self)
        ensures
            r.life == 0 && r.x == 0 && r.y == 0 && r.vx == 0 && r.vy == 0 && r.age == 0,
            stats_wf(r),
    {
        Stats { life: 0, x: 0, y: 0, vx: 0, vy: 0, age: 0 }
    }
}

impl Stats {
    /// Positions the biot uniformly at random inside the world.
    pub fn position_randomly(&mut self, width: i64, height: i64)
        requires
            0 < width <= MAX_EXTENT,
            0 < height <= MAX_EXTENT,
        ensures
            0 <= final(self).x < width,
            0 <= final(self).y < height,
            final(self).life == old(self).life,
            final(self).vx == old(self).vx,
            final(self).vy == old(self).vy,
            final(self).age == old(self).age,
    {
        self.x = rng::rand_below(width as u32) as i64;
        self.y = rng::rand_below(height as u32) as i64;
    }
}

/// A biot: one genome, the properties derived from it, and its runtime
/// stats.
#[derive(Debug)]
pub struct Biot {
    pub stats: Stats,
    pub genome: Genome,
    pub properties: Properties,
}

impl Clone for Biot {
    /// Cloning (at reproduction) produces a fully independent copy.
    fn clone(&self) -> (r: Self)
        ensures
            r.stats == self.stats,
            r.properties == self.properties,
            r.genome_view() == self.genome_view(),
    {
        Biot { stats: self.stats, genome: self.genome.clone(), properties: self.properties }
    }
}

/// The whole-organism invariant: a full genome, properties exactly
/// recomputable from it, and runtime stats inside their bounds.
pub open spec fn biot_wf(b: Biot) -> bool {
    &&& b.genome_view().len() == GENOME_LEN
    &&& props_match(b.properties, b.genome_view())
    &&& props_wf(b.properties)
    &&& stats_wf(b.stats)
}

/// The death predicate: out of energy, or past the maximum age.
pub open spec fn dead_spec(b: Biot) -> bool {
    b.stats.life <= 0 || b.stats.age >= DEATH_AGE
}

/// Every biot of the sequence sits inside `[0, width) x [0, height)`.
pub open spec fn all_in_world(s: Seq<Biot>, width: int, height: int) -> bool {
    forall|k: int|
        0 <= k < s.len() ==> 0 <= (#[trigger] s[k]).stats.x < width && 0 <= s[k].stats.y < height
}

/// `a` beats `b` iff `a.attack > b.attack + 0.8 * b.defense`.
pub open spec fn stronger_spec(a: Properties, b: Properties) -> bool {
    a.attack > b.attack + 8 * b.defense / 10
}

/// The velocity took its drag step and nothing more.
pub open spec fn vel_decayed_only(s0: Stats, s1: Stats) -> bool {
    s1.vx == decay_spec(s0.vx as int) && s1.vy == decay_spec(s0.vy as int)
}

/// The velocity took its drag step and then one impulse at the motion
/// speed along the direction `d`, clamped into the velocity bounds.
pub open spec fn vel_impulse_along(s0: Stats, s1: Stats, p: Properties, d: (int, int)) -> bool {
    &&& s1.vx == clamp_spec(
        decay_spec(s0.vx as int) + impulse_spec(d.0, motion_speed_of(p)),
        VEL_MAX as int,
    )
    &&& s1.vy == clamp_spec(
        decay_spec(s0.vy as int) + impulse_spec(d.1, motion_speed_of(p)),
        VEL_MAX as int,
    )
}

/// Whenever a feed direction was supplied, the velocity either only
/// decayed or took its one impulse along exactly that direction.
pub open spec fn vel_follows_feed(
    s0: Stats,
    s1: Stats,
    p: Properties,
    feed_dir: Option<(i64, i64)>,
) -> bool {
    feed_dir matches Some(v) ==> (vel_decayed_only(s0, s1) || vel_impulse_along(
        s0,
        s1,
        p,
        (v.0 as int, v.1 as int),
    ))
}

/// One step of the velocity: drag, then at most one impulse at the
/// motion speed, along the supplied feed direction or along some unit
/// direction.
pub open spec fn vel_stepped(s0: Stats, s1: Stats, p: Properties, feed_dir: Option<(i64, i64)>) -> bool {
    ||| vel_decayed_only(s0, s1)
    ||| exists|d: (int, int)| #[trigger] unit_dir_spec(d) && vel_impulse_along(s0, s1, p, d)
    ||| (feed_dir matches Some(v) && vel_impulse_along(s0, s1, p, (v.0 as int, v.1 as int)))
}

/// Sorted neighbour view of the crowding rule: reproduction is allowed
/// when there is no sixth point (the biot itself included) within the
/// crowding distance.
pub open spec fn uncrowded_spec(s: Seq<TreePoint>, x: int, y: int) -> bool {
    s.len() <= 5 || dist2(s[5], x, y) > CROWD_DIST2
}

impl Biot {
    /// The gene sequence of this biot's genome.
    pub open spec fn genome_view(&self) -> Seq<Gene> {
        self.genome@
    }

    /// Creates a random biot, placed uniformly inside the world, at rest,
    /// with its base life as starting energy.
    pub fn random_biot(width: i64, height: i64) -> (b: Biot)
        requires
            0 < width <= MAX_EXTENT,
            0 < height <= MAX_EXTENT,
        ensures
            biot_wf(b),
            0 <= b.stats.x < width,
            0 <= b.stats.y < height,
            b.stats.vx == 0 && b.stats.vy == 0,
            b.stats.age == 0,
            b.stats.life == base_life_of(b.properties),
    {
        let genome = Genome::random();
        let mut properties = Properties::default();
        properties.adjust_to_genome(&genome);
        let mut stats = Stats::default();
        stats.position_randomly(width, height);
        let mut s = Biot { stats, genome, properties };
        let bl = s.base_life();
        s.stats.life = bl;
        s
    }

    /// Builds a biot from a given genome, at the origin, at rest, with
    /// its base life as starting energy.
    pub fn from_genome(genome: Genome) -> (b: Biot)
        requires
            genome.wf(),
        ensures
            biot_wf(b),
            b.genome_view() == genome@,
            b.stats.x == 0 && b.stats.y == 0 && b.stats.vx == 0 && b.stats.vy == 0,
            b.stats.age == 0,
            b.stats.life == base_life_of(b.properties),
    {
        let mut properties = Properties::default();
        properties.adjust_to_genome(&genome);
        let stats = Stats::default();
        let mut s = Biot { stats, genome, properties };
        let bl = s.base_life();
        s.stats.life = bl;
        s
    }

    /// Original life points of a biot; also the reference value of the
    /// reproduction threshold.
    pub fn base_life(&self) -> (r: i64)
        requires
            props_wf(self.properties),
        ensures
            r == base_life_of(self.properties),
            0 <= r <= 32 * GENOME_LEN * TRAIT_UNIT,
    {
        8 * self.properties.weight()
    }

    /// Returns `true` if the biot is dead: out of energy or too old.
    pub fn is_dead(&self) -> (r: bool)
        ensures
            r == dead_spec(*self),
    {
        self.stats.life <= 0 || self.stats.age >= DEATH_AGE
    }

    /// Returns `true` if `self` is stronger than `other`.
    pub fn is_stronger(&self, other: &Biot) -> (r: bool)
        requires
            props_wf(self.properties),
            props_wf(other.properties),
        ensures
            r == stronger_spec(self.properties, other.properties),
    {
        let guard: i64 = other.properties.attack + ((8 * (other.properties.defense as u64) / 10)
            as i64);
        self.properties.attack > guard
    }

    /// Apply one acceleration impulse in a given direction, clamped into
    /// the velocity bounds.
    fn accelerate(&mut self, dx: i64, dy: i64, speed: i64)
        requires
            stats_wf(old(self).stats),
            -DIR_SCALE <= dx <= DIR_SCALE,
            -DIR_SCALE <= dy <= DIR_SCALE,
            0 <= speed <= IMPULSE_MAX,
        ensures
            final(self).stats.vx == clamp_spec(
                old(self).stats.vx + impulse_spec(dx as int, speed as int),
                VEL_MAX as int,
            ),
            final(self).stats.vy == clamp_spec(
                old(self).stats.vy + impulse_spec(dy as int, speed as int),
                VEL_MAX as int,
            ),
            final(self).stats.life == old(self).stats.life,
            final(self).stats.x == old(self).stats.x,
            final(self).stats.y == old(self).stats.y,
            final(self).stats.age == old(self).stats.age,
            final(self).genome_view() == old(self).genome_view(),
            final(self).properties == old(self).properties,
            stats_wf(final(self).stats),
    {
        let ix = impulse(dx, speed);
        let iy = impulse(dy, speed);
        self.stats.vx = clamp_vel(self.stats.vx + ix);
        self.stats.vy = clamp_vel(self.stats.vy + iy);
    }

    /// Accelerate along a uniformly random unit direction: each velocity
    /// component becomes the old one plus the direction's impulse at the
    /// given speed, clamped into the velocity bounds.
    fn random_move(&mut self, speed: i64)
        requires
            stats_wf(old(self).stats),
            0 <= speed <= IMPULSE_MAX,
        ensures
            final(self).stats.life == old(self).stats.life,
            final(self).stats.x == old(self).stats.x,
            final(self).stats.y == old(self).stats.y,
            final(self).stats.age == old(self).stats.age,
            final(self).genome_view() == old(self).genome_view(),
            final(self).properties == old(self).properties,
            stats_wf(final(self).stats),
            exists|d: (int, int)|
                #[trigger] unit_dir_spec(d) && final(self).stats.vx == clamp_spec(
                    old(self).stats.vx + impulse_spec(d.0, speed as int),
                    VEL_MAX as int,
                ) && final(self).stats.vy == clamp_spec(
                    old(self).stats.vy + impulse_spec(d.1, speed as int),
                    VEL_MAX as int,
                ),
    {
        let rx = (rng::rand_below(20_001) as i64) - 10_000;
        let ry = (rng::rand_below(20_001) as i64) - 10_000;
        let (dx, dy) = normalize_dir(rx, ry);
        self.accelerate(dx, dy, speed);
        proof {
            assert(unit_dir_spec((dx as int, dy as int)));
        }
    }

    /// Randomly mutates a single gene and recomputes the properties so
    /// they stay consistent with the genome: the new genome differs from
    /// the old in at most one slot.
    fn mutate(&mut self)
        requires
            biot_wf(*old(self)),
        ensures
            biot_wf(*final(self)),
            final(self).stats == old(self).stats,
            exists|k: int|
                0 <= k < GENOME_LEN && #[trigger] unchanged_except(
                    old(self).genome_view(),
                    final(self).genome_view(),
                    k,
                ),
    {
        self.genome.mutate();
        self.properties.adjust_to_genome(&self.genome);
    }

    /// Compute the evolution of the biot for one simulation step: the
    /// ordered phases are reproduction, movement with toroidal wrap,
    /// velocity drag, energy accounting, the motion impulse decision and
    /// ageing. Returns the offspring if reproduction occurred.
    pub fn step(
        &mut self,
        index: &SpatialIndex,
        feed_dir: Option<(i64, i64)>,
        width: i64,
        height: i64,
    ) -> (off: Option<Biot>)
        requires
            biot_wf(*old(self)),
            old(self).stats.age < AGE_CAP,
            0 < width <= MAX_EXTENT,
            0 < height <= MAX_EXTENT,
            contents_bounded(index_contents(index)),
            feed_dir matches Some(d) ==> -DIR_SCALE <= d.0 <= DIR_SCALE && -DIR_SCALE <= d.1
                <= DIR_SCALE,
        ensures
            biot_wf(*final(self)),
            final(self).genome_view() == old(self).genome_view(),
            final(self).properties == old(self).properties,
            final(self).stats.age == old(self).stats.age + 1,
            final(self).stats.x == (old(self).stats.x + old(self).stats.vx) as int % (
            width as int),
            final(self).stats.y == (old(self).stats.y + old(self).stats.vy) as int % (
            height as int),
            old(self).stats.life < 4 * base_life_of(old(self).properties) ==> off
                is None,
            old(self).stats.life >= 4 * base_life_of(old(self).properties) ==> (exists|
                s: Seq<TreePoint>,
            |
                s.to_multiset() == index_contents(index) && sorted_by_dist(
                    s,
                    old(self).stats.x as int,
                    old(self).stats.y as int,
                ) && (off is Some <==> uncrowded_spec(
                    s,
                    old(self).stats.x as int,
                    old(self).stats.y as int,
                ))),
            old(self).stats.life >= 4 * base_life_of(old(self).properties) && index_contents(
                index,
            ).len() <= 5 ==> off is Some,
            off is Some ==> final(self).stats.life == sat_add_spec(
                3 * base_life_of(old(self).properties),
                energy_delta_of(old(self).properties),
            ),
            off is None ==> final(self).stats.life == sat_add_spec(
                old(self).stats.life as int,
                energy_delta_of(old(self).properties),
            ),
            off matches Some(o) ==> biot_wf(o) && o.stats.age == 0 && o.stats.life == base_life_of(
                o.properties,
            ) && o.stats.x == old(self).stats.x && o.stats.y == old(self).stats.y,
            off matches Some(o) ==> exists|d: (int, int)|
                #[trigger] unit_dir_spec(d) && o.stats.vx == clamp_spec(
                    old(self).stats.vx + impulse_spec(d.0, REPRO_IMPULSE as int),
                    VEL_MAX as int,
                ) && o.stats.vy == clamp_spec(
                    old(self).stats.vy + impulse_spec(d.1, REPRO_IMPULSE as int),
                    VEL_MAX as int,
                ),
            old(self).properties.motion == 0 ==> final(self).stats.vx == decay_spec(
                old(self).stats.vx as int,
            ) && final(self).stats.vy == decay_spec(old(self).stats.vy as int),
            vel_stepped(old(self).stats, final(self).stats, old(self).properties, feed_dir),
            old(self).properties.intelligence > 0 ==> vel_follows_feed(
                old(self).stats,
                final(self).stats,
                old(self).properties,
                feed_dir,
            ),
    {
        broadcast use group_to_multiset_ensures;

        let mut offspring: Option<Biot> = None;
        let ghost mut wit: Seq<TreePoint> = Seq::empty();
        let bl = self.base_life();
        if self.stats.life >= 4 * bl {
            let nbrs = neighbors_by_distance(index, self.stats.x, self.stats.y);
            proof {
                wit = nbrs@;
            }
            let crowd_ok: bool = if nbrs.len() <= 5 {
                true
            } else {
                let p = nbrs[5];
                proof {
                    assert(nbrs@.contains(nbrs@[5]));
                    assert(index_contents(index).count(nbrs@[5]) > 0);
                }
                let d2 = dist2_exec(self.stats.x, self.stats.y, p.x, p.y);
                d2 > CROWD_DIST2
            };
            proof {
                assert(crowd_ok == uncrowded_spec(
                    wit,
                    old(self).stats.x as int,
                    old(self).stats.y as int,
                ));
            }
            if crowd_ok {
                let mut off = self.clone();
                off.stats.age = 0;
                // A geometric number of mutations: each draw continues
                // with probability 0.2, up to the termination cap.
                let mut tries: u32 = 0;
                loop
                    invariant
                        biot_wf(off),
                        off.stats.age == 0,
                        off.stats.x == old(self).stats.x,
                        off.stats.y == old(self).stats.y,
                        off.stats.vx == old(self).stats.vx,
                        off.stats.vy == old(self).stats.vy,
                        tries <= MUTATE_CAP,
                    ensures
                        biot_wf(off),
                        off.stats.age == 0,
                        off.stats.x == old(self).stats.x,
                        off.stats.y == old(self).stats.y,
                        off.stats.vx == old(self).stats.vx,
                        off.stats.vy == old(self).stats.vy,
                    decreases MUTATE_CAP - tries,
                {
                    if tries >= MUTATE_CAP {
                        break;
                    }
                    let draw = rng::rand_below(PROB_DEN);
                    if draw >= MUTATE_PROB {
                        break;
                    }
                    off.mutate();
                    tries = tries + 1;
                }
                let obl = off.base_life();
                off.stats.life = obl;
                off.random_move(REPRO_IMPULSE);
                offspring = Some(off);
                proof {
                    assert(0 <= bl <= 416_000);
                }
                self.stats.life = 3 * bl;
            }
        }
        let nx = self.stats.x + self.stats.vx;
        self.stats.x = modulus(nx, width);
        let ny = self.stats.y + self.stats.vy;
        self.stats.y = modulus(ny, height);
        self.stats.vx = decay_vel(self.stats.vx);
        self.stats.vy = decay_vel(self.stats.vy);
        let delta = self.properties.energy_delta();
        proof {
            assert(-ENERGY_MAX <= self.stats.life <= ENERGY_MAX);
        }
        self.stats.life = sat_add_energy(self.stats.life, delta);
        let motion = self.properties.motion;
        if motion > 0 {
            let draw = rng::rand_below(PROB_DEN);
            if (draw as u64) < 20 * (motion as u64) {
                // weight >= motion > 0 here, so the speed formula cannot
                // divide by zero; an all-None or all-Intelligence genome
                // has motion 0 and never reaches this branch.
                let w = self.properties.weight();
                let speed: i64 = ((70_000u64 * (motion as u64)) / (w as u64)) as i64;
                proof {
                    assert((70_000 * (motion as int)) / (w as int) <= 70_000)
                        by (nonlinear_arith)
                        requires
                            0 < motion <= w,
                    ;
                    assert(speed as int == motion_speed_of(old(self).properties));
                }
                if self.properties.intelligence > 0 {
                    match feed_dir {
                        Some(d) => self.accelerate(d.0, d.1, speed),
                        None => self.random_move(speed),
                    }
                } else {
                    self.random_move(speed);
                }
            }
        }
        self.stats.age = self.stats.age + 1;
        proof {
            if old(self).stats.life >= 4 * base_life_of(old(self).properties) {
                assert(wit.to_multiset() == index_contents(index) && sorted_by_dist(
                    wit,
                    old(self).stats.x as int,
                    old(self).stats.y as int,
                ) && (offspring is Some <==> uncrowded_spec(
                    wit,
                    old(self).stats.x as int,
                    old(self).stats.y as int,
                )));
            }
        }
        offspring
    }

    /// Compute the combat interaction of the pair `(i, j)`: if exactly
    /// one side is stronger, it absorbs 80% of the weaker's energy and
    /// the weaker's energy drops to 0; otherwise nothing changes.
    pub fn interact(biots: &mut Vec<Biot>, i: usize, j: usize)
        requires
            i < old(biots)@.len(),
            j < old(biots)@.len(),
            i != j,
            biot_wf(old(biots)@[i as int]),
            biot_wf(old(biots)@[j as int]),
        ensures
            final(biots)@.len() == old(biots)@.len(),
            forall|k: int|
                0 <= k < final(biots)@.len() && k != i && k != j ==> final(biots)@[k] == old(
                    biots,
                )@[k],
            combat_spec(
                old(biots)@[i as int],
                old(biots)@[j as int],
                final(biots)@[i as int],
                final(biots)@[j as int],
            ),
            biot_wf(final(biots)@[i as int]),
            biot_wf(final(biots)@[j as int]),
    {
        let a_stronger = biots[i].is_stronger(&biots[j]);
        let b_stronger = biots[j].is_stronger(&biots[i]);
        if a_stronger && !b_stronger {
            let gain = energy_gain(biots[j].stats.life);
            let mut wi = biots[i].clone();
            wi.stats.life = sat_add_energy(wi.stats.life, gain);
            let mut wj = biots[j].clone();
            wj.stats.life = 0;
            biots[i] = wi;
            biots[j] = wj;
        } else if b_stronger && !a_stronger {
            let gain = energy_gain(biots[i].stats.life);
            let mut wj = biots[j].clone();
            wj.stats.life = sat_add_energy(wj.stats.life, gain);
            let mut wi = biots[i].clone();
            wi.stats.life = 0;
            biots[j] = wj;
            biots[i] = wi;
        }
    }
}

/// 80% of an energy value, the magnitude rounded down.
pub open spec fn gain_spec(e: int) -> int {
    crate::geom::mag_div_spec(4 * e, 5)
}

/// Everything the simulation observes of a biot, as one ghost value:
/// the gene sequence, the derived properties, and the runtime stats.
pub ghost struct BiotData {
    pub genes: Seq<Gene>,
    pub props: Properties,
    pub stats: Stats,
}

/// The observable data of a biot.
pub open spec fn data_of(b: Biot) -> BiotData {
    BiotData { genes: b.genome_view(), props: b.properties, stats: b.stats }
}

/// The death predicate over biot data.
pub open spec fn dead_data(d: BiotData) -> bool {
    d.stats.life <= 0 || d.stats.age >= DEATH_AGE
}

/// The same data with the energy replaced.
pub open spec fn data_with_life(d: BiotData, l: int) -> BiotData {
    BiotData { stats: Stats { life: l as i64, ..d.stats }, ..d }
}

/// An energy replacement observed on biots is the same replacement
/// observed on their data.
pub proof fn lemma_like_with_life_data(b0: Biot, b1: Biot, l: int)
    requires
        like_with_life(b0, b1, l),
    ensures
        data_of(b1) == data_with_life(data_of(b0), l),
{
}

/// `b1` is `b0` with its energy replaced by `l`: same genome, same
/// properties, and all other stats kept.
pub open spec fn like_with_life(b0: Biot, b1: Biot, l: int) -> bool {
    &&& b1.properties == b0.properties
    &&& b1.genome_view() == b0.genome_view()
    &&& b1.stats == (Stats { life: l as i64, ..b0.stats })
}

/// What combat does to the pair: the single stronger side absorbs 80%
/// of the weaker's energy and the weaker's energy drops to 0; with no
/// single stronger side, both are unchanged. Nothing but the energies
/// ever changes.
pub open spec fn combat_spec(a0: Biot, b0: Biot, a1: Biot, b1: Biot) -> bool {
    if stronger_spec(a0.properties, b0.properties) && !stronger_spec(b0.properties, a0.properties) {
        like_with_life(a0, a1, sat_add_spec(a0.stats.life as int, gain_spec(b0.stats.life as int)))
            && like_with_life(b0, b1, 0)
    } else if stronger_spec(b0.properties, a0.properties) && !stronger_spec(
        a0.properties,
        b0.properties,
    ) {
        like_with_life(b0, b1, sat_add_spec(b0.stats.life as int, gain_spec(a0.stats.life as int)))
            && like_with_life(a0, a1, 0)
    } else {
        a1 == a0 && b1 == b0
    }
}

/// For every genome, the weight is non-negative.
pub proof fn lemma_weight_nonneg(p: Properties, s: Seq<Gene>)
    requires
        props_match(p, s),
    ensures
        weight_of(p) >= 0,
{
    lemma_count_gene_bounds(s, Gene::Attack);
    lemma_count_gene_bounds(s, Gene::Defense);
    lemma_count_gene_bounds(s, Gene::Photosynthesis);
    lemma_count_gene_bounds(s, Gene::Motion);
}

/// Recomputing the properties from the same genome always gives the
/// same trait vector: the traits are a pure function of the genome, so
/// recomputation is idempotent.
pub proof fn lemma_adjust_idempotent(p1: Properties, p2: Properties, s: Seq<Gene>)
    requires
        props_match(p1, s),
        props_match(p2, s),
    ensures
        p1 == p2,
{
}

/// Each gene contributes exactly its increment to the matching trait
/// count and nothing to any other: appending one gene raises the
/// matching count by one and keeps every other count.
pub proof fn lemma_gene_contribution(s: Seq<Gene>, g: Gene, h: Gene)
    ensures
        count_gene(s.push(g), h) == count_gene(s, h) + if g == h {
            1int
        } else {
            0int
        },
{
    assert(s.push(g).drop_last() =~= s);
    assert(s.push(g).last() == g);
}

/// Toroidal wraparound: the wrapped offset lies in `[0, b)` and is
/// congruent to the unwrapped offset modulo the extent.
pub proof fn lemma_wrap_congruent(a: int, b: int)
    requires
        b > 0,
    ensures
        0 <= a % b < b,
        exists|q: int| a == #[trigger] (q * b) + a % b,
{
    lemma_fundamental_div_mod(a, b);
    let q = a / b;
    assert(a == q * b + a % b) by (nonlinear_arith)
        requires
            a == b * (a / b) + a % b,
            q == a / b,
    ;
}

/// Combat with a single stronger side transfers exactly 80% of the
/// weaker's energy (stated multiplied by five, so no rounding hides in
/// the claim) and zeroes the weaker, whenever the weaker's energy is a
/// whole multiple of five units and the winner's energy stays inside
/// the saturation bound.
pub proof fn lemma_combat_energy_transfer(a0: Biot, b0: Biot, a1: Biot, b1: Biot)
    requires
        combat_spec(a0, b0, a1, b1),
        stronger_spec(a0.properties, b0.properties),
        !stronger_spec(b0.properties, a0.properties),
        0 <= b0.stats.life,
        b0.stats.life % 5 == 0,
        -ENERGY_MAX <= a0.stats.life,
        a0.stats.life + 4 * b0.stats.life / 5 <= ENERGY_MAX,
    ensures
        5 * a1.stats.life == 5 * a0.stats.life + 4 * b0.stats.life,
        b1.stats.life == 0,
{
    let e = b0.stats.life as int;
    lemma_fundamental_div_mod(e, 5);
    let t = e / 5;
    assert(4 * e == (4 * t) * 5 + 0) by (nonlinear_arith)
        requires
            e == 5 * t,
    ;
    lemma_fundamental_div_mod_converse(4 * e, 5, 4 * t, 0);
    assert(5 * ((4 * e) / 5) == 4 * e) by (nonlinear_arith)
        requires
            (4 * e) / 5 == 4 * t,
            e == 5 * t,
    ;
}

/// Combat with no single stronger side changes nothing: both biots,
/// energies included, are exactly as before.
pub proof fn lemma_combat_no_winner(a0: Biot, b0: Biot, a1: Biot, b1: Biot)
    requires
        combat_spec(a0, b0, a1, b1),
        stronger_spec(a0.properties, b0.properties) <==> stronger_spec(
            b0.properties,
            a0.properties,
        ),
    ensures
        a1 == a0,
        b1 == b0,
{
}

/// 80% of an energy value, exact in fixed-point units up to the final
/// rounding of the magnitude.
fn energy_gain(e: i64) -> (r: i64)
    requires
        -ENERGY_MAX <= e <= ENERGY_MAX,
    ensures
        r == gain_spec(e as int),
        -ENERGY_MAX <= r <= ENERGY_MAX,
{
    if e >= 0 {
        let g: u64 = 4 * (e as u64) / 5;
        proof {
            assert(4 * (e as int) / 5 <= e as int);
        }
        g as i64
    } else {
        let m: u64 = (-e) as u64;
        let g: u64 = 4 * m / 5;
        proof {
            assert(4 * (m as int) / 5 <= m as int);
        }
        -(g as i64)
    }
}

} // verus!
