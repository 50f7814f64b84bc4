use biots::biot::{Biot, Gene, Genome, Properties};
use biots::biot_collection::BiotCollection;
use biots::geom::{isqrt_u64, modulus, normalize_dir, SCALE};
use biots::spatial::{build_index, neighbors_by_distance, TreePoint};

fn genome_of(genes: Vec<Gene>) -> Genome {
    Genome::from_genes(genes).unwrap()
}

fn uniform_genome(g: Gene) -> Genome {
    genome_of(vec![g; 13])
}

fn props_of(genome: &Genome) -> Properties {
    let mut p = Properties::default();
    p.adjust_to_genome(genome);
    p
}

#[test]
fn random_genome_has_thirteen_genes() {
    for _ in 0..20 {
        let g = Genome::random();
        assert_eq!(g.genes().len(), 13);
    }
}

#[test]
fn random_genes_cover_all_six_variants() {
    let mut seen = [false; 6];
    for _ in 0..2_000 {
        let idx = match Gene::random() {
            Gene::Nothing => 0,
            Gene::Attack => 1,
            Gene::Defense => 2,
            Gene::Photosynthesis => 3,
            Gene::Motion => 4,
            Gene::Intelligence => 5,
        };
        seen[idx] = true;
    }
    assert!(seen.iter().all(|s| *s));
}

#[test]
fn from_genes_requires_exactly_thirteen() {
    assert!(Genome::from_genes(vec![Gene::Attack; 12]).is_none());
    assert!(Genome::from_genes(vec![Gene::Attack; 14]).is_none());
    let g = Genome::from_genes(vec![Gene::Defense; 13]);
    assert!(g.is_some());
    assert_eq!(g.unwrap().genes().len(), 13);
}

#[test]
fn adjust_to_genome_is_idempotent() {
    let genome = genome_of(vec![
        Gene::Attack,
        Gene::Attack,
        Gene::Defense,
        Gene::Photosynthesis,
        Gene::Motion,
        Gene::Intelligence,
        Gene::Nothing,
        Gene::Attack,
        Gene::Defense,
        Gene::Motion,
        Gene::Motion,
        Gene::Intelligence,
        Gene::Nothing,
    ]);
    let mut p = Properties::default();
    p.adjust_to_genome(&genome);
    let first = p;
    p.adjust_to_genome(&genome);
    assert_eq!(p.attack, first.attack);
    assert_eq!(p.defense, first.defense);
    assert_eq!(p.photosynthesis, first.photosynthesis);
    assert_eq!(p.motion, first.motion);
    assert_eq!(p.intelligence, first.intelligence);
    assert!(p.weight() >= 0);
}

#[test]
fn traits_accumulate_exactly_per_gene() {
    // 3 attack, 2 defense, 1 photosynthesis, 4 motion, 2 intelligence,
    // 1 inert gene.
    let genome = genome_of(vec![
        Gene::Attack,
        Gene::Attack,
        Gene::Attack,
        Gene::Defense,
        Gene::Defense,
        Gene::Photosynthesis,
        Gene::Motion,
        Gene::Motion,
        Gene::Motion,
        Gene::Motion,
        Gene::Intelligence,
        Gene::Intelligence,
        Gene::Nothing,
    ]);
    let p = props_of(&genome);
    // 0.1 per gene at scale 10_000 is 1_000; 10.0 is 100_000.
    assert_eq!(p.attack, 3_000);
    assert_eq!(p.defense, 2_000);
    assert_eq!(p.photosynthesis, 1_000);
    assert_eq!(p.motion, 4_000);
    assert_eq!(p.intelligence, 200_000);
    assert_eq!(p.weight(), 10_000);
    // 0.2 * (4.5*0.3 + 2.3*0.2 + 2.5*0.4 + 0.1*20.0) = 0.962.
    assert_eq!(p.metabolism(), 9_620);
    // 0.4 * (photosynthesis - metabolism) = 0.4 * (0.1 - 0.962).
    assert_eq!(p.energy_delta(), -3_448);
}

#[test]
fn mutate_changes_at_most_one_slot() {
    for _ in 0..50 {
        let base = genome_of(vec![Gene::Photosynthesis; 13]);
        let mut mutated = base.clone();
        mutated.mutate();
        let before = base.genes();
        let after = mutated.genes();
        assert_eq!(after.len(), 13);
        let diffs = before.iter().zip(after.iter()).filter(|(a, b)| a != b).count();
        assert!(diffs <= 1);
    }
}

#[test]
fn modulus_wraps_into_range() {
    assert_eq!(modulus(23, 10), 3);
    assert_eq!(modulus(-3, 10), 7);
    assert_eq!(modulus(-10, 10), 0);
    assert_eq!(modulus(0, 10), 0);
    assert_eq!(modulus(9, 10), 9);
    // Congruence with the unwrapped value.
    for a in [-1000i64, -37, -1, 0, 1, 99, 12345] {
        let r = modulus(a, 360);
        assert!((0..360).contains(&r));
        assert_eq!((a - r).rem_euclid(360), 0);
    }
}

#[test]
fn isqrt_rounds_down() {
    assert_eq!(isqrt_u64(0), 0);
    assert_eq!(isqrt_u64(1), 1);
    assert_eq!(isqrt_u64(15), 3);
    assert_eq!(isqrt_u64(16), 4);
    assert_eq!(isqrt_u64(1_000_000), 1_000);
    assert_eq!(isqrt_u64(u64::MAX), 0xFFFF_FFFF);
}

#[test]
fn normalize_dir_scales_exactly() {
    // A 3-4-5 triangle normalizes exactly at the unit scale.
    assert_eq!(normalize_dir(3, 4), (6_000, 8_000));
    assert_eq!(normalize_dir(-3, 4), (-6_000, 8_000));
    assert_eq!(normalize_dir(3, -4), (6_000, -8_000));
    assert_eq!(normalize_dir(0, 0), (10_000, 0));
    assert_eq!(normalize_dir(7, 0), (10_000, 0));
    assert_eq!(normalize_dir(0, -7), (0, -10_000));
}

#[test]
fn death_predicate_exact() {
    let mut b = Biot::from_genome(uniform_genome(Gene::Defense));
    b.stats.life = 0;
    b.stats.age = 0;
    assert!(b.is_dead());
    b.stats.life = 1;
    b.stats.age = 9_999;
    assert!(!b.is_dead());
    b.stats.age = 10_000;
    assert!(b.is_dead());
    b.stats.life = -5;
    b.stats.age = 0;
    assert!(b.is_dead());
}

#[test]
fn stronger_follows_attack_against_guarded_defense() {
    let attacker = Biot::from_genome(uniform_genome(Gene::Attack));
    let defender = Biot::from_genome(uniform_genome(Gene::Defense));
    // 1.3 > 0.0 + 0.8 * 1.3 = 1.04.
    assert!(attacker.is_stronger(&defender));
    assert!(!defender.is_stronger(&attacker));
    // Equal biots: neither side is stronger.
    let twin = Biot::from_genome(uniform_genome(Gene::Attack));
    assert!(!attacker.is_stronger(&twin));
    assert!(!twin.is_stronger(&attacker));
}

#[test]
fn combat_transfers_eighty_percent() {
    let mut a = Biot::from_genome(uniform_genome(Gene::Attack));
    let mut b = Biot::from_genome(uniform_genome(Gene::Nothing));
    a.stats.life = 500;
    b.stats.life = 1_000;
    let mut pair = vec![a, b];
    Biot::interact(&mut pair, 0, 1);
    assert_eq!(pair[0].stats.life, 500 + 800);
    assert_eq!(pair[1].stats.life, 0);
}

#[test]
fn combat_without_single_winner_changes_nothing() {
    let mut a = Biot::from_genome(uniform_genome(Gene::Attack));
    let mut b = Biot::from_genome(uniform_genome(Gene::Attack));
    a.stats.life = 700;
    b.stats.life = 900;
    let mut pair = vec![a, b];
    Biot::interact(&mut pair, 0, 1);
    assert_eq!(pair[0].stats.life, 700);
    assert_eq!(pair[1].stats.life, 900);
}

#[test]
fn position_update_wraps_toroidally() {
    let width = 100 * SCALE;
    let height = 100 * SCALE;
    // No motion genes: the position update is fully deterministic.
    let mut b = Biot::from_genome(uniform_genome(Gene::Defense));
    b.stats.x = 99 * SCALE;
    b.stats.y = 5;
    b.stats.vx = 2 * SCALE;
    b.stats.vy = -10;
    b.stats.life = 1_000;
    let index = build_index(&Vec::new());
    let off = b.step(&index, None, width, height);
    assert!(off.is_none());
    assert_eq!(b.stats.x, SCALE);
    assert_eq!(b.stats.y, height - 5);
    assert_eq!(b.stats.age, 1);
}

#[test]
fn neighbor_queries_sort_by_distance() {
    let points = vec![
        TreePoint { x: 0, y: 0, idx: 0 },
        TreePoint { x: 50, y: 50, idx: 1 },
        TreePoint { x: 1_000, y: 1_000, idx: 2 },
    ];
    let index = build_index(&points);
    let near_origin = neighbors_by_distance(&index, 1, 1);
    assert_eq!(near_origin.len(), 3);
    assert_eq!(near_origin[0].idx, 0);
    assert_eq!(near_origin[1].idx, 1);
    assert_eq!(near_origin[2].idx, 2);
    let near_far_corner = neighbors_by_distance(&index, 999, 999);
    assert_eq!(near_far_corner[0].idx, 2);
    assert_eq!(near_far_corner[1].idx, 1);
    assert_eq!(near_far_corner[2].idx, 0);
}

#[test]
fn random_biots_spawn_inside_world() {
    let width = 640 * SCALE;
    let height = 480 * SCALE;
    for _ in 0..20 {
        let b = Biot::random_biot(width, height);
        assert!(b.stats.x >= 0 && b.stats.x < width);
        assert!(b.stats.y >= 0 && b.stats.y < height);
        assert_eq!(b.stats.age, 0);
    }
    let c = BiotCollection::new(5, width, height);
    assert_eq!(c.len(), 5);
}

#[test]
fn step_resolves_combat_and_prunes_the_dead() {
    let width = 1_000 * SCALE;
    let height = 1_000 * SCALE;
    let mut a = Biot::from_genome(uniform_genome(Gene::Attack));
    let mut b = Biot::from_genome(uniform_genome(Gene::Defense));
    // Within the collision radius (10 world units apart, radius 50),
    // both below their reproduction threshold of 416_000.
    a.stats.x = 0;
    a.stats.y = 0;
    a.stats.life = 10_000;
    b.stats.x = 10 * SCALE;
    b.stats.y = 0;
    b.stats.life = 50_000;
    let mut c = BiotCollection::from_biots(vec![a, b]);
    c.step(width, height);
    // A pays 4_680 upkeep, B pays 2_392; the combat then moves 80% of
    // B's energy (floor of 0.8 * 47_608) to A and zeroes B, so only A
    // survives the prune.
    assert_eq!(c.len(), 1);
    let survivor = &c.biots()[0];
    assert_eq!(survivor.stats.life, 10_000 - 4_680 + 38_086);
    assert_eq!(survivor.stats.age, 1);
}

#[test]
fn step_reproduces_a_lone_adult() {
    let width = 1_000 * SCALE;
    let height = 1_000 * SCALE;
    let mut a = Biot::from_genome(uniform_genome(Gene::Photosynthesis));
    // Energy exactly at 4x base life (base life 8 * 1.3 = 10.4).
    a.stats.x = 500 * SCALE;
    a.stats.y = 500 * SCALE;
    a.stats.life = 416_000;
    let mut c = BiotCollection::from_biots(vec![a]);
    c.step(width, height);
    assert_eq!(c.len(), 2);
    let parent = &c.biots()[0];
    let child = &c.biots()[1];
    // The parent drops to 3x base life, then gains its photosynthesis
    // surplus of 5_200.
    assert_eq!(parent.stats.age, 1);
    assert_eq!(parent.stats.life, 312_000 + 5_200);
    assert_eq!(child.stats.age, 0);
}
