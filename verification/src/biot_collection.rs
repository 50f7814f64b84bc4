use vstd::prelude::*;
use vstd::seq_lib::group_to_multiset_ensures;
use crate::biot::{
    all_in_world, base_life_of, biot_wf, data_of, data_with_life, dead_data, dead_spec,
    energy_delta_of, gain_spec, lemma_like_with_life_data, props_match, stronger_spec,
    vel_decayed_only, vel_impulse_along, Biot, BiotData, AGE_CAP, DEATH_AGE, GENOME_LEN,
};
use crate::geom::{normalize_toward, sat_add_spec, unit_dir_spec, DIR_SCALE, MAX_EXTENT, SCALE};
use vstd::multiset::Multiset;
use crate::spatial::{
    build_index, contents_bounded, dist2, dist2_exec, index_contents, neighbors_by_distance,
    sorted_by_dist, SpatialIndex, TreePoint,
};

verus! {

/// Squared collision radius for combat: 50 world units, squared and
/// scaled twice.
pub const COLLISION_DIST2: i64 = 2_500 * SCALE * SCALE;

/// Every biot of the sequence is well formed.
pub open spec fn all_wf(s: Seq<Biot>) -> bool {
    forall|k: int| 0 <= k < s.len() ==> biot_wf(#[trigger] s[k])
}

/// Every biot's age is strictly below the cap.
pub open spec fn ages_below(s: Seq<Biot>, cap: int) -> bool {
    forall|k: int| 0 <= k < s.len() ==> (#[trigger] s[k]).stats.age < cap
}

/// `p` is a point the biot at `idx` may feed on: another biot, inside
/// the intelligence-scaled detection range, that `idx` is stronger than.
pub open spec fn qualifying_target(biots: Seq<Biot>, idx: int, p: TreePoint) -> bool {
    &&& p.idx != idx
    &&& dist2(p, biots[idx].stats.x as int, biots[idx].stats.y as int) <= 1_600
        * biots[idx].properties.intelligence * biots[idx].properties.intelligence
    &&& stronger_spec(biots[idx].properties, biots[p.idx as int].properties)
}

/// `p` is the feeding choice of the biot at `idx` among the indexed
/// points: a qualifying target that no other qualifying target is
/// strictly closer than.
pub open spec fn first_feed_target(
    biots: Seq<Biot>,
    idx: int,
    m: Multiset<TreePoint>,
    p: TreePoint,
) -> bool {
    &&& m.count(p) > 0
    &&& qualifying_target(biots, idx, p)
    &&& forall|q: TreePoint|
        #[trigger] m.count(q) > 0 && qualifying_target(biots, idx, q) ==> dist2(
            p,
            biots[idx].stats.x as int,
            biots[idx].stats.y as int,
        ) <= dist2(q, biots[idx].stats.x as int, biots[idx].stats.y as int)
}

/// `d` is a unit-scale direction pointing from `b` towards `p` (with the
/// one-unit offset the degenerate-normalization guard adds), axis sign
/// by axis sign.
pub open spec fn dir_toward(b: Biot, p: TreePoint, d: (i64, i64)) -> bool {
    &&& unit_dir_spec((d.0 as int, d.1 as int))
    &&& (p.x - b.stats.x + 1 > 0 ==> d.0 >= 0)
    &&& (p.x - b.stats.x + 1 < 0 ==> d.0 <= 0)
    &&& (p.y - b.stats.y + 1 > 0 ==> d.1 >= 0)
    &&& (p.y - b.stats.y + 1 < 0 ==> d.1 <= 0)
}

/// The pair `(a, b)` lies within the collision radius, measured on the
/// snapshot positions.
pub open spec fn within_collision(a: TreePoint, b: TreePoint) -> bool {
    dist2(b, a.x as int, a.y as int) <= COLLISION_DIST2
}

/// One combat resolution on the data of the pair `(i, j)`, exactly the
/// combat rule: the single stronger side absorbs 80% of the weaker's
/// energy (saturated) and the weaker drops to 0; otherwise no change.
pub open spec fn apply_pair(s: Seq<BiotData>, i: int, j: int) -> Seq<BiotData>
    recommends
        0 <= i < s.len(),
        0 <= j < s.len(),
        i != j,
{
    let a = s[i];
    let b = s[j];
    if stronger_spec(a.props, b.props) && !stronger_spec(b.props, a.props) {
        s.update(
            i,
            data_with_life(a, sat_add_spec(a.stats.life as int, gain_spec(b.stats.life as int))),
        ).update(j, data_with_life(b, 0))
    } else if stronger_spec(b.props, a.props) && !stronger_spec(a.props, b.props) {
        s.update(
            j,
            data_with_life(b, sat_add_spec(b.stats.life as int, gain_spec(a.stats.life as int))),
        ).update(i, data_with_life(a, 0))
    } else {
        s
    }
}

/// Combat of row `i` resolved against partners `i+1 .. j` (exclusive),
/// in ascending order, each in-radius pair once.
pub open spec fn row_upto(s: Seq<BiotData>, pts: Seq<TreePoint>, i: int, j: int) -> Seq<BiotData>
    decreases j - i,
{
    if j <= i + 1 {
        s
    } else {
        let prev = row_upto(s, pts, i, j - 1);
        if within_collision(pts[i], pts[j - 1]) {
            apply_pair(prev, i, j - 1)
        } else {
            prev
        }
    }
}

/// Combat of the rows `0 .. i` (exclusive) fully resolved, in ascending
/// order of the first index.
pub open spec fn combat_upto(s: Seq<BiotData>, pts: Seq<TreePoint>, i: int) -> Seq<BiotData>
    decreases i,
{
    if i <= 0 {
        s
    } else {
        row_upto(combat_upto(s, pts, i - 1), pts, i - 1, pts.len() as int)
    }
}

/// All combat of one tick: every unordered pair within the collision
/// radius on the snapshot positions, resolved once, ascending `i < j`,
/// energies read as left by earlier resolutions of the same tick.
pub open spec fn combat_all(s: Seq<BiotData>, pts: Seq<TreePoint>) -> Seq<BiotData> {
    combat_upto(s, pts, pts.len() as int)
}

/// How many entries of a boolean sequence are true.
pub open spec fn count_true(s: Seq<bool>) -> int
    decreases s.len(),
{
    if s.len() == 0 {
        0
    } else {
        count_true(s.drop_last()) + if s.last() {
            1int
        } else {
            0int
        }
    }
}

/// The velocity took its drag step and then at most one impulse at the
/// motion speed, along some direction of at most unit scale.
pub open spec fn vel_coarse(d0: BiotData, d1: BiotData) -> bool {
    ||| vel_decayed_only(d0.stats, d1.stats)
    ||| exists|dd: (int, int)|
        -DIR_SCALE <= dd.0 <= DIR_SCALE && -DIR_SCALE <= dd.1 <= DIR_SCALE && #[trigger] vel_impulse_along(
            d0.stats,
            d1.stats,
            d0.props,
            dd,
        )
}

/// The per-organism step on data: genome and properties kept, age up by
/// one, position wrapped toroidally by the pre-decay velocity, the
/// velocity dragged with at most one impulse, and the energy accounting
/// — reduced to three times the base life exactly when reproduction
/// fired (which needs the adult threshold), then the saturated energy
/// delta.
pub open spec fn stepped_data(d0: BiotData, d1: BiotData, reproduced: bool, w: int, h: int) -> bool {
    &&& d1.genes == d0.genes
    &&& d1.props == d0.props
    &&& d1.stats.age == d0.stats.age + 1
    &&& d1.stats.x == (d0.stats.x + d0.stats.vx) % w
    &&& d1.stats.y == (d0.stats.y + d0.stats.vy) % h
    &&& vel_coarse(d0, d1)
    &&& d1.stats.life == sat_add_spec(
        if reproduced {
            3 * base_life_of(d0.props)
        } else {
            d0.stats.life as int
        },
        energy_delta_of(d0.props),
    )
    &&& (reproduced ==> d0.stats.life >= 4 * base_life_of(d0.props))
}

/// The snapshot the spatial index is built from: each biot's position
/// tagged with its slot.
pub open spec fn snapshot_of(olds: Seq<BiotData>) -> Seq<TreePoint> {
    Seq::new(
        olds.len(),
        |k: int| TreePoint { x: olds[k].stats.x, y: olds[k].stats.y, idx: k as usize },
    )
}

/// `o` is a newborn of `parent`: age 0, the parent's pre-step position,
/// energy equal to its own base life, and properties exactly recomputed
/// from its (possibly mutated) genome.
pub open spec fn offspring_data(parent: BiotData, o: BiotData) -> bool {
    &&& o.stats.age == 0
    &&& o.stats.x == parent.stats.x
    &&& o.stats.y == parent.stats.y
    &&& o.stats.life == base_life_of(o.props)
    &&& o.genes.len() == GENOME_LEN
    &&& props_match(o.props, o.genes)
}

/// The observable data of a sequence of biots.
pub open spec fn data_seq(s: Seq<Biot>) -> Seq<BiotData> {
    s.map_values(|b: Biot| data_of(b))
}

/// The entries that survive the death prune.
pub open spec fn live_data(s: Seq<BiotData>) -> Seq<BiotData> {
    s.filter(|d: BiotData| !dead_data(d))
}

/// One element more of the prune: the survivors of a prefix grow by the
/// next entry exactly when it is not dead.
proof fn lemma_live_data_take_step(s: Seq<BiotData>, k: int)
    requires
        0 <= k < s.len(),
    ensures
        live_data(s.take(k + 1)) == if !dead_data(s[k]) {
            live_data(s.take(k)).push(s[k])
        } else {
            live_data(s.take(k))
        },
{
    reveal(Seq::filter);
    assert(s.take(k + 1).drop_last() =~= s.take(k));
    assert(s.take(k + 1).last() == s[k]);
    assert(s.take(k + 1).len() == k + 1);
}

/// What one whole simulation step does, on data: some per-organism
/// stepped state `mid` with reproduction flags `reps` (forced, both
/// ways, whenever at most five organisms exist), combat folded over the
/// ascending in-radius snapshot pairs, the dead pruned, and one newborn
/// per reproducing organism (parents listed by `par`) appended.
pub open spec fn step_relation(
    olds: Seq<BiotData>,
    mid: Seq<BiotData>,
    reps: Seq<bool>,
    par: Seq<int>,
    offs: Seq<BiotData>,
    finals: Seq<BiotData>,
    w: int,
    h: int,
) -> bool {
    let pts = snapshot_of(olds);
    &&& mid.len() == olds.len()
    &&& reps.len() == olds.len()
    &&& forall|k: int|
        0 <= k < olds.len() ==> stepped_data(olds[k], #[trigger] mid[k], reps[k], w, h)
    &&& (olds.len() <= 5 ==> forall|k: int|
        0 <= k < olds.len() ==> ((#[trigger] reps[k]) <==> olds[k].stats.life >= 4 * base_life_of(
            olds[k].props,
        )))
    &&& offs.len() == count_true(reps)
    &&& par.len() == offs.len()
    &&& forall|m: int|
        0 <= m < offs.len() ==> 0 <= #[trigger] par[m] < olds.len() && reps[par[m]]
            && offspring_data(olds[par[m]], offs[m])
    &&& finals == live_data(combat_all(mid, pts)) + offs
}

/// A collection of biots, responsible for running whole simulation steps
/// and for resolving the interactions between biots.
pub struct BiotCollection {
    biots: Vec<Biot>,
    offsprings: Vec<Biot>,
}

impl View for BiotCollection {
    type V = Seq<Biot>;

    closed spec fn view(&self) -> Seq<Biot> {
        self.biots@
    }
}

impl BiotCollection {
    /// The transient offspring buffer; empty between steps.
    pub closed spec fn offsprings_view(&self) -> Seq<Biot> {
        self.offsprings@
    }

    /// Every biot of the live set and of the buffer is well formed.
    pub open spec fn wf(&self) -> bool {
        all_wf(self@) && all_wf(self.offsprings_view())
    }

    /// Create `len` random biots, placed uniformly inside the world.
    pub fn new(len: usize, width: i64, height: i64) -> (r: BiotCollection)
        requires
            0 < width <= MAX_EXTENT,
            0 < height <= MAX_EXTENT,
        ensures
            r.wf(),
            r@.len() == len,
            all_in_world(r@, width as int, height as int),
            ages_below(r@, 1),
            forall|k: int|
                0 <= k < r@.len() ==> (#[trigger] r@[k]).stats.life == base_life_of(
                    r@[k].properties,
                ) && r@[k].stats.vx == 0 && r@[k].stats.vy == 0,
            r.offsprings_view().len() == 0,
    {
        let mut biots: Vec<Biot> = Vec::new();
        let mut i: usize = 0;
        while i < len
            invariant
                i <= len,
                biots@.len() == i,
                all_wf(biots@),
                all_in_world(biots@, width as int, height as int),
                ages_below(biots@, 1),
                forall|k: int|
                    0 <= k < i ==> (#[trigger] biots@[k]).stats.life == base_life_of(
                        biots@[k].properties,
                    ) && biots@[k].stats.vx == 0 && biots@[k].stats.vy == 0,
                0 < width <= MAX_EXTENT,
                0 < height <= MAX_EXTENT,
            decreases len - i,
        {
            biots.push(Biot::random_biot(width, height));
            i = i + 1;
        }
        BiotCollection { biots, offsprings: Vec::new() }
    }

    /// Builds a collection out of explicitly given biots.
    pub fn from_biots(biots: Vec<Biot>) -> (r: BiotCollection)
        requires
            all_wf(biots@),
        ensures
            r@ == biots@,
            r.wf(),
            r.offsprings_view().len() == 0,
    {
        BiotCollection { biots, offsprings: Vec::new() }
    }

    /// Read-only access to the live biots, for rendering and reporting.
    pub fn biots(&self) -> (r: &Vec<Biot>)
        ensures
            r@ == self@,
    {
        &self.biots
    }

    /// The number of biots currently in the collection.
    pub fn len(&self) -> (r: usize)
        ensures
            r == self@.len(),
    {
        self.biots.len()
    }

    /// The feed direction of the biot at `idx`: scanning neighbours in
    /// ascending distance, the first one (other than itself) within the
    /// intelligence-scaled detection range that the biot is stronger
    /// than yields a unit direction towards it; biots without
    /// intelligence, or with no such neighbour in range, get none.
    fn feed_direction(biots: &Vec<Biot>, index: &SpatialIndex, idx: usize) -> (r: Option<
        (i64, i64),
    >)
        requires
            all_wf(biots@),
            idx < biots@.len(),
            contents_bounded(index_contents(index)),
            forall|p: TreePoint|
                index_contents(index).count(p) > 0 ==> (#[trigger] p.idx) < biots@.len(),
        ensures
            r matches Some(d) ==> -DIR_SCALE <= d.0 <= DIR_SCALE && -DIR_SCALE <= d.1 <= DIR_SCALE,
            biots@[idx as int].properties.intelligence == 0 ==> r is None,
            r matches Some(d) ==> exists|p: TreePoint|
                #[trigger] first_feed_target(biots@, idx as int, index_contents(index), p)
                    && dir_toward(biots@[idx as int], p, d),
            biots@[idx as int].properties.intelligence > 0 && r is None ==> forall|p: TreePoint|
                #[trigger] index_contents(index).count(p) > 0 ==> !qualifying_target(
                    biots@,
                    idx as int,
                    p,
                ),
    {
        broadcast use group_to_multiset_ensures;

        let intel = biots[idx].properties.intelligence;
        if intel == 0 {
            return None;
        }
        let sx = biots[idx].stats.x;
        let sy = biots[idx].stats.y;
        let nbrs = neighbors_by_distance(index, sx, sy);
        let m: u64 = intel as u64;
        proof {
            assert(1_600 * m * m < 0x8000_0000_0000_0000u64) by (nonlinear_arith)
                requires
                    m <= 1_300_000,
            ;
        }
        let maxd: i64 = (1_600 * m * m) as i64;
        let mut j: usize = 0;
        while j < nbrs.len()
            invariant
                j <= nbrs@.len(),
                all_wf(biots@),
                idx < biots@.len(),
                nbrs@.to_multiset() == index_contents(index),
                contents_bounded(index_contents(index)),
                forall|p: TreePoint|
                    index_contents(index).count(p) > 0 ==> (#[trigger] p.idx) < biots@.len(),
                0 <= sx <= MAX_EXTENT,
                0 <= sy <= MAX_EXTENT,
                intel == biots@[idx as int].properties.intelligence,
                intel > 0,
                sx == biots@[idx as int].stats.x,
                sy == biots@[idx as int].stats.y,
                maxd as int == 1_600 * (intel as int) * (intel as int),
                sorted_by_dist(nbrs@, sx as int, sy as int),
                forall|m: int|
                    0 <= m < j ==> !qualifying_target(biots@, idx as int, #[trigger] nbrs@[m]),
            decreases nbrs@.len() - j,
        {
            let p = nbrs[j];
            proof {
                broadcast use group_to_multiset_ensures;

                assert(nbrs@.contains(nbrs@[j as int]));
                assert(index_contents(index).count(nbrs@[j as int]) > 0);
            }
            if p.idx != idx {
                let d2 = dist2_exec(sx, sy, p.x, p.y);
                if d2 > maxd {
                    // Further neighbours are farther away still: no point
                    // of the index qualifies.
                    proof {
                        broadcast use group_to_multiset_ensures;

                        assert forall|pp: TreePoint|
                            index_contents(index).count(pp) > 0 implies !qualifying_target(
                            biots@,
                            idx as int,
                            pp,
                        ) by {
                            assert(nbrs@.contains(pp));
                            let m = choose|m: int| 0 <= m < nbrs@.len() && nbrs@[m] == pp;
                            if m >= j as int {
                                assert(dist2(nbrs@[j as int], sx as int, sy as int) <= dist2(
                                    nbrs@[m],
                                    sx as int,
                                    sy as int,
                                ));
                            }
                        }
                    }
                    return None;
                }
                if biots[idx].is_stronger(&biots[p.idx]) {
                    proof {
                        broadcast use group_to_multiset_ensures;

                        assert(dist2(p, sx as int, sy as int) <= 1_600 * (intel as int) * (
                        intel as int));
                        assert(qualifying_target(biots@, idx as int, nbrs@[j as int]));
                        assert forall|q: TreePoint|
                            index_contents(index).count(q) > 0 && qualifying_target(
                                biots@,
                                idx as int,
                                q,
                            ) implies dist2(nbrs@[j as int], sx as int, sy as int) <= dist2(
                            q,
                            sx as int,
                            sy as int,
                        ) by {
                            assert(nbrs@.contains(q));
                            let m = choose|m: int| 0 <= m < nbrs@.len() && nbrs@[m] == q;
                            if m < j as int {
                                assert(!qualifying_target(biots@, idx as int, nbrs@[m]));
                            } else {
                                assert(dist2(nbrs@[j as int], sx as int, sy as int) <= dist2(
                                    nbrs@[m],
                                    sx as int,
                                    sy as int,
                                ));
                            }
                        }
                        assert(first_feed_target(
                            biots@,
                            idx as int,
                            index_contents(index),
                            nbrs@[j as int],
                        ));
                    }
                    // A small offset guards against a neighbour exactly
                    // coincident with this biot's position.
                    let dir = normalize_toward(sx, sy, p.x, p.y);
                    proof {
                        assert(dir_toward(biots@[idx as int], nbrs@[j as int], dir));
                    }
                    return Some(dir);
                }
            }
            proof {
                assert(!qualifying_target(biots@, idx as int, nbrs@[j as int]));
            }
            j = j + 1;
        }
        proof {
            broadcast use group_to_multiset_ensures;

            assert forall|pp: TreePoint| index_contents(index).count(pp) > 0 implies
                !qualifying_target(biots@, idx as int, pp) by {
                assert(nbrs@.contains(pp));
                let m = choose|m: int| 0 <= m < nbrs@.len() && nbrs@[m] == pp;
                assert(nbrs@[m] == pp);
            }
        }
        None
    }

    /// Compute one step of the simulation: rebuild the spatial index
    /// from the current positions, run every biot's step with its feed
    /// direction, resolve combat over every pair within the collision
    /// radius (ascending index pairs, each pair once, on the pre-step
    /// positions), then remove the dead and append the offspring.
    /// Compute one step of the simulation: rebuild the spatial index
    /// from the current positions, run every biot's step with its feed
    /// direction, resolve combat over every pair within the collision
    /// radius (ascending index pairs, each pair once, on the pre-step
    /// positions), then remove the dead and append the offspring. The
    /// whole effect, on the biots' observable data, is pinned by
    /// `step_relation`.
    #[verifier::rlimit(100)]
    pub fn step(&mut self, width: i64, height: i64)
        requires
            old(self).wf(),
            0 < width <= MAX_EXTENT,
            0 < height <= MAX_EXTENT,
            all_in_world(old(self)@, width as int, height as int),
            ages_below(old(self)@, AGE_CAP as int),
        ensures
            final(self).wf(),
            all_in_world(final(self)@, width as int, height as int),
            forall|k: int|
                0 <= k < final(self)@.len() ==> (#[trigger] final(self)@[k]).stats.age < DEATH_AGE,
            forall|k: int|
                0 <= k < final(self)@.len() ==> ((#[trigger] final(self)@[k]).stats.life > 0
                    || final(self)@[k].stats.age == 0),
            final(self)@.len() <= 2 * old(self)@.len(),
            old(self)@.len() == 0 ==> final(self)@.len() == 0,
            final(self).offsprings_view().len() == 0,
            exists|mid: Seq<BiotData>, reps: Seq<bool>, par: Seq<int>, offs: Seq<BiotData>|
                #[trigger] step_relation(
                    data_seq(old(self)@),
                    mid,
                    reps,
                    par,
                    offs,
                    data_seq(final(self)@),
                    width as int,
                    height as int,
                ),
    {
        broadcast use group_to_multiset_ensures;

        let ghost olds: Seq<BiotData> = data_seq(old(self)@);
        let ghost pts_s: Seq<TreePoint> = snapshot_of(olds);
        self.offsprings.clear();
        let n = self.biots.len();
        // Snapshot the current positions, tagged with their slot index.
        let mut points: Vec<TreePoint> = Vec::new();
        let mut i: usize = 0;
        while i < n
            invariant
                i <= n,
                n == self.biots@.len(),
                self.biots@ == old(self)@,
                points@.len() == i,
                all_in_world(old(self)@, width as int, height as int),
                0 < width <= MAX_EXTENT,
                0 < height <= MAX_EXTENT,
                forall|k: int|
                    0 <= k < i ==> #[trigger] points@[k] == (TreePoint {
                        x: old(self)@[k].stats.x,
                        y: old(self)@[k].stats.y,
                        idx: k as usize,
                    }),
            decreases n - i,
        {
            let x = self.biots[i].stats.x;
            let y = self.biots[i].stats.y;
            points.push(TreePoint { x, y, idx: i });
            i = i + 1;
        }
        proof {
            assert(pts_s =~= points@);
        }
        let index = build_index(&points);
        proof {
            assert forall|p: TreePoint| index_contents(&index).count(p) > 0 implies 0 <= p.x
                <= MAX_EXTENT && 0 <= p.y <= MAX_EXTENT && (#[trigger] p.idx) < n by {
                assert(points@.contains(p));
                let k = choose|k: int| 0 <= k < points@.len() && points@[k] == p;
                assert(points@[k] == p);
            }
        }
        // Move and reproduce the biots; offspring go to the side buffer
        // and stay invisible to this step's index and interactions.
        let ghost mut mid: Seq<BiotData> = Seq::empty();
        let ghost mut reps: Seq<bool> = Seq::empty();
        let ghost mut par: Seq<int> = Seq::empty();
        let mut i: usize = 0;
        while i < n
            invariant
                i <= n,
                n == old(self)@.len(),
                self.biots@.len() == n,
                0 < width <= MAX_EXTENT,
                0 < height <= MAX_EXTENT,
                all_in_world(old(self)@, width as int, height as int),
                ages_below(old(self)@, AGE_CAP as int),
                contents_bounded(index_contents(&index)),
                forall|p: TreePoint|
                    index_contents(&index).count(p) > 0 ==> (#[trigger] p.idx) < n,
                index_contents(&index) == points@.to_multiset(),
                points@.len() == n,
                olds.len() == n,
                forall|k: int| 0 <= k < n ==> #[trigger] olds[k] == data_of(old(self)@[k]),
                mid.len() == i,
                reps.len() == i,
                forall|k: int|
                    0 <= k < i ==> stepped_data(
                        olds[k],
                        #[trigger] mid[k],
                        reps[k],
                        width as int,
                        height as int,
                    ),
                n <= 5 ==> forall|k: int|
                    0 <= k < i ==> ((#[trigger] reps[k]) <==> olds[k].stats.life >= 4
                        * base_life_of(olds[k].props)),
                forall|k: int| 0 <= k < i ==> data_of(#[trigger] self.biots@[k]) == mid[k],
                forall|k: int| i <= k < n ==> #[trigger] self.biots@[k] == old(self)@[k],
                all_wf(self.biots@),
                forall|k: int|
                    0 <= k < i ==> 0 <= (#[trigger] self.biots@[k]).stats.x < width && 0
                        <= self.biots@[k].stats.y < height,
                all_wf(self.offsprings@),
                self.offsprings@.len() <= i,
                par.len() == self.offsprings@.len(),
                count_true(reps) == self.offsprings@.len(),
                forall|m: int|
                    0 <= m < par.len() ==> 0 <= #[trigger] par[m] < i && reps[par[m]]
                        && offspring_data(olds[par[m]], data_of(self.offsprings@[m])),
                forall|k: int|
                    0 <= k < self.offsprings@.len() ==> (#[trigger] self.offsprings@[k]).stats.age
                        == 0 && 0 <= self.offsprings@[k].stats.x < width && 0
                        <= self.offsprings@[k].stats.y < height,
            decreases n - i,
        {
            let fd = Self::feed_direction(&self.biots, &index, i);
            let mut b = self.biots[i].clone();
            let off = b.step(&index, fd, width, height);
            self.biots[i] = b;
            proof {
                broadcast use group_to_multiset_ensures;

                let prev_reps = reps;
                mid = mid.push(data_of(self.biots@[i as int]));
                reps = reps.push(off is Some);
                assert(reps.drop_last() =~= prev_reps);
                let s0 = olds[i as int].stats;
                let s1 = mid[i as int].stats;
                let pp0 = olds[i as int].props;
                if vel_decayed_only(s0, s1) {
                } else if exists|d: (int, int)|
                    #[trigger] unit_dir_spec(d) && vel_impulse_along(s0, s1, pp0, d) {
                    let d = choose|d: (int, int)|
                        #[trigger] unit_dir_spec(d) && vel_impulse_along(s0, s1, pp0, d);
                    assert(vel_coarse(olds[i as int], mid[i as int]));
                } else {
                    match fd {
                        Some(v) => {
                            assert(vel_impulse_along(s0, s1, pp0, (v.0 as int, v.1 as int)));
                            assert(vel_coarse(olds[i as int], mid[i as int]));
                        },
                        None => {
                            assert(false);
                        },
                    }
                }
                assert(stepped_data(
                    olds[i as int],
                    mid[i as int],
                    reps[i as int],
                    width as int,
                    height as int,
                ));
                if n <= 5 {
                    assert(index_contents(&index).len() == points@.len());
                }
            }
            if let Some(o) = off {
                self.offsprings.push(o);
                proof {
                    par = par.push(i as int);
                }
            }
            i = i + 1;
        }
        let ghost offs_g: Seq<BiotData> = data_seq(self.offsprings@);
        proof {
            assert(data_seq(self.biots@) =~= mid);
        }
        // Resolve combat over the pre-step positions: every unordered
        // pair within the collision radius, ascending indices, once.
        let mut i: usize = 0;
        while i < n
            invariant
                i <= n,
                n == old(self)@.len(),
                self.biots@.len() == n,
                points@.len() == n,
                pts_s == points@,
                mid.len() == n,
                0 < width <= MAX_EXTENT,
                0 < height <= MAX_EXTENT,
                all_in_world(old(self)@, width as int, height as int),
                forall|k: int|
                    0 <= k < n ==> #[trigger] points@[k] == (TreePoint {
                        x: old(self)@[k].stats.x,
                        y: old(self)@[k].stats.y,
                        idx: k as usize,
                    }),
                data_seq(self.biots@) == combat_upto(mid, pts_s, i as int),
                data_seq(self.offsprings@) == offs_g,
                all_wf(self.biots@),
                forall|k: int|
                    0 <= k < n ==> 0 <= (#[trigger] self.biots@[k]).stats.x < width && 0
                        <= self.biots@[k].stats.y < height,
                all_wf(self.offsprings@),
                self.offsprings@.len() <= n,
                forall|k: int|
                    0 <= k < self.offsprings@.len() ==> (#[trigger] self.offsprings@[k]).stats.age
                        == 0 && 0 <= self.offsprings@[k].stats.x < width && 0
                        <= self.offsprings@[k].stats.y < height,
            decreases n - i,
        {
            let mut j: usize = i + 1;
            while j < n
                invariant
                    i < j <= n,
                    i < n,
                    n == old(self)@.len(),
                    self.biots@.len() == n,
                    points@.len() == n,
                    pts_s == points@,
                    mid.len() == n,
                    0 < width <= MAX_EXTENT,
                    0 < height <= MAX_EXTENT,
                    all_in_world(old(self)@, width as int, height as int),
                    forall|k: int|
                        0 <= k < n ==> #[trigger] points@[k] == (TreePoint {
                            x: old(self)@[k].stats.x,
                            y: old(self)@[k].stats.y,
                            idx: k as usize,
                        }),
                    data_seq(self.biots@) == row_upto(
                        combat_upto(mid, pts_s, i as int),
                        pts_s,
                        i as int,
                        j as int,
                    ),
                    data_seq(self.offsprings@) == offs_g,
                    all_wf(self.biots@),
                    forall|k: int|
                        0 <= k < n ==> 0 <= (#[trigger] self.biots@[k]).stats.x < width && 0
                            <= self.biots@[k].stats.y < height,
                    all_wf(self.offsprings@),
                    self.offsprings@.len() <= n,
                    forall|k: int|
                        0 <= k < self.offsprings@.len() ==> (#[trigger] self.offsprings@[k]).stats.age
                            == 0 && 0 <= self.offsprings@[k].stats.x < width && 0
                            <= self.offsprings@[k].stats.y < height,
                decreases n - j,
            {
                let ghost cur: Seq<BiotData> = data_seq(self.biots@);
                let ghost prev: Seq<Biot> = self.biots@;
                let d2 = dist2_exec(points[i].x, points[i].y, points[j].x, points[j].y);
                if d2 <= COLLISION_DIST2 {
                    Biot::interact(&mut self.biots, i, j);
                    proof {
                        let ii = i as int;
                        let jj = j as int;
                        if stronger_spec(prev[ii].properties, prev[jj].properties)
                            && !stronger_spec(prev[jj].properties, prev[ii].properties) {
                            lemma_like_with_life_data(
                                prev[ii],
                                self.biots@[ii],
                                sat_add_spec(
                                    prev[ii].stats.life as int,
                                    gain_spec(prev[jj].stats.life as int),
                                ),
                            );
                            lemma_like_with_life_data(prev[jj], self.biots@[jj], 0);
                        } else if stronger_spec(prev[jj].properties, prev[ii].properties)
                            && !stronger_spec(prev[ii].properties, prev[jj].properties) {
                            lemma_like_with_life_data(
                                prev[jj],
                                self.biots@[jj],
                                sat_add_spec(
                                    prev[jj].stats.life as int,
                                    gain_spec(prev[ii].stats.life as int),
                                ),
                            );
                            lemma_like_with_life_data(prev[ii], self.biots@[ii], 0);
                        }
                        assert(data_seq(self.biots@) =~= apply_pair(cur, ii, jj));
                        assert(within_collision(pts_s[ii], pts_s[jj]));
                    }
                } else {
                    proof {
                        assert(!within_collision(pts_s[i as int], pts_s[j as int]));
                    }
                }
                j = j + 1;
            }
            i = i + 1;
        }
        let ghost fought: Seq<BiotData> = combat_all(mid, pts_s);
        proof {
            assert(data_seq(self.biots@) == fought);
        }
        // Remove the dead biots and append the buffered offspring.
        let mut alive: Vec<Biot> = Vec::new();
        let mut k: usize = 0;
        while k < n
            invariant
                k <= n,
                n == self.biots@.len(),
                0 < width <= MAX_EXTENT,
                0 < height <= MAX_EXTENT,
                data_seq(self.biots@) == fought,
                fought.len() == n,
                all_wf(self.biots@),
                forall|k2: int|
                    0 <= k2 < n ==> 0 <= (#[trigger] self.biots@[k2]).stats.x < width && 0
                        <= self.biots@[k2].stats.y < height,
                alive@.len() <= k,
                all_wf(alive@),
                data_seq(alive@) == live_data(fought.take(k as int)),
                forall|k2: int| 0 <= k2 < alive@.len() ==> !dead_spec(#[trigger] alive@[k2]),
                forall|k2: int|
                    0 <= k2 < alive@.len() ==> 0 <= (#[trigger] alive@[k2]).stats.x < width && 0
                        <= alive@[k2].stats.y < height,
            decreases n - k,
        {
            let ghost pre_alive: Seq<Biot> = alive@;
            proof {
                lemma_live_data_take_step(fought, k as int);
                assert(fought[k as int] == data_of(self.biots@[k as int]));
            }
            if !self.biots[k].is_dead() {
                let b = self.biots[k].clone();
                proof {
                    assert(data_of(b) == fought[k as int]);
                }
                alive.push(b);
                proof {
                    assert(data_seq(alive@) =~= data_seq(pre_alive).push(data_of(
                        self.biots@[k as int],
                    )));
                    assert(data_seq(alive@) == live_data(fought.take(k as int + 1)));
                }
            } else {
                proof {
                    assert(dead_data(fought[k as int]));
                    assert(data_seq(alive@) == live_data(fought.take(k as int + 1)));
                }
            }
            k = k + 1;
        }
        proof {
            assert(fought.take(n as int) =~= fought);
        }
        self.biots = alive;
        self.biots.append(&mut self.offsprings);
        proof {
            assert(data_seq(self.biots@) =~= live_data(fought) + offs_g);
            assert(step_relation(
                olds,
                mid,
                reps,
                par,
                offs_g,
                data_seq(self.biots@),
                width as int,
                height as int,
            ));
        }
    }
}

} // verus!
