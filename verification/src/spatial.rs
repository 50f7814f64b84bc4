use vstd::prelude::*;
use vstd::multiset::Multiset;
use crate::geom::MAX_EXTENT;

verus! {

/// One indexed position: a biot's coordinates (fixed-point units) tagged
/// with its slot in this step's snapshot of the live set.
#[derive(Clone, Copy, Debug)]
pub struct TreePoint {
    pub x: i64,
    pub y: i64,
    pub idx: usize,
}

/// Squared Euclidean distance between a point and a query position.
pub open spec fn dist2(p: TreePoint, x: int, y: int) -> int {
    (p.x - x) * (p.x - x) + (p.y - y) * (p.y - y)
}

/// The points of `s` come in ascending order of squared distance to the
/// query position.
pub open spec fn sorted_by_dist(s: Seq<TreePoint>, x: int, y: int) -> bool {
    forall|i: int, j: int|
        0 <= i <= j < s.len() ==> #[trigger] dist2(s[i], x, y) <= #[trigger] dist2(s[j], x, y)
}

/// Every coordinate of every held point lies inside the world bounds,
/// so squared distances to in-bounds queries fit in an `i64`.
pub open spec fn contents_bounded(m: Multiset<TreePoint>) -> bool {
    forall|p: TreePoint|
        m.count(p) > 0 ==> 0 <= #[trigger] p.x <= MAX_EXTENT && 0 <= p.y <= MAX_EXTENT
}

/// An ephemeral nearest-neighbour index over one step's positions. It is
/// bulk-built from a snapshot, queried, and dropped; it is never mutated.
/// The r-tree inside is opaque to the verifier; what it holds is named by
/// `index_contents`, and the query wrappers are specified over that name.
#[verifier::external_body]
pub struct SpatialIndex {
    tree: rstar::RTree<rstar::primitives::GeomWithData<[i64; 2], usize>>,
}

/// The multiset of points an index holds.
pub uninterp spec fn index_contents(t: &SpatialIndex) -> Multiset<TreePoint>;

/// Relies on rstar's `RTree::bulk_load`: the tree holds exactly the
/// loaded elements, here one tagged point per snapshot entry.
#[verifier::external_body]
pub fn build_index(points: &Vec<TreePoint>) -> (t: SpatialIndex)
    ensures
        index_contents(&t) == points@.to_multiset(),
{
    let elems = points
        .iter()
        .map(|p| rstar::primitives::GeomWithData::new([p.x, p.y], p.idx))
        .collect();
    SpatialIndex { tree: rstar::RTree::bulk_load(elems) }
}

/// Relies on rstar's `RTree::nearest_neighbor_iter_with_distance_2`: all
/// elements of the tree, sorted by ascending squared distance to the
/// query point. The coordinate bounds keep rstar's own `i64` squared
/// distances from overflowing.
#[verifier::external_body]
pub fn neighbors_by_distance(t: &SpatialIndex, x: i64, y: i64) -> (r: Vec<TreePoint>)
    requires
        0 <= x <= MAX_EXTENT,
        0 <= y <= MAX_EXTENT,
        contents_bounded(index_contents(t)),
    ensures
        r@.to_multiset() == index_contents(t),
        sorted_by_dist(r@, x as int, y as int),
{
    t.tree
        .nearest_neighbor_iter_with_distance_2([x, y])
        .map(|(g, _)| TreePoint { x: g.geom()[0], y: g.geom()[1], idx: g.data })
        .collect()
}

/// Squared distance between two in-bounds positions.
pub fn dist2_exec(ax: i64, ay: i64, bx: i64, by: i64) -> (r: i64)
    requires
        0 <= ax <= MAX_EXTENT,
        0 <= ay <= MAX_EXTENT,
        0 <= bx <= MAX_EXTENT,
        0 <= by <= MAX_EXTENT,
    ensures
        r == dist2(TreePoint { x: bx, y: by, idx: 0 }, ax as int, ay as int),
        r >= 0,
{
    let dx: i64 = bx - ax;
    let dy: i64 = by - ay;
    proof {
        assert(dx * dx + dy * dy <= i64::MAX && dx * dx >= 0 && dy * dy >= 0)
            by (nonlinear_arith)
            requires
                -MAX_EXTENT <= dx <= MAX_EXTENT,
                -MAX_EXTENT <= dy <= MAX_EXTENT,
        ;
    }
    dx * dx + dy * dy
}

} // verus!
