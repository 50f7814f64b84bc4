use vstd::prelude::*;
use vstd::arithmetic::div_mod::{lemma_fundamental_div_mod, lemma_fundamental_div_mod_converse};

verus! {

/// Fixed-point scale: world coordinates, velocities, trait values and
/// energies are all stored as integer multiples of `1 / SCALE` world units.
pub const SCALE: i64 = 10_000;

/// Scale of a unit direction vector: a direction's components lie in
/// `[-DIR_SCALE, DIR_SCALE]` and stand for a vector of length about 1.
pub const DIR_SCALE: i64 = 10_000;

/// Largest world extent (in fixed-point units) the simulation accepts;
/// keeps every squared distance inside `i64`.
pub const MAX_EXTENT: i64 = 1_000_000_000;

/// Velocities are kept inside `[-VEL_MAX, VEL_MAX]` units per step.
pub const VEL_MAX: i64 = 10_000_000;

/// Largest single acceleration impulse per axis, in velocity units.
pub const IMPULSE_MAX: i64 = 1_000_000;

/// Energies are kept inside `[-ENERGY_MAX, ENERGY_MAX]`; additions
/// saturate at these bounds.
pub const ENERGY_MAX: i64 = 1_000_000_000_000_000;

/// Clamp `v` into `[-m, m]`.
pub open spec fn clamp_spec(v: int, m: int) -> int {
    if v > m {
        m
    } else if v < -m {
        -m
    } else {
        v
    }
}

/// Energy addition saturating at the energy bounds.
pub open spec fn sat_add_spec(a: int, b: int) -> int {
    clamp_spec(a + b, ENERGY_MAX as int)
}

/// Division by a positive divisor that rounds the magnitude down
/// (truncation towards zero), as the velocity and impulse computations use.
pub open spec fn mag_div_spec(v: int, d: int) -> int
    recommends
        d > 0,
{
    if v >= 0 {
        v / d
    } else {
        -((-v) / d)
    }
}

/// Exponential drag: one decay step of a velocity component.
pub open spec fn decay_spec(v: int) -> int {
    mag_div_spec(9 * v, 10)
}

/// The contribution of a direction component `d` (unit scale) at speed
/// `s` to a velocity component.
pub open spec fn impulse_spec(d: int, s: int) -> int {
    mag_div_spec(d * s, DIR_SCALE as int)
}

/// Floored modulus: maps any offset into `[0, b)`, giving the world its
/// toroidal topology.
pub fn modulus(a: i64, b: i64) -> (r: i64)
    requires
        0 < b,
        a > i64::MIN,
    ensures
        r == (a as int) % (b as int),
        0 <= r < b,
{
    if a >= 0 {
        ((a as u64) % (b as u64)) as i64
    } else {
        let m: u64 = (-a) as u64;
        let k: u64 = m % (b as u64);
        proof {
            lemma_fundamental_div_mod(m as int, b as int);
            let q = (m as int) / (b as int);
            if k == 0 {
                assert(a as int == (-q) * (b as int) + 0) by (nonlinear_arith)
                    requires
                        m as int == (b as int) * q + (k as int),
                        k == 0,
                        a as int == -(m as int),
                ;
                lemma_fundamental_div_mod_converse(a as int, b as int, -q, 0);
            } else {
                assert(a as int == (-q - 1) * (b as int) + (b as int - k as int))
                    by (nonlinear_arith)
                    requires
                        m as int == (b as int) * q + (k as int),
                        a as int == -(m as int),
                ;
                lemma_fundamental_div_mod_converse(
                    a as int,
                    b as int,
                    -q - 1,
                    b as int - k as int,
                );
            }
        }
        if k == 0 {
            0
        } else {
            b - (k as i64)
        }
    }
}

/// Integer square root, rounded down.
pub fn isqrt_u64(n: u64) -> (r: u64)
    ensures
        r * r <= n < (r + 1) * (r + 1),
        r <= 0x1_0000_0000u64,
{
    let mut lo: u64 = 0;
    let mut hi: u64 = 0x1_0000_0000;
    proof {
        assert((0x1_0000_0000u64 as int) * (0x1_0000_0000u64 as int) > n as int) by (nonlinear_arith)
            requires
                n <= u64::MAX,
        ;
    }
    while hi - lo > 1
        invariant
            lo < hi <= 0x1_0000_0000u64,
            lo * lo <= n,
            hi * hi > n,
        decreases hi - lo,
    {
        let mid: u64 = lo + (hi - lo) / 2;
        proof {
            assert((mid as u128) * (mid as u128) <= u128::MAX) by (nonlinear_arith)
                requires
                    mid <= 0x1_0000_0000u64,
            ;
        }
        if ((mid as u128) * (mid as u128)) <= (n as u128) {
            lo = mid;
        } else {
            hi = mid;
        }
    }
    lo
}

/// A direction of roughly unit scale: components inside
/// `[-DIR_SCALE, DIR_SCALE]` and a squared length of at least half the
/// scale squared (the rounding of the integer normalization can cost up
/// to half the scale, never more).
pub open spec fn unit_dir_spec(d: (int, int)) -> bool {
    &&& -DIR_SCALE <= d.0 <= DIR_SCALE
    &&& -DIR_SCALE <= d.1 <= DIR_SCALE
    &&& d.0 * d.0 + d.1 * d.1 >= 5_000 * 5_000
}

/// Scales `(dx, dy)` to a vector of length about `DIR_SCALE`, preserving
/// the direction. A zero input has no direction: the unit vector along
/// the x axis is returned instead, so that the caller always gets a
/// usable direction (the guard the degenerate-normalization edge needs).
pub fn normalize_dir(dx: i64, dy: i64) -> (r: (i64, i64))
    requires
        -2 * MAX_EXTENT <= dx <= 2 * MAX_EXTENT,
        -2 * MAX_EXTENT <= dy <= 2 * MAX_EXTENT,
    ensures
        unit_dir_spec((r.0 as int, r.1 as int)),
        dx > 0 ==> r.0 >= 0,
        dx < 0 ==> r.0 <= 0,
        dy > 0 ==> r.1 >= 0,
        dy < 0 ==> r.1 <= 0,
        dx == 0 && dy == 0 ==> r == (DIR_SCALE, 0i64),
{
    if dx == 0 && dy == 0 {
        proof {
            assert((DIR_SCALE as int) * (DIR_SCALE as int) + 0 * 0 >= 5_000 * 5_000)
                by (nonlinear_arith)
                requires
                    DIR_SCALE == 10_000,
            ;
        }
        return (DIR_SCALE, 0);
    }
    let ax: u64 = if dx >= 0 {
        dx as u64
    } else {
        (-dx) as u64
    };
    let ay: u64 = if dy >= 0 {
        dy as u64
    } else {
        (-dy) as u64
    };
    proof {
        assert(ax * ax + ay * ay <= u64::MAX && ax * ax + ay * ay > 0) by (nonlinear_arith)
            requires
                ax <= 2 * MAX_EXTENT,
                ay <= 2 * MAX_EXTENT,
                ax > 0 || ay > 0,
        ;
    }
    let n: u64 = ax * ax + ay * ay;
    let len: u64 = isqrt_u64(n);
    proof {
        assert(len > 0) by (nonlinear_arith)
            requires
                n > 0,
                n < (len + 1) * (len + 1),
        ;
    }
    proof {
        assert(ax <= len && ay <= len) by (nonlinear_arith)
            requires
                len * len <= n < (len + 1) * (len + 1),
                n == ax * ax + ay * ay,
        ;
    }
    let sx: u64 = ax * (DIR_SCALE as u64) / len;
    let sy: u64 = ay * (DIR_SCALE as u64) / len;
    proof {
        assert(sx <= DIR_SCALE && sy <= DIR_SCALE) by (nonlinear_arith)
            requires
                len > 0,
                ax <= len,
                ay <= len,
                sx as int == (ax as int) * (DIR_SCALE as int) / (len as int),
                sy as int == (ay as int) * (DIR_SCALE as int) / (len as int),
        ;
    }
    let rx: i64 = if dx >= 0 {
        sx as i64
    } else {
        -(sx as i64)
    };
    let ry: i64 = if dy >= 0 {
        sy as i64
    } else {
        -(sy as i64)
    };
    proof {
        let mm: int = if ax >= ay {
            ax as int
        } else {
            ay as int
        };
        assert(n as int <= 2 * mm * mm) by (nonlinear_arith)
            requires
                n as int == (ax as int) * (ax as int) + (ay as int) * (ay as int),
                mm >= ax as int,
                mm >= ay as int,
                ax as int >= 0,
                ay as int >= 0,
        ;
        assert(len as int <= 2 * mm) by (nonlinear_arith)
            requires
                (len as int) * (len as int) <= n as int,
                n as int <= 2 * mm * mm,
                mm >= 0,
                len as int >= 0,
        ;
        let prod: int = mm * 10_000;
        lemma_fundamental_div_mod(prod, len as int);
        let q: int = prod / (len as int);
        let rr: int = prod % (len as int);
        assert(q >= 5_000) by (nonlinear_arith)
            requires
                prod == (len as int) * q + rr,
                0 <= rr < len as int,
                len as int <= 2 * mm,
                len as int >= 1,
                mm >= 1,
                prod == mm * 10_000,
        ;
        if ax >= ay {
            assert(sx as int == q);
            assert((rx as int) * (rx as int) + (ry as int) * (ry as int) >= 5_000 * 5_000)
                by (nonlinear_arith)
                requires
                    rx as int == sx as int || rx as int == -(sx as int),
                    sx as int >= 5_000,
            ;
        } else {
            assert(sy as int == q);
            assert((rx as int) * (rx as int) + (ry as int) * (ry as int) >= 5_000 * 5_000)
                by (nonlinear_arith)
                requires
                    ry as int == sy as int || ry as int == -(sy as int),
                    sy as int >= 5_000,
            ;
        }
    }
    (rx, ry)
}

/// A unit direction from one in-bounds position towards another. A
/// small fixed offset (one fixed-point unit per axis) is added before
/// normalizing, so a target coincident with the source still yields a
/// usable direction. The result points along the offset vector
/// `(px - sx + 1, py - sy + 1)`, axis sign by axis sign.
pub fn normalize_toward(sx: i64, sy: i64, px: i64, py: i64) -> (r: (i64, i64))
    requires
        0 <= sx <= MAX_EXTENT,
        0 <= sy <= MAX_EXTENT,
        0 <= px <= MAX_EXTENT,
        0 <= py <= MAX_EXTENT,
    ensures
        unit_dir_spec((r.0 as int, r.1 as int)),
        px - sx + 1 > 0 ==> r.0 >= 0,
        px - sx + 1 < 0 ==> r.0 <= 0,
        py - sy + 1 > 0 ==> r.1 >= 0,
        py - sy + 1 < 0 ==> r.1 <= 0,
{
    normalize_dir(px - sx + 1, py - sy + 1)
}

/// Clamp a velocity component into the velocity bounds.
pub fn clamp_vel(v: i64) -> (r: i64)
    ensures
        r == clamp_spec(v as int, VEL_MAX as int),
{
    if v > VEL_MAX {
        VEL_MAX
    } else if v < -VEL_MAX {
        -VEL_MAX
    } else {
        v
    }
}

/// Saturating energy addition.
pub fn sat_add_energy(a: i64, b: i64) -> (r: i64)
    requires
        -ENERGY_MAX <= a <= ENERGY_MAX,
        -4 * ENERGY_MAX <= b <= 4 * ENERGY_MAX,
    ensures
        r == sat_add_spec(a as int, b as int),
{
    let s: i64 = a + b;
    if s > ENERGY_MAX {
        ENERGY_MAX
    } else if s < -ENERGY_MAX {
        -ENERGY_MAX
    } else {
        s
    }
}

/// One drag step of a velocity component: multiply by 0.9, rounding the
/// magnitude down.
pub fn decay_vel(v: i64) -> (r: i64)
    requires
        -VEL_MAX <= v <= VEL_MAX,
    ensures
        r == decay_spec(v as int),
        -VEL_MAX <= r <= VEL_MAX,
{
    if v >= 0 {
        let d: u64 = (9 * (v as u64)) / 10;
        proof {
            assert(9 * (v as int) / 10 <= v as int);
        }
        d as i64
    } else {
        let m: u64 = (-v) as u64;
        let d: u64 = (9 * m) / 10;
        proof {
            assert(9 * (m as int) / 10 <= m as int);
        }
        -(d as i64)
    }
}

/// The impulse a direction component contributes at a given speed.
pub fn impulse(d: i64, speed: i64) -> (r: i64)
    requires
        -DIR_SCALE <= d <= DIR_SCALE,
        0 <= speed <= IMPULSE_MAX,
    ensures
        r == impulse_spec(d as int, speed as int),
        -IMPULSE_MAX <= r <= IMPULSE_MAX,
{
    let m: u64 = if d >= 0 {
        d as u64
    } else {
        (-d) as u64
    };
    proof {
        assert(m * (speed as u64) <= u64::MAX) by (nonlinear_arith)
            requires
                m <= DIR_SCALE,
                0 <= speed <= IMPULSE_MAX,
        ;
    }
    let p: u64 = m * (speed as u64) / (DIR_SCALE as u64);
    proof {
        assert((m as int) * (speed as int) / (DIR_SCALE as int) <= IMPULSE_MAX as int)
            by (nonlinear_arith)
            requires
                0 <= m <= DIR_SCALE,
                0 <= speed <= IMPULSE_MAX,
        ;
    }
    proof {
        assert((m as int) * (speed as int) == if d >= 0 {
            (d as int) * (speed as int)
        } else {
            -((d as int) * (speed as int))
        }) by (nonlinear_arith)
            requires
                m as int == if d >= 0 {
                    d as int
                } else {
                    -(d as int)
                },
        ;
    }
    if d >= 0 {
        p as i64
    } else {
        -(p as i64)
    }
}

} // verus!
