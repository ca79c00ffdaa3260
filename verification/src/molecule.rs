use vstd::prelude::*;

verus! {

use crate::SimError;
use crate::sample::{fresh_rng, sample_range};

/// Magnitude cap on container dimensions, the wall coordinate, radii and
/// configured velocity ranges (2^30). A machine limit: it keeps every
/// intermediate product of the engine inside `i128`.
pub const MAX_DIM: i64 = 0x4000_0000;

/// Magnitude cap on particle velocities (2^43), maintained by the engine:
/// sampled velocities stay below `MAX_DIM` and a collision exchange inside
/// the `ADJUST_LIMIT` envelope cannot push a component past this bound.
pub const MAX_VEL: i64 = 0x800_0000_0000;

/// Magnitude cap on particle positions (2^61). Positions are saturated here
/// by `move_mol`; the bound is far beyond any container the engine accepts.
pub const MAX_POS: i64 = 0x2000_0000_0000_0000;

/// Envelope within which the collision velocity exchange is applied (2^40).
/// A pair with a coordinate or velocity component beyond it is left alone
/// for that step; a machine limit, unreachable from sane configurations.
pub const ADJUST_LIMIT: i64 = 0x100_0000_0000;

/// Slack added to the squared contact distance, so that contact triggers
/// slightly before exact geometric tangency.
pub const CONTACT_SLACK: i64 = 5;

/// A circular particle: position, per-step velocity, and a fixed radius.
#[derive(Clone, Copy, Debug, PartialEq)]
pub struct Molecule {
    pub x: i64,
    pub y: i64,
    pub dx: i64,
    pub dy: i64,
    pub radius: i64,
}

/// The half-open ranges that new particles are sampled from.
#[derive(Clone, Copy, Debug, PartialEq)]
pub struct MoleculeConfig {
    pub dx_min: i64,
    pub dx_max: i64,
    pub dy_min: i64,
    pub dy_max: i64,
    pub radius_min: i64,
    pub radius_max: i64,
}

/// The square of an integer.
pub open spec fn sq(v: int) -> int {
    v * v
}

/// Division that truncates toward zero, as the `/` of the target machine
/// does; the divisor is expected to be positive.
pub open spec fn trunc_div(n: int, d: int) -> int
    recommends
        d > 0,
{
    if n >= 0 {
        n / d
    } else {
        -((-n) / d)
    }
}

impl MoleculeConfig {
    /// Every range must be non-empty (`min < max`), the radius range
    /// positive, and all bounds within the machine limit `MAX_DIM`.
    pub open spec fn wf(self) -> bool {
        &&& -MAX_DIM <= self.dx_min < self.dx_max <= MAX_DIM
        &&& -MAX_DIM <= self.dy_min < self.dy_max <= MAX_DIM
        &&& 0 < self.radius_min < self.radius_max <= MAX_DIM
    }

    /// Symmetric velocity ranges `[-dx, dx)` and `[-dy, dy)` with the given
    /// radius range.
    pub fn new(dx: i64, dy: i64, min_radius: i64, max_radius: i64) -> (c: MoleculeConfig)
        requires
            -MAX_DIM <= dx <= MAX_DIM,
            -MAX_DIM <= dy <= MAX_DIM,
        ensures
            c == (MoleculeConfig {
                dx_min: -dx as i64,
                dx_max: dx,
                dy_min: -dy as i64,
                dy_max: dy,
                radius_min: min_radius,
                radius_max: max_radius,
            }),
    {
        MoleculeConfig {
            dx_min: -dx,
            dx_max: dx,
            dy_min: -dy,
            dy_max: dy,
            radius_min: min_radius,
            radius_max: max_radius,
        }
    }

    /// The stock configuration: speeds in `[-4, 4)`, radii in `[5, 10)`.
    pub fn default() -> (c: MoleculeConfig)
        ensures
            c == (MoleculeConfig {
                dx_min: -4i64,
                dx_max: 4i64,
                dy_min: -4i64,
                dy_max: 4i64,
                radius_min: 5i64,
                radius_max: 10i64,
            }),
            c.wf(),
    {
        MoleculeConfig {
            dx_min: -4,
            dx_max: 4,
            dy_min: -4,
            dy_max: 4,
            radius_min: 5,
            radius_max: 10,
        }
    }
}

/// The velocity change applied to the first particle of a colliding pair.
///
/// It is the directional impulse `(ddx + ddy * r) / (1 + r * r)` with
/// `r = (b.y - a.y) / (b.x - a.x)`, written over a common denominator so
/// that a single division, truncating as the machine's does, is performed:
/// `(ddx * Dx^2 + ddy * Dy * Dx) / (Dx^2 + Dy^2)`. When the centers share
/// their x coordinate the horizontal component is zero.
pub open spec fn delta_vx(a: Molecule, b: Molecule) -> int {
    if b.x == a.x {
        0
    } else {
        trunc_div(
            (b.dx - a.dx) * sq(b.x - a.x) + (b.dy - a.dy) * ((b.y - a.y) * (b.x - a.x)),
            sq(b.x - a.x) + sq(b.y - a.y),
        )
    }
}

/// The vertical counterpart of `delta_vx`: `r * delta_vx` over the same
/// common denominator. When the centers share their x coordinate, the
/// exchange degenerates to the vertical center distance.
pub open spec fn delta_vy(a: Molecule, b: Molecule) -> int {
    if b.x == a.x {
        b.y - a.y
    } else {
        trunc_div(
            (b.dx - a.dx) * ((b.x - a.x) * (b.y - a.y)) + (b.dy - a.dy) * sq(b.y - a.y),
            sq(b.x - a.x) + sq(b.y - a.y),
        )
    }
}

/// Law: the collision exchange is symmetric in its two arguments. Computed
/// with the particles in either order the velocity deltas negate exactly,
/// and since the second particle receives the delta with opposite sign,
/// running the exchange from the same state with the roles swapped yields
/// the same pair of velocities.
pub proof fn lemma_adjust_symmetric(a: Molecule, b: Molecule)
    ensures
        delta_vx(b, a) == -delta_vx(a, b),
        delta_vy(b, a) == -delta_vy(a, b),
{
    if b.x != a.x {
        let numx: int = (b.dx - a.dx) * sq(b.x - a.x) + (b.dy - a.dy) * ((b.y - a.y) * (b.x
            - a.x));
        let numy: int = (b.dx - a.dx) * ((b.x - a.x) * (b.y - a.y)) + (b.dy - a.dy) * sq(b.y
            - a.y);
        let den: int = sq(b.x - a.x) + sq(b.y - a.y);
        assert(sq(a.x - b.x) == sq(b.x - a.x) && sq(a.y - b.y) == sq(b.y - a.y))
            by (nonlinear_arith);
        assert((a.dx - b.dx) * sq(a.x - b.x) + (a.dy - b.dy) * ((a.y - b.y) * (a.x - b.x)) == -((
        b.dx - a.dx) * sq(b.x - a.x) + (b.dy - a.dy) * ((b.y - a.y) * (b.x - a.x))))
            by (nonlinear_arith);
        assert((a.dx - b.dx) * ((a.x - b.x) * (a.y - b.y)) + (a.dy - b.dy) * sq(a.y - b.y) == -((
        b.dx - a.dx) * ((b.x - a.x) * (b.y - a.y)) + (b.dy - a.dy) * sq(b.y - a.y)))
            by (nonlinear_arith);
        assert(den > 0) by (nonlinear_arith)
            requires
                b.x != a.x,
                den == sq(b.x - a.x) + sq(b.y - a.y),
        ;
        lemma_trunc_div_neg(numx, den);
        lemma_trunc_div_neg(numy, den);
    }
}

/// Law: after a reflection pass whose band and height leave room for the
/// particle's diameter, the center lies inside the legal region on both
/// axes — whatever position it started from.
pub proof fn lemma_reflected_in_bounds(m: Molecule, l_side: int, r_side: int, height: int)
    requires
        m.valid(),
        -MAX_DIM <= l_side <= MAX_DIM,
        -MAX_DIM <= r_side <= MAX_DIM,
        -MAX_DIM <= height <= MAX_DIM,
        l_side + 2 * m.radius <= r_side,
        2 * m.radius <= height,
    ensures
        l_side + m.radius <= reflected(m, l_side, r_side, height).x <= r_side - m.radius,
        m.radius <= reflected(m, l_side, r_side, height).y <= height - m.radius,
{
}

/// A square is non-negative and grows with the magnitude of its root.
pub proof fn lemma_sq_bound(v: int, b: int)
    by (nonlinear_arith)
    requires
        -b <= v <= b,
    ensures
        0 <= sq(v) <= sq(b),
{
}

/// A product is bounded by the product of the factors' bounds.
pub proof fn lemma_mul_bound(a: int, b: int, ba: int, bb: int)
    by (nonlinear_arith)
    requires
        -ba <= a <= ba,
        -bb <= b <= bb,
    ensures
        -(ba * bb) <= a * b <= ba * bb,
{
}

/// Truncating division by a positive divisor stays within any bound that
/// covers the numerator `k` times over.
pub proof fn lemma_trunc_div_bound(n: int, d: int, k: int)
    by (nonlinear_arith)
    requires
        d > 0,
        k >= 0,
        -(k * d) <= n <= k * d,
    ensures
        -k <= trunc_div(n, d) <= k,
{
    if n >= 0 {
        vstd::arithmetic::div_mod::lemma_div_is_ordered(n, k * d, d);
        vstd::arithmetic::div_mod::lemma_div_multiples_vanish(k, d);
        vstd::arithmetic::div_mod::lemma_div_pos_is_pos(n, d);
    } else {
        vstd::arithmetic::div_mod::lemma_div_is_ordered(-n, k * d, d);
        vstd::arithmetic::div_mod::lemma_div_multiples_vanish(k, d);
        vstd::arithmetic::div_mod::lemma_div_pos_is_pos(-n, d);
    }
}

/// Negating the numerator negates a truncating division.
pub proof fn lemma_trunc_div_neg(n: int, d: int)
    requires
        d > 0,
    ensures
        trunc_div(-n, d) == -trunc_div(n, d),
{
}

/// Both collision numerators are covered twice over by the denominator
/// `Dx^2 + Dy^2` scaled with the velocity-difference cap: the mixed product
/// `|Dy * Dx|` never exceeds the sum of the squares. The cap `2^41` is what
/// two velocities inside the adjustment envelope can differ by.
pub proof fn lemma_collision_numerator_bound(ddx: int, ddy: int, dxx: int, dyy: int)
    by (nonlinear_arith)
    requires
        -0x200_0000_0000 <= ddx <= 0x200_0000_0000,
        -0x200_0000_0000 <= ddy <= 0x200_0000_0000,
    ensures
        -(0x400_0000_0000 * (sq(dxx) + sq(dyy))) <= ddx * sq(dxx) + ddy * (dyy * dxx)
            <= 0x400_0000_0000 * (sq(dxx) + sq(dyy)),
        -(0x400_0000_0000 * (sq(dxx) + sq(dyy))) <= ddx * (dxx * dyy) + ddy * sq(dyy)
            <= 0x400_0000_0000 * (sq(dxx) + sq(dyy)),
{
    assert(sq(dxx - dyy) >= 0 && sq(dxx + dyy) >= 0);
    assert(-(sq(dxx) + sq(dyy)) <= dyy * dxx <= sq(dxx) + sq(dyy));
}

/// `lemma_trunc_div_bound` at the cap used by the collision exchange.
pub proof fn lemma_delta_div_bound(n: int, d: int)
    requires
        d > 0,
        -(0x400_0000_0000 * d) <= n <= 0x400_0000_0000 * d,
    ensures
        -0x400_0000_0000 <= trunc_div(n, d) <= 0x400_0000_0000,
{
    lemma_trunc_div_bound(n, d, 0x400_0000_0000);
}

/// The validation verdict of the particle factory: an invalid configuration
/// is reported first, then a band or height too narrow for twice the
/// largest configured radius.
pub open spec fn factory_error(
    height: int,
    xmin: int,
    xmax: int,
    conf: MoleculeConfig,
) -> Option<SimError> {
    if !conf.wf() {
        Some(SimError::InvalidConfig)
    } else if xmax - xmin <= 2 * conf.radius_max || height <= 2 * conf.radius_max {
        Some(SimError::InvalidRegion)
    } else {
        None
    }
}

/// What the factory promises of each particle it makes: every attribute
/// lies in its configured half-open range and the center leaves room for
/// the radius on all four sides.
pub open spec fn sampled_from(
    m: Molecule,
    height: int,
    xmin: int,
    xmax: int,
    conf: MoleculeConfig,
) -> bool {
    &&& conf.radius_min <= m.radius < conf.radius_max
    &&& xmin + m.radius <= m.x < xmax - m.radius
    &&& m.radius <= m.y < height - m.radius
    &&& conf.dx_min <= m.dx < conf.dx_max
    &&& conf.dy_min <= m.dy < conf.dy_max
}

/// Whether two particles are in contact: squared center distance within the
/// squared radius sum plus `CONTACT_SLACK`.
pub open spec fn touching(a: Molecule, b: Molecule) -> bool {
    sq(a.x - b.x) + sq(a.y - b.y) <= sq(a.radius + b.radius) + CONTACT_SLACK
}

/// The particle after one boundary-reflection pass against the band
/// `[l_side, r_side]` and the heights `[0, height]`: a crossed bound clamps
/// the center to the legal edge and negates that velocity component. Both
/// axes are corrected independently.
pub open spec fn reflected(m: Molecule, l_side: int, r_side: int, height: int) -> Molecule {
    let (x2, dx2): (int, int) = if m.x <= l_side + m.radius {
        (l_side + m.radius, -m.dx)
    } else if m.x + m.radius >= r_side {
        (r_side - m.radius, -m.dx)
    } else {
        (m.x as int, m.dx as int)
    };
    let (y2, dy2): (int, int) = if m.y + m.radius >= height {
        (height - m.radius, -m.dy)
    } else if m.y <= m.radius {
        (m.radius as int, -m.dy)
    } else {
        (m.y as int, m.dy as int)
    };
    Molecule { x: x2 as i64, y: y2 as i64, dx: dx2 as i64, dy: dy2 as i64, radius: m.radius }
}

/// A coordinate saturated at the position cap.
pub open spec fn clamp_pos(v: int) -> int {
    if v > MAX_POS {
        MAX_POS as int
    } else if v < -MAX_POS {
        -MAX_POS as int
    } else {
        v
    }
}

/// The particle after one integration step: the velocity added to the
/// position, saturated at the (astronomical) position cap.
pub open spec fn advanced(m: Molecule) -> Molecule {
    Molecule {
        x: clamp_pos(m.x + m.dx) as i64,
        y: clamp_pos(m.y + m.dy) as i64,
        dx: m.dx,
        dy: m.dy,
        radius: m.radius,
    }
}

/// The factory's validation, runnable ahead of any sampling.
pub(crate) fn region_verdict(height: i64, xmin: i64, xmax: i64, conf: &MoleculeConfig) -> (v:
    Option<SimError>)
    requires
        -MAX_DIM <= xmin <= MAX_DIM,
        -MAX_DIM <= xmax <= MAX_DIM,
        -MAX_DIM <= height <= MAX_DIM,
    ensures
        v == factory_error(height as int, xmin as int, xmax as int, *conf),
{
    if !(conf.dx_min < conf.dx_max && conf.dy_min < conf.dy_max && 0 < conf.radius_min
        && conf.radius_min < conf.radius_max && -MAX_DIM <= conf.dx_min && conf.dx_max <= MAX_DIM
        && -MAX_DIM <= conf.dy_min && conf.dy_max <= MAX_DIM && conf.radius_max <= MAX_DIM) {
        Some(SimError::InvalidConfig)
    } else if xmax - xmin <= 2 * conf.radius_max || height <= 2 * conf.radius_max {
        Some(SimError::InvalidRegion)
    } else {
        None
    }
}

/// Division of machine integers that truncates toward zero, carried out on
/// magnitudes so that only unsigned machine division is needed.
fn div_trunc(n: i128, d: i128) -> (q: i128)
    requires
        0 < d <= 0x4000_0000_0000_0000_0000_0000_0000_0000,
        -0x4000_0000_0000_0000_0000_0000_0000_0000 <= n
            <= 0x4000_0000_0000_0000_0000_0000_0000_0000,
    ensures
        q == trunc_div(n as int, d as int),
{
    if n >= 0 {
        let qa: u128 = (n as u128) / (d as u128);
        proof {
            vstd::arithmetic::div_mod::lemma_div_is_ordered(0, n as int, d as int);
            vstd::arithmetic::div_mod::lemma_div_nonincreasing(n as int, d as int);
        }
        qa as i128
    } else {
        let qa: u128 = ((-n) as u128) / (d as u128);
        proof {
            vstd::arithmetic::div_mod::lemma_div_is_ordered(0, -n as int, d as int);
            vstd::arithmetic::div_mod::lemma_div_nonincreasing(-n as int, d as int);
        }
        -(qa as i128)
    }
}

impl Molecule {
    /// Positions within `MAX_POS`, velocities within `MAX_VEL`, a positive
    /// radius within `MAX_DIM`: the envelope every engine operation keeps.
    pub open spec fn valid(self) -> bool {
        &&& -MAX_POS <= self.x <= MAX_POS
        &&& -MAX_POS <= self.y <= MAX_POS
        &&& -MAX_VEL <= self.dx <= MAX_VEL
        &&& -MAX_VEL <= self.dy <= MAX_VEL
        &&& 0 < self.radius <= MAX_DIM
    }

    /// Whether every coordinate and velocity component is small enough for
    /// the collision exchange arithmetic.
    pub open spec fn within_adjust_limit(self) -> bool {
        &&& -ADJUST_LIMIT <= self.x <= ADJUST_LIMIT
        &&& -ADJUST_LIMIT <= self.y <= ADJUST_LIMIT
        &&& -ADJUST_LIMIT <= self.dx <= ADJUST_LIMIT
        &&& -ADJUST_LIMIT <= self.dy <= ADJUST_LIMIT
    }

    /// Runtime form of the adjustment envelope.
    pub fn fits_adjust_limit(&self) -> (r: bool)
        ensures
            r == self.within_adjust_limit(),
    {
        -ADJUST_LIMIT <= self.x && self.x <= ADJUST_LIMIT && -ADJUST_LIMIT <= self.y && self.y
            <= ADJUST_LIMIT && -ADJUST_LIMIT <= self.dx && self.dx <= ADJUST_LIMIT
            && -ADJUST_LIMIT <= self.dy && self.dy <= ADJUST_LIMIT
    }

    pub fn new(x: i64, y: i64, dx: i64, dy: i64, radius: i64) -> (m: Molecule)
        ensures
            m == (Molecule { x, y, dx, dy, radius }),
    {
        Molecule { x, y, dx, dy, radius }
    }

    /// Contact test with the fixed slack.
    pub fn is_mols_touching(&self, mol: &Molecule) -> (r: bool)
        requires
            self.valid(),
            mol.valid(),
        ensures
            r == touching(*self, *mol),
    {
        let ddx: i64 = self.x - mol.x;
        let ddy: i64 = self.y - mol.y;
        let sum_radius: i64 = self.radius + mol.radius;
        proof {
            lemma_sq_bound(ddx as int, 0x4000_0000_0000_0000);
            lemma_sq_bound(ddy as int, 0x4000_0000_0000_0000);
            lemma_sq_bound(sum_radius as int, 0x4000_0000_0000_0000);
            assert(sq(0x4000_0000_0000_0000) == 0x1000_0000_0000_0000_0000_0000_0000_0000int);
        }
        let square_distance: i128 = (ddx as i128) * (ddx as i128) + (ddy as i128) * (ddy as i128);
        let square_reach: i128 = (sum_radius as i128) * (sum_radius as i128)
            + (CONTACT_SLACK as i128);
        square_distance <= square_reach
    }

    /// The simplified elastic response: a directional impulse exchange
    /// between two equal, unit-mass particles. Both velocities change in
    /// place; positions and radii do not. The envelope precondition is the
    /// machine limit under which the exchange arithmetic cannot overflow;
    /// the collision pass checks it before calling.
    pub fn adjust_dir_after_collision(&mut self, mol: &mut Molecule)
        requires
            old(self).valid(),
            old(mol).valid(),
            old(self).within_adjust_limit(),
            old(mol).within_adjust_limit(),
        ensures
            final(self).x == old(self).x,
            final(self).y == old(self).y,
            final(self).radius == old(self).radius,
            final(mol).x == old(mol).x,
            final(mol).y == old(mol).y,
            final(mol).radius == old(mol).radius,
            final(self).dx == old(self).dx + delta_vx(*old(self), *old(mol)),
            final(self).dy == old(self).dy + delta_vy(*old(self), *old(mol)),
            final(mol).dx == old(mol).dx - delta_vx(*old(self), *old(mol)),
            final(mol).dy == old(mol).dy - delta_vy(*old(self), *old(mol)),
            final(self).valid(),
            final(mol).valid(),
    {
        let delta_x: i64 = mol.x - self.x;
        let mut dvx: i64 = 0;
        let dvy: i64;
        if delta_x == 0 {
            dvy = mol.y - self.y;
        } else {
            let dxx: i128 = delta_x as i128;
            let dyy: i128 = (mol.y - self.y) as i128;
            let ddx: i128 = (mol.dx - self.dx) as i128;
            let ddy: i128 = (mol.dy - self.dy) as i128;
            proof {
                lemma_sq_bound(dxx as int, 0x200_0000_0000);
                lemma_sq_bound(dyy as int, 0x200_0000_0000);
                assert(sq(0x200_0000_0000) == 0x4_0000_0000_0000_0000_0000int);
                lemma_mul_bound(ddx as int, sq(dxx as int), 0x200_0000_0000, sq(0x200_0000_0000));
                lemma_mul_bound(dyy as int, dxx as int, 0x200_0000_0000, 0x200_0000_0000);
                lemma_mul_bound(dxx as int, dyy as int, 0x200_0000_0000, 0x200_0000_0000);
                lemma_mul_bound(
                    ddy as int,
                    (dyy as int) * (dxx as int),
                    0x200_0000_0000,
                    sq(0x200_0000_0000),
                );
                lemma_mul_bound(
                    ddx as int,
                    (dxx as int) * (dyy as int),
                    0x200_0000_0000,
                    sq(0x200_0000_0000),
                );
                lemma_mul_bound(ddy as int, sq(dyy as int), 0x200_0000_0000, sq(0x200_0000_0000));
            }
            let den: i128 = dxx * dxx + dyy * dyy;
            let numx: i128 = ddx * (dxx * dxx) + ddy * (dyy * dxx);
            let numy: i128 = ddx * (dxx * dyy) + ddy * (dyy * dyy);
            proof {
                assert(sq(dxx as int) >= 1) by (nonlinear_arith)
                    requires
                        dxx != 0,
                ;
                lemma_collision_numerator_bound(ddx as int, ddy as int, dxx as int, dyy as int);
                assert(den as int == sq(dxx as int) + sq(dyy as int));
                assert(numx as int == (ddx as int) * sq(dxx as int) + (ddy as int) * ((dyy as int)
                    * (dxx as int)));
                assert(numy as int == (ddx as int) * ((dxx as int) * (dyy as int)) + (ddy as int)
                    * sq(dyy as int));
                lemma_delta_div_bound(numx as int, den as int);
                lemma_delta_div_bound(numy as int, den as int);
            }
            let qx: i128 = div_trunc(numx, den);
            let qy: i128 = div_trunc(numy, den);
            dvx = qx as i64;
            dvy = qy as i64;
        }
        self.dx = self.dx + dvx;
        self.dy = self.dy + dvy;
        mol.dx = mol.dx - dvx;
        mol.dy = mol.dy - dvy;
    }

    /// A population of `nb_mol` particles sampled independently from the
    /// configured ranges, each placed inside the band `[xmin, xmax]` and
    /// the heights `[0, height]` with room for its radius. The band and the
    /// height must leave room for twice the largest configured radius;
    /// otherwise nothing is sampled and the region is reported invalid.
    pub fn create_vec_mol(
        height: i64,
        xmin: i64,
        xmax: i64,
        nb_mol: usize,
        conf: &MoleculeConfig,
    ) -> (r: Result<Vec<Molecule>, SimError>)
        requires
            -MAX_DIM <= xmin <= MAX_DIM,
            -MAX_DIM <= xmax <= MAX_DIM,
            -MAX_DIM <= height <= MAX_DIM,
        ensures
            match r {
                Ok(v) => {
                    &&& factory_error(height as int, xmin as int, xmax as int, *conf) is None
                    &&& v@.len() == nb_mol
                    &&& forall|i: int|
                        0 <= i < v@.len() ==> sampled_from(
                            #[trigger] v@[i],
                            height as int,
                            xmin as int,
                            xmax as int,
                            *conf,
                        ) && v@[i].valid()
                },
                Err(e) => factory_error(height as int, xmin as int, xmax as int, *conf) == Some(
                    e,
                ),
            },
    {
        match region_verdict(height, xmin, xmax, conf) {
            Some(e) => {
                return Err(e);
            },
            None => {},
        }
        let mut rng = fresh_rng();
        let mut vec_mols: Vec<Molecule> = Vec::new();
        for n in 0..nb_mol
            invariant
                vec_mols@.len() == n,
                forall|i: int|
                    0 <= i < vec_mols@.len() ==> sampled_from(
                        #[trigger] vec_mols@[i],
                        height as int,
                        xmin as int,
                        xmax as int,
                        *conf,
                    ) && vec_mols@[i].valid(),
                conf.wf(),
                xmax - xmin > 2 * conf.radius_max,
                height > 2 * conf.radius_max,
                -MAX_DIM <= xmin <= MAX_DIM,
                -MAX_DIM <= xmax <= MAX_DIM,
                -MAX_DIM <= height <= MAX_DIM,
        {
            let radius = sample_range(&mut rng, conf.radius_min, conf.radius_max);
            let x = sample_range(&mut rng, xmin + radius, xmax - radius);
            let y = sample_range(&mut rng, radius, height - radius);
            let dx = sample_range(&mut rng, conf.dx_min, conf.dx_max);
            let dy = sample_range(&mut rng, conf.dy_min, conf.dy_max);
            let mol = Molecule::new(x, y, dx, dy, radius);
            vec_mols.push(mol);
        }
        Ok(vec_mols)
    }

    /// One integration step: `x += dx; y += dy`, saturated at `MAX_POS`.
    pub fn move_mol(&mut self)
        requires
            old(self).valid(),
        ensures
            *final(self) == advanced(*old(self)),
            final(self).valid(),
    {
        let nx: i64 = self.x + self.dx;
        let ny: i64 = self.y + self.dy;
        self.x = if nx > MAX_POS {
            MAX_POS
        } else if nx < -MAX_POS {
            -MAX_POS
        } else {
            nx
        };
        self.y = if ny > MAX_POS {
            MAX_POS
        } else if ny < -MAX_POS {
            -MAX_POS
        } else {
            ny
        };
    }

    /// One boundary-reflection pass. Both axes are checked unconditionally;
    /// when the band and the height leave room for the particle's diameter,
    /// the center ends inside the legal region (the in-bounds invariant).
    pub fn inverse_dir(&mut self, l_side: i64, r_side: i64, height: i64)
        requires
            old(self).valid(),
            -MAX_DIM <= l_side <= MAX_DIM,
            -MAX_DIM <= r_side <= MAX_DIM,
            -MAX_DIM <= height <= MAX_DIM,
        ensures
            *final(self) == reflected(*old(self), l_side as int, r_side as int, height as int),
            final(self).valid(),
            l_side + 2 * old(self).radius <= r_side ==> l_side + old(self).radius
                <= final(self).x <= r_side - old(self).radius,
            2 * old(self).radius <= height ==> old(self).radius <= final(self).y <= height
                - old(self).radius,
    {
        if self.x <= l_side + self.radius {
            self.x = l_side + self.radius;
            self.dx = -self.dx;
        } else if self.x + self.radius >= r_side {
            self.x = r_side - self.radius;
            self.dx = -self.dx;
        }
        if self.y + self.radius >= height {
            self.y = height - self.radius;
            self.dy = -self.dy;
        } else if self.y <= self.radius {
            self.y = self.radius;
            self.dy = -self.dy;
        }
    }
}

} // verus!
