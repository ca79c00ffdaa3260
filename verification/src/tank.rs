use vstd::prelude::*;

verus! {

use crate::SimError;
use crate::molecule::{
    Molecule, MoleculeConfig, advanced, delta_vx, delta_vy, factory_error, region_verdict,
    reflected, sampled_from, touching, MAX_DIM,
};

/// Steps a freshly triggered pair stays immune to re-triggering while it
/// remains in contact: the debounce that keeps a geometrically overlapping
/// pair from exchanging velocities on every step.
pub const COLLISION_COOLDOWN: u8 = 5;

/// Largest supported population of one partition; a machine limit that
/// keeps the triangular cooldown table's size arithmetic inside `usize`.
pub const MAX_POPULATION: usize = 0x10000;

/// Number of unordered pairs among `n` particles: the length of the
/// triangular cooldown table.
pub open spec fn tri_len(n: int) -> int {
    n * (n - 1) / 2
}

/// Flat offset of the first pair of row `i` in the triangular table that
/// enumerates pairs `(i, j)`, `i < j`, by ascending `i` then ascending `j`:
/// the rows before row `i` hold `(n-1) + (n-2) + ... + (n-i)` pairs.
pub open spec fn row_base(i: int, n: int) -> int
    decreases i,
{
    if i <= 0 {
        0
    } else {
        row_base(i - 1, n) + (n - i)
    }
}

/// Twice a row base has the closed form `i * (2n - i - 1)`.
proof fn lemma_row_base_double(i: int, n: int)
    requires
        0 <= i,
    ensures
        2 * row_base(i, n) == i * (2 * n - i - 1),
    decreases i,
{
    if i == 0 {
    } else {
        lemma_row_base_double(i - 1, n);
        assert((i - 1) * (2 * n - (i - 1) - 1) + 2 * (n - i) == i * (2 * n - i - 1))
            by (nonlinear_arith);
    }
}

/// The whole table, all rows, holds one entry per unordered pair.
pub proof fn lemma_row_base_total(n: int)
    requires
        0 <= n,
    ensures
        row_base(n, n) == tri_len(n),
{
    lemma_row_base_double(n, n);
    assert(n * (2 * n - n - 1) == n * (n - 1)) by (nonlinear_arith);
    vstd::arithmetic::div_mod::lemma_div_multiples_vanish(row_base(n, n), 2);
}

/// Row bases grow with the row, as long as the rows exist.
proof fn lemma_row_base_mono(i1: int, i2: int, n: int)
    requires
        0 <= i1 <= i2 <= n,
    ensures
        row_base(i1, n) <= row_base(i2, n),
    decreases i2 - i1,
{
    if i1 < i2 {
        lemma_row_base_mono(i1, i2 - 1, n);
    }
}

/// The flat offset of a pair `(i, j)`, `i < j < n`, lies inside the table.
pub proof fn lemma_pair_index_bounds(i: int, j: int, n: int)
    requires
        0 <= i < j < n,
    ensures
        0 <= row_base(i, n) + (j - i - 1) < tri_len(n),
{
    lemma_row_base_mono(0, i, n);
    lemma_row_base_mono(i + 1, n, n);
    lemma_row_base_total(n);
    assert(row_base(i + 1, n) == row_base(i, n) + (n - i - 1));
}

/// The table size is never negative.
pub proof fn lemma_tri_len_nonneg(n: int)
    requires
        n >= 0,
    ensures
        tri_len(n) >= 0,
{
    assert(n * (n - 1) >= 0) by (nonlinear_arith)
        requires
            n >= 0,
    ;
    vstd::arithmetic::div_mod::lemma_div_pos_is_pos(n * (n - 1), 2);
}

/// An all-zero cooldown table for a population of `n`.
pub open spec fn zero_cooldowns(n: int) -> Seq<u8> {
    Seq::new(tri_len(n) as nat, |k: int| 0u8)
}

/// Every particle of a side valid, and its cooldown table of the matching
/// triangular size with every counter at most the cooldown constant.
pub open spec fn side_wf(ms: Seq<Molecule>, cs: Seq<u8>) -> bool {
    &&& ms.len() <= MAX_POPULATION
    &&& cs.len() == tri_len(ms.len() as int)
    &&& forall|idx: int| 0 <= idx < ms.len() ==> (#[trigger] ms[idx]).valid()
    &&& forall|k: int| 0 <= k < cs.len() ==> (#[trigger] cs[k]) <= COLLISION_COOLDOWN
}

/// One pair of the collision pass, at pair `(i, j)` of a population of
/// `n`. On contact with an expired cooldown the velocities of both
/// particles change by the exchange deltas and the pair's counter restarts
/// at the cooldown constant — unless a component lies outside the
/// arithmetic envelope, in which case the pair is left alone that step.
/// With contact gone, an armed counter decays by one. Otherwise nothing
/// changes.
pub open spec fn pair_step(ms: Seq<Molecule>, cs: Seq<u8>, n: int, i: int, j: int) -> (Seq<
    Molecule,
>, Seq<u8>)
    recommends
        0 <= i < j < n == ms.len(),
        cs.len() == tri_len(n),
{
    let a = ms[i];
    let b = ms[j];
    let k = row_base(i, n) + (j - i - 1);
    if touching(a, b) && cs[k] == 0 {
        if a.within_adjust_limit() && b.within_adjust_limit() {
            let a2 = Molecule {
                x: a.x,
                y: a.y,
                dx: (a.dx + delta_vx(a, b)) as i64,
                dy: (a.dy + delta_vy(a, b)) as i64,
                radius: a.radius,
            };
            let b2 = Molecule {
                x: b.x,
                y: b.y,
                dx: (b.dx - delta_vx(a, b)) as i64,
                dy: (b.dy - delta_vy(a, b)) as i64,
                radius: b.radius,
            };
            (ms.update(i, a2).update(j, b2), cs.update(k, COLLISION_COOLDOWN))
        } else {
            (ms, cs)
        }
    } else if !touching(a, b) && cs[k] > 0 {
        (ms, cs.update(k, (cs[k] - 1) as u8))
    } else {
        (ms, cs)
    }
}

/// The collision pass over row `i`: pairs `(i, j), (i, j+1), ..., (i, n-1)`
/// in order.
pub open spec fn collide_row(ms: Seq<Molecule>, cs: Seq<u8>, n: int, i: int, j: int) -> (Seq<
    Molecule,
>, Seq<u8>)
    decreases n - j,
{
    if j < 0 || j >= n {
        (ms, cs)
    } else {
        let stepped = pair_step(ms, cs, n, i, j);
        collide_row(stepped.0, stepped.1, n, i, j + 1)
    }
}

/// The collision pass from row `i` on: every unordered pair once, by
/// ascending first index, then ascending second — the fixed deterministic
/// order of the engine.
pub open spec fn collide_from(ms: Seq<Molecule>, cs: Seq<u8>, n: int, i: int) -> (Seq<
    Molecule,
>, Seq<u8>)
    decreases n - i,
{
    if i < 0 || i >= n {
        (ms, cs)
    } else {
        let rowed = collide_row(ms, cs, n, i, i + 1);
        collide_from(rowed.0, rowed.1, n, i + 1)
    }
}

/// Every particle of a sequence reflected off the same bounds.
pub open spec fn reflect_all(ms: Seq<Molecule>, l_side: int, r_side: int, height: int) -> Seq<
    Molecule,
> {
    Seq::new(ms.len(), |idx: int| reflected(ms[idx], l_side, r_side, height))
}

/// Every particle of a sequence advanced by its own velocity.
pub open spec fn advance_all(ms: Seq<Molecule>) -> Seq<Molecule> {
    Seq::new(ms.len(), |idx: int| advanced(ms[idx]))
}

/// A freshly zeroed cooldown table for `n` particles.
fn make_cooldowns(n: usize) -> (v: Vec<u8>)
    requires
        n <= MAX_POPULATION,
    ensures
        v@ == zero_cooldowns(n as int),
{
    let entries: usize = if n == 0 {
        0
    } else {
        proof {
            assert((n as int) * ((n as int) - 1) <= 0xffff_0000) by (nonlinear_arith)
                requires
                    1 <= n as int <= 0x10000,
            ;
        }
        n * (n - 1) / 2
    };
    let v: Vec<u8> = vec![0u8; entries];
    proof {
        lemma_tri_len_nonneg(n as int);
        assert(v@ =~= zero_cooldowns(n as int));
    }
    v
}

/// Every particle of the vector reflected in place off the given bounds.
/// Where the band and the height leave room for a particle's diameter, its
/// center ends inside the legal region.
fn reflect_side(mols: &mut Vec<Molecule>, l_side: i64, r_side: i64, height: i64)
    requires
        forall|idx: int| 0 <= idx < old(mols)@.len() ==> (#[trigger] old(mols)@[idx]).valid(),
        -MAX_DIM <= l_side <= MAX_DIM,
        -MAX_DIM <= r_side <= MAX_DIM,
        -MAX_DIM <= height <= MAX_DIM,
    ensures
        final(mols)@ == reflect_all(old(mols)@, l_side as int, r_side as int, height as int),
        forall|idx: int| 0 <= idx < final(mols)@.len() ==> (#[trigger] final(mols)@[idx]).valid(),
        forall|idx: int|
            0 <= idx < final(mols)@.len() && l_side + 2 * old(mols)@[idx].radius <= r_side
                ==> l_side + old(mols)@[idx].radius <= (#[trigger] final(mols)@[idx]).x <= r_side
                - old(mols)@[idx].radius,
        forall|idx: int|
            0 <= idx < final(mols)@.len() && 2 * old(mols)@[idx].radius <= height
                ==> old(mols)@[idx].radius <= (#[trigger] final(mols)@[idx]).y <= height - old(
                mols,
            )@[idx].radius,
{
    let ghost m0 = mols@;
    let n = mols.len();
    let mut idx: usize = 0;
    while idx < n
        invariant
            idx <= n,
            mols@.len() == n,
            m0.len() == n,
            -MAX_DIM <= l_side <= MAX_DIM,
            -MAX_DIM <= r_side <= MAX_DIM,
            -MAX_DIM <= height <= MAX_DIM,
            forall|t: int| 0 <= t < n ==> (#[trigger] m0[t]).valid(),
            forall|t: int|
                0 <= t < idx ==> (#[trigger] mols@[t]) == reflected(
                    m0[t],
                    l_side as int,
                    r_side as int,
                    height as int,
                ),
            forall|t: int| 0 <= t < idx ==> (#[trigger] mols@[t]).valid(),
            forall|t: int|
                0 <= t < idx && l_side + 2 * m0[t].radius <= r_side ==> l_side + m0[t].radius <= (
                #[trigger] mols@[t]).x <= r_side - m0[t].radius,
            forall|t: int|
                0 <= t < idx && 2 * m0[t].radius <= height ==> m0[t].radius <= (
                #[trigger] mols@[t]).y <= height - m0[t].radius,
            forall|t: int| idx <= t < n ==> (#[trigger] mols@[t]) == m0[t],
        decreases n - idx,
    {
        let mut m = mols[idx];
        m.inverse_dir(l_side, r_side, height);
        mols[idx] = m;
        idx += 1;
    }
    proof {
        assert(mols@ =~= reflect_all(m0, l_side as int, r_side as int, height as int));
    }
}

/// Every particle of the vector advanced in place by its own velocity.
fn advance_side(mols: &mut Vec<Molecule>)
    requires
        forall|idx: int| 0 <= idx < old(mols)@.len() ==> (#[trigger] old(mols)@[idx]).valid(),
    ensures
        final(mols)@ == advance_all(old(mols)@),
        forall|idx: int| 0 <= idx < final(mols)@.len() ==> (#[trigger] final(mols)@[idx]).valid(),
{
    let ghost m0 = mols@;
    let n = mols.len();
    let mut idx: usize = 0;
    while idx < n
        invariant
            idx <= n,
            mols@.len() == n,
            m0.len() == n,
            forall|t: int| 0 <= t < n ==> (#[trigger] m0[t]).valid(),
            forall|t: int| 0 <= t < idx ==> (#[trigger] mols@[t]) == advanced(m0[t]),
            forall|t: int| 0 <= t < idx ==> (#[trigger] mols@[t]).valid(),
            forall|t: int| idx <= t < n ==> (#[trigger] mols@[t]) == m0[t],
        decreases n - idx,
    {
        let mut m = mols[idx];
        m.move_mol();
        mols[idx] = m;
        idx += 1;
    }
    proof {
        assert(mols@ =~= advance_all(m0));
    }
}

/// Positions and radii are untouched by the collision pass; only
/// velocities and cooldown counters change.
pub open spec fn same_placement(ms1: Seq<Molecule>, ms2: Seq<Molecule>) -> bool {
    &&& ms1.len() == ms2.len()
    &&& forall|t: int|
        0 <= t < ms1.len() ==> (#[trigger] ms2[t]).x == ms1[t].x && ms2[t].y == ms1[t].y
            && ms2[t].radius == ms1[t].radius
}

/// One collision pass over one side: every unordered pair examined once in
/// the fixed order, exchanges applied and cooldowns stepped as `pair_step`
/// says.
fn collide_side(mols: &mut Vec<Molecule>, cools: &mut Vec<u8>)
    requires
        side_wf(old(mols)@, old(cools)@),
    ensures
        final(mols)@ == collide_from(old(mols)@, old(cools)@, old(mols)@.len() as int, 0).0,
        final(cools)@ == collide_from(old(mols)@, old(cools)@, old(mols)@.len() as int, 0).1,
        side_wf(final(mols)@, final(cools)@),
        same_placement(old(mols)@, final(mols)@),
{
    let ghost m0 = mols@;
    let ghost c0 = cools@;
    let n = mols.len();
    if n < 2 {
        proof {
            if n == 1 {
                assert(collide_row(m0, c0, 1, 0, 1) == (m0, c0));
                assert(collide_from(m0, c0, 1, 1) == (m0, c0));
            }
            assert(collide_from(m0, c0, n as int, 0) == (m0, c0));
        }
        return ;
    }
    let total = cools.len();
    let mut i: usize = 0;
    let mut k: usize = 0;
    while i < n - 1
        invariant
            2 <= n <= MAX_POPULATION,
            i <= n - 1,
            mols@.len() == n,
            m0.len() == n,
            c0.len() == tri_len(n as int),
            side_wf(mols@, cools@),
            same_placement(m0, mols@),
            total == cools@.len(),
            k == row_base(i as int, n as int),
            collide_from(m0, c0, n as int, 0) == collide_from(mols@, cools@, n as int, i as int),
        decreases n - i,
    {
        let mut j: usize = i + 1;
        while j < n
            invariant
                2 <= n <= MAX_POPULATION,
                i < n - 1,
                i + 1 <= j <= n,
                mols@.len() == n,
                m0.len() == n,
                c0.len() == tri_len(n as int),
                side_wf(mols@, cools@),
                same_placement(m0, mols@),
                total == cools@.len(),
                k == row_base(i as int, n as int) + (j - i - 1),
                collide_from(m0, c0, n as int, 0) == {
                    let rowed = collide_row(mols@, cools@, n as int, i as int, j as int);
                    collide_from(rowed.0, rowed.1, n as int, (i + 1) as int)
                },
            decreases n - j,
        {
            proof {
                lemma_pair_index_bounds(i as int, j as int, n as int);
                assert(k < total);
            }
            let ghost m_pre = mols@;
            let ghost c_pre = cools@;
            let a = mols[i];
            let b = mols[j];
            let contact = a.is_mols_touching(&b);
            let cool = cools[k];
            if contact && cool == 0 {
                if a.fits_adjust_limit() && b.fits_adjust_limit() {
                    let mut a2 = a;
                    let mut b2 = b;
                    a2.adjust_dir_after_collision(&mut b2);
                    mols[i] = a2;
                    mols[j] = b2;
                    cools[k] = COLLISION_COOLDOWN;
                }
            } else if !contact && cool > 0 {
                cools[k] = cool - 1;
            }
            proof {
                assert(pair_step(m_pre, c_pre, n as int, i as int, j as int) == (
                mols@,
                cools@,
                ));
                assert(collide_row(m_pre, c_pre, n as int, i as int, j as int) == collide_row(
                    mols@,
                    cools@,
                    n as int,
                    i as int,
                    j as int + 1,
                ));
            }
            j += 1;
            k += 1;
        }
        proof {
            assert(collide_row(mols@, cools@, n as int, i as int, n as int) == (mols@, cools@));
            assert(row_base(i as int + 1, n as int) == row_base(i as int, n as int) + (n - i
                - 1));
        }
        i += 1;
    }
    proof {
        assert(collide_row(mols@, cools@, n as int, n as int - 1, n as int) == (mols@, cools@));
        assert(collide_from(mols@, cools@, n as int, n as int) == (mols@, cools@));
        assert(collide_from(mols@, cools@, n as int, n as int - 1) == (mols@, cools@));
    }
}

/// Law: a shrink back to the earlier count undoes a growth. A growth
/// keeps the earlier particles as a prefix; a shrink to the earlier count
/// keeps exactly that prefix, so the earlier sequence returns unchanged.
pub proof fn lemma_resize_round_trip(s0: Seq<Molecule>, s1: Seq<Molecule>, s2: Seq<Molecule>)
    requires
        s0.len() <= s1.len(),
        s1.subrange(0, s0.len() as int) == s0,
        s2 == s1.subrange(0, s0.len() as int),
    ensures
        s2 == s0,
{
}

/// The validation verdict of a population resize: the caps first, then,
/// for each side that would grow, its sampling band.
pub open spec fn resize_error(
    cur_l: int,
    cur_r: int,
    height: int,
    width: int,
    wall: int,
    new_l: int,
    new_r: int,
    l: MoleculeConfig,
    r: MoleculeConfig,
) -> Option<SimError> {
    if new_l > MAX_POPULATION || new_r > MAX_POPULATION {
        Some(SimError::InvalidCount)
    } else if new_l > cur_l && factory_error(height, 0, wall, l) is Some {
        factory_error(height, 0, wall, l)
    } else if new_r > cur_r && factory_error(height, wall, width, r) is Some {
        factory_error(height, wall, width, r)
    } else {
        None
    }
}

/// The two-sided tank: a movable wall splits the container, and each side
/// owns its particle population with a triangular pairwise cooldown table.
#[derive(Debug)]
pub struct Tank {
    pub height: i64,
    pub width: i64,
    pub wall: i64,
    pub l_mol: Vec<Molecule>,
    pub r_mol: Vec<Molecule>,
    pub l_collisions: Vec<u8>,
    pub r_collisions: Vec<u8>,
}

/// The validation verdict of tank construction: population caps first,
/// then the left band, then the right.
pub open spec fn construction_error(
    height: int,
    width: int,
    wall: int,
    l_nb: int,
    r_nb: int,
    l: MoleculeConfig,
    r: MoleculeConfig,
) -> Option<SimError> {
    if l_nb > MAX_POPULATION || r_nb > MAX_POPULATION {
        Some(SimError::InvalidCount)
    } else if factory_error(height, 0, wall, l) is Some {
        factory_error(height, 0, wall, l)
    } else if factory_error(height, wall, width, r) is Some {
        factory_error(height, wall, width, r)
    } else {
        None
    }
}

impl Tank {
    /// Dimensions within the machine limit, with the wall inside the
    /// container; both sides well-formed.
    pub open spec fn wf(self) -> bool {
        &&& 0 <= self.wall <= self.width <= MAX_DIM
        &&& 0 <= self.height <= MAX_DIM
        &&& side_wf(self.l_mol@, self.l_collisions@)
        &&& side_wf(self.r_mol@, self.r_collisions@)
    }

    /// A tank with freshly sampled populations on both sides of the wall
    /// and zeroed cooldown tables.
    pub fn new(
        height: i64,
        width: i64,
        wall: i64,
        l_nb: usize,
        r_nb: usize,
        l: &MoleculeConfig,
        r: &MoleculeConfig,
    ) -> (res: Result<Tank, SimError>)
        requires
            0 <= wall <= width <= MAX_DIM,
            0 <= height <= MAX_DIM,
        ensures
            match res {
                Ok(t) => {
                    &&& construction_error(
                        height as int,
                        width as int,
                        wall as int,
                        l_nb as int,
                        r_nb as int,
                        *l,
                        *r,
                    ) is None
                    &&& t.wf()
                    &&& t.height == height
                    &&& t.width == width
                    &&& t.wall == wall
                    &&& t.l_mol@.len() == l_nb
                    &&& t.r_mol@.len() == r_nb
                    &&& forall|idx: int|
                        0 <= idx < l_nb ==> sampled_from(
                            #[trigger] t.l_mol@[idx],
                            height as int,
                            0,
                            wall as int,
                            *l,
                        )
                    &&& forall|idx: int|
                        0 <= idx < r_nb ==> sampled_from(
                            #[trigger] t.r_mol@[idx],
                            height as int,
                            wall as int,
                            width as int,
                            *r,
                        )
                    &&& t.l_collisions@ == zero_cooldowns(l_nb as int)
                    &&& t.r_collisions@ == zero_cooldowns(r_nb as int)
                },
                Err(e) => construction_error(
                    height as int,
                    width as int,
                    wall as int,
                    l_nb as int,
                    r_nb as int,
                    *l,
                    *r,
                ) == Some(e),
            },
    {
        if l_nb > MAX_POPULATION || r_nb > MAX_POPULATION {
            return Err(SimError::InvalidCount);
        }
        let l_mol = match Molecule::create_vec_mol(height, 0, wall, l_nb, l) {
            Ok(v) => v,
            Err(e) => {
                return Err(e);
            },
        };
        let r_mol = match Molecule::create_vec_mol(height, wall, width, r_nb, r) {
            Ok(v) => v,
            Err(e) => {
                return Err(e);
            },
        };
        let l_collisions = make_cooldowns(l_nb);
        let r_collisions = make_cooldowns(r_nb);
        proof {
            lemma_tri_len_nonneg(l_nb as int);
            lemma_tri_len_nonneg(r_nb as int);
        }
        Ok(Tank { height, width, wall, l_mol, r_mol, l_collisions, r_collisions })
    }

    /// One collision pass over both sides independently: every same-side
    /// unordered pair examined once in the fixed order, never a pair
    /// across the wall. Positions and radii are untouched; cooldown
    /// counters stay within the cooldown constant.
    pub fn collisions(&mut self)
        requires
            old(self).wf(),
        ensures
            final(self).l_mol@ == collide_from(
                old(self).l_mol@,
                old(self).l_collisions@,
                old(self).l_mol@.len() as int,
                0,
            ).0,
            final(self).l_collisions@ == collide_from(
                old(self).l_mol@,
                old(self).l_collisions@,
                old(self).l_mol@.len() as int,
                0,
            ).1,
            final(self).r_mol@ == collide_from(
                old(self).r_mol@,
                old(self).r_collisions@,
                old(self).r_mol@.len() as int,
                0,
            ).0,
            final(self).r_collisions@ == collide_from(
                old(self).r_mol@,
                old(self).r_collisions@,
                old(self).r_mol@.len() as int,
                0,
            ).1,
            final(self).height == old(self).height,
            final(self).width == old(self).width,
            final(self).wall == old(self).wall,
            same_placement(old(self).l_mol@, final(self).l_mol@),
            same_placement(old(self).r_mol@, final(self).r_mol@),
            final(self).wf(),
    {
        collide_side(&mut self.l_mol, &mut self.l_collisions);
        collide_side(&mut self.r_mol, &mut self.r_collisions);
    }

    /// One simulation step: reflect both sides off their bands, run the
    /// collision pass on each side independently, then integrate every
    /// position. The two sides never interact.
    pub fn update(&mut self)
        requires
            old(self).wf(),
        ensures
            final(self).height == old(self).height,
            final(self).width == old(self).width,
            final(self).wall == old(self).wall,
            final(self).l_mol@ == advance_all(
                collide_from(
                    reflect_all(
                        old(self).l_mol@,
                        0,
                        old(self).wall as int,
                        old(self).height as int,
                    ),
                    old(self).l_collisions@,
                    old(self).l_mol@.len() as int,
                    0,
                ).0,
            ),
            final(self).l_collisions@ == collide_from(
                reflect_all(old(self).l_mol@, 0, old(self).wall as int, old(self).height as int),
                old(self).l_collisions@,
                old(self).l_mol@.len() as int,
                0,
            ).1,
            final(self).r_mol@ == advance_all(
                collide_from(
                    reflect_all(
                        old(self).r_mol@,
                        old(self).wall as int,
                        old(self).width as int,
                        old(self).height as int,
                    ),
                    old(self).r_collisions@,
                    old(self).r_mol@.len() as int,
                    0,
                ).0,
            ),
            final(self).r_collisions@ == collide_from(
                reflect_all(
                    old(self).r_mol@,
                    old(self).wall as int,
                    old(self).width as int,
                    old(self).height as int,
                ),
                old(self).r_collisions@,
                old(self).r_mol@.len() as int,
                0,
            ).1,
            final(self).wf(),
    {
        self.inverse_dir_mol();
        self.collisions();
        self.move_mol();
    }

    /// One boundary-reflection pass over both sides: the left side bounces
    /// between `0` and the wall, the right side between the wall and the
    /// container's far edge. Where a side leaves room for a particle's
    /// diameter, that particle's center ends inside its band (the
    /// in-bounds invariant).
    pub fn inverse_dir_mol(&mut self)
        requires
            old(self).wf(),
        ensures
            final(self).l_mol@ == reflect_all(
                old(self).l_mol@,
                0,
                old(self).wall as int,
                old(self).height as int,
            ),
            final(self).r_mol@ == reflect_all(
                old(self).r_mol@,
                old(self).wall as int,
                old(self).width as int,
                old(self).height as int,
            ),
            final(self).height == old(self).height,
            final(self).width == old(self).width,
            final(self).wall == old(self).wall,
            final(self).l_collisions@ == old(self).l_collisions@,
            final(self).r_collisions@ == old(self).r_collisions@,
            final(self).wf(),
    {
        let wall = self.wall;
        let width = self.width;
        let height = self.height;
        reflect_side(&mut self.l_mol, 0, wall, height);
        reflect_side(&mut self.r_mol, wall, width, height);
    }

    /// One integration pass over both sides: every particle moves by its
    /// own velocity.
    pub fn move_mol(&mut self)
        requires
            old(self).wf(),
        ensures
            final(self).l_mol@ == advance_all(old(self).l_mol@),
            final(self).r_mol@ == advance_all(old(self).r_mol@),
            final(self).height == old(self).height,
            final(self).width == old(self).width,
            final(self).wall == old(self).wall,
            final(self).l_collisions@ == old(self).l_collisions@,
            final(self).r_collisions@ == old(self).r_collisions@,
            final(self).wf(),
    {
        advance_side(&mut self.l_mol);
        advance_side(&mut self.r_mol);
    }

    /// Resize both populations in place. A growing side keeps its
    /// particles and appends freshly sampled ones from its own band; a
    /// shrinking side is truncated from the end. Any change of count
    /// rebuilds that side's cooldown table at the new triangular size with
    /// all history discarded; an unchanged count leaves the side
    /// byte-for-byte alone. All validation happens before any change, so a
    /// refused request leaves the tank untouched.
    pub fn update_mol_number(
        &mut self,
        new_l: usize,
        new_r: usize,
        l: &MoleculeConfig,
        r: &MoleculeConfig,
    ) -> (res: Result<(), SimError>)
        requires
            old(self).wf(),
        ensures
            ({
                let verdict = resize_error(
                    old(self).l_mol@.len() as int,
                    old(self).r_mol@.len() as int,
                    old(self).height as int,
                    old(self).width as int,
                    old(self).wall as int,
                    new_l as int,
                    new_r as int,
                    *l,
                    *r,
                );
                match res {
                    Ok(_) => {
                        &&& verdict is None
                        &&& final(self).wf()
                        &&& final(self).height == old(self).height
                        &&& final(self).width == old(self).width
                        &&& final(self).wall == old(self).wall
                        &&& final(self).l_mol@.len() == new_l
                        &&& final(self).r_mol@.len() == new_r
                        &&& (new_l > old(self).l_mol@.len() ==> final(self).l_mol@.subrange(
                            0,
                            old(self).l_mol@.len() as int,
                        ) == old(self).l_mol@ && (forall|idx: int|
                            old(self).l_mol@.len() <= idx < new_l ==> sampled_from(
                                #[trigger] final(self).l_mol@[idx],
                                old(self).height as int,
                                0,
                                old(self).wall as int,
                                *l,
                            )) && final(self).l_collisions@ == zero_cooldowns(new_l as int))
                        &&& (new_l < old(self).l_mol@.len() ==> final(self).l_mol@ == old(
                            self,
                        ).l_mol@.subrange(0, new_l as int) && final(self).l_collisions@
                            == zero_cooldowns(new_l as int))
                        &&& (new_l == old(self).l_mol@.len() ==> final(self).l_mol@ == old(
                            self,
                        ).l_mol@ && final(self).l_collisions@ == old(self).l_collisions@)
                        &&& (new_r > old(self).r_mol@.len() ==> final(self).r_mol@.subrange(
                            0,
                            old(self).r_mol@.len() as int,
                        ) == old(self).r_mol@ && (forall|idx: int|
                            old(self).r_mol@.len() <= idx < new_r ==> sampled_from(
                                #[trigger] final(self).r_mol@[idx],
                                old(self).height as int,
                                old(self).wall as int,
                                old(self).width as int,
                                *r,
                            )) && final(self).r_collisions@ == zero_cooldowns(new_r as int))
                        &&& (new_r < old(self).r_mol@.len() ==> final(self).r_mol@ == old(
                            self,
                        ).r_mol@.subrange(0, new_r as int) && final(self).r_collisions@
                            == zero_cooldowns(new_r as int))
                        &&& (new_r == old(self).r_mol@.len() ==> final(self).r_mol@ == old(
                            self,
                        ).r_mol@ && final(self).r_collisions@ == old(self).r_collisions@)
                    },
                    Err(e) => verdict == Some(e) && *final(self) == *old(self),
                }
            }),
    {
        let cur_l = self.l_mol.len();
        let cur_r = self.r_mol.len();
        if new_l > MAX_POPULATION || new_r > MAX_POPULATION {
            return Err(SimError::InvalidCount);
        }
        if new_l > cur_l {
            match region_verdict(self.height, 0, self.wall, l) {
                Some(e) => {
                    return Err(e);
                },
                None => {},
            }
        }
        if new_r > cur_r {
            match region_verdict(self.height, self.wall, self.width, r) {
                Some(e) => {
                    return Err(e);
                },
                None => {},
            }
        }
        if new_l > cur_l {
            let mut fresh = match Molecule::create_vec_mol(
                self.height,
                0,
                self.wall,
                new_l - cur_l,
                l,
            ) {
                Ok(v) => v,
                Err(e) => {
                    proof {
                        assert(false);
                    }
                    return Err(e);
                },
            };
            self.l_mol.append(&mut fresh);
            self.l_collisions = make_cooldowns(new_l);
            proof {
                assert(self.l_mol@.subrange(0, cur_l as int) =~= old(self).l_mol@);
            }
        } else if new_l < cur_l {
            self.l_mol.truncate(new_l);
            self.l_collisions = make_cooldowns(new_l);
        }
        if new_r > cur_r {
            let mut fresh = match Molecule::create_vec_mol(
                self.height,
                self.wall,
                self.width,
                new_r - cur_r,
                r,
            ) {
                Ok(v) => v,
                Err(e) => {
                    proof {
                        assert(false);
                    }
                    return Err(e);
                },
            };
            self.r_mol.append(&mut fresh);
            self.r_collisions = make_cooldowns(new_r);
            proof {
                assert(self.r_mol@.subrange(0, cur_r as int) =~= old(self).r_mol@);
            }
        } else if new_r < cur_r {
            self.r_mol.truncate(new_r);
            self.r_collisions = make_cooldowns(new_r);
        }
        proof {
            lemma_tri_len_nonneg(new_l as int);
            lemma_tri_len_nonneg(new_r as int);
        }
        Ok(())
    }

    /// First-order smoothing of the wall toward a target inside the
    /// container: one tenth of the way per call, the integer rendering of
    /// a `0.9 / 0.1` blend.
    pub fn track_wall_target(&mut self, target: i64)
        requires
            old(self).wf(),
            0 <= target <= old(self).width,
        ensures
            final(self).wall == (9 * old(self).wall + target) / 10,
            final(self).height == old(self).height,
            final(self).width == old(self).width,
            final(self).l_mol@ == old(self).l_mol@,
            final(self).r_mol@ == old(self).r_mol@,
            final(self).l_collisions@ == old(self).l_collisions@,
            final(self).r_collisions@ == old(self).r_collisions@,
            final(self).wf(),
    {
        let blended: i64 = ((9 * (self.wall as u64) + (target as u64)) / 10) as i64;
        proof {
            vstd::arithmetic::div_mod::lemma_div_is_ordered(
                9 * self.wall + target,
                10 * self.width,
                10,
            );
            vstd::arithmetic::div_mod::lemma_div_multiples_vanish(self.width as int, 10);
            vstd::arithmetic::div_mod::lemma_div_pos_is_pos(9 * self.wall + target, 10);
        }
        self.wall = blended;
    }
}

} // verus!
