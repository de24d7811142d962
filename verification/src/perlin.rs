//! Perlin-style value noise over a table of 256 random gradient vectors and
//! three shuffled index permutations, with smoothstep trilinear
//! interpolation and a turbulence sum of octaves.

use crate::fixed::{
    fabs, fadd, floor_div_rem, fmul, fsub, spec_fabs, spec_fadd, spec_fmul, spec_fsub, HALF, ONE,
    THREE_FX,
};
use crate::rng::{random_int, Rng};
use crate::vec3::{spec_dot, spec_vadd, Vec3};
use vstd::prelude::*;

verus! {

/// The number of table entries.
pub const POINT_COUNT: usize = 256;

pub struct Perlin {
    pub ranvec: Vec<Vec3>,
    pub perm_x: Vec<i32>,
    pub perm_y: Vec<i32>,
    pub perm_z: Vec<i32>,
}

/// A permutation table is full-length with every entry a valid index.
pub open spec fn perm_wf(p: Seq<i32>) -> bool {
    p.len() == 256 && (forall|i: int| 0 <= i < p.len() ==> 0 <= #[trigger] p[i] < 256)
}

/// The identity table: entry `i` holds `i`.
pub open spec fn spec_identity_perm() -> Seq<i32> {
    Seq::new(256, |i: int| i as i32)
}

/// The tables have their full length, the permutations index safely, and the
/// gradient vectors have unit-bounded components.
pub open spec fn perlin_wf(n: Perlin) -> bool {
    &&& n.ranvec@.len() == 256
    &&& (forall|i: int| 0 <= i < n.ranvec@.len() ==> gradient_in_range(#[trigger] n.ranvec@[i]))
    &&& perm_wf(n.perm_x@)
    &&& perm_wf(n.perm_y@)
    &&& perm_wf(n.perm_z@)
}

/// A gradient vector has every component in `[-1, 1)`.
pub open spec fn gradient_in_range(v: Vec3) -> bool {
    &&& -ONE <= v.x < ONE
    &&& -ONE <= v.y < ONE
    &&& -ONE <= v.z < ONE
}

/// The gradient vector of the lattice corner at offset `(di, dj, dk)` from
/// the floor cell `(fx, fy, fz)`.
pub open spec fn spec_corner(n: Perlin, fx: int, fy: int, fz: int, di: int, dj: int, dk: int) -> Vec3 {
    let ix = (fx + di) % 256;
    let iy = (fy + dj) % 256;
    let iz = (fz + dk) % 256;
    let h = n.perm_x@[ix] ^ n.perm_y@[iy] ^ n.perm_z@[iz];
    n.ranvec@[h as int]
}

/// The smoothstep fade `u * u * (3 - 2u)`.
pub open spec fn spec_fade(u: int) -> int {
    spec_fmul(spec_fmul(u, u), spec_fsub(THREE_FX as int, spec_fadd(u, u)))
}

/// The factor a corner contributes along one axis: the faded coordinate for
/// the far corner, its complement for the near corner.
pub open spec fn spec_facet(fu: int, sel: int) -> int {
    if sel == 1 {
        fu
    } else {
        spec_fsub(ONE as int, fu)
    }
}

/// One corner's contribution to the trilinear interpolation.
pub open spec fn spec_tri_term(c: Vec3, u: int, v: int, w: int, di: int, dj: int, dk: int) -> int {
    let weight = Vec3 {
        x: spec_fsub(u, if di == 1 {
            ONE as int
        } else {
            0
        }) as i64,
        y: spec_fsub(v, if dj == 1 {
            ONE as int
        } else {
            0
        }) as i64,
        z: spec_fsub(w, if dk == 1 {
            ONE as int
        } else {
            0
        }) as i64,
    };
    spec_fmul(
        spec_fmul(
            spec_fmul(spec_facet(spec_fade(u), di), spec_facet(spec_fade(v), dj)),
            spec_facet(spec_fade(w), dk),
        ),
        spec_dot(c, weight),
    )
}

/// The value of the noise lattice at the point `p`: the smoothed
/// interpolation of the eight corner gradients of `p`'s cell.
pub open spec fn spec_noise(n: Perlin, p: Vec3) -> int {
    let fx = (p.x as int) / (ONE as int);
    let fy = (p.y as int) / (ONE as int);
    let fz = (p.z as int) / (ONE as int);
    let u = (p.x as int) % (ONE as int);
    let v = (p.y as int) % (ONE as int);
    let w = (p.z as int) % (ONE as int);
    let t000 = spec_tri_term(spec_corner(n, fx, fy, fz, 0, 0, 0), u, v, w, 0, 0, 0);
    let t001 = spec_tri_term(spec_corner(n, fx, fy, fz, 0, 0, 1), u, v, w, 0, 0, 1);
    let t010 = spec_tri_term(spec_corner(n, fx, fy, fz, 0, 1, 0), u, v, w, 0, 1, 0);
    let t011 = spec_tri_term(spec_corner(n, fx, fy, fz, 0, 1, 1), u, v, w, 0, 1, 1);
    let t100 = spec_tri_term(spec_corner(n, fx, fy, fz, 1, 0, 0), u, v, w, 1, 0, 0);
    let t101 = spec_tri_term(spec_corner(n, fx, fy, fz, 1, 0, 1), u, v, w, 1, 0, 1);
    let t110 = spec_tri_term(spec_corner(n, fx, fy, fz, 1, 1, 0), u, v, w, 1, 1, 0);
    let t111 = spec_tri_term(spec_corner(n, fx, fy, fz, 1, 1, 1), u, v, w, 1, 1, 1);
    spec_fadd(
        spec_fadd(
            spec_fadd(spec_fadd(spec_fadd(spec_fadd(spec_fadd(t000, t001), t010), t011), t100), t101),
            t110,
        ),
        t111,
    )
}

/// The turbulence sum: octaves of noise at doubling frequency and halving
/// weight, starting from weight `w` with `d` octaves left.
pub open spec fn spec_turb_rec(n: Perlin, p: Vec3, w: int, d: int) -> int
    decreases d,
{
    if d <= 0 {
        0
    } else {
        spec_fadd(
            spec_fmul(w, spec_noise(n, p)),
            spec_turb_rec(n, spec_vadd(p, p), spec_fmul(w, HALF as int), d - 1),
        )
    }
}

pub open spec fn spec_turb(n: Perlin, p: Vec3, d: int) -> int {
    spec_fabs(spec_turb_rec(n, p, ONE as int, d))
}

impl Perlin {
    /// A shuffled table holding each index `0..256` exactly once.
    pub fn perlin_generate_perm(rng: &mut Rng) -> (p: Vec<i32>)
        ensures
            perm_wf(p@),
            p@.to_multiset() == spec_identity_perm().to_multiset(),
    {
        let mut p: Vec<i32> = Vec::new();
        let mut i: usize = 0;
        while i < POINT_COUNT
            invariant
                i <= 256,
                p@ =~= spec_identity_perm().subrange(0, i as int),
            decreases 256 - i,
        {
            p.push(i as i32);
            proof {
                assert(p@ =~= spec_identity_perm().subrange(0, i + 1));
            }
            i = i + 1;
        }
        proof {
            assert(p@ =~= spec_identity_perm());
            assert(forall|k: int| 0 <= k < p@.len() ==> 0 <= #[trigger] p@[k] < 256);
        }
        let ghost before_shuffle = p@;
        Self::permute(&mut p, POINT_COUNT, rng);
        proof {
            assert(p@.subrange(0, 256) =~= p@);
            assert(before_shuffle.subrange(0, 256) =~= before_shuffle);
        }
        p
    }

    /// Fisher-Yates shuffling of the first `n` entries: a permutation of
    /// the table it was given.
    pub fn permute(p: &mut Vec<i32>, n: usize, rng: &mut Rng)
        requires
            n <= old(p)@.len(),
            old(p)@.len() == 256,
            forall|k: int| 0 <= k < old(p)@.len() ==> 0 <= #[trigger] old(p)@[k] < 256,
        ensures
            perm_wf(final(p)@),
            final(p)@.subrange(0, n as int).to_multiset() == old(p)@.subrange(
                0,
                n as int,
            ).to_multiset(),
            final(p)@.subrange(n as int, 256) == old(p)@.subrange(n as int, 256),
    {
        if n == 0 {
            proof {
                assert(final(p)@.subrange(n as int, 256) =~= old(p)@.subrange(n as int, 256));
            }
            return ;
        }
        let mut i: usize = n - 1;
        while i > 0
            invariant
                i < n <= p@.len(),
                p@.len() == 256,
                forall|k: int| 0 <= k < p@.len() ==> 0 <= #[trigger] p@[k] < 256,
                p@.subrange(0, n as int).to_multiset() == old(p)@.subrange(
                    0,
                    n as int,
                ).to_multiset(),
                p@.subrange(n as int, 256) == old(p)@.subrange(n as int, 256),
            decreases i,
        {
            let target = random_int(rng, 0, i as i32) as usize;
            let ghost before = p@;
            let tmp = p[i];
            let tv = p[target];
            p[i] = tv;
            p[target] = tmp;
            proof {
                assert(p@ =~= before.update(i as int, before[target as int]).update(
                    target as int,
                    before[i as int],
                ));
                crate::seqs::lemma_swap_multiset(before, i as int, target as int);
                crate::seqs::lemma_swap_in_subrange(before, 0, n as int, i as int, target as int);
                crate::seqs::lemma_swap_multiset(
                    before.subrange(0, n as int),
                    i as int,
                    target as int,
                );
                assert(p@.subrange(n as int, 256) =~= before.subrange(n as int, 256));
            }
            i = i - 1;
        }
    }

    /// Fresh noise tables from the random source; each index table is a
    /// true permutation of the indices.
    pub fn new(rng: &mut Rng) -> (n: Perlin)
        ensures
            perlin_wf(n),
            n.perm_x@.to_multiset() == spec_identity_perm().to_multiset(),
            n.perm_y@.to_multiset() == spec_identity_perm().to_multiset(),
            n.perm_z@.to_multiset() == spec_identity_perm().to_multiset(),
    {
        let mut ranvec: Vec<Vec3> = Vec::new();
        let mut i: usize = 0;
        while i < POINT_COUNT
            invariant
                ranvec@.len() == i,
                i <= 256,
                forall|k: int| 0 <= k < i ==> gradient_in_range(#[trigger] ranvec@[k]),
            decreases 256 - i,
        {
            let v = Vec3::random_min_max(rng, -ONE, ONE);
            ranvec.push(v);
            i = i + 1;
        }
        Perlin {
            ranvec,
            perm_x: Self::perlin_generate_perm(rng),
            perm_y: Self::perlin_generate_perm(rng),
            perm_z: Self::perlin_generate_perm(rng),
        }
    }

    fn corner(&self, fx: i64, fy: i64, fz: i64, di: i64, dj: i64, dk: i64) -> (c: Vec3)
        requires
            perlin_wf(*self),
            -0x1_0000_0000_0000i64 <= fx <= 0x1_0000_0000_0000i64,
            -0x1_0000_0000_0000i64 <= fy <= 0x1_0000_0000_0000i64,
            -0x1_0000_0000_0000i64 <= fz <= 0x1_0000_0000_0000i64,
            0 <= di <= 1,
            0 <= dj <= 1,
            0 <= dk <= 1,
        ensures
            c == spec_corner(*self, fx as int, fy as int, fz as int, di as int, dj as int, dk as int),
    {
        let (_, ix) = floor_div_rem(fx + di, 256);
        let (_, iy) = floor_div_rem(fy + dj, 256);
        let (_, iz) = floor_div_rem(fz + dk, 256);
        let hx = self.perm_x[ix as usize];
        let hy = self.perm_y[iy as usize];
        let hz = self.perm_z[iz as usize];
        proof {
            assert(0 <= (hx ^ hy) < 256 && 0 <= ((hx ^ hy) ^ hz) < 256) by (bit_vector)
                requires
                    0 <= hx < 256,
                    0 <= hy < 256,
                    0 <= hz < 256,
            ;
        }
        let h = hx ^ hy ^ hz;
        self.ranvec[h as usize]
    }

    fn tri_term(c: Vec3, u: i64, v: i64, w: i64, di: i64, dj: i64, dk: i64) -> (r: i64)
        requires
            0 <= di <= 1,
            0 <= dj <= 1,
            0 <= dk <= 1,
        ensures
            r as int == spec_tri_term(c, u as int, v as int, w as int, di as int, dj as int, dk as int),
    {
        let weight = Vec3 {
            x: fsub(u, if di == 1 {
                ONE
            } else {
                0
            }),
            y: fsub(v, if dj == 1 {
                ONE
            } else {
                0
            }),
            z: fsub(w, if dk == 1 {
                ONE
            } else {
                0
            }),
        };
        let fu = Self::facet(Self::fade(u), di);
        let fv = Self::facet(Self::fade(v), dj);
        let fw = Self::facet(Self::fade(w), dk);
        fmul(fmul(fmul(fu, fv), fw), c.dot(weight))
    }

    fn fade(u: i64) -> (r: i64)
        ensures
            r as int == spec_fade(u as int),
    {
        fmul(fmul(u, u), fsub(THREE_FX, fadd(u, u)))
    }

    fn facet(fu: i64, sel: i64) -> (r: i64)
        requires
            0 <= sel <= 1,
        ensures
            r as int == spec_facet(fu as int, sel as int),
    {
        if sel == 1 {
            fu
        } else {
            fsub(ONE, fu)
        }
    }

    /// The noise value at `p`.
    pub fn noise(&self, p: &Vec3) -> (r: i64)
        requires
            perlin_wf(*self),
        ensures
            r as int == spec_noise(*self, *p),
    {
        let (fx, u) = floor_div_rem(p.x, ONE);
        let (fy, v) = floor_div_rem(p.y, ONE);
        let (fz, w) = floor_div_rem(p.z, ONE);
        let c000 = self.corner(fx, fy, fz, 0, 0, 0);
        let c001 = self.corner(fx, fy, fz, 0, 0, 1);
        let c010 = self.corner(fx, fy, fz, 0, 1, 0);
        let c011 = self.corner(fx, fy, fz, 0, 1, 1);
        let c100 = self.corner(fx, fy, fz, 1, 0, 0);
        let c101 = self.corner(fx, fy, fz, 1, 0, 1);
        let c110 = self.corner(fx, fy, fz, 1, 1, 0);
        let c111 = self.corner(fx, fy, fz, 1, 1, 1);
        let mut acc = Self::tri_term(c000, u, v, w, 0, 0, 0);
        acc = fadd(acc, Self::tri_term(c001, u, v, w, 0, 0, 1));
        acc = fadd(acc, Self::tri_term(c010, u, v, w, 0, 1, 0));
        acc = fadd(acc, Self::tri_term(c011, u, v, w, 0, 1, 1));
        acc = fadd(acc, Self::tri_term(c100, u, v, w, 1, 0, 0));
        acc = fadd(acc, Self::tri_term(c101, u, v, w, 1, 0, 1));
        acc = fadd(acc, Self::tri_term(c110, u, v, w, 1, 1, 0));
        acc = fadd(acc, Self::tri_term(c111, u, v, w, 1, 1, 1));
        acc
    }

    fn turb_rec(&self, p: Vec3, w: i64, depth: i32) -> (r: i64)
        requires
            perlin_wf(*self),
        ensures
            r as int == spec_turb_rec(*self, p, w as int, depth as int),
        decreases depth,
    {
        if depth <= 0 {
            0
        } else {
            let here = fmul(w, self.noise(&p));
            let rest = self.turb_rec(p.add(p), fmul(w, HALF), depth - 1);
            fadd(here, rest)
        }
    }

    /// The turbulence: the absolute value of `depth` octaves of noise.
    pub fn turb(&self, p: &Vec3, depth: i32) -> (r: i64)
        requires
            perlin_wf(*self),
        ensures
            r as int == spec_turb(*self, *p, depth as int),
            r >= 0,
    {
        let s = self.turb_rec(*p, ONE, depth);
        fabs(s)
    }
}

} // verus!
