//! Exact affine transforms.
//!
//! A `Transform` is a 3-dimensional affine map `x |-> (L x + t) / den`: a
//! 3x3 linear part `L` and a translation `t`, all stored as integer
//! numerators over one positive common denominator. Rotation, non-uniform
//! scale and shear are all expressible, and composition and inversion are
//! exact integer arithmetic, so the resolved relative transform of an
//! attachment reproduces the child's world pose without rounding.

use vstd::prelude::*;

verus! {

/// Largest magnitude a numerator or denominator may have. Keeping every
/// stored entry within this bound lets every intermediate of composition
/// and inversion (a sum of six degree-3 products) fit in `i128`.
pub const COORD_LIMIT: i64 = 0x100_0000_0000;

/// `COORD_LIMIT` squared: a bound on any product of two stored entries.
const LIMIT_SQ: i128 = 0x1_0000_0000_0000_0000_0000;

/// `COORD_LIMIT` cubed: a bound on any product of three stored entries.
const LIMIT_CUBE: i128 = 0x100_0000_0000_0000_0000_0000_0000_0000;

/// Why a transform operation could not produce a result.
#[derive(Clone, Copy, Debug, PartialEq, Eq, Structural)]
pub enum TransformError {
    /// The linear part has determinant zero, so the map has no inverse.
    NonInvertible,
    /// An exact result entry falls outside the representable range.
    Overflow,
}

/// An exact affine transform. Row-major linear part `xx..zz`, translation
/// `tx, ty, tz`, all numerators over the common denominator `den`.
#[derive(Clone, Copy, Debug, PartialEq, Eq, Structural)]
pub struct Transform {
    pub xx: i64,
    pub xy: i64,
    pub xz: i64,
    pub yx: i64,
    pub yy: i64,
    pub yz: i64,
    pub zx: i64,
    pub zy: i64,
    pub zz: i64,
    pub tx: i64,
    pub ty: i64,
    pub tz: i64,
    pub den: i64,
}

/// The mathematical value of a `Transform`: the same thirteen entries as
/// unbounded integers.
#[verifier::ext_equal]
pub struct SpecTransform {
    pub xx: int,
    pub xy: int,
    pub xz: int,
    pub yx: int,
    pub yy: int,
    pub yz: int,
    pub zx: int,
    pub zy: int,
    pub zz: int,
    pub tx: int,
    pub ty: int,
    pub tz: int,
    pub den: int,
}

impl View for Transform {
    type V = SpecTransform;

    open spec fn view(&self) -> SpecTransform {
        SpecTransform {
            xx: self.xx as int,
            xy: self.xy as int,
            xz: self.xz as int,
            yx: self.yx as int,
            yy: self.yy as int,
            yz: self.yz as int,
            zx: self.zx as int,
            zy: self.zy as int,
            zz: self.zz as int,
            tx: self.tx as int,
            ty: self.ty as int,
            tz: self.tz as int,
            den: self.den as int,
        }
    }
}

impl SpecTransform {
    /// Every entry small enough to be stored, and a positive denominator.
    pub open spec fn fits(self) -> bool {
        &&& -COORD_LIMIT <= self.xx <= COORD_LIMIT
        &&& -COORD_LIMIT <= self.xy <= COORD_LIMIT
        &&& -COORD_LIMIT <= self.xz <= COORD_LIMIT
        &&& -COORD_LIMIT <= self.yx <= COORD_LIMIT
        &&& -COORD_LIMIT <= self.yy <= COORD_LIMIT
        &&& -COORD_LIMIT <= self.yz <= COORD_LIMIT
        &&& -COORD_LIMIT <= self.zx <= COORD_LIMIT
        &&& -COORD_LIMIT <= self.zy <= COORD_LIMIT
        &&& -COORD_LIMIT <= self.zz <= COORD_LIMIT
        &&& -COORD_LIMIT <= self.tx <= COORD_LIMIT
        &&& -COORD_LIMIT <= self.ty <= COORD_LIMIT
        &&& -COORD_LIMIT <= self.tz <= COORD_LIMIT
        &&& 0 < self.den <= COORD_LIMIT
    }

    /// The identity map.
    pub open spec fn identity() -> SpecTransform {
        SpecTransform {
            xx: 1, xy: 0, xz: 0,
            yx: 0, yy: 1, yz: 0,
            zx: 0, zy: 0, zz: 1,
            tx: 0, ty: 0, tz: 0,
            den: 1,
        }
    }

    /// Composition `self` after `other`: the map sending `x` to
    /// `self(other(x))`, with denominator the product of the two.
    pub open spec fn compose(self, o: SpecTransform) -> SpecTransform {
        SpecTransform {
            xx: self.xx * o.xx + self.xy * o.yx + self.xz * o.zx,
            xy: self.xx * o.xy + self.xy * o.yy + self.xz * o.zy,
            xz: self.xx * o.xz + self.xy * o.yz + self.xz * o.zz,
            yx: self.yx * o.xx + self.yy * o.yx + self.yz * o.zx,
            yy: self.yx * o.xy + self.yy * o.yy + self.yz * o.zy,
            yz: self.yx * o.xz + self.yy * o.yz + self.yz * o.zz,
            zx: self.zx * o.xx + self.zy * o.yx + self.zz * o.zx,
            zy: self.zx * o.xy + self.zy * o.yy + self.zz * o.zy,
            zz: self.zx * o.xz + self.zy * o.yz + self.zz * o.zz,
            tx: self.xx * o.tx + self.xy * o.ty + self.xz * o.tz + self.tx * o.den,
            ty: self.yx * o.tx + self.yy * o.ty + self.yz * o.tz + self.ty * o.den,
            tz: self.zx * o.tx + self.zy * o.ty + self.zz * o.tz + self.tz * o.den,
            den: self.den * o.den,
        }
    }

    /// Determinant of the linear part.
    pub open spec fn det(self) -> int {
        self.xx * (self.yy * self.zz - self.yz * self.zy)
            - self.xy * (self.yx * self.zz - self.yz * self.zx)
            + self.xz * (self.yx * self.zy - self.yy * self.zx)
    }

    /// Every entry negated. Represents the same affine map whenever the
    /// denominators are read projectively.
    pub open spec fn neg(self) -> SpecTransform {
        SpecTransform {
            xx: -self.xx, xy: -self.xy, xz: -self.xz,
            yx: -self.yx, yy: -self.yy, yz: -self.yz,
            zx: -self.zx, zy: -self.zy, zz: -self.zz,
            tx: -self.tx, ty: -self.ty, tz: -self.tz,
            den: -self.den,
        }
    }

    /// The inverse map before sign normalization: linear part
    /// `den * adj(L)`, translation `-adj(L) t`, denominator `det(L)`.
    pub open spec fn inverse_raw(self) -> SpecTransform {
        SpecTransform {
            xx: self.den * (self.yy * self.zz - self.yz * self.zy),
            xy: self.den * (self.xz * self.zy - self.xy * self.zz),
            xz: self.den * (self.xy * self.yz - self.xz * self.yy),
            yx: self.den * (self.yz * self.zx - self.yx * self.zz),
            yy: self.den * (self.xx * self.zz - self.xz * self.zx),
            yz: self.den * (self.xz * self.yx - self.xx * self.yz),
            zx: self.den * (self.yx * self.zy - self.yy * self.zx),
            zy: self.den * (self.xy * self.zx - self.xx * self.zy),
            zz: self.den * (self.xx * self.yy - self.xy * self.yx),
            tx: -((self.yy * self.zz - self.yz * self.zy) * self.tx
                + (self.xz * self.zy - self.xy * self.zz) * self.ty
                + (self.xy * self.yz - self.xz * self.yy) * self.tz),
            ty: -((self.yz * self.zx - self.yx * self.zz) * self.tx
                + (self.xx * self.zz - self.xz * self.zx) * self.ty
                + (self.xz * self.yx - self.xx * self.yz) * self.tz),
            tz: -((self.yx * self.zy - self.yy * self.zx) * self.tx
                + (self.xy * self.zx - self.xx * self.zy) * self.ty
                + (self.xx * self.yy - self.xy * self.yx) * self.tz),
            den: self.det(),
        }
    }

    /// The inverse map, signs arranged so the denominator is positive
    /// whenever the determinant is nonzero.
    pub open spec fn inverse(self) -> SpecTransform {
        if self.det() < 0 {
            self.inverse_raw().neg()
        } else {
            self.inverse_raw()
        }
    }

    /// Every entry multiplied by `s`. Read projectively this denotes the
    /// same affine map whenever `s` is nonzero.
    pub open spec fn rescale(self, s: int) -> SpecTransform {
        SpecTransform {
            xx: self.xx * s, xy: self.xy * s, xz: self.xz * s,
            yx: self.yx * s, yy: self.yy * s, yz: self.yz * s,
            zx: self.zx * s, zy: self.zy * s, zz: self.zz * s,
            tx: self.tx * s, ty: self.ty * s, tz: self.tz * s,
            den: self.den * s,
        }
    }

    /// Projective equality: the two entry lists are proportional, so both
    /// sides denote the same affine map.
    pub open spec fn equiv(self, o: SpecTransform) -> bool {
        &&& self.xx * o.den == o.xx * self.den
        &&& self.xy * o.den == o.xy * self.den
        &&& self.xz * o.den == o.xz * self.den
        &&& self.yx * o.den == o.yx * self.den
        &&& self.yy * o.den == o.yy * self.den
        &&& self.yz * o.den == o.yz * self.den
        &&& self.zx * o.den == o.zx * self.den
        &&& self.zy * o.den == o.zy * self.den
        &&& self.zz * o.den == o.zz * self.den
        &&& self.tx * o.den == o.tx * self.den
        &&& self.ty * o.den == o.ty * self.den
        &&& self.tz * o.den == o.tz * self.den
    }
}

/// Distributes a factor over a difference of two products.
proof fn lemma_distrib_pair(u: int, a: int, b: int, c: int, d: int)
    by (nonlinear_arith)
    ensures
        u * (a * b - c * d) == (a * b) * u - (c * d) * u,
{
}

/// Reorderings of a product of three factors.
proof fn lemma_mul3_perm(a: int, b: int, c: int)
    by (nonlinear_arith)
    ensures
        (a * b) * c == (c * b) * a,
        (a * b) * c == (b * c) * a,
{
}

proof fn lemma_adj_00(xx: int, xy: int, xz: int, yx: int, yy: int, yz: int, zx: int, zy: int, zz: int)
    by (nonlinear_arith)
    ensures
        xx * (yy * zz - yz * zy) + xy * (yz * zx - yx * zz) + xz * (yx * zy - yy * zx)
            == xx * (yy * zz - yz * zy) - xy * (yx * zz - yz * zx) + xz * (yx * zy - yy * zx),
{
}

proof fn lemma_adj_01(xx: int, xy: int, xz: int, yx: int, yy: int, yz: int, zx: int, zy: int, zz: int)
    by (nonlinear_arith)
    ensures
        xx * (xz * zy - xy * zz) + xy * (xx * zz - xz * zx) + xz * (xy * zx - xx * zy)
            == 0,
{
}

proof fn lemma_adj_02(xx: int, xy: int, xz: int, yx: int, yy: int, yz: int, zx: int, zy: int, zz: int)
    by (nonlinear_arith)
    ensures
        xx * (xy * yz - xz * yy) + xy * (xz * yx - xx * yz) + xz * (xx * yy - xy * yx)
            == 0,
{
}

proof fn lemma_adj_10(xx: int, xy: int, xz: int, yx: int, yy: int, yz: int, zx: int, zy: int, zz: int)
    by (nonlinear_arith)
    ensures
        yx * (yy * zz - yz * zy) + yy * (yz * zx - yx * zz) + yz * (yx * zy - yy * zx)
            == 0,
{
}

proof fn lemma_adj_11(xx: int, xy: int, xz: int, yx: int, yy: int, yz: int, zx: int, zy: int, zz: int)
    ensures
        yx * (xz * zy - xy * zz) + yy * (xx * zz - xz * zx) + yz * (xy * zx - xx * zy)
            == xx * (yy * zz - yz * zy) - xy * (yx * zz - yz * zx) + xz * (yx * zy - yy * zx),
{
    lemma_distrib_pair(yx, xz, zy, xy, zz);
    lemma_distrib_pair(yy, xx, zz, xz, zx);
    lemma_distrib_pair(yz, xy, zx, xx, zy);
    lemma_distrib_pair(xx, yy, zz, yz, zy);
    lemma_distrib_pair(xy, yx, zz, yz, zx);
    lemma_distrib_pair(xz, yx, zy, yy, zx);
    lemma_mul3_perm(xz, zy, yx);
    lemma_mul3_perm(xy, zz, yx);
    lemma_mul3_perm(xx, zz, yy);
    lemma_mul3_perm(xz, zx, yy);
    lemma_mul3_perm(xy, zx, yz);
    lemma_mul3_perm(xx, zy, yz);
}

proof fn lemma_adj_12(xx: int, xy: int, xz: int, yx: int, yy: int, yz: int, zx: int, zy: int, zz: int)
    by (nonlinear_arith)
    ensures
        yx * (xy * yz - xz * yy) + yy * (xz * yx - xx * yz) + yz * (xx * yy - xy * yx)
            == 0,
{
}

proof fn lemma_adj_20(xx: int, xy: int, xz: int, yx: int, yy: int, yz: int, zx: int, zy: int, zz: int)
    by (nonlinear_arith)
    ensures
        zx * (yy * zz - yz * zy) + zy * (yz * zx - yx * zz) + zz * (yx * zy - yy * zx)
            == 0,
{
}

proof fn lemma_adj_21(xx: int, xy: int, xz: int, yx: int, yy: int, yz: int, zx: int, zy: int, zz: int)
    by (nonlinear_arith)
    ensures
        zx * (xz * zy - xy * zz) + zy * (xx * zz - xz * zx) + zz * (xy * zx - xx * zy)
            == 0,
{
}

proof fn lemma_adj_22(xx: int, xy: int, xz: int, yx: int, yy: int, yz: int, zx: int, zy: int, zz: int)
    ensures
        zx * (xy * yz - xz * yy) + zy * (xz * yx - xx * yz) + zz * (xx * yy - xy * yx)
            == xx * (yy * zz - yz * zy) - xy * (yx * zz - yz * zx) + xz * (yx * zy - yy * zx),
{
    lemma_distrib_pair(zx, xy, yz, xz, yy);
    lemma_distrib_pair(zy, xz, yx, xx, yz);
    lemma_distrib_pair(zz, xx, yy, xy, yx);
    lemma_distrib_pair(xx, yy, zz, yz, zy);
    lemma_distrib_pair(xy, yx, zz, yz, zx);
    lemma_distrib_pair(xz, yx, zy, yy, zx);
    lemma_mul3_perm(xy, yz, zx);
    lemma_mul3_perm(xz, yy, zx);
    lemma_mul3_perm(xz, yx, zy);
    lemma_mul3_perm(xx, yz, zy);
    lemma_mul3_perm(xx, yy, zz);
    lemma_mul3_perm(xy, yx, zz);
}

/// Distributes a factor over a three-term sum.
proof fn lemma_distrib3(u: int, a: int, b: int, c: int)
    by (nonlinear_arith)
    ensures
        u * (a + b + c) == u * a + u * b + u * c,
{
}

/// Distributes a factor over a four-term sum.
proof fn lemma_distrib4(u: int, a: int, b: int, c: int, d: int)
    by (nonlinear_arith)
    ensures
        u * (a + b + c + d) == u * a + u * b + u * c + u * d,
{
}

/// Regroups the four factors of one summand of the triple product.
proof fn lemma_atom(p: int, d: int, b: int, c: int)
    by (nonlinear_arith)
    ensures
        p * (d * b * c) == (p * b) * (d * c),
        p * ((b * d) * c) == (p * b) * (d * c),
{
}

/// Pulls a common right factor out of a three-term sum.
proof fn lemma_factor3(x0: int, x1: int, x2: int, y: int)
    by (nonlinear_arith)
    ensures
        x0 * y + x1 * y + x2 * y == (x0 + x1 + x2) * y,
{
}

/// Reorderings of a right-nested product of three factors.
proof fn lemma_prod_perm(a: int, b: int, c: int)
    by (nonlinear_arith)
    ensures
        a * (b * c) == c * (b * a),
        a * (b * c) == b * (a * c),
{
}

/// One row of the composed product `P (P^-1 C)`, linear part. With `b` an
/// adjugate whose column 0 pairs against the row `(p0, p1, p2)` to give the
/// determinant and whose other columns annihilate it, the row of the triple
/// product collapses to the matching entry of `C` scaled by `dp * dt`.
proof fn lemma_mix_row(
    p0: int, p1: int, p2: int,
    b00: int, b01: int, b02: int,
    b10: int, b11: int, b12: int,
    b20: int, b21: int, b22: int,
    c0: int, c1: int, c2: int,
    dp: int, dt: int,
)
    requires
        p0 * b00 + p1 * b10 + p2 * b20 == dt,
        p0 * b01 + p1 * b11 + p2 * b21 == 0,
        p0 * b02 + p1 * b12 + p2 * b22 == 0,
    ensures
        p0 * (dp * b00 * c0 + dp * b01 * c1 + dp * b02 * c2)
            + p1 * (dp * b10 * c0 + dp * b11 * c1 + dp * b12 * c2)
            + p2 * (dp * b20 * c0 + dp * b21 * c1 + dp * b22 * c2)
            == c0 * (dp * dt),
{
    lemma_distrib3(p0, dp * b00 * c0, dp * b01 * c1, dp * b02 * c2);
    lemma_distrib3(p1, dp * b10 * c0, dp * b11 * c1, dp * b12 * c2);
    lemma_distrib3(p2, dp * b20 * c0, dp * b21 * c1, dp * b22 * c2);
    lemma_atom(p0, dp, b00, c0);
    lemma_atom(p0, dp, b01, c1);
    lemma_atom(p0, dp, b02, c2);
    lemma_atom(p1, dp, b10, c0);
    lemma_atom(p1, dp, b11, c1);
    lemma_atom(p1, dp, b12, c2);
    lemma_atom(p2, dp, b20, c0);
    lemma_atom(p2, dp, b21, c1);
    lemma_atom(p2, dp, b22, c2);
    lemma_factor3(p0 * b00, p1 * b10, p2 * b20, dp * c0);
    lemma_factor3(p0 * b01, p1 * b11, p2 * b21, dp * c1);
    lemma_factor3(p0 * b02, p1 * b12, p2 * b22, dp * c2);
    lemma_prod_perm(dt, dp, c0);
}

/// One row of the composed product `P (P^-1 C)`, translation part: the
/// inverse's translation cancels the parent's own translation and leaves
/// the child's, scaled by `dp * dt`.
proof fn lemma_mix_trans(
    p0: int, p1: int, p2: int,
    b00: int, b01: int, b02: int,
    b10: int, b11: int, b12: int,
    b20: int, b21: int, b22: int,
    ct0: int, ct1: int, ct2: int,
    pt0: int, pt1: int, pt2: int,
    cden: int, dp: int, dt: int,
)
    requires
        p0 * b00 + p1 * b10 + p2 * b20 == dt,
        p0 * b01 + p1 * b11 + p2 * b21 == 0,
        p0 * b02 + p1 * b12 + p2 * b22 == 0,
    ensures
        p0 * (dp * b00 * ct0 + dp * b01 * ct1 + dp * b02 * ct2
                + (-(b00 * pt0 + b01 * pt1 + b02 * pt2)) * cden)
            + p1 * (dp * b10 * ct0 + dp * b11 * ct1 + dp * b12 * ct2
                + (-(b10 * pt0 + b11 * pt1 + b12 * pt2)) * cden)
            + p2 * (dp * b20 * ct0 + dp * b21 * ct1 + dp * b22 * ct2
                + (-(b20 * pt0 + b21 * pt1 + b22 * pt2)) * cden)
            + pt0 * (dt * cden)
            == ct0 * (dp * dt),
{
    lemma_distrib4(p0, dp * b00 * ct0, dp * b01 * ct1, dp * b02 * ct2,
        (-(b00 * pt0 + b01 * pt1 + b02 * pt2)) * cden);
    lemma_distrib4(p1, dp * b10 * ct0, dp * b11 * ct1, dp * b12 * ct2,
        (-(b10 * pt0 + b11 * pt1 + b12 * pt2)) * cden);
    lemma_distrib4(p2, dp * b20 * ct0, dp * b21 * ct1, dp * b22 * ct2,
        (-(b20 * pt0 + b21 * pt1 + b22 * pt2)) * cden);
    lemma_atom(p0, dp, b00, ct0);
    lemma_atom(p0, dp, b01, ct1);
    lemma_atom(p0, dp, b02, ct2);
    lemma_atom(p1, dp, b10, ct0);
    lemma_atom(p1, dp, b11, ct1);
    lemma_atom(p1, dp, b12, ct2);
    lemma_atom(p2, dp, b20, ct0);
    lemma_atom(p2, dp, b21, ct1);
    lemma_atom(p2, dp, b22, ct2);
    lemma_neg_prod(b00 * pt0 + b01 * pt1 + b02 * pt2, cden);
    lemma_neg_prod(b10 * pt0 + b11 * pt1 + b12 * pt2, cden);
    lemma_neg_prod(b20 * pt0 + b21 * pt1 + b22 * pt2, cden);
    lemma_neg_prod(p0, (b00 * pt0 + b01 * pt1 + b02 * pt2) * cden);
    lemma_neg_prod(p1, (b10 * pt0 + b11 * pt1 + b12 * pt2) * cden);
    lemma_neg_prod(p2, (b20 * pt0 + b21 * pt1 + b22 * pt2) * cden);
    lemma_factor3(b00 * pt0, b01 * pt1, b02 * pt2, cden);
    lemma_factor3(b10 * pt0, b11 * pt1, b12 * pt2, cden);
    lemma_factor3(b20 * pt0, b21 * pt1, b22 * pt2, cden);
    lemma_distrib3(p0, (b00 * pt0) * cden, (b01 * pt1) * cden, (b02 * pt2) * cden);
    lemma_distrib3(p1, (b10 * pt0) * cden, (b11 * pt1) * cden, (b12 * pt2) * cden);
    lemma_distrib3(p2, (b20 * pt0) * cden, (b21 * pt1) * cden, (b22 * pt2) * cden);
    lemma_atom(p0, pt0, b00, cden);
    lemma_atom(p0, pt1, b01, cden);
    lemma_atom(p0, pt2, b02, cden);
    lemma_atom(p1, pt0, b10, cden);
    lemma_atom(p1, pt1, b11, cden);
    lemma_atom(p1, pt2, b12, cden);
    lemma_atom(p2, pt0, b20, cden);
    lemma_atom(p2, pt1, b21, cden);
    lemma_atom(p2, pt2, b22, cden);
    lemma_factor3(p0 * b00, p1 * b10, p2 * b20, pt0 * cden);
    lemma_factor3(p0 * b01, p1 * b11, p2 * b21, pt1 * cden);
    lemma_factor3(p0 * b02, p1 * b12, p2 * b22, pt2 * cden);
    lemma_factor3(p0 * b00, p1 * b10, p2 * b20, dp * ct0);
    lemma_factor3(p0 * b01, p1 * b11, p2 * b21, dp * ct1);
    lemma_factor3(p0 * b02, p1 * b12, p2 * b22, dp * ct2);
    lemma_prod_perm(pt0, dt, cden);
    lemma_prod_perm(dt, dp, ct0);
}

/// Product rearrangement `a (b c) == c (a b)`.
proof fn lemma_comm3(a: int, b: int, c: int)
    by (nonlinear_arith)
    ensures
        a * (b * c) == c * (a * b),
{
}

/// Negation moves through a product on either side.
proof fn lemma_neg_prod(u: int, v: int)
    by (nonlinear_arith)
    ensures
        u * (-v) == -(u * v),
        (-u) * v == -(u * v),
{
}

/// Cross-multiplication step behind projective equality of a rescaled
/// transform, in the plain and the negated form.
proof fn lemma_rescale_cross(e: int, d: int, s: int)
    by (nonlinear_arith)
    ensures
        (e * s) * d == e * (d * s),
        (-(e * s)) * d == e * (-(d * s)),
{
}

/// A row of three products against negated factors equals the negated row.
proof fn lemma_neg_row(u0: int, u1: int, u2: int, v0: int, v1: int, v2: int)
    by (nonlinear_arith)
    ensures
        u0 * (-v0) + u1 * (-v1) + u2 * (-v2) == -(u0 * v0 + u1 * v1 + u2 * v2),
        (-u0) * v0 + (-u1) * v1 + (-u2) * v2 == -(u0 * v0 + u1 * v1 + u2 * v2),
{
}

/// The four-term variant of `lemma_neg_row`, for translation entries.
proof fn lemma_neg_row4(
    u0: int, u1: int, u2: int, u3: int, v0: int, v1: int, v2: int, v3: int,
)
    by (nonlinear_arith)
    ensures
        u0 * (-v0) + u1 * (-v1) + u2 * (-v2) + u3 * (-v3)
            == -(u0 * v0 + u1 * v1 + u2 * v2 + u3 * v3),
        (-u0) * v0 + (-u1) * v1 + (-u2) * v2 + (-u3) * v3
            == -(u0 * v0 + u1 * v1 + u2 * v2 + u3 * v3),
{
}

/// Negating the right operand of a composition negates the composition.
proof fn lemma_compose_neg_right(a: SpecTransform, b: SpecTransform)
    ensures
        a.compose(b.neg()) == a.compose(b).neg(),
{
    lemma_neg_row(a.xx, a.xy, a.xz, b.xx, b.yx, b.zx);
    lemma_neg_row(a.xx, a.xy, a.xz, b.xy, b.yy, b.zy);
    lemma_neg_row(a.xx, a.xy, a.xz, b.xz, b.yz, b.zz);
    lemma_neg_row(a.yx, a.yy, a.yz, b.xx, b.yx, b.zx);
    lemma_neg_row(a.yx, a.yy, a.yz, b.xy, b.yy, b.zy);
    lemma_neg_row(a.yx, a.yy, a.yz, b.xz, b.yz, b.zz);
    lemma_neg_row(a.zx, a.zy, a.zz, b.xx, b.yx, b.zx);
    lemma_neg_row(a.zx, a.zy, a.zz, b.xy, b.yy, b.zy);
    lemma_neg_row(a.zx, a.zy, a.zz, b.xz, b.yz, b.zz);
    lemma_neg_row4(a.xx, a.xy, a.xz, a.tx, b.tx, b.ty, b.tz, b.den);
    lemma_neg_row4(a.yx, a.yy, a.yz, a.ty, b.tx, b.ty, b.tz, b.den);
    lemma_neg_row4(a.zx, a.zy, a.zz, a.tz, b.tx, b.ty, b.tz, b.den);
    lemma_neg_prod(a.den, b.den);
    assert(a.compose(b.neg()) =~= a.compose(b).neg());
}

/// Negating the left operand of a composition negates the composition.
proof fn lemma_compose_neg_left(a: SpecTransform, b: SpecTransform)
    ensures
        a.neg().compose(b) == a.compose(b).neg(),
{
    lemma_neg_row(a.xx, a.xy, a.xz, b.xx, b.yx, b.zx);
    lemma_neg_row(a.xx, a.xy, a.xz, b.xy, b.yy, b.zy);
    lemma_neg_row(a.xx, a.xy, a.xz, b.xz, b.yz, b.zz);
    lemma_neg_row(a.yx, a.yy, a.yz, b.xx, b.yx, b.zx);
    lemma_neg_row(a.yx, a.yy, a.yz, b.xy, b.yy, b.zy);
    lemma_neg_row(a.yx, a.yy, a.yz, b.xz, b.yz, b.zz);
    lemma_neg_row(a.zx, a.zy, a.zz, b.xx, b.yx, b.zx);
    lemma_neg_row(a.zx, a.zy, a.zz, b.xy, b.yy, b.zy);
    lemma_neg_row(a.zx, a.zy, a.zz, b.xz, b.yz, b.zz);
    lemma_neg_row4(a.xx, a.xy, a.xz, a.tx, b.tx, b.ty, b.tz, b.den);
    lemma_neg_row4(a.yx, a.yy, a.yz, a.ty, b.tx, b.ty, b.tz, b.den);
    lemma_neg_row4(a.zx, a.zy, a.zz, a.tz, b.tx, b.ty, b.tz, b.den);
    lemma_neg_prod(a.den, b.den);
    assert(a.neg().compose(b) =~= a.compose(b).neg());
}

/// A rescaled transform is projectively equal to the original.
proof fn lemma_rescale_equiv(c: SpecTransform, s: int)
    ensures
        c.rescale(s).equiv(c),
{
    lemma_rescale_cross(c.xx, c.den, s);
    lemma_rescale_cross(c.xy, c.den, s);
    lemma_rescale_cross(c.xz, c.den, s);
    lemma_rescale_cross(c.yx, c.den, s);
    lemma_rescale_cross(c.yy, c.den, s);
    lemma_rescale_cross(c.yz, c.den, s);
    lemma_rescale_cross(c.zx, c.den, s);
    lemma_rescale_cross(c.zy, c.den, s);
    lemma_rescale_cross(c.zz, c.den, s);
    lemma_rescale_cross(c.tx, c.den, s);
    lemma_rescale_cross(c.ty, c.den, s);
    lemma_rescale_cross(c.tz, c.den, s);
}

/// A rescaled and then negated transform is still projectively equal to
/// the original.
proof fn lemma_rescale_neg_equiv(c: SpecTransform, s: int)
    ensures
        c.rescale(s).neg().equiv(c),
{
    lemma_rescale_cross(c.xx, c.den, s);
    lemma_rescale_cross(c.xy, c.den, s);
    lemma_rescale_cross(c.xz, c.den, s);
    lemma_rescale_cross(c.yx, c.den, s);
    lemma_rescale_cross(c.yy, c.den, s);
    lemma_rescale_cross(c.yz, c.den, s);
    lemma_rescale_cross(c.zx, c.den, s);
    lemma_rescale_cross(c.zy, c.den, s);
    lemma_rescale_cross(c.zz, c.den, s);
    lemma_rescale_cross(c.tx, c.den, s);
    lemma_rescale_cross(c.ty, c.den, s);
    lemma_rescale_cross(c.tz, c.den, s);
}

/// Composing `P` with `P^-1 C` (inverse before sign normalization) yields
/// `C` with every entry scaled by `den(P) det(P)`.
proof fn lemma_compose_inverse_raw(p: SpecTransform, c: SpecTransform)
    ensures
        p.compose(p.inverse_raw().compose(c)) == c.rescale(p.den * p.det()),
{
    lemma_adj_00(p.xx, p.xy, p.xz, p.yx, p.yy, p.yz, p.zx, p.zy, p.zz);
    lemma_adj_01(p.xx, p.xy, p.xz, p.yx, p.yy, p.yz, p.zx, p.zy, p.zz);
    lemma_adj_02(p.xx, p.xy, p.xz, p.yx, p.yy, p.yz, p.zx, p.zy, p.zz);
    lemma_adj_10(p.xx, p.xy, p.xz, p.yx, p.yy, p.yz, p.zx, p.zy, p.zz);
    lemma_adj_11(p.xx, p.xy, p.xz, p.yx, p.yy, p.yz, p.zx, p.zy, p.zz);
    lemma_adj_12(p.xx, p.xy, p.xz, p.yx, p.yy, p.yz, p.zx, p.zy, p.zz);
    lemma_adj_20(p.xx, p.xy, p.xz, p.yx, p.yy, p.yz, p.zx, p.zy, p.zz);
    lemma_adj_21(p.xx, p.xy, p.xz, p.yx, p.yy, p.yz, p.zx, p.zy, p.zz);
    lemma_adj_22(p.xx, p.xy, p.xz, p.yx, p.yy, p.yz, p.zx, p.zy, p.zz);
    let a00: int = p.yy * p.zz - p.yz * p.zy;
    let a01: int = p.xz * p.zy - p.xy * p.zz;
    let a02: int = p.xy * p.yz - p.xz * p.yy;
    let a10: int = p.yz * p.zx - p.yx * p.zz;
    let a11: int = p.xx * p.zz - p.xz * p.zx;
    let a12: int = p.xz * p.yx - p.xx * p.yz;
    let a20: int = p.yx * p.zy - p.yy * p.zx;
    let a21: int = p.xy * p.zx - p.xx * p.zy;
    let a22: int = p.xx * p.yy - p.xy * p.yx;
    let dt: int = p.det();
    lemma_mix_row(p.xx, p.xy, p.xz, a00, a01, a02, a10, a11, a12, a20, a21, a22,
        c.xx, c.yx, c.zx, p.den, dt);
    lemma_mix_row(p.xx, p.xy, p.xz, a00, a01, a02, a10, a11, a12, a20, a21, a22,
        c.xy, c.yy, c.zy, p.den, dt);
    lemma_mix_row(p.xx, p.xy, p.xz, a00, a01, a02, a10, a11, a12, a20, a21, a22,
        c.xz, c.yz, c.zz, p.den, dt);
    lemma_mix_row(p.yx, p.yy, p.yz, a01, a00, a02, a11, a10, a12, a21, a20, a22,
        c.yx, c.xx, c.zx, p.den, dt);
    lemma_mix_row(p.yx, p.yy, p.yz, a01, a00, a02, a11, a10, a12, a21, a20, a22,
        c.yy, c.xy, c.zy, p.den, dt);
    lemma_mix_row(p.yx, p.yy, p.yz, a01, a00, a02, a11, a10, a12, a21, a20, a22,
        c.yz, c.xz, c.zz, p.den, dt);
    lemma_mix_row(p.zx, p.zy, p.zz, a02, a00, a01, a12, a10, a11, a22, a20, a21,
        c.zx, c.xx, c.yx, p.den, dt);
    lemma_mix_row(p.zx, p.zy, p.zz, a02, a00, a01, a12, a10, a11, a22, a20, a21,
        c.zy, c.xy, c.yy, p.den, dt);
    lemma_mix_row(p.zx, p.zy, p.zz, a02, a00, a01, a12, a10, a11, a22, a20, a21,
        c.zz, c.xz, c.yz, p.den, dt);
    lemma_mix_trans(p.xx, p.xy, p.xz, a00, a01, a02, a10, a11, a12, a20, a21, a22,
        c.tx, c.ty, c.tz, p.tx, p.ty, p.tz, c.den, p.den, dt);
    lemma_mix_trans(p.yx, p.yy, p.yz, a01, a00, a02, a11, a10, a12, a21, a20, a22,
        c.ty, c.tx, c.tz, p.ty, p.tx, p.tz, c.den, p.den, dt);
    lemma_mix_trans(p.zx, p.zy, p.zz, a02, a00, a01, a12, a10, a11, a22, a20, a21,
        c.tz, c.tx, c.ty, p.tz, p.tx, p.ty, c.den, p.den, dt);
    lemma_comm3(p.den, dt, c.den);
    assert(p.compose(p.inverse_raw().compose(c)) =~= c.rescale(p.den * p.det()));
}

/// Attaching never moves the child: the parent's transform composed with
/// the resolved relative transform `P^-1 C` denotes exactly the child's
/// original world transform.
pub proof fn lemma_attachment_preserves_world(p: SpecTransform, c: SpecTransform)
    ensures
        p.compose(p.inverse().compose(c)).equiv(c),
{
    lemma_compose_inverse_raw(p, c);
    if p.det() < 0 {
        lemma_compose_neg_left(p.inverse_raw(), c);
        lemma_compose_neg_right(p, p.inverse_raw().compose(c));
        lemma_rescale_neg_equiv(c, p.den * p.det());
    } else {
        lemma_rescale_equiv(c, p.den * p.det());
    }
}

impl Transform {
    /// All entries within `COORD_LIMIT` and the denominator positive.
    pub open spec fn wf(self) -> bool {
        self@.fits()
    }

    /// The identity transform.
    pub fn identity() -> (r: Transform)
        ensures
            r.wf(),
            r@ == SpecTransform::identity(),
    {
        Transform {
            xx: 1, xy: 0, xz: 0,
            yx: 0, yy: 1, yz: 0,
            zx: 0, zy: 0, zz: 1,
            tx: 0, ty: 0, tz: 0,
            den: 1,
        }
    }

    /// A pure translation by `(x, y, z)`.
    pub fn from_translation(x: i64, y: i64, z: i64) -> (r: Option<Transform>)
        ensures
            r is Some <==> {
                &&& -COORD_LIMIT <= x <= COORD_LIMIT
                &&& -COORD_LIMIT <= y <= COORD_LIMIT
                &&& -COORD_LIMIT <= z <= COORD_LIMIT
            },
            r matches Some(t) ==> {
                &&& t.wf()
                &&& t@ == (SpecTransform { tx: x as int, ty: y as int, tz: z as int, ..SpecTransform::identity() })
            },
    {
        if -COORD_LIMIT <= x && x <= COORD_LIMIT && -COORD_LIMIT <= y && y <= COORD_LIMIT
            && -COORD_LIMIT <= z && z <= COORD_LIMIT {
            Some(Transform {
                xx: 1, xy: 0, xz: 0,
                yx: 0, yy: 1, yz: 0,
                zx: 0, zy: 0, zz: 1,
                tx: x, ty: y, tz: z,
                den: 1,
            })
        } else {
            None
        }
    }

    /// A general transform from its thirteen entries, refused when an
    /// entry is out of range or the denominator is not positive.
    pub fn new(
        xx: i64, xy: i64, xz: i64,
        yx: i64, yy: i64, yz: i64,
        zx: i64, zy: i64, zz: i64,
        tx: i64, ty: i64, tz: i64,
        den: i64,
    ) -> (r: Option<Transform>)
        ensures
            r matches Some(t) ==> {
                &&& t.wf()
                &&& t == (Transform { xx, xy, xz, yx, yy, yz, zx, zy, zz, tx, ty, tz, den })
            },
            r is Some <==> (Transform { xx, xy, xz, yx, yy, yz, zx, zy, zz, tx, ty, tz, den }).wf(),
    {
        let t = Transform { xx, xy, xz, yx, yy, yz, zx, zy, zz, tx, ty, tz, den };
        if t.in_range() {
            Some(t)
        } else {
            None
        }
    }

    /// Runtime check of `wf`.
    fn in_range(&self) -> (r: bool)
        ensures
            r == self.wf(),
    {
        -COORD_LIMIT <= self.xx && self.xx <= COORD_LIMIT
            && -COORD_LIMIT <= self.xy && self.xy <= COORD_LIMIT
            && -COORD_LIMIT <= self.xz && self.xz <= COORD_LIMIT
            && -COORD_LIMIT <= self.yx && self.yx <= COORD_LIMIT
            && -COORD_LIMIT <= self.yy && self.yy <= COORD_LIMIT
            && -COORD_LIMIT <= self.yz && self.yz <= COORD_LIMIT
            && -COORD_LIMIT <= self.zx && self.zx <= COORD_LIMIT
            && -COORD_LIMIT <= self.zy && self.zy <= COORD_LIMIT
            && -COORD_LIMIT <= self.zz && self.zz <= COORD_LIMIT
            && -COORD_LIMIT <= self.tx && self.tx <= COORD_LIMIT
            && -COORD_LIMIT <= self.ty && self.ty <= COORD_LIMIT
            && -COORD_LIMIT <= self.tz && self.tz <= COORD_LIMIT
            && 0 < self.den && self.den <= COORD_LIMIT
    }

    /// Composition `self` after `other`, exact, refused only when an
    /// entry of the exact result is out of range.
    pub fn compose(&self, o: &Transform) -> (r: Result<Transform, TransformError>)
        requires
            self.wf(),
            o.wf(),
        ensures
            r matches Ok(t) ==> t.wf() && t@ == self@.compose(o@),
            r is Ok <==> self@.compose(o@).fits(),
            r matches Err(e) ==> e == TransformError::Overflow,
    {
        let nxx: i128 = mulb(self.xx, o.xx) + mulb(self.xy, o.yx) + mulb(self.xz, o.zx);
        let nxy: i128 = mulb(self.xx, o.xy) + mulb(self.xy, o.yy) + mulb(self.xz, o.zy);
        let nxz: i128 = mulb(self.xx, o.xz) + mulb(self.xy, o.yz) + mulb(self.xz, o.zz);
        let nyx: i128 = mulb(self.yx, o.xx) + mulb(self.yy, o.yx) + mulb(self.yz, o.zx);
        let nyy: i128 = mulb(self.yx, o.xy) + mulb(self.yy, o.yy) + mulb(self.yz, o.zy);
        let nyz: i128 = mulb(self.yx, o.xz) + mulb(self.yy, o.yz) + mulb(self.yz, o.zz);
        let nzx: i128 = mulb(self.zx, o.xx) + mulb(self.zy, o.yx) + mulb(self.zz, o.zx);
        let nzy: i128 = mulb(self.zx, o.xy) + mulb(self.zy, o.yy) + mulb(self.zz, o.zy);
        let nzz: i128 = mulb(self.zx, o.xz) + mulb(self.zy, o.yz) + mulb(self.zz, o.zz);
        let ntx: i128 = mulb(self.xx, o.tx) + mulb(self.xy, o.ty) + mulb(self.xz, o.tz)
            + mulb(self.tx, o.den);
        let nty: i128 = mulb(self.yx, o.tx) + mulb(self.yy, o.ty) + mulb(self.yz, o.tz)
            + mulb(self.ty, o.den);
        let ntz: i128 = mulb(self.zx, o.tx) + mulb(self.zy, o.ty) + mulb(self.zz, o.tz)
            + mulb(self.tz, o.den);
        let nden: i128 = mulb(self.den, o.den);
        build_checked(nxx, nxy, nxz, nyx, nyy, nyz, nzx, nzy, nzz, ntx, nty, ntz, nden,
            Ghost(self@.compose(o@)))
    }

    /// The exact inverse, sign-normalized so the denominator is positive.
    /// Refused when the linear part is singular or an entry of the exact
    /// result is out of range.
    pub fn inverse(&self) -> (r: Result<Transform, TransformError>)
        requires
            self.wf(),
        ensures
            r matches Ok(t) ==> t.wf() && t@ == self@.inverse(),
            r == Err::<Transform, TransformError>(TransformError::NonInvertible)
                <==> self@.det() == 0,
            r is Ok <==> self@.det() != 0 && self@.inverse().fits(),
    {
        let a00: i128 = mulb(self.yy, self.zz) - mulb(self.yz, self.zy);
        let a01: i128 = mulb(self.xz, self.zy) - mulb(self.xy, self.zz);
        let a02: i128 = mulb(self.xy, self.yz) - mulb(self.xz, self.yy);
        let a10: i128 = mulb(self.yz, self.zx) - mulb(self.yx, self.zz);
        let a11: i128 = mulb(self.xx, self.zz) - mulb(self.xz, self.zx);
        let a12: i128 = mulb(self.xz, self.yx) - mulb(self.xx, self.yz);
        let a20: i128 = mulb(self.yx, self.zy) - mulb(self.yy, self.zx);
        let a21: i128 = mulb(self.xy, self.zx) - mulb(self.xx, self.zy);
        let a22: i128 = mulb(self.xx, self.yy) - mulb(self.xy, self.yx);
        let m1: i128 = mulb(self.yx, self.zz) - mulb(self.yz, self.zx);
        let m2: i128 = mulb(self.yx, self.zy) - mulb(self.yy, self.zx);
        let dt: i128 = mulw(self.xx, a00) - mulw(self.xy, m1) + mulw(self.xz, m2);
        if dt == 0 {
            return Err(TransformError::NonInvertible);
        }
        let mut nxx: i128 = mulw(self.den, a00);
        let mut nxy: i128 = mulw(self.den, a01);
        let mut nxz: i128 = mulw(self.den, a02);
        let mut nyx: i128 = mulw(self.den, a10);
        let mut nyy: i128 = mulw(self.den, a11);
        let mut nyz: i128 = mulw(self.den, a12);
        let mut nzx: i128 = mulw(self.den, a20);
        let mut nzy: i128 = mulw(self.den, a21);
        let mut nzz: i128 = mulw(self.den, a22);
        let mut ntx: i128 = -(mulv(a00, self.tx) + mulv(a01, self.ty) + mulv(a02, self.tz));
        let mut nty: i128 = -(mulv(a10, self.tx) + mulv(a11, self.ty) + mulv(a12, self.tz));
        let mut ntz: i128 = -(mulv(a20, self.tx) + mulv(a21, self.ty) + mulv(a22, self.tz));
        let mut nden: i128 = dt;
        if dt < 0 {
            nxx = -nxx;
            nxy = -nxy;
            nxz = -nxz;
            nyx = -nyx;
            nyy = -nyy;
            nyz = -nyz;
            nzx = -nzx;
            nzy = -nzy;
            nzz = -nzz;
            ntx = -ntx;
            nty = -nty;
            ntz = -ntz;
            nden = -nden;
        }
        let r = build_checked(nxx, nxy, nxz, nyx, nyy, nyz, nzx, nzy, nzz, ntx, nty, ntz,
            nden, Ghost(self@.inverse()));
        proof {
            if !(r is Ok) {
                assert(!self@.inverse().fits());
            }
        }
        r
    }

    /// Projective equality of two transforms: both denote the same map.
    pub fn same_pose(&self, o: &Transform) -> (r: bool)
        requires
            self.wf(),
            o.wf(),
        ensures
            r == self@.equiv(o@),
    {
        mulb(self.xx, o.den) == mulb(o.xx, self.den)
            && mulb(self.xy, o.den) == mulb(o.xy, self.den)
            && mulb(self.xz, o.den) == mulb(o.xz, self.den)
            && mulb(self.yx, o.den) == mulb(o.yx, self.den)
            && mulb(self.yy, o.den) == mulb(o.yy, self.den)
            && mulb(self.yz, o.den) == mulb(o.yz, self.den)
            && mulb(self.zx, o.den) == mulb(o.zx, self.den)
            && mulb(self.zy, o.den) == mulb(o.zy, self.den)
            && mulb(self.zz, o.den) == mulb(o.zz, self.den)
            && mulb(self.tx, o.den) == mulb(o.tx, self.den)
            && mulb(self.ty, o.den) == mulb(o.ty, self.den)
            && mulb(self.tz, o.den) == mulb(o.tz, self.den)
    }
}

/// Whether the resolver can produce the relative transform of `c` with
/// respect to `p`: the inverse exists and both exact results are storable.
pub open spec fn relative_ok(p: SpecTransform, c: SpecTransform) -> bool {
    &&& p.det() != 0
    &&& p.inverse().fits()
    &&& p.inverse().compose(c).fits()
}

/// The transform of `child` expressed in `parent`'s local frame,
/// `parent^-1 child`: re-applied under `parent` it reproduces `child`
/// exactly, so an attached body does not jump.
pub fn relative_transform(parent: &Transform, child: &Transform) -> (r: Result<
    Transform,
    TransformError,
>)
    requires
        parent.wf(),
        child.wf(),
    ensures
        r matches Ok(t) ==> {
            &&& t.wf()
            &&& t@ == parent@.inverse().compose(child@)
            &&& parent@.compose(t@).equiv(child@)
        },
        r == Err::<Transform, TransformError>(TransformError::NonInvertible)
            <==> parent@.det() == 0,
        r is Ok <==> relative_ok(parent@, child@),
        r matches Err(e) ==> (e == TransformError::NonInvertible
            || e == TransformError::Overflow),
{
    proof {
        lemma_attachment_preserves_world(parent@, child@);
    }
    match parent.inverse() {
        Err(e) => Err(e),
        Ok(inv) => match inv.compose(child) {
            Err(e) => Err(e),
            Ok(rel) => Ok(rel),
        },
    }
}

/// Exact product of two in-range numerators, wide enough not to overflow.
fn mulb(a: i64, b: i64) -> (r: i128)
    requires
        -COORD_LIMIT <= a <= COORD_LIMIT,
        -COORD_LIMIT <= b <= COORD_LIMIT,
    ensures
        r == a * b,
        -LIMIT_SQ <= r <= LIMIT_SQ,
{
    proof {
        lemma_bound_prod(a as int, b as int, COORD_LIMIT as int, COORD_LIMIT as int);
    }
    (a as i128) * (b as i128)
}

/// Exact product of an in-range numerator with a cofactor-sized value.
fn mulw(a: i64, v: i128) -> (r: i128)
    requires
        -COORD_LIMIT <= a <= COORD_LIMIT,
        -2 * LIMIT_SQ <= v <= 2 * LIMIT_SQ,
    ensures
        r == a * v,
        -2 * LIMIT_CUBE <= r <= 2 * LIMIT_CUBE,
{
    proof {
        lemma_bound_prod(a as int, v as int, COORD_LIMIT as int, 2 * LIMIT_SQ as int);
    }
    (a as i128) * v
}

/// Exact product of a cofactor-sized value with an in-range numerator.
fn mulv(v: i128, a: i64) -> (r: i128)
    requires
        -2 * LIMIT_SQ <= v <= 2 * LIMIT_SQ,
        -COORD_LIMIT <= a <= COORD_LIMIT,
    ensures
        r == v * a,
        -2 * LIMIT_CUBE <= r <= 2 * LIMIT_CUBE,
{
    proof {
        lemma_bound_prod(v as int, a as int, 2 * LIMIT_SQ as int, COORD_LIMIT as int);
    }
    v * (a as i128)
}

/// A product of values bounded by `ba` and `bb` is bounded by `ba * bb`.
proof fn lemma_bound_prod(a: int, b: int, ba: int, bb: int)
    by (nonlinear_arith)
    requires
        -ba <= a <= ba,
        -bb <= b <= bb,
        0 <= ba,
        0 <= bb,
    ensures
        -(ba * bb) <= a * b <= ba * bb,
{
}

/// Packs thirteen exact entries into a `Transform` when they are all in
/// range and the denominator is positive; `Overflow` otherwise. The ghost
/// argument names the transform the entries are claimed (and checked by
/// the caller's postcondition) to equal.
fn build_checked(
    nxx: i128, nxy: i128, nxz: i128,
    nyx: i128, nyy: i128, nyz: i128,
    nzx: i128, nzy: i128, nzz: i128,
    ntx: i128, nty: i128, ntz: i128,
    nden: i128,
    target: Ghost<SpecTransform>,
) -> (r: Result<Transform, TransformError>)
    requires
        target@.xx == nxx,
        target@.xy == nxy,
        target@.xz == nxz,
        target@.yx == nyx,
        target@.yy == nyy,
        target@.yz == nyz,
        target@.zx == nzx,
        target@.zy == nzy,
        target@.zz == nzz,
        target@.tx == ntx,
        target@.ty == nty,
        target@.tz == ntz,
        target@.den == nden,
    ensures
        r matches Ok(t) ==> t.wf() && t@ == target@,
        r is Ok <==> target@.fits(),
        r matches Err(e) ==> e == TransformError::Overflow,
{
    let lim: i128 = COORD_LIMIT as i128;
    if -lim <= nxx && nxx <= lim && -lim <= nxy && nxy <= lim && -lim <= nxz && nxz <= lim
        && -lim <= nyx && nyx <= lim && -lim <= nyy && nyy <= lim && -lim <= nyz && nyz <= lim
        && -lim <= nzx && nzx <= lim && -lim <= nzy && nzy <= lim && -lim <= nzz && nzz <= lim
        && -lim <= ntx && ntx <= lim && -lim <= nty && nty <= lim && -lim <= ntz && ntz <= lim
        && 0 < nden && nden <= lim {
        let t = Transform {
            xx: nxx as i64, xy: nxy as i64, xz: nxz as i64,
            yx: nyx as i64, yy: nyy as i64, yz: nyz as i64,
            zx: nzx as i64, zy: nzy as i64, zz: nzz as i64,
            tx: ntx as i64, ty: nty as i64, tz: ntz as i64,
            den: nden as i64,
        };
        proof {
            assert(t@ =~= target@);
        }
        Ok(t)
    } else {
        Err(TransformError::Overflow)
    }
}

} // verus!
