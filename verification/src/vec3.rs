//! Three- and four-component fixed-point vectors.
//!
//! `Vec3f` carries points, directions and linear RGB colors; `Vec4f`
//! carries the four albedo weights of a material.  Each executable
//! operation is pinned to a spec-level counterpart over the ghost
//! models `V3` and `V4`, whose components are the underlying bit
//! counts as mathematical integers.

use vstd::prelude::*;
use crate::fixed::{
    Fix, fadd, fsub, fneg, fmul, fdiv, fsqrt, BOUND, lemma_fmul_self_nonneg,
    lemma_fsqrt_is_isqrt, SCALE,
};

verus! {

/// Ghost model of a three-component vector: bit counts as integers.
pub struct V3 {
    pub x: int,
    pub y: int,
    pub z: int,
}

/// Ghost model of a four-component vector.
pub struct V4 {
    pub x: int,
    pub y: int,
    pub z: int,
    pub t: int,
}

/// The zero vector.
pub open spec fn zero3() -> V3 {
    V3 { x: 0, y: 0, z: 0 }
}

/// Every component lies in the saturation range.
pub open spec fn wf3(v: V3) -> bool {
    &&& -(BOUND as int) <= v.x <= BOUND as int
    &&& -(BOUND as int) <= v.y <= BOUND as int
    &&& -(BOUND as int) <= v.z <= BOUND as int
}

/// Every component lies in the saturation range.
pub open spec fn wf4(v: V4) -> bool {
    &&& -(BOUND as int) <= v.x <= BOUND as int
    &&& -(BOUND as int) <= v.y <= BOUND as int
    &&& -(BOUND as int) <= v.z <= BOUND as int
    &&& -(BOUND as int) <= v.t <= BOUND as int
}

/// Componentwise sum.
pub open spec fn add3(a: V3, b: V3) -> V3 {
    V3 { x: fadd(a.x, b.x), y: fadd(a.y, b.y), z: fadd(a.z, b.z) }
}

/// Componentwise difference.
pub open spec fn sub3(a: V3, b: V3) -> V3 {
    V3 { x: fsub(a.x, b.x), y: fsub(a.y, b.y), z: fsub(a.z, b.z) }
}

/// Componentwise negation.
pub open spec fn neg3(a: V3) -> V3 {
    V3 { x: fneg(a.x), y: fneg(a.y), z: fneg(a.z) }
}

/// Scalar multiple.
pub open spec fn scale3(v: V3, k: int) -> V3 {
    V3 { x: fmul(v.x, k), y: fmul(v.y, k), z: fmul(v.z, k) }
}

/// Dot product, accumulated left to right.
pub open spec fn dot3(a: V3, b: V3) -> int {
    fadd(fadd(fmul(a.x, b.x), fmul(a.y, b.y)), fmul(a.z, b.z))
}

/// Euclidean norm: fixed-point square root of the dot square.
pub open spec fn norm3(v: V3) -> int {
    fsqrt(dot3(v, v))
}

/// Unit vector in the direction of `v`; the zero vector when the
/// computed norm is zero, so no division by zero ever arises.
pub open spec fn normalize3(v: V3) -> V3 {
    let n = norm3(v);
    if n == 0 {
        zero3()
    } else {
        V3 { x: fdiv(v.x, n), y: fdiv(v.y, n), z: fdiv(v.z, n) }
    }
}

/// Component `i` of the model (0, 1, 2 for x, y, z).
pub open spec fn index3(v: V3, i: int) -> int {
    if i == 0 {
        v.x
    } else if i == 1 {
        v.y
    } else {
        v.z
    }
}

/// Component `i` of the model (0, 1, 2, 3 for x, y, z, t).
pub open spec fn index4(v: V4, i: int) -> int {
    if i == 0 {
        v.x
    } else if i == 1 {
        v.y
    } else if i == 2 {
        v.z
    } else {
        v.t
    }
}

/// A dot square is never negative.
pub proof fn lemma_dot_self_nonneg(v: V3)
    ensures
        dot3(v, v) >= 0,
{
    lemma_fmul_self_nonneg(v.x);
    lemma_fmul_self_nonneg(v.y);
    lemma_fmul_self_nonneg(v.z);
}

/// The exact analogue of `dot(v, v) == norm(v)^2` under an integer
/// square root: the norm is the largest bit count whose square does
/// not exceed the rescaled dot square, so the two determine each
/// other up to one rounding step.
pub proof fn lemma_norm_squares_dot(v: V3)
    ensures
        norm3(v) >= 0,
        norm3(v) * norm3(v) <= dot3(v, v) * (SCALE as int),
        dot3(v, v) == 0 ==> norm3(v) == 0,
        dot3(v, v) > 0 ==> dot3(v, v) * (SCALE as int) < (norm3(v) + 1) * (norm3(v) + 1),
{
    lemma_dot_self_nonneg(v);
    if dot3(v, v) > 0 {
        lemma_fsqrt_is_isqrt(dot3(v, v));
    } else {
        assert(norm3(v) == 0);
    }
}

/// Normalizing a vector of zero norm yields the zero vector: the
/// defined fallback in place of a division by zero.
pub proof fn lemma_normalize_zero(v: V3)
    requires
        norm3(v) == 0,
    ensures
        normalize3(v) == zero3(),
{
}

/// A three-component fixed-point vector.
#[derive(Copy, Clone, Debug, PartialEq, Eq, Structural)]
pub struct Vec3f {
    pub x: Fix,
    pub y: Fix,
    pub z: Fix,
}

/// A four-component fixed-point vector.
#[derive(Copy, Clone, Debug, PartialEq, Eq, Structural)]
pub struct Vec4f {
    pub x: Fix,
    pub y: Fix,
    pub z: Fix,
    pub t: Fix,
}

impl View for Vec3f {
    type V = V3;

    open spec fn view(&self) -> V3 {
        V3 { x: self.x@, y: self.y@, z: self.z@ }
    }
}

impl View for Vec4f {
    type V = V4;

    open spec fn view(&self) -> V4 {
        V4 { x: self.x@, y: self.y@, z: self.z@, t: self.t@ }
    }
}

impl Default for Vec3f {
    /// The zero vector.
    fn default() -> (r: Vec3f)
        ensures
            r@ == zero3(),
            r.wf(),
    {
        Vec3f { x: Fix { bits: 0 }, y: Fix { bits: 0 }, z: Fix { bits: 0 } }
    }
}

impl Vec3f {
    /// Every component lies in the saturation range.
    pub open spec fn wf(self) -> bool {
        wf3(self@)
    }

    /// Build a vector from three scalars.
    pub fn new(x: Fix, y: Fix, z: Fix) -> (r: Vec3f)
        ensures
            r@ == (V3 { x: x@, y: y@, z: z@ }),
    {
        Vec3f { x, y, z }
    }

    /// Componentwise sum.
    pub fn add(self, rhs: Vec3f) -> (r: Vec3f)
        requires
            self.wf(),
            rhs.wf(),
        ensures
            r@ == add3(self@, rhs@),
            r.wf(),
    {
        Vec3f { x: self.x.add(rhs.x), y: self.y.add(rhs.y), z: self.z.add(rhs.z) }
    }

    /// Componentwise difference.
    pub fn sub(self, rhs: Vec3f) -> (r: Vec3f)
        requires
            self.wf(),
            rhs.wf(),
        ensures
            r@ == sub3(self@, rhs@),
            r.wf(),
    {
        Vec3f { x: self.x.sub(rhs.x), y: self.y.sub(rhs.y), z: self.z.sub(rhs.z) }
    }

    /// Componentwise negation.
    pub fn neg(self) -> (r: Vec3f)
        requires
            self.wf(),
        ensures
            r@ == neg3(self@),
            r.wf(),
    {
        Vec3f { x: self.x.neg(), y: self.y.neg(), z: self.z.neg() }
    }

    /// Dot product.
    pub fn dot(self, rhs: Vec3f) -> (r: Fix)
        requires
            self.wf(),
            rhs.wf(),
        ensures
            r@ == dot3(self@, rhs@),
            r.wf(),
    {
        self.x.mul(rhs.x).add(self.y.mul(rhs.y)).add(self.z.mul(rhs.z))
    }

    /// Scalar multiple.
    pub fn mul_num(self, rhs: Fix) -> (r: Vec3f)
        requires
            self.wf(),
            rhs.wf(),
        ensures
            r@ == scale3(self@, rhs@),
            r.wf(),
    {
        Vec3f { x: self.x.mul(rhs), y: self.y.mul(rhs), z: self.z.mul(rhs) }
    }

    /// Euclidean norm.
    pub fn norm(&self) -> (r: Fix)
        requires
            self.wf(),
        ensures
            r@ == norm3(self@),
            r.wf(),
            r@ >= 0,
    {
        proof {
            lemma_dot_self_nonneg(self@);
        }
        let d: Fix = self.dot(*self);
        d.sqrt()
    }

    /// Unit vector in this direction, or the zero vector when the
    /// computed norm is zero.
    pub fn normalize(&self) -> (r: Vec3f)
        requires
            self.wf(),
        ensures
            r@ == normalize3(self@),
            r.wf(),
    {
        let n: Fix = self.norm();
        if n.bits == 0 {
            return Vec3f::default();
        }
        Vec3f { x: self.x.div(n), y: self.y.div(n), z: self.z.div(n) }
    }

    /// Overwrite this vector with another.
    pub fn copy_in(&mut self, other: Vec3f)
        ensures
            *final(self) == other,
    {
        self.x = other.x;
        self.y = other.y;
        self.z = other.z;
    }

    /// Bounds-checked component access: 0, 1, 2 for x, y, z.
    pub fn index(&self, i: usize) -> (r: Fix)
        requires
            i < 3,
        ensures
            r@ == index3(self@, i as int),
    {
        if i == 0 {
            self.x
        } else if i == 1 {
            self.y
        } else {
            self.z
        }
    }
}

impl Vec4f {
    /// Every component lies in the saturation range.
    pub open spec fn wf(self) -> bool {
        wf4(self@)
    }

    /// Build a vector from four scalars.
    pub fn new(x: Fix, y: Fix, z: Fix, t: Fix) -> (r: Vec4f)
        ensures
            r@ == (V4 { x: x@, y: y@, z: z@, t: t@ }),
    {
        Vec4f { x, y, z, t }
    }

    /// Overwrite this vector with another.
    pub fn copy_in(&mut self, other: Vec4f)
        ensures
            *final(self) == other,
    {
        self.x = other.x;
        self.y = other.y;
        self.z = other.z;
        self.t = other.t;
    }

    /// Bounds-checked component access: 0, 1, 2, 3 for x, y, z, t.
    pub fn index(&self, i: usize) -> (r: Fix)
        requires
            i < 4,
        ensures
            r@ == index4(self@, i as int),
    {
        if i == 0 {
            self.x
        } else if i == 1 {
            self.y
        } else if i == 2 {
            self.z
        } else {
            self.t
        }
    }
}

} // verus!
