//! The vector type, its integer model and its algebra.

use crate::scalar::{
    fx_add, fx_div, fx_mul, fx_neg, fx_sqrt, fx_sub, in_range, lemma_mul_commutes, lemma_mul_neg,
    magnitude, Scalar, RAW_EPSILON, SCALE,
};
use crate::utils::{random_double, random_double_range};
use crate::vector3::normalize::{lemma_unit_length, nearly_unit, well_scaled};
use core::ops::Neg;
use vstd::prelude::*;
use vstd::std_specs::ops::MulSpec;

verus! {

/// The model of a vector: the views of its three components.
pub struct V3 {
    pub x: int,
    pub y: int,
    pub z: int,
}

impl V3 {
    /// All three components are representable.
    pub open spec fn in_range(self) -> bool {
        in_range(self.x) && in_range(self.y) && in_range(self.z)
    }

    /// Component-wise sum.
    pub open spec fn plus(self, o: V3) -> V3 {
        V3 { x: fx_add(self.x, o.x), y: fx_add(self.y, o.y), z: fx_add(self.z, o.z) }
    }

    /// Component-wise difference.
    pub open spec fn minus(self, o: V3) -> V3 {
        V3 { x: fx_sub(self.x, o.x), y: fx_sub(self.y, o.y), z: fx_sub(self.z, o.z) }
    }

    /// Component-wise product.
    pub open spec fn times(self, o: V3) -> V3 {
        V3 { x: fx_mul(self.x, o.x), y: fx_mul(self.y, o.y), z: fx_mul(self.z, o.z) }
    }

    /// Component-wise quotient.
    pub open spec fn over(self, o: V3) -> V3 {
        V3 { x: fx_div(self.x, o.x), y: fx_div(self.y, o.y), z: fx_div(self.z, o.z) }
    }

    /// Every component multiplied by `k`.
    pub open spec fn scaled(self, k: int) -> V3 {
        V3 { x: fx_mul(self.x, k), y: fx_mul(self.y, k), z: fx_mul(self.z, k) }
    }

    /// Every component divided by `k`.
    pub open spec fn shrunk(self, k: int) -> V3 {
        V3 { x: fx_div(self.x, k), y: fx_div(self.y, k), z: fx_div(self.z, k) }
    }

    /// Every component negated.
    pub open spec fn negated(self) -> V3 {
        V3 { x: fx_neg(self.x), y: fx_neg(self.y), z: fx_neg(self.z) }
    }

    /// Dot product, summed from the first component to the last.
    pub open spec fn dot(self, o: V3) -> int {
        fx_add(fx_add(fx_mul(self.x, o.x), fx_mul(self.y, o.y)), fx_mul(self.z, o.z))
    }

    /// Cross product.
    pub open spec fn cross(self, o: V3) -> V3 {
        V3 {
            x: fx_sub(fx_mul(self.y, o.z), fx_mul(self.z, o.y)),
            y: fx_sub(fx_mul(self.z, o.x), fx_mul(self.x, o.z)),
            z: fx_sub(fx_mul(self.x, o.y), fx_mul(self.y, o.x)),
        }
    }

    /// Squared Euclidean length.
    pub open spec fn length_squared(self) -> int {
        self.dot(self)
    }

    /// Euclidean length.
    pub open spec fn length(self) -> int {
        fx_sqrt(self.length_squared())
    }

    /// The vector divided by its own length.
    pub open spec fn unit(self) -> V3 {
        self.shrunk(self.length())
    }

    /// Every component is smaller in magnitude than the vanishing threshold.
    pub open spec fn near_zero(self) -> bool {
        magnitude(self.x) < RAW_EPSILON && magnitude(self.y) < RAW_EPSILON && magnitude(self.z)
            < RAW_EPSILON
    }

    /// Mirror image of `self` about the plane with normal `n`:
    /// `self - (2 * dot(self, n)) * n`.
    pub open spec fn reflect(self, n: V3) -> V3 {
        self.minus(n.scaled(fx_mul(2 * SCALE, self.dot(n))))
    }
}

/// A vector of three scalars.
#[derive(Debug, Copy, Clone, PartialEq, Eq, Structural)]
pub struct Vec3 {
    pub x: Scalar,
    pub y: Scalar,
    pub z: Scalar,
}

/// A position in space.
pub type Point3 = Vec3;

/// A colour, with red, green and blue in `x`, `y` and `z`.
pub type Color = Vec3;

/// Names of the three components.
#[derive(Debug, Copy, Clone, PartialEq, Eq, Structural)]
pub enum Vector3 {
    X,
    Y,
    Z,
}

impl View for Vec3 {
    type V = V3;

    open spec fn view(&self) -> V3 {
        V3 { x: self.x@, y: self.y@, z: self.z@ }
    }
}

impl Vec3 {
    /// The vector whose view is `v`, for `v` in range.
    pub open spec fn of(v: V3) -> Vec3 {
        Vec3 { x: Scalar::of(v.x), y: Scalar::of(v.y), z: Scalar::of(v.z) }
    }

    /// Vectors with equal views are equal.
    pub proof fn lemma_view_injective(a: Vec3, b: Vec3)
        requires
            a@ == b@,
        ensures
            a == b,
    {
        Scalar::lemma_view_injective(a.x, b.x);
        Scalar::lemma_view_injective(a.y, b.y);
        Scalar::lemma_view_injective(a.z, b.z);
    }

    /// A vector is determined by its view.
    pub proof fn lemma_view_of(v: Vec3)
        ensures
            Vec3::of(v@) == v,
    {
        Scalar::lemma_view_of(v.x);
        Scalar::lemma_view_of(v.y);
        Scalar::lemma_view_of(v.z);
    }

    /// `of` and the view are inverse to each other on representable models.
    pub proof fn lemma_of_view(v: V3)
        requires
            v.in_range(),
        ensures
            Vec3::of(v)@ == v,
    {
        Scalar::lemma_of_view(v.x);
        Scalar::lemma_of_view(v.y);
        Scalar::lemma_of_view(v.z);
    }

    /// The vector with the given components.
    pub fn new(x: Scalar, y: Scalar, z: Scalar) -> (v: Vec3)
        ensures
            v == (Vec3 { x, y, z }),
    {
        Vec3 { x, y, z }
    }

    /// The vector with all components zero.
    pub fn zero() -> (v: Vec3)
        ensures
            v@ == (V3 { x: 0, y: 0, z: 0 }),
    {
        Vec3 { x: Scalar::zero(), y: Scalar::zero(), z: Scalar::zero() }
    }

    /// First component.
    pub fn x(&self) -> (r: Scalar)
        ensures
            r == self.x,
    {
        self.x
    }

    /// Second component.
    pub fn y(&self) -> (r: Scalar)
        ensures
            r == self.y,
    {
        self.y
    }

    /// Third component.
    pub fn z(&self) -> (r: Scalar)
        ensures
            r == self.z,
    {
        self.z
    }

    /// Squared Euclidean length.
    pub fn length_squared(&self) -> (r: Scalar)
        ensures
            r@ == self@.length_squared(),
    {
        self.x * self.x + self.y * self.y + self.z * self.z
    }

    /// Euclidean length.
    pub fn length(&self) -> (r: Scalar)
        ensures
            r@ == self@.length(),
    {
        self.length_squared().sqrt()
    }

    /// Dot product with `v`.
    pub fn dot(&self, v: &Vec3) -> (r: Scalar)
        ensures
            r@ == self@.dot(v@),
    {
        self.x * v.x + self.y * v.y + self.z * v.z
    }

    /// Cross product with `v`.
    pub fn cross(&self, v: &Vec3) -> (r: Vec3)
        ensures
            r@ == self@.cross(v@),
    {
        Vec3 {
            x: (self.y * v.z) - (self.z * v.y),
            y: (self.z * v.x) - (self.x * v.z),
            z: (self.x * v.y) - (self.y * v.x),
        }
    }

    /// `v` divided by its own length. For a well-scaled vector the result
    /// has length one up to a millionth. A vector whose length rounds to
    /// zero is divided by zero: its zero components stay zero and the others
    /// go to the ends of the range.
    pub fn unit_vector(v: Vec3) -> (r: Vec3)
        ensures
            r@ == v@.unit(),
            well_scaled(v@) ==> nearly_unit(r@),
    {
        proof {
            if well_scaled(v@) {
                lemma_unit_length(v@);
            }
        }
        v / v.length()
    }

    /// A vector whose components are random scalars in `[0, 1)`.
    pub fn random() -> (v: Vec3)
        ensures
            0 <= v@.x < SCALE,
            0 <= v@.y < SCALE,
            0 <= v@.z < SCALE,
    {
        Vec3 { x: random_double(), y: random_double(), z: random_double() }
    }

    /// A vector whose components are random scalars in `[min, max)`, for a
    /// non-empty range.
    pub fn rand_range(min: Scalar, max: Scalar) -> (v: Vec3)
        requires
            min@ < max@,
        ensures
            min@ <= v@.x < max@,
            min@ <= v@.y < max@,
            min@ <= v@.z < max@,
    {
        Vec3 {
            x: random_double_range(min, max),
            y: random_double_range(min, max),
            z: random_double_range(min, max),
        }
    }

    /// Whether every component is smaller in magnitude than the vanishing
    /// threshold.
    pub fn near_zero(&self) -> (r: bool)
        ensures
            r == self@.near_zero(),
    {
        self.x.abs() < Scalar::epsilon() && self.y.abs() < Scalar::epsilon() && self.z.abs()
            < Scalar::epsilon()
    }
}

impl core::ops::Add for Vec3 {
    type Output = Vec3;

    /// Component-wise sum.
    fn add(self, other: Vec3) -> (r: Vec3)
        ensures
            r@ == self@.plus(other@),
    {
        Vec3 { x: self.x + other.x, y: self.y + other.y, z: self.z + other.z }
    }
}

impl vstd::std_specs::ops::AddSpecImpl for Vec3 {
    open spec fn obeys_add_spec() -> bool {
        true
    }

    open spec fn add_req(self, rhs: Vec3) -> bool {
        true
    }

    open spec fn add_spec(self, rhs: Vec3) -> Vec3 {
        Vec3::of(self@.plus(rhs@))
    }
}

impl core::ops::Sub for Vec3 {
    type Output = Vec3;

    /// Component-wise difference.
    fn sub(self, other: Vec3) -> (r: Vec3)
        ensures
            r@ == self@.minus(other@),
    {
        Vec3 { x: self.x - other.x, y: self.y - other.y, z: self.z - other.z }
    }
}

impl vstd::std_specs::ops::SubSpecImpl for Vec3 {
    open spec fn obeys_sub_spec() -> bool {
        true
    }

    open spec fn sub_req(self, rhs: Vec3) -> bool {
        true
    }

    open spec fn sub_spec(self, rhs: Vec3) -> Vec3 {
        Vec3::of(self@.minus(rhs@))
    }
}

impl core::ops::Neg for Vec3 {
    type Output = Vec3;

    /// Every component negated.
    fn neg(self) -> (r: Vec3)
        ensures
            r@ == self@.negated(),
    {
        Vec3 { x: self.x.neg(), y: self.y.neg(), z: self.z.neg() }
    }
}

impl vstd::std_specs::ops::NegSpecImpl for Vec3 {
    open spec fn obeys_neg_spec() -> bool {
        true
    }

    open spec fn neg_req(self) -> bool {
        true
    }

    open spec fn neg_spec(self) -> Vec3 {
        Vec3::of(self@.negated())
    }
}

impl core::ops::Mul<Vec3> for Vec3 {
    type Output = Vec3;

    /// Component-wise product.
    fn mul(self, other: Vec3) -> (r: Vec3)
        ensures
            r@ == self@.times(other@),
    {
        Vec3 { x: self.x * other.x(), y: self.y * other.y(), z: self.z * other.z() }
    }
}

impl vstd::std_specs::ops::MulSpecImpl<Vec3> for Vec3 {
    open spec fn obeys_mul_spec() -> bool {
        true
    }

    open spec fn mul_req(self, rhs: Vec3) -> bool {
        true
    }

    open spec fn mul_spec(self, rhs: Vec3) -> Vec3 {
        Vec3::of(self@.times(rhs@))
    }
}

impl core::ops::Mul<Scalar> for Vec3 {
    type Output = Vec3;

    /// Every component multiplied by `other`.
    fn mul(self, other: Scalar) -> (r: Vec3)
        ensures
            r@ == self@.scaled(other@),
    {
        Vec3 { x: self.x * other, y: self.y * other, z: self.z * other }
    }
}

impl vstd::std_specs::ops::MulSpecImpl<Scalar> for Vec3 {
    open spec fn obeys_mul_spec() -> bool {
        true
    }

    open spec fn mul_req(self, rhs: Scalar) -> bool {
        true
    }

    open spec fn mul_spec(self, rhs: Scalar) -> Vec3 {
        Vec3::of(self@.scaled(rhs@))
    }
}

impl core::ops::Mul<Vec3> for Scalar {
    type Output = Vec3;

    /// Every component of `other` multiplied by `self`.
    fn mul(self, other: Vec3) -> (r: Vec3)
        ensures
            r@ == other@.scaled(self@),
    {
        proof {
            lemma_mul_commutes(self@, other.x@);
            lemma_mul_commutes(self@, other.y@);
            lemma_mul_commutes(self@, other.z@);
        }
        Vec3 { x: self * other.x, y: self * other.y, z: self * other.z }
    }
}

impl vstd::std_specs::ops::MulSpecImpl<Vec3> for Scalar {
    open spec fn obeys_mul_spec() -> bool {
        true
    }

    open spec fn mul_req(self, rhs: Vec3) -> bool {
        true
    }

    open spec fn mul_spec(self, rhs: Vec3) -> Vec3 {
        Vec3::of(rhs@.scaled(self@))
    }
}

impl core::ops::Div<Vec3> for Vec3 {
    type Output = Vec3;

    /// Component-wise quotient.
    fn div(self, v: Vec3) -> (r: Vec3)
        ensures
            r@ == self@.over(v@),
    {
        Vec3 { x: self.x / v.x, y: self.y / v.y, z: self.z / v.z }
    }
}

impl vstd::std_specs::ops::DivSpecImpl<Vec3> for Vec3 {
    open spec fn obeys_div_spec() -> bool {
        true
    }

    open spec fn div_req(self, rhs: Vec3) -> bool {
        true
    }

    open spec fn div_spec(self, rhs: Vec3) -> Vec3 {
        Vec3::of(self@.over(rhs@))
    }
}

impl core::ops::Div<Scalar> for Vec3 {
    type Output = Vec3;

    /// Every component divided by `rhs`.
    fn div(self, rhs: Scalar) -> (r: Vec3)
        ensures
            r@ == self@.shrunk(rhs@),
    {
        Vec3 { x: self.x / rhs, y: self.y / rhs, z: self.z / rhs }
    }
}

impl vstd::std_specs::ops::DivSpecImpl<Scalar> for Vec3 {
    open spec fn obeys_div_spec() -> bool {
        true
    }

    open spec fn div_req(self, rhs: Scalar) -> bool {
        true
    }

    open spec fn div_spec(self, rhs: Scalar) -> Vec3 {
        Vec3::of(self@.shrunk(rhs@))
    }
}

impl core::ops::AddAssign for Vec3 {
    /// Adds `other` to `self`, component by component.
    fn add_assign(&mut self, other: Vec3)
        ensures
            final(self)@ == old(self)@.plus(other@),
    {
        *self = Vec3 { x: self.x + other.x, y: self.y + other.y, z: self.z + other.z };
    }
}

impl core::ops::MulAssign<Scalar> for Vec3 {
    /// Multiplies every component by `rhs`.
    fn mul_assign(&mut self, rhs: Scalar)
        ensures
            final(self)@ == old(self)@.scaled(rhs@),
    {
        self.x = self.x * rhs;
        self.y = self.y * rhs;
        self.z = self.z * rhs;
    }
}

impl core::ops::DivAssign<Scalar> for Vec3 {
    /// Divides every component by `rhs`.
    fn div_assign(&mut self, rhs: Scalar)
        ensures
            final(self)@ == old(self)@.shrunk(rhs@),
    {
        self.x = self.x / rhs;
        self.y = self.y / rhs;
        self.z = self.z / rhs;
    }
}

impl core::ops::Index<Vector3> for Vec3 {
    type Output = Scalar;

    /// The component that `v` names.
    fn index(&self, v: Vector3) -> (r: &Scalar)
        ensures
            *r == match v {
                Vector3::X => self.x,
                Vector3::Y => self.y,
                Vector3::Z => self.z,
            },
    {
        match v {
            Vector3::X => &self.x,
            Vector3::Y => &self.y,
            Vector3::Z => &self.z,
        }
    }
}

impl vstd::std_specs::core::IndexSpecImpl<Vector3> for Vec3 {
    open spec fn index_req(&self, index: &Vector3) -> bool {
        true
    }
}

impl core::ops::IndexMut<Vector3> for Vec3 {
    /// Mutable access to the component that `index` names; the other two
    /// components keep their values.
    fn index_mut(&mut self, index: Vector3) -> (r: &mut Scalar)
        ensures
            *r == match index {
                Vector3::X => old(self).x,
                Vector3::Y => old(self).y,
                Vector3::Z => old(self).z,
            },
            *final(self) == match index {
                Vector3::X => (Vec3 { x: *final(r), y: old(self).y, z: old(self).z }),
                Vector3::Y => (Vec3 { x: old(self).x, y: *final(r), z: old(self).z }),
                Vector3::Z => (Vec3 { x: old(self).x, y: old(self).y, z: *final(r) }),
            },
    {
        match index {
            Vector3::X => &mut self.x,
            Vector3::Y => &mut self.y,
            Vector3::Z => &mut self.z,
        }
    }
}

/// The dot product does not depend on the order of its arguments.
pub proof fn lemma_dot_commutes(a: V3, b: V3)
    ensures
        a.dot(b) == b.dot(a),
{
    lemma_mul_commutes(a.x, b.x);
    lemma_mul_commutes(a.y, b.y);
    lemma_mul_commutes(a.z, b.z);
}

/// Negating a representable vector negates its dot product with any other.
pub proof fn lemma_dot_neg(a: V3, b: V3)
    requires
        a.in_range(),
    ensures
        a.negated().dot(b) == -a.dot(b),
        b.dot(a.negated()) == -b.dot(a),
{
    lemma_mul_neg(a.x, b.x);
    lemma_mul_neg(a.y, b.y);
    lemma_mul_neg(a.z, b.z);
    lemma_dot_commutes(a.negated(), b);
    lemma_dot_commutes(a, b);
}

/// Multiplying a vector by a scalar gives the same vector from either side.
pub proof fn lemma_scaling_commutes(k: Scalar, v: Vec3)
    ensures
        k.mul_spec(v) == v.mul_spec(k),
{
}

/// A representable vector and its negation have the same squared length.
pub proof fn lemma_length_squared_neg(a: V3)
    requires
        a.in_range(),
    ensures
        a.negated().length_squared() == a.length_squared(),
{
    lemma_mul_neg(a.x, -a.x);
    lemma_mul_neg(a.y, -a.y);
    lemma_mul_neg(a.z, -a.z);
    lemma_mul_commutes(a.x, -a.x);
    lemma_mul_commutes(a.y, -a.y);
    lemma_mul_commutes(a.z, -a.z);
    lemma_mul_neg(a.x, a.x);
    lemma_mul_neg(a.y, a.y);
    lemma_mul_neg(a.z, a.z);
}

/// The vectors that lie strictly inside the unit ball.
pub open spec fn inside_unit_ball(p: V3) -> bool {
    p.in_range() && p.length_squared() < SCALE
}

/// The directions that normalising a point inside the unit ball can give.
pub open spec fn is_unit_sample(u: V3) -> bool {
    exists|p: V3| inside_unit_ball(p) && u == #[trigger] p.unit()
}

/// Number of candidate points that [`random_in_unit_sphere`] draws before it
/// settles for the centre of the ball.
pub const SAMPLING_ATTEMPTS: u32 = 128;

/// A random point strictly inside the unit ball, found by drawing points of
/// the enclosing cube until one falls inside. After
/// [`SAMPLING_ATTEMPTS`] rejected candidates the centre of the ball is
/// returned.
pub fn random_in_unit_sphere() -> (p: Vec3)
    ensures
        inside_unit_ball(p@),
{
    let mut attempt: u32 = 0;
    while attempt < SAMPLING_ATTEMPTS
        invariant
            attempt <= SAMPLING_ATTEMPTS,
        decreases SAMPLING_ATTEMPTS - attempt,
    {
        let p: Vec3 = Vec3::rand_range(Scalar::from_int(-1), Scalar::from_int(1));
        if p.length_squared() < Scalar::one() {
            return p;
        }
        attempt = attempt + 1;
    }
    Vec3::zero()
}

/// A random direction: a point drawn inside the unit ball, normalised.
pub fn random_unit_vector() -> (u: Vec3)
    ensures
        is_unit_sample(u@),
{
    Vec3::unit_vector(random_in_unit_sphere())
}

/// `p` itself when it points into the half-space of `normal`, else its
/// negation.
pub open spec fn toward(p: V3, normal: V3) -> V3 {
    if p.dot(normal) > 0 {
        p
    } else {
        p.negated()
    }
}

/// `p` itself when it points into the half-space of `normal`, else its
/// negation.
pub fn turn_toward(p: Vec3, normal: &Vec3) -> (q: Vec3)
    ensures
        q@ == toward(p@, normal@),
        q@.dot(normal@) >= 0,
        q@.length_squared() == p@.length_squared(),
{
    proof {
        use_type_invariant(&p.x);
        use_type_invariant(&p.y);
        use_type_invariant(&p.z);
        lemma_dot_neg(p@, normal@);
        lemma_length_squared_neg(p@);
    }
    if Vec3::dot(&p, normal) > Scalar::zero() {
        p
    } else {
        p.neg()
    }
}

/// A random point inside the unit ball on the side that `normal` points to.
pub fn random_in_hemisphere(normal: &Vec3) -> (p: Vec3)
    ensures
        inside_unit_ball(p@),
        p@.dot(normal@) >= 0,
        exists|q: V3| inside_unit_ball(q) && p@ == #[trigger] toward(q, normal@),
{
    let in_unit_sphere: Vec3 = random_in_unit_sphere();
    turn_toward(in_unit_sphere, normal)
}

/// Mirror image of `v` about the plane with normal `n`.
pub fn reflect(v: &Vec3, n: &Vec3) -> (r: Vec3)
    ensures
        r@ == v@.reflect(n@),
{
    *v - Scalar::from_int(2) * (*v).dot(n) * *n
}

} // verus!
