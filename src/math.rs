//! The arithmetic the simulation is written against. Each operation has a
//! spec counterpart, and each executable method returns exactly what its
//! counterpart names; the contracts of the crate are stated over these
//! counterparts. An implementation fixes what the counterparts are (for
//! single-precision floats: the rounded results), so the only demand on it
//! is that every operation is a function of its arguments.
use vstd::prelude::*;

verus! {

/// The scalar field the simulation computes in.
pub trait Real: Copy + Sized {
    spec fn spec_zero() -> Self;

    spec fn spec_one() -> Self;

    spec fn spec_from_count(n: u64) -> Self;

    spec fn spec_plus(self, o: Self) -> Self;

    spec fn spec_minus(self, o: Self) -> Self;

    spec fn spec_times(self, o: Self) -> Self;

    spec fn spec_over(self, o: Self) -> Self;

    spec fn spec_negated(self) -> Self;

    spec fn spec_absolute(self) -> Self;

    spec fn spec_is_positive(self) -> bool;

    spec fn spec_less_than(self, o: Self) -> bool;

    /// The additive identity.
    fn zero() -> (r: Self)
        ensures
            r == Self::spec_zero(),
    ;

    /// The multiplicative identity.
    fn one() -> (r: Self)
        ensures
            r == Self::spec_one(),
    ;

    /// The value of a count.
    fn from_count(n: u64) -> (r: Self)
        ensures
            r == Self::spec_from_count(n),
    ;

    /// `self + o`.
    fn plus(&self, o: &Self) -> (r: Self)
        ensures
            r == self.spec_plus(*o),
    ;

    /// `self - o`.
    fn minus(&self, o: &Self) -> (r: Self)
        ensures
            r == self.spec_minus(*o),
    ;

    /// `self * o`.
    fn times(&self, o: &Self) -> (r: Self)
        ensures
            r == self.spec_times(*o),
    ;

    /// `self / o`.
    fn over(&self, o: &Self) -> (r: Self)
        ensures
            r == self.spec_over(*o),
    ;

    /// `-self`.
    fn negated(&self) -> (r: Self)
        ensures
            r == self.spec_negated(),
    ;

    /// `|self|`.
    fn absolute(&self) -> (r: Self)
        ensures
            r == self.spec_absolute(),
    ;

    /// Whether the value is strictly greater than zero (false for a value
    /// that is not a number).
    fn is_positive(&self) -> (r: bool)
        ensures
            r == self.spec_is_positive(),
    ;

    /// Whether `self < o`.
    fn less_than(&self, o: &Self) -> (r: bool)
        ensures
            r == self.spec_less_than(*o),
    ;
}

/// A vector of three coordinates over a `Real`.
pub trait Vector: Copy + Sized {
    /// The coordinates' type.
    type Scalar: Real;

    spec fn spec_new(x: Self::Scalar, y: Self::Scalar, z: Self::Scalar) -> Self;

    spec fn spec_x(self) -> Self::Scalar;

    spec fn spec_y(self) -> Self::Scalar;

    spec fn spec_z(self) -> Self::Scalar;

    spec fn spec_plus(self, o: Self) -> Self;

    spec fn spec_minus(self, o: Self) -> Self;

    spec fn spec_negated(self) -> Self;

    spec fn spec_scaled(self, s: Self::Scalar) -> Self;

    spec fn spec_dot(self, o: Self) -> Self::Scalar;

    spec fn spec_cross(self, o: Self) -> Self;

    spec fn spec_magnitude(self) -> Self::Scalar;

    spec fn spec_normalized(self) -> Self;

    /// The vector `(x, y, z)`.
    fn new(x: Self::Scalar, y: Self::Scalar, z: Self::Scalar) -> (r: Self)
        ensures
            r == Self::spec_new(x, y, z),
    ;

    /// First coordinate.
    fn x(&self) -> (r: Self::Scalar)
        ensures
            r == self.spec_x(),
    ;

    /// Second coordinate.
    fn y(&self) -> (r: Self::Scalar)
        ensures
            r == self.spec_y(),
    ;

    /// Third coordinate.
    fn z(&self) -> (r: Self::Scalar)
        ensures
            r == self.spec_z(),
    ;

    /// Sum, coordinate by coordinate.
    fn plus(&self, o: &Self) -> (r: Self)
        ensures
            r == self.spec_plus(*o),
    ;

    /// Difference, coordinate by coordinate.
    fn minus(&self, o: &Self) -> (r: Self)
        ensures
            r == self.spec_minus(*o),
    ;

    /// The opposite vector.
    fn negated(&self) -> (r: Self)
        ensures
            r == self.spec_negated(),
    ;

    /// Every coordinate multiplied by `s`.
    fn scaled(&self, s: &Self::Scalar) -> (r: Self)
        ensures
            r == self.spec_scaled(*s),
    ;

    /// Scalar product.
    fn dot(&self, o: &Self) -> (r: Self::Scalar)
        ensures
            r == self.spec_dot(*o),
    ;

    /// Cross product `self x o`.
    fn cross(&self, o: &Self) -> (r: Self)
        ensures
            r == self.spec_cross(*o),
    ;

    /// The Euclidean length.
    fn magnitude(&self) -> (r: Self::Scalar)
        ensures
            r == self.spec_magnitude(),
    ;

    /// The vector of unit length in the same direction.
    fn normalized(&self) -> (r: Self)
        ensures
            r == self.spec_normalized(),
    ;
}

/// The zero vector.
pub open spec fn zero_vec<V: Vector>() -> V {
    V::spec_new(V::Scalar::spec_zero(), V::Scalar::spec_zero(), V::Scalar::spec_zero())
}

} // verus!
