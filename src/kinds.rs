//! The capability contracts that every value kind meets.
use vstd::prelude::*;
use crate::errors::Error;
use crate::unit::BinaryUnit;

verus! {

/// The bytes of each unit of a sequence.
pub open spec fn units_view(units: Seq<BinaryUnit>) -> Seq<Seq<u8>> {
    units.map_values(|u: BinaryUnit| u@)
}

/// The bytes of units map over concatenation.
pub proof fn lemma_units_view_concat(a: Seq<BinaryUnit>, b: Seq<BinaryUnit>)
    ensures
        units_view(a + b) == units_view(a) + units_view(b),
{
    assert(units_view(a + b) =~= units_view(a) + units_view(b));
}

/// The bytes of a run of units are the run of their bytes.
pub proof fn lemma_units_view_subrange(a: Seq<BinaryUnit>, i: int, j: int)
    requires
        0 <= i <= j <= a.len(),
    ensures
        units_view(a.subrange(i, j)) == units_view(a).subrange(i, j),
{
    assert(units_view(a.subrange(i, j)) =~= units_view(a).subrange(i, j));
}

/// A value kind that can be written to, and read back from, a sequence of
/// binary units.
pub trait VariableType: Sized {
    /// How many units encode this value.
    fn required_units(&self) -> usize;

    /// Writes this value as units.
    fn encode_units(&self) -> Vec<BinaryUnit>;

    /// Reads a value back from units.
    fn decode_units(units: &[BinaryUnit]) -> Result<Self, Error>;

    /// The units that encode this value, as bytes: by default, what
    /// `encode_units` returns for it.
    open spec fn spec_units(&self) -> Seq<Seq<u8>> {
        units_view((choose|r: Vec<BinaryUnit>| call_ensures(Self::encode_units, (self,), r))@)
    }
}

/// An element kind of vectors and matrices: a value kind with the four
/// arithmetic operators, written over a fixed number of units.
pub trait SimpleNumerical: VariableType + Copy {
    /// The number of units that encode each value of the kind.
    fn units_per_value() -> usize;

    fn zero() -> Self;

    fn is_zero(&self) -> bool;

    fn plus(self, rhs: Self) -> Self;

    fn minus(self, rhs: Self) -> Self;

    fn times(self, rhs: Self) -> Self;

    fn over(self, rhs: Self) -> Self;

    /// Value equality of the kind.
    fn equals(&self, other: &Self) -> bool;

    // The results of the operations. By default each is what the operation
    // returns; a kind defined in this library states its own.
    open spec fn spec_width() -> nat {
        (choose|w: usize| call_ensures(Self::units_per_value, (), w)) as nat
    }

    open spec fn spec_zero() -> Self {
        choose|z: Self| call_ensures(Self::zero, (), z)
    }

    open spec fn spec_is_zero(self) -> bool {
        choose|b: bool| call_ensures(Self::is_zero, (&self,), b)
    }

    open spec fn spec_add(self, rhs: Self) -> Self {
        choose|r: Self| call_ensures(Self::plus, (self, rhs), r)
    }

    open spec fn spec_sub(self, rhs: Self) -> Self {
        choose|r: Self| call_ensures(Self::minus, (self, rhs), r)
    }

    open spec fn spec_mul(self, rhs: Self) -> Self {
        choose|r: Self| call_ensures(Self::times, (self, rhs), r)
    }

    open spec fn spec_div(self, rhs: Self) -> Self {
        choose|r: Self| call_ensures(Self::over, (self, rhs), r)
    }

    open spec fn spec_equals(self, other: Self) -> bool {
        choose|b: bool| call_ensures(Self::equals, (&self, &other), b)
    }
}

/// A kind of real numbers, with a square root and an angle function.
pub trait RealNumerical: SimpleNumerical {
    fn sqrt(&self) -> Self;

    /// The angle of the point `(x, y)` from the first axis.
    fn atan2(y: &Self, x: &Self) -> Self;
}

// What the library knows of a kind: the spec functions below name the
// results of its operations, and the `lawful` predicates state the contract
// that a kind meets.

/// The units that encode `x`, as bytes.
pub open spec fn units_of<T: VariableType>(x: T) -> Seq<Seq<u8>> {
    x.spec_units()
}

/// The codec contract: encoding gives `units_of`, `required_units` counts
/// them, and decoding succeeds exactly on the units of some value, giving
/// such a value; it fails with a conversion error otherwise.
pub open spec fn codec_lawful<T: VariableType>() -> bool {
    &&& forall|x: &T, r: Vec<BinaryUnit>| #[trigger]
        call_ensures(T::encode_units, (x,), r) ==> units_view(r@) == units_of(*x)
    &&& forall|x: &T, n: usize| #[trigger]
        call_ensures(T::required_units, (x,), n) ==> n == units_of(*x).len()
    &&& forall|c: &[BinaryUnit], r: Result<T, Error>| #[trigger]
        call_ensures(T::decode_units, (c,), r) ==> match r {
            Ok(v) => units_of(v) == units_view(c@),
            Err(e) => e is ConversionError && forall|u: T|
                #[trigger] units_of(u) != units_view(c@),
        }
}

/// The number of units of each value of `T`.
pub open spec fn width<T: SimpleNumerical>() -> nat {
    T::spec_width()
}

pub open spec fn zero_of<T: SimpleNumerical>() -> T {
    T::spec_zero()
}

pub open spec fn is_zero_of<T: SimpleNumerical>(x: T) -> bool {
    x.spec_is_zero()
}

pub open spec fn add_of<T: SimpleNumerical>(x: T, y: T) -> T {
    x.spec_add(y)
}

pub open spec fn sub_of<T: SimpleNumerical>(x: T, y: T) -> T {
    x.spec_sub(y)
}

pub open spec fn mul_of<T: SimpleNumerical>(x: T, y: T) -> T {
    x.spec_mul(y)
}

pub open spec fn div_of<T: SimpleNumerical>(x: T, y: T) -> T {
    x.spec_div(y)
}

pub open spec fn equal_of<T: SimpleNumerical>(x: T, y: T) -> bool {
    x.spec_equals(y)
}

pub open spec fn sqrt_of<T: RealNumerical>(x: T) -> T {
    choose|r: T| call_ensures(T::sqrt, (&x,), r)
}

pub open spec fn atan2_of<T: RealNumerical>(y: T, x: T) -> T {
    choose|r: T| call_ensures(T::atan2, (&y, &x), r)
}

/// The contract of an element kind: its codec is lawful, every value is
/// written over `width()` units and is determined by them, and each
/// operation is a function of its operands.
pub open spec fn lawful<T: SimpleNumerical>() -> bool {
    &&& codec_lawful::<T>()
    &&& width::<T>() >= 1
    &&& forall|w: usize| #[trigger] call_ensures(T::units_per_value, (), w) ==> w == width::<T>()
    &&& forall|x: T| #[trigger] units_of(x).len() == width::<T>()
    &&& forall|x: T, y: T| #[trigger] units_of(x) == #[trigger] units_of(y) ==> x == y
    &&& forall|z: T| #[trigger] call_ensures(T::zero, (), z) ==> z == zero_of::<T>()
    &&& forall|x: &T, b: bool| #[trigger] call_ensures(T::is_zero, (x,), b) ==> b == is_zero_of(*x)
    &&& forall|x: T, y: T, r: T| #[trigger] call_ensures(T::plus, (x, y), r) ==> r == add_of(x, y)
    &&& forall|x: T, y: T, r: T| #[trigger] call_ensures(T::minus, (x, y), r) ==> r == sub_of(x, y)
    &&& forall|x: T, y: T, r: T| #[trigger] call_ensures(T::times, (x, y), r) ==> r == mul_of(x, y)
    &&& forall|x: T, y: T, r: T| #[trigger] call_ensures(T::over, (x, y), r) ==> r == div_of(x, y)
    &&& forall|x: &T, y: &T, b: bool| #[trigger]
        call_ensures(T::equals, (x, y), b) ==> b == equal_of(*x, *y)
}

/// The contract of a real kind: it is lawful, written over one unit, and its
/// square root and angle are functions of their operands.
pub open spec fn real_lawful<T: RealNumerical>() -> bool {
    &&& lawful::<T>()
    &&& width::<T>() == 1
    &&& forall|x: &T, r: T| #[trigger] call_ensures(T::sqrt, (x,), r) ==> r == sqrt_of(*x)
    &&& forall|y: &T, x: &T, r: T| #[trigger]
        call_ensures(T::atan2, (y, x), r) ==> r == atan2_of(*y, *x)
}

} // verus!
