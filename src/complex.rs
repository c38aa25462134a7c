//! `Complex<T>`: a complex number whose parts are values of a real kind `T`.
use vstd::prelude::*;
use crate::errors::{Error, conversion_error, operator_error};
use crate::kinds::{RealNumerical, SimpleNumerical, VariableType, lawful, width, equal_of, units_view, units_of, lemma_units_view_concat, lemma_units_view_subrange, real_lawful, zero_of, is_zero_of, add_of, sub_of, mul_of, div_of, sqrt_of, atan2_of};
use vstd::slice::slice_subrange;
use crate::unit::BinaryUnit;

verus! {

/// `a + bi`.
#[derive(Clone, Copy, Debug)]
pub struct Complex<T: RealNumerical> {
    a: T,
    b: T,
}

impl<T: RealNumerical> View for Complex<T> {
    type V = (T, T);

    closed spec fn view(&self) -> (T, T) {
        (self.a, self.b)
    }
}

/// `e` reports a complex division by zero.
pub open spec fn zero_divisor_error(e: Error) -> bool {
    match e {
        Error::OperatorError(o, x, Some(y)) => o@ == "/"@ && x@ == "complex"@ && y@ == "zero"@,
        _ => false,
    }
}

/// `c² + d²`, the squared magnitude of `c + di`.
pub open spec fn squared_magnitude<T: SimpleNumerical>(c: T, d: T) -> T {
    add_of(mul_of(c, c), mul_of(d, d))
}

/// The parts of `(a + bi)(c + di) = (ac − bd) + (ad + bc)i`.
pub open spec fn product_parts<T: SimpleNumerical>(x: (T, T), y: (T, T)) -> (T, T) {
    (
        sub_of(mul_of(x.0, y.0), mul_of(x.1, y.1)),
        add_of(mul_of(x.0, y.1), mul_of(x.1, y.0)),
    )
}

/// The parts of `(a + bi) / (c + di) = ((ac + bd) + (bc − ad)i) / (c² + d²)`.
pub open spec fn quotient_parts<T: SimpleNumerical>(x: (T, T), y: (T, T)) -> (T, T) {
    let m = squared_magnitude(y.0, y.1);
    (
        div_of(add_of(mul_of(x.0, y.0), mul_of(x.1, y.1)), m),
        div_of(sub_of(mul_of(x.1, y.0), mul_of(x.0, y.1)), m),
    )
}

impl<T: RealNumerical> Complex<T> {
    /// `a + bi`.
    pub fn new(a: T, b: T) -> (r: Self)
        ensures
            r@ == (a, b),
    {
        Complex { a, b }
    }

    /// The real number `k`, as `k + 0i`.
    pub fn from_real(k: T) -> (r: Self)
        ensures
            real_lawful::<T>() ==> r@ == (k, zero_of::<T>()),
    {
        Complex { a: k, b: T::zero() }
    }

    /// The real part.
    pub fn re(&self) -> (r: T)
        ensures
            r == self@.0,
    {
        self.a
    }

    /// The imaginary part.
    pub fn im(&self) -> (r: T)
        ensures
            r == self@.1,
    {
        self.b
    }

    /// Part-wise sum.
    pub fn add(self, rhs: Self) -> (r: Self)
        ensures
            real_lawful::<T>() ==> r@ == (add_of(self@.0, rhs@.0), add_of(self@.1, rhs@.1)),
    {
        let mut a = self.a;
        a = a.plus(rhs.a);
        let mut b = self.b;
        b = b.plus(rhs.b);
        Complex { a, b }
    }

    /// Part-wise difference.
    pub fn sub(self, rhs: Self) -> (r: Self)
        ensures
            real_lawful::<T>() ==> r@ == (sub_of(self@.0, rhs@.0), sub_of(self@.1, rhs@.1)),
    {
        let mut a = self.a;
        a = a.minus(rhs.a);
        let mut b = self.b;
        b = b.minus(rhs.b);
        Complex { a, b }
    }

    /// The complex product.
    pub fn mul(self, rhs: Self) -> (r: Self)
        ensures
            real_lawful::<T>() ==> r@ == product_parts(self@, rhs@),
    {
        let mut ac = self.a;
        ac = ac.times(rhs.a);
        let mut bd = self.b;
        bd = bd.times(rhs.b);
        let mut ad = self.a;
        ad = ad.times(rhs.b);
        let mut bc = self.b;
        bc = bc.times(rhs.a);
        ac = ac.minus(bd);
        ad = ad.plus(bc);
        Complex { a: ac, b: ad }
    }

    /// `c² + d²` for `self = c + di`.
    pub fn squared_magnitude(&self) -> (r: T)
        ensures
            real_lawful::<T>() ==> r == squared_magnitude(self@.0, self@.1),
    {
        let mut cc = self.a;
        cc = cc.times(self.a);
        let mut dd = self.b;
        dd = dd.times(self.b);
        cc = cc.plus(dd);
        cc
    }

    /// The complex quotient; fails when the divisor's squared magnitude is zero.
    pub fn div(self, rhs: Self) -> (r: Result<Self, Error>)
        ensures
            real_lawful::<T>() ==> match r {
                Ok(q) => !is_zero_of(squared_magnitude(rhs@.0, rhs@.1)) && q@ == quotient_parts(
                    self@,
                    rhs@,
                ),
                Err(e) => is_zero_of(squared_magnitude(rhs@.0, rhs@.1)) && zero_divisor_error(e),
            },
    {
        let m = rhs.squared_magnitude();
        if m.is_zero() {
            return Err(operator_error("/", "complex", Some("zero")));
        }
        let mut ac = self.a;
        ac = ac.times(rhs.a);
        let mut bd = self.b;
        bd = bd.times(rhs.b);
        let mut bc = self.b;
        bc = bc.times(rhs.a);
        let mut ad = self.a;
        ad = ad.times(rhs.b);
        ac = ac.plus(bd);
        bc = bc.minus(ad);
        ac = ac.over(m);
        bc = bc.over(m);
        Ok(Complex { a: ac, b: bc })
    }

    /// The magnitude `sqrt(a² + b²)` and the angle `atan2(b, a)`.
    pub fn polar(&self) -> (r: (T, T))
        ensures
            real_lawful::<T>() ==> r == (sqrt_of(squared_magnitude(self@.0, self@.1)), atan2_of(
                self@.1,
                self@.0,
            )),
    {
        let m = self.squared_magnitude();
        (m.sqrt(), T::atan2(&self.b, &self.a))
    }
}

/// The units of a complex number: those of its real part, then those of its
/// imaginary part.
pub open spec fn complex_units<T: RealNumerical>(z: (T, T)) -> Seq<Seq<u8>> {
    units_of(z.0) + units_of(z.1)
}

impl<T: RealNumerical> VariableType for Complex<T> {
    open spec fn spec_units(&self) -> Seq<Seq<u8>> {
        complex_units(self@)
    }

    /// One unit for each part.
    fn required_units(&self) -> (r: usize)
        ensures
            r == 2,
    {
        2
    }

    /// The units of the real part, then those of the imaginary part.
    fn encode_units(&self) -> (r: Vec<BinaryUnit>)
        ensures
            real_lawful::<T>() ==> units_view(r@) == complex_units(self@),
    {
        let mut out = self.a.encode_units();
        let mut tail = self.b.encode_units();
        let ghost first = out@;
        let ghost second = tail@;
        out.append(&mut tail);
        proof {
            lemma_units_view_concat(first, second);
        }
        out
    }

    /// Two units: the real part's, then the imaginary part's. Succeeds
    /// exactly on the units of some complex number, and then gives it.
    fn decode_units(units: &[BinaryUnit]) -> (r: Result<Self, Error>)
        ensures
            real_lawful::<T>() ==> match r {
                Ok(z) => complex_units(z@) == units_view(units@),
                Err(e) => e is ConversionError && forall|x: Self|
                    #[trigger] complex_units(x@) != units_view(units@),
            },
    {
        let ghost view = units_view(units@);
        if units.len() != 2 {
            proof {
                if real_lawful::<T>() {
                    assert(view.len() == units@.len());
                    assert forall|x: Self| #[trigger] complex_units(x@) != view by {
                        assert(x@.0 == x.a && x@.1 == x.b);
                        assert(units_of(x.a).len() == 1);
                        assert(units_of(x.b).len() == 1);
                    }
                }
            }
            return Err(conversion_error("a complex number takes two units"));
        }
        let first = slice_subrange(units, 0, 1);
        let second = slice_subrange(units, 1, 2);
        proof {
            lemma_units_view_subrange(units@, 0, 1);
            lemma_units_view_subrange(units@, 1, 2);
        }
        let a = match T::decode_units(first) {
            Ok(a) => a,
            Err(e) => {
                proof {
                    if real_lawful::<T>() {
                        assert forall|z: Self| #[trigger] complex_units(z@) != view by {
                            if complex_units(z@) == view {
                                assert(units_of(z.a) =~= view.subrange(0, 1));
                            }
                        }
                    }
                }
                return Err(e);
            },
        };
        let b = match T::decode_units(second) {
            Ok(b) => b,
            Err(e) => {
                proof {
                    if real_lawful::<T>() {
                        assert forall|z: Self| #[trigger] complex_units(z@) != view by {
                            if complex_units(z@) == view {
                                assert(units_of(z.b) =~= view.subrange(1, 2));
                            }
                        }
                    }
                }
                return Err(e);
            },
        };
        let r = Complex { a, b };
        proof {
            if real_lawful::<T>() {
                assert(complex_units(r@) =~= view);
            }
        }
        Ok(r)
    }
}

impl<T: RealNumerical> SimpleNumerical for Complex<T> {
    open spec fn spec_width() -> nat {
        2
    }

    closed spec fn spec_zero() -> Self {
        Complex { a: zero_of::<T>(), b: zero_of::<T>() }
    }

    /// Zero as a divisor: the squared magnitude is zero.
    closed spec fn spec_is_zero(self) -> bool {
        is_zero_of(squared_magnitude(self.a, self.b))
    }

    closed spec fn spec_add(self, rhs: Self) -> Self {
        Complex { a: add_of(self.a, rhs.a), b: add_of(self.b, rhs.b) }
    }

    closed spec fn spec_sub(self, rhs: Self) -> Self {
        Complex { a: sub_of(self.a, rhs.a), b: sub_of(self.b, rhs.b) }
    }

    closed spec fn spec_mul(self, rhs: Self) -> Self {
        let p = product_parts(self@, rhs@);
        Complex { a: p.0, b: p.1 }
    }

    closed spec fn spec_div(self, rhs: Self) -> Self {
        if is_zero_of(squared_magnitude(rhs.a, rhs.b)) {
            self
        } else {
            let q = quotient_parts(self@, rhs@);
            Complex { a: q.0, b: q.1 }
        }
    }

    /// Both parts are equal.
    closed spec fn spec_equals(self, other: Self) -> bool {
        equal_of(self.a, other.a) && equal_of(self.b, other.b)
    }

    fn units_per_value() -> (r: usize)
        ensures
            r == 2,
    {
        2
    }

    fn zero() -> (r: Self)
        ensures
            real_lawful::<T>() ==> r@ == (zero_of::<T>(), zero_of::<T>()),
    {
        Complex { a: T::zero(), b: T::zero() }
    }

    /// Zero as a divisor: the squared magnitude is zero.
    fn is_zero(&self) -> (r: bool)
        ensures
            real_lawful::<T>() ==> r == is_zero_of(squared_magnitude(self@.0, self@.1)),
    {
        self.squared_magnitude().is_zero()
    }

    fn plus(self, rhs: Self) -> (r: Self)
        ensures
            real_lawful::<T>() ==> r@ == (add_of(self@.0, rhs@.0), add_of(self@.1, rhs@.1)),
    {
        self.add(rhs)
    }

    fn minus(self, rhs: Self) -> (r: Self)
        ensures
            real_lawful::<T>() ==> r@ == (sub_of(self@.0, rhs@.0), sub_of(self@.1, rhs@.1)),
    {
        self.sub(rhs)
    }

    fn times(self, rhs: Self) -> (r: Self)
        ensures
            real_lawful::<T>() ==> r@ == product_parts(self@, rhs@),
    {
        self.mul(rhs)
    }

    /// The quotient; a zero divisor leaves the dividend unchanged.
    fn over(self, rhs: Self) -> (r: Self)
        ensures
            real_lawful::<T>() ==> if is_zero_of(squared_magnitude(rhs@.0, rhs@.1)) {
                r@ == self@
            } else {
                r@ == quotient_parts(self@, rhs@)
            },
    {
        match self.div(rhs) {
            Ok(q) => q,
            Err(_) => self,
        }
    }

    /// Both parts are equal.
    fn equals(&self, other: &Self) -> (r: bool)
        ensures
            real_lawful::<T>() ==> r == (equal_of(self@.0, other@.0) && equal_of(self@.1, other@.1)),
    {
        self.a.equals(&other.a) && self.b.equals(&other.b)
    }
}

/// What the operations of complex numbers give, part by part.
pub proof fn lemma_complex_results<T: RealNumerical>(x: Complex<T>, y: Complex<T>)
    ensures
        units_of(x) == complex_units(x@),
        width::<Complex<T>>() == 2,
        zero_of::<Complex<T>>()@ == (zero_of::<T>(), zero_of::<T>()),
        is_zero_of(x) == is_zero_of(squared_magnitude(x@.0, x@.1)),
        add_of(x, y)@ == (add_of(x@.0, y@.0), add_of(x@.1, y@.1)),
        sub_of(x, y)@ == (sub_of(x@.0, y@.0), sub_of(x@.1, y@.1)),
        mul_of(x, y)@ == product_parts(x@, y@),
        div_of(x, y)@ == if is_zero_of(squared_magnitude(y@.0, y@.1)) {
            x@
        } else {
            quotient_parts(x@, y@)
        },
        equal_of(x, y) == (equal_of(x@.0, y@.0) && equal_of(x@.1, y@.1)),
{
}

/// Complex numbers over a lawful real kind are a lawful kind: vectors and
/// matrices of them have the contracts of any lawful kind.
pub proof fn lemma_complex_lawful<T: RealNumerical>()
    requires
        real_lawful::<T>(),
    ensures
        lawful::<Complex<T>>(),
{
    assert forall|x: Complex<T>| #[trigger] units_of(x).len() == width::<Complex<T>>() by {
        assert(units_of(x.a).len() == 1 && units_of(x.b).len() == 1);
    }
    assert forall|x: Complex<T>, y: Complex<T>|
        #[trigger] units_of(x) == #[trigger] units_of(y) implies x == y by {
        if units_of(x) == units_of(y) {
            let u = units_of(x);
            assert(units_of(x.a).len() == 1 && units_of(x.b).len() == 1);
            assert(units_of(y.a).len() == 1 && units_of(y.b).len() == 1);
            assert(units_of(x.a) =~= u.subrange(0, 1));
            assert(units_of(y.a) =~= u.subrange(0, 1));
            assert(units_of(x.b) =~= u.subrange(1, 2));
            assert(units_of(y.b) =~= u.subrange(1, 2));
        }
    }
    assert forall|z: Complex<T>| #[trigger] call_ensures(Complex::<T>::zero, (), z) implies z
        == zero_of::<Complex<T>>() by {
        assert(z@ == (zero_of::<T>(), zero_of::<T>()));
    }
    assert forall|x: Complex<T>, y: Complex<T>, r: Complex<T>| #[trigger]
        call_ensures(Complex::<T>::plus, (x, y), r) implies r == add_of(x, y) by {
        assert(r@ == add_of(x, y)@);
    }
    assert forall|x: Complex<T>, y: Complex<T>, r: Complex<T>| #[trigger]
        call_ensures(Complex::<T>::minus, (x, y), r) implies r == sub_of(x, y) by {
        assert(r@ == sub_of(x, y)@);
    }
    assert forall|x: Complex<T>, y: Complex<T>, r: Complex<T>| #[trigger]
        call_ensures(Complex::<T>::times, (x, y), r) implies r == mul_of(x, y) by {
        assert(r@ == mul_of(x, y)@);
    }
    assert forall|x: Complex<T>, y: Complex<T>, r: Complex<T>| #[trigger]
        call_ensures(Complex::<T>::over, (x, y), r) implies r == div_of(x, y) by {
        assert(r@ == div_of(x, y)@);
    }
}

impl<T: RealNumerical> PartialEq for Complex<T> {
    fn eq(&self, other: &Self) -> (r: bool)
        ensures
            real_lawful::<T>() ==> r == equal_of(*self, *other),
    {
        self.equals(other)
    }
}

impl<T: RealNumerical> vstd::std_specs::cmp::PartialEqSpecImpl for Complex<T> {
    open spec fn obeys_eq_spec() -> bool {
        false
    }

    open spec fn eq_spec(&self, other: &Self) -> bool {
        equal_of(*self, *other)
    }
}

/// Encoding loses nothing: a complex number whose units are those of `z` is
/// `z`, and `z` takes two units.
pub proof fn lemma_complex_round_trip<T: RealNumerical>(z: Complex<T>, w: Complex<T>)
    requires
        real_lawful::<T>(),
        complex_units(w@) == complex_units(z@),
    ensures
        w@ == z@,
        complex_units(z@).len() == 2,
{
    let u = complex_units(z@);
    assert(units_of(w@.0) =~= u.subrange(0, 1));
    assert(units_of(z@.0) =~= u.subrange(0, 1));
    assert(units_of(w@.1) =~= u.subrange(1, 2));
    assert(units_of(z@.1) =~= u.subrange(1, 2));
}
} // verus!
