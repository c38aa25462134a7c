//! `MVector<T>`: an ordered sequence of values of a simple numerical kind.
//! Dimension zero is the error state: every operator rejects it.
use vstd::prelude::*;
use vstd::slice::slice_subrange;
use vstd::string::*;
use crate::bytes::{byte_pow, le_bytes, le_value, lemma_le_bytes_len, lemma_le_value_of_bytes, lemma_le_bytes_of_value};
use crate::errors::{Error, conversion_error, operation_error};
use crate::kinds::{equal_of, RealNumerical, SimpleNumerical, VariableType, units_view, lawful, real_lawful, width, zero_of, is_zero_of, add_of, sub_of, mul_of, div_of, sqrt_of, atan2_of, units_of, lemma_units_view_concat, lemma_units_view_subrange};
use crate::text::{decimal, decimal_text};
use crate::unit::BinaryUnit;
use crate::complex::{Complex, squared_magnitude, quotient_parts, lemma_complex_lawful, lemma_complex_results};
use crate::utility::take_from_vec;

verus! {

/// The units of a vector: its dimension as an unsigned 64-bit header, then
/// the units of each value in order.
pub open spec fn vector_units<T: SimpleNumerical>(s: Seq<T>) -> Seq<Seq<u8>> {
    seq![le_bytes(s.len(), 8)] + concat_units(s)
}

/// The units of a sequence of values, one value after another.
pub open spec fn concat_units<T: VariableType>(s: Seq<T>) -> Seq<Seq<u8>>
    decreases s.len(),
{
    if s.len() == 0 {
        Seq::empty()
    } else {
        concat_units(s.drop_last()) + units_of(s.last())
    }
}

/// Combines two sequences position by position with `f`; where one is
/// longer, its trailing values are kept as they are.
pub open spec fn combined<T>(a: Seq<T>, b: Seq<T>, f: spec_fn(T, T) -> T) -> Seq<T> {
    Seq::new(
        if a.len() >= b.len() {
            a.len()
        } else {
            b.len()
        },
        |i: int|
            if i < a.len() && i < b.len() {
                f(a[i], b[i])
            } else if i < a.len() {
                a[i]
            } else {
                b[i]
            },
    )
}

pub open spec fn vector_sum<T: SimpleNumerical>(a: Seq<T>, b: Seq<T>) -> Seq<T> {
    combined(a, b, |x: T, y: T| add_of(x, y))
}

pub open spec fn vector_difference<T: SimpleNumerical>(a: Seq<T>, b: Seq<T>) -> Seq<T> {
    combined(a, b, |x: T, y: T| sub_of(x, y))
}

/// Each value multiplied by `k`.
pub open spec fn scaled<T: SimpleNumerical>(a: Seq<T>, k: T) -> Seq<T> {
    a.map_values(|x: T| mul_of(x, k))
}

/// Each value divided by `k`.
pub open spec fn divided<T: SimpleNumerical>(a: Seq<T>, k: T) -> Seq<T> {
    a.map_values(|x: T| div_of(x, k))
}

/// The sum of the products of values at equal positions, from the first position on.
pub open spec fn dot_sum<T: SimpleNumerical>(a: Seq<T>, b: Seq<T>) -> T
    decreases a.len(),
{
    if a.len() == 0 || b.len() == 0 {
        zero_of::<T>()
    } else {
        add_of(dot_sum(a.drop_last(), b.drop_last()), mul_of(a.last(), b.last()))
    }
}

/// The sum of the squares, from the first position on.
pub open spec fn sum_squares<T: SimpleNumerical>(a: Seq<T>) -> T
    decreases a.len(),
{
    if a.len() == 0 {
        zero_of::<T>()
    } else {
        add_of(sum_squares(a.drop_last()), mul_of(a.last(), a.last()))
    }
}

/// The three-dimensional cross product.
pub open spec fn cross_product<T: SimpleNumerical>(a: Seq<T>, b: Seq<T>) -> Seq<T> {
    seq![
        sub_of(mul_of(a[1], b[2]), mul_of(a[2], b[1])),
        sub_of(mul_of(a[2], b[0]), mul_of(a[0], b[2])),
        sub_of(mul_of(a[0], b[1]), mul_of(a[1], b[0])),
    ]
}

/// The Euclidean norm: the square root of the sum of squares.
pub open spec fn norm<T: RealNumerical>(a: Seq<T>) -> T {
    sqrt_of(sum_squares(a))
}

/// The sum of the squared magnitudes of complex values, from the first position on.
pub open spec fn sum_squared_magnitudes<T: RealNumerical>(a: Seq<Complex<T>>) -> T
    decreases a.len(),
{
    if a.len() == 0 {
        zero_of::<T>()
    } else {
        add_of(sum_squared_magnitudes(a.drop_last()), squared_magnitude(a.last()@.0, a.last()@.1))
    }
}

/// The Euclidean norm of complex values: the square root of the sum of
/// `re² + im²` over the values.
pub open spec fn complex_norm<T: RealNumerical>(a: Seq<Complex<T>>) -> T {
    sqrt_of(sum_squared_magnitudes(a))
}

/// Equal lengths, and values equal position by position.
pub open spec fn values_equal<T: SimpleNumerical>(a: Seq<T>, b: Seq<T>) -> bool {
    a.len() == b.len() && forall|i: int| 0 <= i < a.len() ==> #[trigger] equal_of(a[i], b[i])
}

/// How a vector of dimension `dim` is named in an error.
pub open spec fn vector_text(dim: nat) -> Seq<char> {
    "vector of dimension "@ + decimal_text(dim)
}

/// `e` reports operator `op` applied to vectors of dimensions `a` and `b`.
pub open spec fn vector_operator_error(e: Error, op: Seq<char>, a: nat, b: nat) -> bool {
    match e {
        Error::OperatorError(o, x, Some(y)) => o@ == op && x@ == vector_text(a) && y@ == vector_text(
            b,
        ),
        _ => false,
    }
}

/// `e` reports operator `op` applied to a vector of dimension `a` and a
/// factor, named `zero` when it is zero.
pub open spec fn factor_operator_error(e: Error, op: Seq<char>, a: nat, zero: bool) -> bool {
    match e {
        Error::OperatorError(o, x, y) => o@ == op && x@ == vector_text(a) && match y {
            Some(y) => zero && y@ == "zero"@,
            None => !zero,
        },
        _ => false,
    }
}

/// The reason given for an angle of a vector of dimension `dim`.
pub open spec fn angle_reason(dim: nat) -> Seq<char> {
    if dim == 0 {
        "no data loaded (error state)"@
    } else {
        "can only find angle for dim = 2, got dim = "@ + decimal_text(dim)
    }
}

pub(crate) fn vector_desc(dim: usize) -> (r: String)
    ensures
        r@ == vector_text(dim as nat),
{
    let mut s = String::from_str("vector of dimension ");
    let d = decimal(dim as u64);
    s.append(d.as_str());
    s
}

fn pair_error(op: &str, a: usize, b: usize) -> (e: Error)
    ensures
        vector_operator_error(e, op@, a as nat, b as nat),
{
    Error::OperatorError(op.to_owned(), vector_desc(a), Some(vector_desc(b)))
}

fn factor_error(op: &str, a: usize, zero: bool) -> (e: Error)
    ensures
        factor_operator_error(e, op@, a as nat, zero),
{
    if zero {
        Error::OperatorError(op.to_owned(), vector_desc(a), Some(String::from_str("zero")))
    } else {
        Error::OperatorError(op.to_owned(), vector_desc(a), None)
    }
}

/// The units of a sequence of values of one kind: their count, and where
/// each value's units stand.
pub proof fn lemma_concat_units<T: SimpleNumerical>(s: Seq<T>)
    requires
        lawful::<T>(),
    ensures
        concat_units(s).len() == s.len() * width::<T>(),
        forall|i: int|
            0 <= i < s.len() ==> concat_units(s).subrange(
                i * width::<T>(),
                i * width::<T>() + width::<T>(),
            ) == #[trigger] units_of(s[i]),
    decreases s.len(),
{
    if s.len() > 0 {
        let w = width::<T>();
        let n = s.len();
        let p = s.drop_last();
        lemma_concat_units(p);
        let a = concat_units(p);
        let b = units_of(s.last());
        assert((n - 1) * w + w == n * w) by (nonlinear_arith);
        assert forall|i: int| 0 <= i < n implies concat_units(s).subrange(i * w, i * w + w)
            == #[trigger] units_of(s[i]) by {
            if i < n - 1 {
                assert(i * w + w <= (n - 1) * w) by (nonlinear_arith)
                    requires
                        i < n - 1,
                        w >= 0,
                ;
                assert(i * w >= 0) by (nonlinear_arith)
                    requires
                        i >= 0,
                        w >= 0,
                ;
                assert(p[i] == s[i]);
                assert(concat_units(s).subrange(i * w, i * w + w) =~= a.subrange(i * w, i * w + w));
            } else {
                assert(concat_units(s).subrange(i * w, i * w + w) =~= b);
            }
        }
    }
}

/// Reads `count` values of kind `T`, `width()` units each, from the units of
/// `units` that follow position `start`; those units must be exactly enough.
pub(crate) fn decode_values<T: SimpleNumerical>(units: &[BinaryUnit], start: usize, count: usize) -> (r:
    Result<Vec<T>, Error>)
    requires
        lawful::<T>(),
        start + count * width::<T>() == units@.len(),
    ensures
        match r {
            Ok(vals) => vals@.len() == count && concat_units(vals@) == units_view(units@).subrange(
                start as int,
                units@.len() as int,
            ),
            Err(e) => e is ConversionError && (forall|s: Seq<T>|
                s.len() == count ==> #[trigger] concat_units(s) != units_view(units@).subrange(
                    start as int,
                    units@.len() as int,
                )) && exists|i: int|
                0 <= i < count && #[trigger] value_failure_at::<T>(units@, start as int, i, e),
        },
{
    let ghost view = units_view(units@);
    let w = T::units_per_value();
    let total = units.len();
    let mut data: Vec<T> = Vec::new();
    let mut i: usize = 0;
    proof {
        assert(data@ =~= Seq::<T>::empty());
        assert(view.subrange(start as int, start as int) =~= Seq::<Seq<u8>>::empty());
    }
    while i < count
        invariant
            lawful::<T>(),
            i <= count,
            start + count * w == units@.len(),
            units@.len() <= usize::MAX,
            w == width::<T>(),
            w >= 1,
            view == units_view(units@),
            data@.len() == i,
            concat_units(data@) == view.subrange(start as int, start + i * w),
        decreases count - i,
    {
        assert(i * w + w <= count * w) by (nonlinear_arith)
            requires
                i < count,
                w >= 1,
        ;
        assert(i * w >= 0) by (nonlinear_arith)
            requires
                w >= 1,
        ;
        let from = start + i * w;
        let chunk = slice_subrange(units, from, from + w);
        proof {
            lemma_units_view_subrange(units@, from as int, from + w);
        }
        match T::decode_units(chunk) {
            Ok(x) => {
                let ghost before = data@;
                data.push(x);
                proof {
                    assert(data@.drop_last() =~= before);
                    assert(view.subrange(start as int, start + (i + 1) * w) =~= view.subrange(
                        start as int,
                        start + i * w,
                    ) + view.subrange(from as int, from + w)) by {
                        assert((i + 1) * w == i * w + w) by (nonlinear_arith);
                    }
                }
            },
            Err(e) => {
                proof {
                    assert forall|s: Seq<T>| s.len() == count implies #[trigger] concat_units(s)
                        != view.subrange(start as int, units@.len() as int) by {
                        if concat_units(s) == view.subrange(start as int, units@.len() as int) {
                            lemma_concat_units(s);
                            let c = concat_units(s);
                            assert(c.subrange(i * w, i * w + w) =~= view.subrange(
                                from as int,
                                from + w,
                            ));
                            assert(units_of(s[i as int]) == units_view(chunk@));
                        }
                    }
                    assert(chunk@ == units@.subrange(start + i * w, start + i * w + w));
                    assert(decode_failure::<T>(chunk@, e));
                    assert(concat_units(data@) == view.subrange(start as int, start + i * w));
                    assert(value_failure_at::<T>(units@, start as int, i as int, e));
                }
                return Err(e);
            },
        }
        i = i + 1;
    }
    Ok(data)
}

/// `e` is the error that `T::decode_units` returned on units that are `chunk`.
pub open spec fn decode_failure<T: VariableType>(chunk: Seq<BinaryUnit>, e: Error) -> bool {
    exists|c: &[BinaryUnit]|
        c@ == chunk && #[trigger] call_ensures(T::decode_units, (c,), Err::<T, Error>(e))
}

/// Reading values from position `start` of `units`, the values before the
/// one at index `i` decode, and that one fails with `e`, the error its
/// decoder returned.
pub open spec fn value_failure_at<T: SimpleNumerical>(
    units: Seq<BinaryUnit>,
    start: int,
    i: int,
    e: Error,
) -> bool {
    let w = width::<T>();
    &&& exists|s: Seq<T>|
        s.len() == i && #[trigger] concat_units(s) == units_view(units).subrange(start, start + i * w)
    &&& decode_failure::<T>(units.subrange(start + i * w, start + i * w + w), e)
}

/// The header of `units` is a dimension whose values take exactly the units
/// that follow it.
pub open spec fn vector_frame<T: SimpleNumerical>(units: Seq<BinaryUnit>) -> bool {
    &&& units.len() >= 1
    &&& units[0]@.len() == 8
    &&& 1 + le_value(units[0]@) * width::<T>() == units.len()
}

/// A vector of values of kind `T`.
#[derive(Debug)]
pub struct MVector<T: SimpleNumerical> {
    data: Vec<T>,
}

impl<T: SimpleNumerical> View for MVector<T> {
    type V = Seq<T>;

    closed spec fn view(&self) -> Seq<T> {
        self.data@
    }
}

impl<T: SimpleNumerical> MVector<T> {
    /// The units of every value, and their header, fit a `usize` count.
    #[verifier::type_invariant]
    closed spec fn fits(&self) -> bool {
        self.data@.len() * width::<T>() < usize::MAX
    }

    /// The vector holding `data`, in order.
    pub fn new(data: Vec<T>) -> (r: Self)
        requires
            data@.len() * width::<T>() < usize::MAX,
        ensures
            r@ == data@,
    {
        MVector { data }
    }

    /// The values, in order.
    pub fn values(&self) -> (r: &Vec<T>)
        ensures
            r@ == self@,
    {
        &self.data
    }

    /// The number of values.
    pub fn dim(&self) -> (r: usize)
        ensures
            r == self@.len(),
    {
        self.data.len()
    }

    /// Whether this is the error state, dimension zero.
    pub fn is_error(&self) -> (r: bool)
        ensures
            r == (self@.len() == 0),
    {
        self.data.len() == 0
    }

    /// Values at equal positions summed, or subtracted when `subtract`; the
    /// trailing values of the longer operand are kept.
    fn combine(a: &Vec<T>, b: &Vec<T>, subtract: bool) -> (r: Vec<T>)
        requires
            lawful::<T>(),
        ensures
            r@ == if subtract {
                vector_difference(a@, b@)
            } else {
                vector_sum(a@, b@)
            },
    {
        let n = if a.len() >= b.len() {
            a.len()
        } else {
            b.len()
        };
        let ghost target = if subtract {
            vector_difference(a@, b@)
        } else {
            vector_sum(a@, b@)
        };
        let mut out: Vec<T> = Vec::new();
        let mut i: usize = 0;
        while i < n
            invariant
                lawful::<T>(),
                i <= n,
                n == target.len(),
                n == if a@.len() >= b@.len() {
                    a@.len()
                } else {
                    b@.len()
                },
                target == if subtract {
                    vector_difference(a@, b@)
                } else {
                    vector_sum(a@, b@)
                },
                out@.len() == i,
                forall|j: int| 0 <= j < i ==> out@[j] == target[j],
            decreases n - i,
        {
            if i < a.len() && i < b.len() {
                let mut x = a[i];
                if subtract {
                    x = x.minus(b[i]);
                } else {
                    x = x.plus(b[i]);
                }
                out.push(x);
            } else if i < a.len() {
                out.push(a[i]);
            } else {
                out.push(b[i]);
            }
            i = i + 1;
        }
        assert(out@ =~= target);
        out
    }

    /// Component-wise sum. The longer operand is the basis: its values past
    /// the length of the shorter one are kept. Fails on the error state.
    pub fn add(self, rhs: Self) -> (r: Result<Self, Error>)
        requires
            lawful::<T>(),
        ensures
            match r {
                Ok(v) => self@.len() > 0 && rhs@.len() > 0 && v@ == vector_sum(self@, rhs@),
                Err(e) => (self@.len() == 0 || rhs@.len() == 0) && vector_operator_error(
                    e,
                    "+"@,
                    self@.len(),
                    rhs@.len(),
                ),
            },
    {
        if self.data.len() == 0 || rhs.data.len() == 0 {
            return Err(pair_error("+", self.data.len(), rhs.data.len()));
        }
        proof {
            use_type_invariant(&self);
            use_type_invariant(&rhs);
        }
        let data = Self::combine(&self.data, &rhs.data, false);
        Ok(MVector { data })
    }

    /// Component-wise difference. The longer operand is the basis: its values
    /// past the length of the shorter one are kept. Fails on the error state.
    pub fn sub(self, rhs: Self) -> (r: Result<Self, Error>)
        requires
            lawful::<T>(),
        ensures
            match r {
                Ok(v) => self@.len() > 0 && rhs@.len() > 0 && v@ == vector_difference(
                    self@,
                    rhs@,
                ),
                Err(e) => (self@.len() == 0 || rhs@.len() == 0) && vector_operator_error(
                    e,
                    "-"@,
                    self@.len(),
                    rhs@.len(),
                ),
            },
    {
        if self.data.len() == 0 || rhs.data.len() == 0 {
            return Err(pair_error("-", self.data.len(), rhs.data.len()));
        }
        proof {
            use_type_invariant(&self);
            use_type_invariant(&rhs);
        }
        let data = Self::combine(&self.data, &rhs.data, true);
        Ok(MVector { data })
    }

    /// Every value multiplied by `k`. Fails on the error state.
    pub fn mul(self, k: T) -> (r: Result<Self, Error>)
        requires
            lawful::<T>(),
        ensures
            match r {
                Ok(v) => self@.len() > 0 && v@ == scaled(self@, k),
                Err(e) => self@.len() == 0 && factor_operator_error(e, "*"@, 0, false),
            },
    {
        if self.data.len() == 0 {
            return Err(factor_error("*", 0, false));
        }
        proof {
            use_type_invariant(&self);
        }
        let n = self.data.len();
        let mut out: Vec<T> = Vec::new();
        let mut i: usize = 0;
        while i < n
            invariant
                lawful::<T>(),
                i <= n,
                n == self@.len(),
                out@.len() == i,
                forall|j: int| 0 <= j < i ==> out@[j] == mul_of(self@[j], k),
            decreases n - i,
        {
            let mut x = self.data[i];
            x = x.times(k);
            out.push(x);
            i = i + 1;
        }
        assert(out@ =~= scaled(self@, k));
        Ok(MVector { data: out })
    }

    /// Every value divided by `k`. Fails on the error state, and when `k` is zero.
    pub fn div(self, k: T) -> (r: Result<Self, Error>)
        requires
            lawful::<T>(),
        ensures
            match r {
                Ok(v) => self@.len() > 0 && !is_zero_of(k) && v@ == divided(self@, k),
                Err(e) => if self@.len() == 0 {
                    factor_operator_error(e, "/"@, 0, false)
                } else {
                    is_zero_of(k) && factor_operator_error(e, "/"@, self@.len(), true)
                },
            },
    {
        if self.data.len() == 0 {
            return Err(factor_error("/", 0, false));
        }
        if k.is_zero() {
            return Err(factor_error("/", self.data.len(), true));
        }
        proof {
            use_type_invariant(&self);
        }
        let n = self.data.len();
        let mut out: Vec<T> = Vec::new();
        let mut i: usize = 0;
        while i < n
            invariant
                lawful::<T>(),
                i <= n,
                n == self@.len(),
                !is_zero_of(k),
                out@.len() == i,
                forall|j: int| 0 <= j < i ==> out@[j] == div_of(self@[j], k),
            decreases n - i,
        {
            let mut x = self.data[i];
            x = x.over(k);
            out.push(x);
            i = i + 1;
        }
        assert(out@ =~= divided(self@, k));
        Ok(MVector { data: out })
    }

    /// The sum of the products of values at equal positions. Both operands
    /// must have one dimension, not zero.
    pub fn dot(self, rhs: Self) -> (r: Result<T, Error>)
        requires
            lawful::<T>(),
        ensures
            match r {
                Ok(x) => self@.len() > 0 && self@.len() == rhs@.len() && x == dot_sum(self@, rhs@),
                Err(e) => (self@.len() == 0 || self@.len() != rhs@.len()) && vector_operator_error(
                    e,
                    "dot"@,
                    self@.len(),
                    rhs@.len(),
                ),
            },
    {
        let n = self.data.len();
        if n == 0 || n != rhs.data.len() {
            return Err(pair_error("dot", n, rhs.data.len()));
        }
        let mut acc = T::zero();
        let mut i: usize = 0;
        proof {
            assert(self@.take(0) =~= Seq::<T>::empty());
        }
        while i < n
            invariant
                lawful::<T>(),
                i <= n,
                n == self@.len(),
                n == rhs@.len(),
                acc == dot_sum(self@.take(i as int), rhs@.take(i as int)),
            decreases n - i,
        {
            let mut p = self.data[i];
            p = p.times(rhs.data[i]);
            proof {
                assert(self@.take(i + 1).drop_last() =~= self@.take(i as int));
                assert(rhs@.take(i + 1).drop_last() =~= rhs@.take(i as int));
            }
            acc = acc.plus(p);
            i = i + 1;
        }
        proof {
            assert(self@.take(n as int) =~= self@);
            assert(rhs@.take(n as int) =~= rhs@);
        }
        Ok(acc)
    }

    /// The three-dimensional cross product; both operands must have dimension three.
    pub fn cross(self, rhs: Self) -> (r: Result<Self, Error>)
        requires
            lawful::<T>(),
        ensures
            match r {
                Ok(v) => self@.len() == 3 && rhs@.len() == 3 && v@ == cross_product(self@, rhs@),
                Err(e) => (self@.len() != 3 || rhs@.len() != 3) && vector_operator_error(
                    e,
                    "cross"@,
                    self@.len(),
                    rhs@.len(),
                ),
            },
    {
        if self.data.len() != 3 || rhs.data.len() != 3 {
            return Err(pair_error("cross", self.data.len(), rhs.data.len()));
        }
        proof {
            use_type_invariant(&self);
        }
        let a = &self.data;
        let b = &rhs.data;
        let mut x = a[1];
        x = x.times(b[2]);
        let mut t = a[2];
        t = t.times(b[1]);
        x = x.minus(t);
        let mut y = a[2];
        y = y.times(b[0]);
        let mut t = a[0];
        t = t.times(b[2]);
        y = y.minus(t);
        let mut z = a[0];
        z = z.times(b[1]);
        let mut t = a[1];
        t = t.times(b[0]);
        z = z.minus(t);
        let mut out: Vec<T> = Vec::new();
        out.push(x);
        out.push(y);
        out.push(z);
        assert(out@ =~= cross_product(self@, rhs@));
        Ok(MVector { data: out })
    }

}

impl<T: RealNumerical> MVector<T> {
    /// The Euclidean norm, or `None` for the error state.
    pub fn magnitude(&self) -> (r: Option<T>)
        requires
            real_lawful::<T>(),
        ensures
            r == if self@.len() == 0 {
                None
            } else {
                Some(norm(self@))
            },
    {
        if self.data.len() == 0 {
            return None;
        }
        let n = self.data.len();
        let mut acc = T::zero();
        let mut i: usize = 0;
        proof {
            assert(self@.take(0) =~= Seq::<T>::empty());
        }
        while i < n
            invariant
                lawful::<T>(),
                i <= n,
                n == self@.len(),
                acc == sum_squares(self@.take(i as int)),
            decreases n - i,
        {
            let mut x = self.data[i];
            x = x.times(self.data[i]);
            proof {
                assert(self@.take(i + 1).drop_last() =~= self@.take(i as int));
            }
            acc = acc.plus(x);
            i = i + 1;
        }
        proof {
            assert(self@.take(n as int) =~= self@);
        }
        Some(acc.sqrt())
    }

    /// The angle of a two-dimensional vector from the first axis.
    pub fn angle(&self) -> (r: Result<T, Error>)
        requires
            real_lawful::<T>(),
        ensures
            match r {
                Ok(x) => self@.len() == 2 && x == atan2_of(self@[1], self@[0]),
                Err(e) => self@.len() != 2 && (e matches Error::OperationError(a, w) && a@
                    == "angle"@ && w@ == angle_reason(self@.len())),
            },
    {
        if self.data.len() == 0 {
            return Err(operation_error("angle", "no data loaded (error state)"));
        }
        if self.data.len() != 2 {
            let mut reason = String::from_str("can only find angle for dim = 2, got dim = ");
            let d = decimal(self.data.len() as u64);
            reason.append(d.as_str());
            return Err(Error::OperationError(String::from_str("angle"), reason));
        }
        Ok(T::atan2(&self.data[1], &self.data[0]))
    }

    /// The vector divided by its norm. Fails on the error state and when the
    /// norm is zero, as the division does.
    pub fn to_unit(self) -> (r: Result<Self, Error>)
        requires
            real_lawful::<T>(),
        ensures
            match r {
                Ok(v) => self@.len() > 0 && !is_zero_of(norm(self@)) && v@ == divided(
                    self@,
                    norm(self@),
                ),
                Err(e) => if self@.len() == 0 {
                    factor_operator_error(e, "/"@, 0, false)
                } else {
                    is_zero_of(norm(self@)) && factor_operator_error(
                        e,
                        "/"@,
                        self@.len(),
                        true,
                    )
                },
            },
    {
        match self.magnitude() {
            None => Err(factor_error("/", 0, false)),
            Some(m) => self.div(m),
        }
    }
}

impl<T: RealNumerical> MVector<Complex<T>> {
    /// The Euclidean norm, or `None` for the error state.
    pub fn magnitude(&self) -> (r: Option<T>)
        requires
            real_lawful::<T>(),
        ensures
            r == if self@.len() == 0 {
                None
            } else {
                Some(complex_norm(self@))
            },
    {
        if self.data.len() == 0 {
            return None;
        }
        let n = self.data.len();
        let mut acc = T::zero();
        let mut i: usize = 0;
        proof {
            assert(self@.take(0) =~= Seq::<Complex<T>>::empty());
        }
        while i < n
            invariant
                real_lawful::<T>(),
                i <= n,
                n == self@.len(),
                acc == sum_squared_magnitudes(self@.take(i as int)),
            decreases n - i,
        {
            let m = self.data[i].squared_magnitude();
            proof {
                assert(self@.take(i + 1).drop_last() =~= self@.take(i as int));
            }
            acc = acc.plus(m);
            i = i + 1;
        }
        proof {
            assert(self@.take(n as int) =~= self@);
        }
        Some(acc.sqrt())
    }

    /// Every value divided by the norm, as a complex number with zero
    /// imaginary part. Fails on the error state and when the norm is zero, as
    /// the division does.
    pub fn to_unit(self) -> (r: Result<Self, Error>)
        requires
            real_lawful::<T>(),
        ensures
            ({
                let k = (complex_norm(self@), zero_of::<T>());
                let zero = is_zero_of(squared_magnitude(k.0, k.1));
                match r {
                    Ok(v) => self@.len() > 0 && !zero && v@.len() == self@.len() && forall|i: int|
                        0 <= i < self@.len() ==> (#[trigger] v@[i])@ == quotient_parts(
                            self@[i]@,
                            k,
                        ),
                    Err(e) => if self@.len() == 0 {
                        factor_operator_error(e, "/"@, 0, false)
                    } else {
                        zero && factor_operator_error(e, "/"@, self@.len(), true)
                    },
                }
            }),
    {
        match self.magnitude() {
            None => Err(factor_error("/", 0, false)),
            Some(m) => {
                let k = Complex::from_real(m);
                proof {
                    lemma_complex_lawful::<T>();
                    lemma_complex_results(k, k);
                }
                let r = self.div(k);
                proof {
                    if r is Ok {
                        let v = r->Ok_0;
                        assert forall|i: int| 0 <= i < self@.len() implies (#[trigger] v@[i])@
                            == quotient_parts(self@[i]@, k@) by {
                            lemma_complex_results(self@[i], k);
                        }
                    }
                }
                r
            },
        }
    }
}

/// Values at equal positions of two equally long runs are equal.
pub(crate) fn runs_equal<T: SimpleNumerical>(a: &Vec<T>, b: &Vec<T>) -> (r: bool)
    ensures
        lawful::<T>() ==> r == values_equal(a@, b@),
{
    if a.len() != b.len() {
        return false;
    }
    let n = a.len();
    let mut i: usize = 0;
    while i < n
        invariant
            i <= n,
            n == a@.len(),
            n == b@.len(),
            lawful::<T>() ==> forall|j: int| 0 <= j < i ==> #[trigger] equal_of(a@[j], b@[j]),
        decreases n - i,
    {
        if !a[i].equals(&b[i]) {
            return false;
        }
        i = i + 1;
    }
    true
}

impl<T: SimpleNumerical> MVector<T> {
    /// Value equality: equal dimensions and equal values.
    pub fn equals(&self, other: &Self) -> (r: bool)
        ensures
            lawful::<T>() ==> r == values_equal(self@, other@),
    {
        runs_equal(&self.data, &other.data)
    }
}

impl<T: SimpleNumerical> PartialEq for MVector<T> {
    fn eq(&self, other: &Self) -> (r: bool)
        ensures
            lawful::<T>() ==> r == values_equal(self@, other@),
    {
        self.equals(other)
    }
}

impl<T: SimpleNumerical> vstd::std_specs::cmp::PartialEqSpecImpl for MVector<T> {
    open spec fn obeys_eq_spec() -> bool {
        false
    }

    open spec fn eq_spec(&self, other: &Self) -> bool {
        values_equal(self@, other@)
    }
}

impl<T: SimpleNumerical> Clone for MVector<T> {
    fn clone(&self) -> (r: Self)
        ensures
            r@ == self@,
    {
        proof {
            use_type_invariant(self);
        }
        let data = take_from_vec(self.data.len(), &self.data);
        proof {
            assert(self@.take(self@.len() as int) =~= self@);
        }
        MVector { data }
    }
}

impl<T: SimpleNumerical> Default for MVector<T> {
    /// The error state.
    fn default() -> (r: Self)
        ensures
            r@ == Seq::<T>::empty(),
    {
        MVector { data: Vec::new() }
    }
}

impl<T: SimpleNumerical> MVector<T> {
    /// A vector whose units are `view` has the dimension that the header spells,
    /// and the units of its values follow the header.
    proof fn lemma_header(v: Self, view: Seq<Seq<u8>>)
        requires
            lawful::<T>(),
            vector_units(v@) == view,
        ensures
            view.len() >= 1,
            view[0].len() == 8,
            le_value(view[0]) == v@.len(),
            view.len() == 1 + v@.len() * width::<T>(),
            concat_units(v@) == view.subrange(1, view.len() as int),
    {
        lemma_le_bytes_len(v@.len(), 8);
        lemma_concat_units(v@);
        assert(v.data@.len() == v.data.len());
        reveal_with_fuel(byte_pow, 9);
        lemma_le_value_of_bytes(v@.len(), 8);
        assert(concat_units(v@) =~= view.subrange(1, view.len() as int));
    }
}

impl<T: SimpleNumerical> MVector<T> {
    /// How many units encode this vector: one header unit, then `width()`
    /// units per value.
    pub fn required_units(&self) -> (r: usize)
        requires
            lawful::<T>(),
        ensures
            r == vector_units(self@).len(),
    {
        proof {
            use_type_invariant(self);
            lemma_concat_units(self@);
        }
        let w = T::units_per_value();
        self.data.len() * w + 1
    }

    /// Writes this vector as units: its dimension, then each value's units.
    pub fn encode_units(&self) -> (r: Vec<BinaryUnit>)
        requires
            lawful::<T>(),
        ensures
            units_view(r@) == vector_units(self@),
    {
        let n = self.data.len();
        let mut out: Vec<BinaryUnit> = Vec::new();
        out.push(BinaryUnit::from_u64(n as u64));
        let mut i: usize = 0;
        proof {
            assert(self@.take(0) =~= Seq::<T>::empty());
            assert(units_view(out@) =~= seq![le_bytes(n as nat, 8)]);
        }
        while i < n
            invariant
                lawful::<T>(),
                i <= n,
                n == self@.len(),
                units_view(out@) == seq![le_bytes(n as nat, 8)] + concat_units(self@.take(i as int)),
            decreases n - i,
        {
            let mut u = self.data[i].encode_units();
            let ghost before = out@;
            let ghost added = u@;
            out.append(&mut u);
            proof {
                lemma_units_view_concat(before, added);
                assert(self@.take(i + 1).drop_last() =~= self@.take(i as int));
                assert(units_view(out@) =~= seq![le_bytes(n as nat, 8)] + concat_units(
                    self@.take(i + 1),
                ));
            }
            i = i + 1;
        }
        proof {
            assert(self@.take(n as int) =~= self@);
        }
        out
    }

    /// Reads a vector back from units: it succeeds exactly when some vector is
    /// encoded as these units, and then gives that vector.
    pub fn decode_units(units: &[BinaryUnit]) -> (r: Result<Self, Error>)
        requires
            lawful::<T>(),
        ensures
            match r {
                Ok(v) => vector_units(v@) == units_view(units@),
                Err(e) => e is ConversionError && (forall|x: Self|
                    #[trigger] vector_units(x@) != units_view(units@)) && (vector_frame::<T>(
                    units@,
                ) ==> exists|i: int|
                    0 <= i < le_value(units@[0]@) && #[trigger] value_failure_at::<T>(
                        units@,
                        1,
                        i,
                        e,
                    )),
            },
    {
        let ghost view = units_view(units@);
        if units.len() == 0 {
            proof {
                assert forall|v: Self| #[trigger] vector_units(v@) != view by {
                    if vector_units(v@) == view {
                        Self::lemma_header(v, view);
                    }
                }
            }
            return Err(conversion_error("cannot construct a vector from zero units"));
        }
        let d64 = match units[0].to_u64() {
            Ok(d) => d,
            Err(e) => {
                proof {
                    assert forall|v: Self| #[trigger] vector_units(v@) != view by {
                        if vector_units(v@) == view {
                            Self::lemma_header(v, view);
                        }
                    }
                }
                return Err(e);
            },
        };
        let w = T::units_per_value();
        let rest = units.len() - 1;
        assert((d64 as u128) * (w as u128) <= u128::MAX) by (nonlinear_arith)
            requires
                d64 < 0x1_0000_0000_0000_0000,
                w < 0x1_0000_0000_0000_0000,
        ;
        if (d64 as u128) * (w as u128) != rest as u128 {
            proof {
                assert forall|v: Self| #[trigger] vector_units(v@) != view by {
                    if vector_units(v@) == view {
                        Self::lemma_header(v, view);
                    }
                }
            }
            return Err(conversion_error("unit count does not match the dimension"));
        }
        assert(d64 <= rest) by (nonlinear_arith)
            requires
                d64 * w == rest,
                w >= 1,
        ;
        let d = d64 as usize;
        let data = match decode_values::<T>(units, 1, d) {
            Ok(data) => data,
            Err(e) => {
                proof {
                    assert forall|v: Self| #[trigger] vector_units(v@) != view by {
                        if vector_units(v@) == view {
                            Self::lemma_header(v, view);
                            assert(v@.len() == d);
                        }
                    }
                }
                return Err(e);
            },
        };
        let v = MVector { data };
        proof {
            lemma_le_bytes_of_value(units@[0]@);
            assert(view =~= seq![view[0]] + view.subrange(1, view.len() as int));
            assert(vector_units(v@) =~= view);
        }
        Ok(v)
    }
}

/// Encoding loses nothing: a vector whose units are those of `v` is `v`, and
/// `v` takes one header unit plus `width()` units per value.
pub proof fn lemma_vector_round_trip<T: SimpleNumerical>(v: MVector<T>, w: MVector<T>)
    requires
        lawful::<T>(),
        vector_units(w@) == vector_units(v@),
    ensures
        w@ == v@,
        vector_units(v@).len() == 1 + v@.len() * width::<T>(),
{
    let view = vector_units(v@);
    MVector::<T>::lemma_header(v, view);
    MVector::lemma_header(w, view);
    lemma_concat_units(v@);
    lemma_concat_units(w@);
    assert forall|i: int| 0 <= i < v@.len() implies w@[i] == v@[i] by {
        assert(units_of(w@[i]) == units_of(v@[i]));
    }
    assert(w@ =~= v@);
}

} // verus!
