//! `Matrix<T>`: a rectangular grid of values of a simple numerical kind,
//! held as rows. Every operator checks the shapes of its operands.
use vstd::prelude::*;
use vstd::string::*;
use crate::bytes::{byte_pow, le_bytes, le_value, lemma_le_bytes_len, lemma_le_value_of_bytes, lemma_le_bytes_of_value};
use crate::errors::{Error, argument_error, conversion_error};
use crate::kinds::{SimpleNumerical, VariableType, units_view, lemma_units_view_concat, lawful, width, is_zero_of, add_of, sub_of, mul_of, div_of, units_of};
use crate::text::{decimal, decimal_text};
use crate::unit::BinaryUnit;
use crate::utility::take_from_vec;
use crate::vector::{runs_equal, values_equal, value_failure_at, MVector, concat_units, dot_sum, lemma_concat_units, decode_values, vector_desc, vector_text};

verus! {

/// The number of columns: the length of the first row, or zero without rows.
pub open spec fn col_count<T>(m: Seq<Seq<T>>) -> nat {
    if m.len() == 0 {
        0
    } else {
        m[0].len()
    }
}

/// Every row has the same length.
pub open spec fn rectangular<T>(m: Seq<Seq<T>>) -> bool {
    forall|i: int| 0 <= i < m.len() ==> #[trigger] m[i].len() == col_count(m)
}

/// Column `j`, from the first row down.
pub open spec fn column<T>(m: Seq<Seq<T>>, j: int) -> Seq<T> {
    Seq::new(m.len(), |k: int| m[k][j])
}

/// The values row after row.
pub open spec fn row_major<T>(m: Seq<Seq<T>>) -> Seq<T>
    decreases m.len(),
{
    if m.len() == 0 {
        Seq::empty()
    } else {
        row_major(m.drop_last()) + m.last()
    }
}

/// The units of a matrix: its row count and column count as unsigned 64-bit
/// headers, then the units of each value, row after row. Rows of different
/// lengths have no encoding: their units are more than any slice holds.
pub open spec fn matrix_units<T: SimpleNumerical>(m: Seq<Seq<T>>) -> Seq<Seq<u8>> {
    if rectangular(m) {
        seq![le_bytes(m.len(), 8), le_bytes(col_count(m), 8)] + concat_units(row_major(m))
    } else {
        Seq::new(usize::MAX as nat + 1, |i: int| Seq::empty())
    }
}

/// Rows of one length, and units that can be counted in a `usize`.
pub open spec fn matrix_well_formed<T: SimpleNumerical>(m: Seq<Seq<T>>) -> bool {
    rectangular(m) && units_fit(m.len(), col_count(m), width::<T>())
}

/// The contents of rows held as vectors.
pub open spec fn rows_view<T>(v: Seq<Vec<T>>) -> Seq<Seq<T>> {
    v.map_values(|r: Vec<T>| r@)
}

pub open spec fn matrix_sum<T: SimpleNumerical>(a: Seq<Seq<T>>, b: Seq<Seq<T>>) -> Seq<Seq<T>> {
    elementwise(a, b, |x: T, y: T| add_of(x, y))
}

pub open spec fn matrix_difference<T: SimpleNumerical>(a: Seq<Seq<T>>, b: Seq<Seq<T>>) -> Seq<
    Seq<T>,
> {
    elementwise(a, b, |x: T, y: T| sub_of(x, y))
}

/// Every value multiplied by `k`.
pub open spec fn matrix_scaled<T: SimpleNumerical>(a: Seq<Seq<T>>, k: T) -> Seq<Seq<T>> {
    mapped(a, |x: T| mul_of(x, k))
}

/// Every value divided by `k`.
pub open spec fn matrix_divided<T: SimpleNumerical>(a: Seq<Seq<T>>, k: T) -> Seq<Seq<T>> {
    mapped(a, |x: T| div_of(x, k))
}

/// Values at equal positions combined with `f`.
pub open spec fn elementwise<T>(a: Seq<Seq<T>>, b: Seq<Seq<T>>, f: spec_fn(T, T) -> T) -> Seq<Seq<T>> {
    Seq::new(a.len(), |i: int| Seq::new(a[i].len(), |j: int| f(a[i][j], b[i][j])))
}

/// Every value mapped with `f`.
pub open spec fn mapped<T>(a: Seq<Seq<T>>, f: spec_fn(T) -> T) -> Seq<Seq<T>> {
    Seq::new(a.len(), |i: int| Seq::new(a[i].len(), |j: int| f(a[i][j])))
}

/// The product: entry `(i, j)` is row `i` of `a` times column `j` of `b`.
pub open spec fn matrix_product<T: SimpleNumerical>(a: Seq<Seq<T>>, b: Seq<Seq<T>>) -> Seq<Seq<T>> {
    Seq::new(a.len(), |i: int| Seq::new(col_count(b), |j: int| dot_sum(a[i], column(b, j))))
}

/// The product with a column vector: entry `i` is row `i` of `a` times `v`.
pub open spec fn matrix_vector_product<T: SimpleNumerical>(a: Seq<Seq<T>>, v: Seq<T>) -> Seq<T> {
    Seq::new(a.len(), |i: int| dot_sum(a[i], v))
}

/// Equal row counts, and rows equal position by position.
pub open spec fn grids_equal<T: SimpleNumerical>(a: Seq<Seq<T>>, b: Seq<Seq<T>>) -> bool {
    a.len() == b.len() && forall|i: int| 0 <= i < a.len() ==> #[trigger] values_equal(a[i], b[i])
}

/// Whether the units of a `rows` by `cols` matrix of a kind written over `w`
/// units per value can be counted in a `usize`.
pub open spec fn units_fit(rows: nat, cols: nat, w: nat) -> bool {
    rows * cols * w + 2 <= usize::MAX
}

/// How a matrix is named in an error.
pub open spec fn matrix_text(rows: nat, cols: nat) -> Seq<char> {
    "matrix of "@ + decimal_text(rows) + "x"@ + decimal_text(cols)
}

/// `e` reports operator `op` applied to matrices of the given shapes.
pub open spec fn shape_error(e: Error, op: Seq<char>, a: (nat, nat), b: (nat, nat)) -> bool {
    match e {
        Error::OperatorError(o, x, Some(y)) => o@ == op && x@ == matrix_text(a.0, a.1) && y@
            == matrix_text(b.0, b.1),
        _ => false,
    }
}

/// `e` reports operator `op` applied to a matrix of the given shape and
/// `second`, described as `text`.
pub open spec fn operand_error(e: Error, op: Seq<char>, a: (nat, nat), text: Seq<char>) -> bool {
    match e {
        Error::OperatorError(o, x, Some(y)) => o@ == op && x@ == matrix_text(a.0, a.1) && y@ == text,
        _ => false,
    }
}

fn matrix_desc(rows: usize, cols: usize) -> (r: String)
    ensures
        r@ == matrix_text(rows as nat, cols as nat),
{
    let mut s = String::from_str("matrix of ");
    let r = decimal(rows as u64);
    s.append(r.as_str());
    s.append("x");
    let c = decimal(cols as u64);
    s.append(c.as_str());
    s
}

fn shape_failure(op: &str, a: (usize, usize), b: (usize, usize)) -> (e: Error)
    ensures
        shape_error(e, op@, (a.0 as nat, a.1 as nat), (b.0 as nat, b.1 as nat)),
{
    Error::OperatorError(op.to_owned(), matrix_desc(a.0, a.1), Some(matrix_desc(b.0, b.1)))
}

fn fits(rows: usize, cols: usize, w: usize) -> (r: bool)
    ensures
        r == units_fit(rows as nat, cols as nat, w as nat),
{
    if w == 0 {
        assert(rows * cols * w == 0) by (nonlinear_arith)
            requires
                w == 0,
        ;
        return true;
    }
    assert(rows as u128 * cols as u128 <= u128::MAX) by (nonlinear_arith)
        requires
            rows < 0x1_0000_0000_0000_0000,
            cols < 0x1_0000_0000_0000_0000,
    ;
    let rc: u128 = rows as u128 * cols as u128;
    if rc > usize::MAX as u128 {
        assert(rows * cols * w >= rows * cols) by (nonlinear_arith)
            requires
                w >= 1,
                rows >= 0,
                cols >= 0,
        ;
        return false;
    }
    assert(rc * (w as u128) + 2 <= u128::MAX) by (nonlinear_arith)
        requires
            rc <= usize::MAX,
            usize::MAX < 0x1_0000_0000_0000_0000,
            w < 0x1_0000_0000_0000_0000,
    ;
    rc * (w as u128) + 2 <= usize::MAX as u128
}

/// Where each row stands in the row-major sequence.
pub proof fn lemma_row_major<T>(m: Seq<Seq<T>>)
    requires
        rectangular(m),
    ensures
        row_major(m).len() == m.len() * col_count(m),
        forall|i: int|
            0 <= i < m.len() ==> row_major(m).subrange(
                i * col_count(m),
                i * col_count(m) + col_count(m),
            ) == #[trigger] m[i],
    decreases m.len(),
{
    if m.len() > 0 {
        let c = col_count(m);
        let n = m.len();
        let p = m.drop_last();
        if p.len() > 0 {
            assert(col_count(p) == c);
        }
        assert(rectangular(p)) by {
            assert forall|i: int| 0 <= i < p.len() implies #[trigger] p[i].len() == col_count(p) by {
                assert(p[i] == m[i]);
            }
        }
        lemma_row_major(p);
        let pc = col_count(p);
        assert(row_major(p).len() == (n - 1) * c) by {
            if p.len() == 0 {
                assert((n - 1) * c == 0);
            }
        }
        assert((n - 1) * c + c == n * c) by (nonlinear_arith);
        assert(m.last().len() == c);
        assert forall|i: int| 0 <= i < n implies row_major(m).subrange(i * c, i * c + c)
            == #[trigger] m[i] by {
            if i < n - 1 {
                assert(i * c + c <= (n - 1) * c) by (nonlinear_arith)
                    requires
                        i < n - 1,
                        c >= 0,
                ;
                assert(i * c >= 0) by (nonlinear_arith)
                    requires
                        i >= 0,
                        c >= 0,
                ;
                assert(pc == c);
                assert(p[i] == m[i]);
                assert(row_major(m).subrange(i * c, i * c + c) =~= row_major(p).subrange(
                    i * c,
                    i * c + c,
                ));
            } else {
                assert(row_major(m).subrange(i * c, i * c + c) =~= m.last());
            }
        }
    }
}

/// The headers of `units` are a shape (no columns without rows) whose values
/// take exactly the units that follow them.
pub open spec fn matrix_frame<T: SimpleNumerical>(units: Seq<BinaryUnit>) -> bool {
    &&& units.len() >= 2
    &&& units[0]@.len() == 8
    &&& units[1]@.len() == 8
    &&& le_value(units[0]@) <= usize::MAX
    &&& le_value(units[1]@) <= usize::MAX
    &&& (le_value(units[0]@) == 0 ==> le_value(units[1]@) == 0)
    &&& 2 + le_value(units[0]@) * le_value(units[1]@) * width::<T>() == units.len()
}

/// A matrix of values of kind `T`.
#[derive(Debug)]
pub struct Matrix<T: SimpleNumerical> {
    data: Vec<Vec<T>>,
}

impl<T: SimpleNumerical> View for Matrix<T> {
    type V = Seq<Seq<T>>;

    closed spec fn view(&self) -> Seq<Seq<T>> {
        rows_view(self.data@)
    }
}

impl<T: SimpleNumerical> Matrix<T> {
    /// Rows have one length, and the units of the matrix can be counted.
    #[verifier::type_invariant]
    closed spec fn well_formed(&self) -> bool {
        matrix_well_formed(self@)
    }

    /// The matrix without rows.
    pub fn new() -> (r: Self)
        ensures
            r@ == Seq::<Seq<T>>::empty(),
    {
        let data: Vec<Vec<T>> = Vec::new();
        proof {
            assert(data@.map_values(|r: Vec<T>| r@) =~= Seq::<Seq<T>>::empty());
            assert(0 * 0 * width::<T>() == 0) by (nonlinear_arith);
        }
        Matrix { data }
    }

    /// The matrix with the given rows. Fails when the rows differ in length,
    /// or when its units could not be counted in a `usize`.
    pub fn from_rows(rows: Vec<Vec<T>>) -> (r: Result<Self, Error>)
        requires
            lawful::<T>(),
        ensures
            ({
                let m = rows@.map_values(|r: Vec<T>| r@);
                match r {
                    Ok(x) => x@ == m && rectangular(m) && units_fit(m.len(), col_count(m), width::<T>()),
                    Err(e) => if !rectangular(m) {
                        e matches Error::ArgumentError(n, v) && n@ == "rows"@ && v@
                            == "rows differ in length"@
                    } else {
                        !units_fit(m.len(), col_count(m), width::<T>()) && (e matches Error::ArgumentError(
                            n,
                            v,
                        ) && n@ == "rows"@ && v@ == "too many values"@)
                    },
                }
            }),
    {
        let ghost m = rows@.map_values(|r: Vec<T>| r@);
        let n = rows.len();
        let c = if n == 0 {
            0
        } else {
            rows[0].len()
        };
        let mut i: usize = 0;
        while i < n
            invariant
                lawful::<T>(),
                i <= n,
                n == m.len(),
                m == rows@.map_values(|r: Vec<T>| r@),
                c == col_count(m),
                forall|k: int| 0 <= k < i ==> #[trigger] m[k].len() == c,
            decreases n - i,
        {
            if rows[i].len() != c {
                proof {
                    assert(m[i as int] == rows@[i as int]@);
                    assert(m[i as int].len() != col_count(m));
                }
                return Err(argument_error("rows", "rows differ in length"));
            }
            proof {
                assert(m[i as int] == rows@[i as int]@);
            }
            i = i + 1;
        }
        if !fits(n, c, T::units_per_value()) {
            return Err(argument_error("rows", "too many values"));
        }
        let x = Matrix { data: rows };
        Ok(x)
    }

    /// The number of rows.
    pub fn rows(&self) -> (r: usize)
        ensures
            r == self@.len(),
    {
        self.data.len()
    }

    /// The number of columns; zero without rows.
    pub fn cols(&self) -> (r: usize)
        ensures
            r == col_count(self@),
    {
        if self.data.len() == 0 {
            0
        } else {
            self.data[0].len()
        }
    }

    /// The value at row `i`, column `j`.
    pub fn get(&self, i: usize, j: usize) -> (r: T)
        requires
            i < self@.len(),
            j < col_count(self@),
        ensures
            r == self@[i as int][j as int],
    {
        proof {
            use_type_invariant(self);
            assert(self@[i as int] == self.data@[i as int]@);
        }
        self.data[i][j]
    }

    /// Sums, or differences when `subtract`, of values at equal positions of
    /// two grids of one shape.
    fn combine(a: &Vec<Vec<T>>, b: &Vec<Vec<T>>, subtract: bool) -> (r: Vec<Vec<T>>)
        requires
            lawful::<T>(),
            a@.len() == b@.len(),
            forall|i: int| 0 <= i < a@.len() ==> #[trigger] a@[i]@.len() == b@[i]@.len(),
        ensures
            rows_view(r@) == if subtract {
                matrix_difference(rows_view(a@), rows_view(b@))
            } else {
                matrix_sum(rows_view(a@), rows_view(b@))
            },
    {
        let ghost target = if subtract {
            matrix_difference(rows_view(a@), rows_view(b@))
        } else {
            matrix_sum(rows_view(a@), rows_view(b@))
        };
        let n = a.len();
        let mut out: Vec<Vec<T>> = Vec::new();
        let mut i: usize = 0;
        while i < n
            invariant
                lawful::<T>(),
                i <= n,
                n == a@.len(),
                a@.len() == b@.len(),
                forall|i: int| 0 <= i < a@.len() ==> #[trigger] a@[i]@.len() == b@[i]@.len(),
                target == if subtract {
                    matrix_difference(rows_view(a@), rows_view(b@))
                } else {
                    matrix_sum(rows_view(a@), rows_view(b@))
                },
                out@.len() == i,
                forall|k: int| 0 <= k < i ==> #[trigger] out@[k]@ == target[k],
            decreases n - i,
        {
            let ra = &a[i];
            let rb = &b[i];
            let m = ra.len();
            let mut row: Vec<T> = Vec::new();
            let mut j: usize = 0;
            proof {
                assert(rb@.len() == m);
            }
            while j < m
                invariant
                    lawful::<T>(),
                    j <= m,
                    m == ra@.len(),
                    m == rb@.len(),
                    row@.len() == j,
                    forall|l: int| 0 <= l < j ==> #[trigger] row@[l] == if subtract {
                        sub_of(ra@[l], rb@[l])
                    } else {
                        add_of(ra@[l], rb@[l])
                    },
                decreases m - j,
            {
                let mut x = ra[j];
                if subtract {
                    x = x.minus(rb[j]);
                } else {
                    x = x.plus(rb[j]);
                }
                row.push(x);
                j = j + 1;
            }
            proof {
                assert(row@ =~= target[i as int]);
            }
            out.push(row);
            i = i + 1;
        }
        proof {
            assert(rows_view(out@) =~= target);
        }
        out
    }

    /// Every value multiplied by `k`, or divided by `k` when `divide`.
    fn map_values_by(a: &Vec<Vec<T>>, k: T, divide: bool) -> (r: Vec<Vec<T>>)
        requires
            lawful::<T>(),
            divide ==> !is_zero_of(k),
        ensures
            rows_view(r@) == if divide {
                matrix_divided(rows_view(a@), k)
            } else {
                matrix_scaled(rows_view(a@), k)
            },
    {
        let ghost target = if divide {
            matrix_divided(rows_view(a@), k)
        } else {
            matrix_scaled(rows_view(a@), k)
        };
        let n = a.len();
        let mut out: Vec<Vec<T>> = Vec::new();
        let mut i: usize = 0;
        while i < n
            invariant
                lawful::<T>(),
                i <= n,
                n == a@.len(),
                divide ==> !is_zero_of(k),
                target == if divide {
                    matrix_divided(rows_view(a@), k)
                } else {
                    matrix_scaled(rows_view(a@), k)
                },
                out@.len() == i,
                forall|q: int| 0 <= q < i ==> #[trigger] out@[q]@ == target[q],
            decreases n - i,
        {
            let ra = &a[i];
            let m = ra.len();
            let mut row: Vec<T> = Vec::new();
            let mut j: usize = 0;
            while j < m
                invariant
                    lawful::<T>(),
                    j <= m,
                    m == ra@.len(),
                    divide ==> !is_zero_of(k),
                    row@.len() == j,
                    forall|l: int| 0 <= l < j ==> #[trigger] row@[l] == if divide {
                        div_of(ra@[l], k)
                    } else {
                        mul_of(ra@[l], k)
                    },
                decreases m - j,
            {
                let mut x = ra[j];
                if divide {
                    x = x.over(k);
                } else {
                    x = x.times(k);
                }
                row.push(x);
                j = j + 1;
            }
            proof {
                assert(row@ =~= target[i as int]);
            }
            out.push(row);
            i = i + 1;
        }
        proof {
            assert(rows_view(out@) =~= target);
        }
        out
    }

    /// Sum of values at equal positions; the shapes must be equal.
    pub fn add(self, rhs: Self) -> (r: Result<Self, Error>)
        requires
            lawful::<T>(),
        ensures
            match r {
                Ok(m) => self@.len() == rhs@.len() && col_count(self@) == col_count(rhs@) && m@
                    == matrix_sum(self@, rhs@),
                Err(e) => (self@.len() != rhs@.len() || col_count(self@) != col_count(rhs@))
                    && shape_error(
                    e,
                    "+"@,
                    (self@.len(), col_count(self@)),
                    (rhs@.len(), col_count(rhs@)),
                ),
            },
    {
        if self.rows() != rhs.rows() || self.cols() != rhs.cols() {
            return Err(shape_failure("+", (self.rows(), self.cols()), (rhs.rows(), rhs.cols())));
        }
        proof {
            use_type_invariant(&self);
            use_type_invariant(&rhs);
            assert forall|i: int| 0 <= i < self.data@.len() implies #[trigger] self.data@[i]@.len()
                == rhs.data@[i]@.len() by {
                assert(self@[i] == self.data@[i]@);
                assert(rhs@[i] == rhs.data@[i]@);
            }
        }
        let data = Self::combine(&self.data, &rhs.data, false);
        proof {
            assert(rows_view(data@).len() == self@.len());
            if self@.len() > 0 {
                assert(rows_view(data@)[0].len() == self@[0].len());
            }
            assert forall|i: int| 0 <= i < rows_view(data@).len() implies #[trigger] rows_view(
                data@,
            )[i].len() == col_count(rows_view(data@)) by {
                assert(rows_view(data@)[i].len() == self@[i].len());
            }
        }
        Ok(Matrix { data })
    }

    /// Difference of values at equal positions; the shapes must be equal.
    pub fn sub(self, rhs: Self) -> (r: Result<Self, Error>)
        requires
            lawful::<T>(),
        ensures
            match r {
                Ok(m) => self@.len() == rhs@.len() && col_count(self@) == col_count(rhs@) && m@
                    == matrix_difference(self@, rhs@),
                Err(e) => (self@.len() != rhs@.len() || col_count(self@) != col_count(rhs@))
                    && shape_error(
                    e,
                    "-"@,
                    (self@.len(), col_count(self@)),
                    (rhs@.len(), col_count(rhs@)),
                ),
            },
    {
        if self.rows() != rhs.rows() || self.cols() != rhs.cols() {
            return Err(shape_failure("-", (self.rows(), self.cols()), (rhs.rows(), rhs.cols())));
        }
        proof {
            use_type_invariant(&self);
            use_type_invariant(&rhs);
            assert forall|i: int| 0 <= i < self.data@.len() implies #[trigger] self.data@[i]@.len()
                == rhs.data@[i]@.len() by {
                assert(self@[i] == self.data@[i]@);
                assert(rhs@[i] == rhs.data@[i]@);
            }
        }
        let data = Self::combine(&self.data, &rhs.data, true);
        proof {
            assert(rows_view(data@).len() == self@.len());
            if self@.len() > 0 {
                assert(rows_view(data@)[0].len() == self@[0].len());
            }
            assert forall|i: int| 0 <= i < rows_view(data@).len() implies #[trigger] rows_view(
                data@,
            )[i].len() == col_count(rows_view(data@)) by {
                assert(rows_view(data@)[i].len() == self@[i].len());
            }
        }
        Ok(Matrix { data })
    }

    /// Every value multiplied by `k`.
    pub fn mul_scalar(self, k: T) -> (r: Self)
        requires
            lawful::<T>(),
        ensures
            r@ == matrix_scaled(self@, k),
    {
        proof {
            use_type_invariant(&self);
        }
        let data = Self::map_values_by(&self.data, k, false);
        proof {
            if self@.len() > 0 {
                assert(rows_view(data@)[0].len() == self@[0].len());
            }
            assert forall|i: int| 0 <= i < rows_view(data@).len() implies #[trigger] rows_view(
                data@,
            )[i].len() == col_count(rows_view(data@)) by {
                assert(rows_view(data@)[i].len() == self@[i].len());
            }
        }
        Matrix { data }
    }

    /// Every value divided by `k`; fails when `k` is zero.
    pub fn div(self, k: T) -> (r: Result<Self, Error>)
        requires
            lawful::<T>(),
        ensures
            match r {
                Ok(m) => !is_zero_of(k) && m@ == matrix_divided(self@, k),
                Err(e) => is_zero_of(k) && operand_error(
                    e,
                    "/"@,
                    (self@.len(), col_count(self@)),
                    "zero"@,
                ),
            },
    {
        if k.is_zero() {
            return Err(
                Error::OperatorError(
                    String::from_str("/"),
                    matrix_desc(self.rows(), self.cols()),
                    Some(String::from_str("zero")),
                ),
            );
        }
        proof {
            use_type_invariant(&self);
        }
        let data = Self::map_values_by(&self.data, k, true);
        proof {
            if self@.len() > 0 {
                assert(rows_view(data@)[0].len() == self@[0].len());
            }
            assert forall|i: int| 0 <= i < rows_view(data@).len() implies #[trigger] rows_view(
                data@,
            )[i].len() == col_count(rows_view(data@)) by {
                assert(rows_view(data@)[i].len() == self@[i].len());
            }
        }
        Ok(Matrix { data })
    }

    /// Row `i` of `a` times column `j` of `b`.
    fn row_times_column(a: &Vec<Vec<T>>, b: &Vec<Vec<T>>, i: usize, j: usize) -> (r: T)
        requires
            lawful::<T>(),
            i < a@.len(),
            a@[i as int]@.len() == b@.len(),
            forall|k: int| 0 <= k < b@.len() ==> j < (#[trigger] b@[k])@.len(),
        ensures
            r == dot_sum(a@[i as int]@, column(rows_view(b@), j as int)),
    {
        let ghost row = a@[i as int]@;
        let ghost col = column(rows_view(b@), j as int);
        let n = b.len();
        let mut acc = T::zero();
        let mut k: usize = 0;
        proof {
            assert(row.take(0) =~= Seq::<T>::empty());
        }
        while k < n
            invariant
                lawful::<T>(),
                k <= n,
                n == b@.len(),
                i < a@.len(),
                row == a@[i as int]@,
                row.len() == n,
                col == column(rows_view(b@), j as int),
                forall|q: int| 0 <= q < b@.len() ==> j < (#[trigger] b@[q])@.len(),
                acc == dot_sum(row.take(k as int), col.take(k as int)),
            decreases n - k,
        {
            let mut x = a[i][k];
            proof {
                assert(j < b@[k as int]@.len());
            }
            x = x.times(b[k][j]);
            proof {
                assert(row.take(k + 1).drop_last() =~= row.take(k as int));
                assert(col.take(k + 1).drop_last() =~= col.take(k as int));
                assert(col[k as int] == b@[k as int]@[j as int]);
            }
            acc = acc.plus(x);
            k = k + 1;
        }
        proof {
            assert(row.take(n as int) =~= row);
            assert(col.take(n as int) =~= col);
        }
        acc
    }

    /// The matrix product. The column count of `self` must equal the row
    /// count of `rhs`, and the product's units must be countable.
    pub fn mul(self, rhs: Self) -> (r: Result<Self, Error>)
        requires
            lawful::<T>(),
        ensures
            match r {
                Ok(m) => col_count(self@) == rhs@.len() && m@ == matrix_product(self@, rhs@),
                Err(e) => (col_count(self@) != rhs@.len() || !units_fit(
                    self@.len(),
                    col_count(rhs@),
                    width::<T>(),
                )) && shape_error(
                    e,
                    "*"@,
                    (self@.len(), col_count(self@)),
                    (rhs@.len(), col_count(rhs@)),
                ),
            },
    {
        let n = self.rows();
        let inner = self.cols();
        let p = rhs.cols();
        if inner != rhs.rows() || !fits(n, p, T::units_per_value()) {
            return Err(shape_failure("*", (n, inner), (rhs.rows(), p)));
        }
        proof {
            use_type_invariant(&self);
            use_type_invariant(&rhs);
        }
        let ghost target = matrix_product(self@, rhs@);
        let mut out: Vec<Vec<T>> = Vec::new();
        let mut i: usize = 0;
        while i < n
            invariant
                lawful::<T>(),
                i <= n,
                n == self@.len(),
                inner == col_count(self@),
                inner == rhs@.len(),
                p == col_count(rhs@),
                rectangular(self@),
                rectangular(rhs@),
                target == matrix_product(self@, rhs@),
                out@.len() == i,
                forall|q: int| 0 <= q < i ==> #[trigger] out@[q]@ == target[q],
            decreases n - i,
        {
            let mut row: Vec<T> = Vec::new();
            let mut j: usize = 0;
            proof {
                assert(self.data@[i as int]@ == self@[i as int]);
            }
            while j < p
                invariant
                    lawful::<T>(),
                    j <= p,
                    i < n,
                    n == self@.len(),
                    inner == col_count(self@),
                    inner == rhs@.len(),
                    p == col_count(rhs@),
                    rectangular(self@),
                    rectangular(rhs@),
                    target == matrix_product(self@, rhs@),
                    row@.len() == j,
                    forall|l: int| 0 <= l < j ==> #[trigger] row@[l] == target[i as int][l],
                decreases p - j,
            {
                proof {
                    assert(self.data@[i as int]@ == self@[i as int]);
                    assert forall|k: int| 0 <= k < rhs.data@.len() implies j < (
                    #[trigger] rhs.data@[k])@.len() by {
                        assert(rhs.data@[k]@ == rhs@[k]);
                    }
                    assert(rows_view(rhs.data@) == rhs@);
                }
                let x = Self::row_times_column(&self.data, &rhs.data, i, j);
                row.push(x);
                j = j + 1;
            }
            proof {
                assert(row@ =~= target[i as int]);
            }
            out.push(row);
            i = i + 1;
        }
        proof {
            assert(rows_view(out@) =~= target);
            assert forall|q: int| 0 <= q < rows_view(out@).len() implies #[trigger] rows_view(
                out@,
            )[q].len() == col_count(rows_view(out@)) by {
                assert(rows_view(out@)[0].len() == p);
            }
        }
        Ok(Matrix { data: out })
    }

    /// The product with a column vector. The column count must equal the
    /// vector's dimension, which must not be the error state.
    pub fn mul_vector(self, v: MVector<T>) -> (r: Result<MVector<T>, Error>)
        requires
            lawful::<T>(),
        ensures
            match r {
                Ok(u) => v@.len() > 0 && col_count(self@) == v@.len() && u@
                    == matrix_vector_product(self@, v@),
                Err(e) => (v@.len() == 0 || col_count(self@) != v@.len()) && operand_error(
                    e,
                    "*"@,
                    (self@.len(), col_count(self@)),
                    vector_text(v@.len()),
                ),
            },
    {
        let n = self.rows();
        let c = self.cols();
        let d = v.dim();
        if d == 0 || c != d {
            return Err(Error::OperatorError(String::from_str("*"), matrix_desc(n, c), Some(vector_desc(d))));
        }
        proof {
            use_type_invariant(&self);
        }
        let vals = v.values();
        let ghost target = matrix_vector_product(self@, v@);
        let mut out: Vec<T> = Vec::new();
        let mut i: usize = 0;
        while i < n
            invariant
                lawful::<T>(),
                i <= n,
                n == self@.len(),
                c == col_count(self@),
                c == vals@.len(),
                vals@ == v@,
                rectangular(self@),
                target == matrix_vector_product(self@, v@),
                out@.len() == i,
                forall|q: int| 0 <= q < i ==> #[trigger] out@[q] == target[q],
            decreases n - i,
        {
            let row = &self.data[i];
            proof {
                assert(row@ == self@[i as int]);
                assert(row@.take(0) =~= Seq::<T>::empty());
            }
            let mut acc = T::zero();
            let mut k: usize = 0;
            while k < c
                invariant
                    lawful::<T>(),
                    k <= c,
                    c == row@.len(),
                    c == vals@.len(),
                    acc == dot_sum(row@.take(k as int), vals@.take(k as int)),
                decreases c - k,
            {
                let mut x = row[k];
                x = x.times(vals[k]);
                proof {
                    assert(row@.take(k + 1).drop_last() =~= row@.take(k as int));
                    assert(vals@.take(k + 1).drop_last() =~= vals@.take(k as int));
                }
                acc = acc.plus(x);
                k = k + 1;
            }
            proof {
                assert(row@.take(c as int) =~= row@);
                assert(vals@.take(c as int) =~= vals@);
            }
            out.push(acc);
            i = i + 1;
        }
        proof {
            assert(out@ =~= target);
            assert(n * width::<T>() <= n * c * width::<T>()) by (nonlinear_arith)
                requires
                    c >= 1,
                    width::<T>() >= 1,
            ;
        }
        Ok(MVector::new(out))
    }
}

impl<T: SimpleNumerical> Matrix<T> {
    /// Value equality: equal shapes and equal values.
    pub fn equals(&self, other: &Self) -> (r: bool)
        ensures
            lawful::<T>() ==> r == grids_equal(self@, other@),
    {
        if self.data.len() != other.data.len() {
            return false;
        }
        let n = self.data.len();
        let mut i: usize = 0;
        while i < n
            invariant
                i <= n,
                n == self@.len(),
                n == other@.len(),
                lawful::<T>() ==> forall|j: int|
                    0 <= j < i ==> #[trigger] values_equal(self@[j], other@[j]),
            decreases n - i,
        {
            proof {
                assert(self@[i as int] == self.data@[i as int]@);
                assert(other@[i as int] == other.data@[i as int]@);
            }
            if !runs_equal(&self.data[i], &other.data[i]) {
                return false;
            }
            i = i + 1;
        }
        true
    }
}

impl<T: SimpleNumerical> PartialEq for Matrix<T> {
    fn eq(&self, other: &Self) -> (r: bool)
        ensures
            lawful::<T>() ==> r == grids_equal(self@, other@),
    {
        self.equals(other)
    }
}

impl<T: SimpleNumerical> vstd::std_specs::cmp::PartialEqSpecImpl for Matrix<T> {
    open spec fn obeys_eq_spec() -> bool {
        false
    }

    open spec fn eq_spec(&self, other: &Self) -> bool {
        grids_equal(self@, other@)
    }
}

impl<T: SimpleNumerical> Clone for Matrix<T> {
    fn clone(&self) -> (r: Self)
        ensures
            r@ == self@,
    {
        proof {
            use_type_invariant(self);
        }
        let n = self.data.len();
        let mut out: Vec<Vec<T>> = Vec::new();
        let mut i: usize = 0;
        while i < n
            invariant
                i <= n,
                n == self.data@.len(),
                out@.len() == i,
                forall|k: int| 0 <= k < i ==> (#[trigger] out@[k])@ == self.data@[k]@,
            decreases n - i,
        {
            let row = take_from_vec(self.data[i].len(), &self.data[i]);
            proof {
                assert(self.data@[i as int]@.take(self.data@[i as int]@.len() as int)
                    =~= self.data@[i as int]@);
            }
            out.push(row);
            i = i + 1;
        }
        proof {
            assert(rows_view(out@) =~= self@);
        }
        Matrix { data: out }
    }
}

impl<T: SimpleNumerical> Default for Matrix<T> {
    /// The matrix without rows.
    fn default() -> (r: Self)
        ensures
            r@ == Seq::<Seq<T>>::empty(),
    {
        Matrix::new()
    }
}

impl<T: SimpleNumerical> Matrix<T> {
    /// A matrix whose units are `view` has the shape that the headers spell,
    /// and the units of its values follow the headers.
    proof fn lemma_header(m: Self, view: Seq<Seq<u8>>)
        requires
            lawful::<T>(),
            matrix_units(m@) == view,
            view.len() <= usize::MAX,
        ensures
            view.len() >= 2,
            view[0].len() == 8,
            view[1].len() == 8,
            le_value(view[0]) == m@.len(),
            le_value(view[1]) == col_count(m@),
            m@.len() == 0 ==> col_count(m@) == 0,
            rectangular(m@),
            row_major(m@).len() == m@.len() * col_count(m@),
            view.len() == 2 + m@.len() * col_count(m@) * width::<T>(),
            concat_units(row_major(m@)) == view.subrange(2, view.len() as int),
    {
        lemma_le_bytes_len(m@.len(), 8);
        lemma_le_bytes_len(col_count(m@), 8);
        lemma_row_major(m@);
        lemma_concat_units(row_major(m@));
        assert(m.data@.len() == m.data.len());
        if m@.len() > 0 {
            assert(m.data@[0]@.len() == m.data@[0].len());
            assert(m@[0] == m.data@[0]@);
        }
        reveal_with_fuel(byte_pow, 9);
        lemma_le_value_of_bytes(m@.len(), 8);
        lemma_le_value_of_bytes(col_count(m@), 8);
        assert(m@.len() * col_count(m@) * width::<T>() == (m@.len() * col_count(m@)) * width::<T>());
        assert(concat_units(row_major(m@)) =~= view.subrange(2, view.len() as int));
    }
}

impl<T: SimpleNumerical> Matrix<T> {
    /// How many units encode this matrix: two header units, then `width()`
    /// units per value.
    pub fn required_units(&self) -> (r: usize)
        requires
            lawful::<T>(),
        ensures
            r == matrix_units(self@).len(),
    {
        proof {
            use_type_invariant(self);
            lemma_row_major(self@);
            lemma_concat_units(row_major(self@));
            assert(self@.len() * col_count(self@) <= self@.len() * col_count(self@) * width::<T>())
                by (nonlinear_arith)
                requires
                    width::<T>() >= 1,
            ;
        }
        let n = self.rows();
        let c = self.cols();
        let w = T::units_per_value();
        n * c * w + 2
    }

    /// Writes this matrix as units: its row count, its column count, then the
    /// units of each value, row after row.
    pub fn encode_units(&self) -> (r: Vec<BinaryUnit>)
        requires
            lawful::<T>(),
        ensures
            units_view(r@) == matrix_units(self@),
    {
        proof {
            use_type_invariant(self);
        }
        let ghost m = self@;
        let n = self.rows();
        let c = self.cols();
        let mut out: Vec<BinaryUnit> = Vec::new();
        out.push(BinaryUnit::from_u64(n as u64));
        out.push(BinaryUnit::from_u64(c as u64));
        let ghost header = seq![le_bytes(n as nat, 8), le_bytes(c as nat, 8)];
        proof {
            assert(units_view(out@) =~= header);
            assert(m.take(0) =~= Seq::<Seq<T>>::empty());
        }
        let mut i: usize = 0;
        while i < n
            invariant
                lawful::<T>(),
                i <= n,
                n == m.len(),
                c == col_count(m),
                m == self@,
                rectangular(m),
                header == seq![le_bytes(n as nat, 8), le_bytes(c as nat, 8)],
                units_view(out@) == header + concat_units(row_major(m.take(i as int))),
            decreases n - i,
        {
            let row = &self.data[i];
            proof {
                assert(row@ == m[i as int]);
                assert(row_major(m.take(i as int)) + row@.take(0) =~= row_major(m.take(i as int)));
            }
            let mut j: usize = 0;
            while j < c
                invariant
                    lawful::<T>(),
                    j <= c,
                    c == row@.len(),
                    units_view(out@) == header + concat_units(row_major(m.take(i as int)) + row@.take(
                        j as int,
                    )),
                decreases c - j,
            {
                let mut u = row[j].encode_units();
                let ghost before = out@;
                let ghost added = u@;
                out.append(&mut u);
                proof {
                    lemma_units_view_concat(before, added);
                    let x = row_major(m.take(i as int));
                    assert((x + row@.take(j + 1)).drop_last() =~= x + row@.take(j as int));
                    assert((x + row@.take(j + 1)).last() == row@[j as int]);
                    assert(units_view(out@) =~= header + concat_units(x + row@.take(j + 1)));
                }
                j = j + 1;
            }
            proof {
                assert(m.take(i + 1).drop_last() =~= m.take(i as int));
                assert(row@.take(c as int) =~= row@);
                assert(row_major(m.take(i + 1)) =~= row_major(m.take(i as int)) + row@);
            }
            i = i + 1;
        }
        proof {
            assert(m.take(n as int) =~= m);
        }
        out
    }

    /// Reads a matrix back from units: it succeeds exactly when some matrix
    /// is encoded as these units, and then gives that matrix.
    pub fn decode_units(units: &[BinaryUnit]) -> (r: Result<Self, Error>)
        requires
            lawful::<T>(),
        ensures
            match r {
                Ok(m) => matrix_units(m@) == units_view(units@),
                Err(e) => e is ConversionError && (forall|x: Self|
                    #[trigger] matrix_units(x@) != units_view(units@)) && (matrix_frame::<T>(
                    units@,
                ) ==> exists|i: int|
                    0 <= i < le_value(units@[0]@) * le_value(units@[1]@)
                        && #[trigger] value_failure_at::<T>(units@, 2, i, e)),
            },
    {
        let ghost view = units_view(units@);
        let total = units.len();
        assert(view.len() <= usize::MAX);
        if units.len() < 2 {
            proof {
                assert forall|v: Self| #[trigger] matrix_units(v@) != view by {
                    if matrix_units(v@) == view {
                        Self::lemma_header(v, view);
                    }
                }
            }
            return Err(conversion_error("a matrix takes at least two units"));
        }
        let rows64 = match units[0].to_u64() {
            Ok(x) => x,
            Err(e) => {
                proof {
                    assert forall|v: Self| #[trigger] matrix_units(v@) != view by {
                        if matrix_units(v@) == view {
                            Self::lemma_header(v, view);
                        }
                    }
                }
                return Err(e);
            },
        };
        let cols64 = match units[1].to_u64() {
            Ok(x) => x,
            Err(e) => {
                proof {
                    assert forall|v: Self| #[trigger] matrix_units(v@) != view by {
                        if matrix_units(v@) == view {
                            Self::lemma_header(v, view);
                        }
                    }
                }
                return Err(e);
            },
        };
        let w = T::units_per_value();
        let rest = units.len() - 2;
        assert((rows64 as u128) * (cols64 as u128) <= u128::MAX) by (nonlinear_arith)
            requires
                rows64 < 0x1_0000_0000_0000_0000,
                cols64 < 0x1_0000_0000_0000_0000,
        ;
        let rc128 = (rows64 as u128) * (cols64 as u128);
        let shape_ok = if rows64 == 0 && cols64 != 0 {
            false
        } else if rows64 as u128 > usize::MAX as u128 || cols64 as u128 > usize::MAX as u128 {
            false
        } else if rc128 > rest as u128 {
            false
        } else {
            assert(rc128 * (w as u128) <= u128::MAX) by (nonlinear_arith)
                requires
                    rc128 <= usize::MAX,
                    usize::MAX < 0x1_0000_0000_0000_0000,
                    w < 0x1_0000_0000_0000_0000,
            ;
            rc128 * (w as u128) == rest as u128
        };
        if !shape_ok {
            proof {
                assert forall|v: Self| #[trigger] matrix_units(v@) != view by {
                    if matrix_units(v@) == view {
                        Self::lemma_header(v, view);
                        let n = v@.len();
                        let c = col_count(v@);
                        assert(v.data@.len() == v.data.len());
                        if n > 0 {
                            assert(v.data@[0]@.len() == v.data@[0].len());
                            assert(v@[0] == v.data@[0]@);
                        }
                        assert(n * c * w == (n * c) * w);
                        assert(n * c <= n * c * w) by (nonlinear_arith)
                            requires
                                w >= 1,
                        ;
                    }
                }
                let r0 = rows64 as int;
                let c0 = cols64 as int;
                assert(r0 * c0 * w == (r0 * c0) * w);
                assert(r0 * c0 <= r0 * c0 * w) by (nonlinear_arith)
                    requires
                        w >= 1,
                        r0 >= 0,
                        c0 >= 0,
                ;
                assert(!matrix_frame::<T>(units@));
            }
            return Err(conversion_error("unit count does not match the shape"));
        }
        let n = rows64 as usize;
        let c = cols64 as usize;
        let rc = rc128 as usize;
        let vals = match decode_values::<T>(units, 2, rc) {
            Ok(vals) => vals,
            Err(e) => {
                proof {
                    assert forall|v: Self| #[trigger] matrix_units(v@) != view by {
                        if matrix_units(v@) == view {
                            Self::lemma_header(v, view);
                        }
                    }
                }
                return Err(e);
            },
        };
        let mut data: Vec<Vec<T>> = Vec::new();
        let mut i: usize = 0;
        proof {
            assert(vals@.subrange(0, 0) =~= Seq::<T>::empty());
            assert(rows_view(data@) =~= Seq::<Seq<T>>::empty());
        }
        while i < n
            invariant
                lawful::<T>(),
                i <= n,
                rc == n * c,
                vals@.len() == rc,
                data@.len() == i,
                forall|k: int| 0 <= k < i ==> (#[trigger] data@[k])@.len() == c,
                row_major(rows_view(data@)) == vals@.subrange(0, i * c),
            decreases n - i,
        {
            assert(i * c + c <= n * c) by (nonlinear_arith)
                requires
                    i < n,
            ;
            assert(i * c >= 0) by (nonlinear_arith);
            let start = i * c;
            let mut row: Vec<T> = Vec::new();
            let mut j: usize = 0;
            while j < c
                invariant
                    lawful::<T>(),
                    j <= c,
                    vals@.len() == rc,
                    start + c <= vals@.len(),
                    row@ == vals@.subrange(start as int, start + j),
                decreases c - j,
            {
                row.push(vals[start + j]);
                proof {
                    assert(row@ =~= vals@.subrange(start as int, start + j + 1));
                }
                j = j + 1;
            }
            let ghost before = rows_view(data@);
            data.push(row);
            proof {
                assert(rows_view(data@).drop_last() =~= before);
                assert((i + 1) * c == i * c + c) by (nonlinear_arith);
                assert(row_major(rows_view(data@)) =~= vals@.subrange(0, (i + 1) * c));
            }
            i = i + 1;
        }
        let m = Matrix { data };
        proof {
            let mv = rows_view(m.data@);
            assert(mv == m@);
            assert(row_major(mv) =~= vals@);
            if n > 0 {
                assert(col_count(mv) == c);
            } else {
                assert(c == 0);
            }
            assert forall|k: int| 0 <= k < mv.len() implies #[trigger] mv[k].len() == col_count(mv) by {
                assert(mv[k] == m.data@[k]@);
            }
            assert(n * c * w == rest);
            lemma_le_bytes_of_value(units@[0]@);
            lemma_le_bytes_of_value(units@[1]@);
            assert(view =~= seq![view[0], view[1]] + view.subrange(2, view.len() as int));
            assert(matrix_units(m@) =~= view);
        }
        Ok(m)
    }
}

/// Encoding loses nothing: a matrix whose units are those of `m` is `m`, and
/// `m` takes two header units plus `width()` units per value.
pub proof fn lemma_matrix_round_trip<T: SimpleNumerical>(m: Matrix<T>, x: Matrix<T>)
    requires
        lawful::<T>(),
        matrix_well_formed(m@),
        matrix_units(x@) == matrix_units(m@),
    ensures
        x@ == m@,
        matrix_units(m@).len() == 2 + m@.len() * col_count(m@) * width::<T>(),
{
    let view = matrix_units(m@);
    lemma_row_major(m@);
    lemma_concat_units(row_major(m@));
    assert(m@.len() * col_count(m@) * width::<T>() == (m@.len() * col_count(m@)) * width::<T>());
    Matrix::<T>::lemma_header(m, view);
    Matrix::<T>::lemma_header(x, view);
    let n = m@.len();
    let c = col_count(m@);
    let a = row_major(m@);
    let b = row_major(x@);
    lemma_concat_units(a);
    lemma_concat_units(b);
    assert forall|k: int| 0 <= k < a.len() implies a[k] == b[k] by {
        let w = width::<T>();
        assert(concat_units(a).subrange(k * w, k * w + w) == units_of(a[k]));
        assert(concat_units(b).subrange(k * w, k * w + w) == units_of(b[k]));
    }
    assert(a =~= b);
    lemma_row_major(m@);
    lemma_row_major(x@);
    assert forall|i: int| 0 <= i < n implies x@[i] == m@[i] by {
        assert(a.subrange(i * c, i * c + c) == m@[i]);
        assert(b.subrange(i * c, i * c + c) == x@[i]);
    }
    assert(x@ =~= m@);
}

} // verus!
