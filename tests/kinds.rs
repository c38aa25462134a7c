use numkernel::complex::Complex;
use numkernel::data::{TypeTag, VariableData};
use numkernel::errors::{conversion_error, Error};
use numkernel::kinds::{RealNumerical, SimpleNumerical, VariableType};
use numkernel::matrix::Matrix;
use numkernel::unit::BinaryUnit;
use numkernel::vector::MVector;

/// A real kind over `f64`, written as the bits of the float.
#[derive(Clone, Copy, Debug, PartialEq)]
struct Real(f64);

impl VariableType for Real {
    fn required_units(&self) -> usize {
        1
    }

    fn encode_units(&self) -> Vec<BinaryUnit> {
        vec![BinaryUnit::from_u64(self.0.to_bits())]
    }

    fn decode_units(units: &[BinaryUnit]) -> Result<Self, Error> {
        if units.len() != 1 {
            return Err(conversion_error("a real number takes one unit"));
        }
        Ok(Real(f64::from_bits(units[0].to_u64()?)))
    }
}

impl SimpleNumerical for Real {
    fn units_per_value() -> usize {
        1
    }
    fn zero() -> Self {
        Real(0.0)
    }
    fn is_zero(&self) -> bool {
        self.0 == 0.0
    }
    fn plus(self, rhs: Self) -> Self {
        Real(self.0 + rhs.0)
    }
    fn minus(self, rhs: Self) -> Self {
        Real(self.0 - rhs.0)
    }
    fn times(self, rhs: Self) -> Self {
        Real(self.0 * rhs.0)
    }
    fn over(self, rhs: Self) -> Self {
        Real(self.0 / rhs.0)
    }
    fn equals(&self, other: &Self) -> bool {
        self.0 == other.0
    }
}

impl RealNumerical for Real {
    fn sqrt(&self) -> Self {
        Real(self.0.sqrt())
    }
    fn atan2(y: &Self, x: &Self) -> Self {
        Real(y.0.atan2(x.0))
    }
}

fn vector(values: &[f64]) -> MVector<Real> {
    MVector::new(values.iter().map(|v| Real(*v)).collect())
}

fn floats(v: &MVector<Real>) -> Vec<f64> {
    v.values().iter().map(|r| r.0).collect()
}

fn matrix(rows: &[&[f64]]) -> Matrix<Real> {
    Matrix::from_rows(rows.iter().map(|r| r.iter().map(|v| Real(*v)).collect()).collect()).unwrap()
}

fn grid(m: &Matrix<Real>) -> Vec<Vec<f64>> {
    (0..m.rows()).map(|i| (0..m.cols()).map(|j| m.get(i, j).0).collect()).collect()
}

fn complex(a: f64, b: f64) -> Complex<Real> {
    Complex::new(Real(a), Real(b))
}

fn operator_of(e: Error) -> String {
    match e {
        Error::OperatorError(op, _, _) => op,
        other => panic!("unexpected {:?}", other),
    }
}

#[test]
fn vectors_of_different_dimension_add_on_the_longer() {
    let sum = vector(&[1.0, 2.0]).add(vector(&[1.0, -3.0, 4.0])).unwrap();
    assert_eq!(floats(&sum), vec![2.0, -1.0, 4.0]);
    let sum = vector(&[1.0, -3.0, 4.0]).add(vector(&[1.0, 2.0])).unwrap();
    assert_eq!(floats(&sum), vec![2.0, -1.0, 4.0]);
}

#[test]
fn vectors_subtract_component_wise() {
    let diff = vector(&[5.0, 5.0, 5.0]).sub(vector(&[1.0, 2.0])).unwrap();
    assert_eq!(floats(&diff), vec![4.0, 3.0, 5.0]);
    let diff = vector(&[1.0]).sub(vector(&[3.0, 7.0])).unwrap();
    assert_eq!(floats(&diff), vec![-2.0, 7.0]);
}

#[test]
fn the_error_state_is_rejected() {
    let err = vector(&[]).add(vector(&[1.0])).unwrap_err();
    match err {
        Error::OperatorError(op, a, b) => {
            assert_eq!(op, "+");
            assert_eq!(a, "vector of dimension 0");
            assert_eq!(b, Some("vector of dimension 1".to_string()));
        }
        other => panic!("unexpected {:?}", other),
    }
    assert!(vector(&[1.0]).sub(MVector::default()).is_err());
    assert!(vector(&[]).mul(Real(2.0)).is_err());
    assert!(vector(&[]).is_error());
    assert_eq!(vector(&[]).magnitude(), None);
}

#[test]
fn vectors_scale_and_divide() {
    assert_eq!(floats(&vector(&[1.0, -2.0]).mul(Real(3.0)).unwrap()), vec![3.0, -6.0]);
    assert_eq!(floats(&vector(&[3.0, 6.0]).div(Real(3.0)).unwrap()), vec![1.0, 2.0]);
}

#[test]
fn vector_division_by_zero_fails() {
    let err = vector(&[1.0, 2.0]).div(Real(0.0)).unwrap_err();
    match err {
        Error::OperatorError(op, _, b) => {
            assert_eq!(op, "/");
            assert_eq!(b, Some("zero".to_string()));
        }
        other => panic!("unexpected {:?}", other),
    }
    assert!(vector(&[0.0, 0.0]).to_unit().is_err());
}

#[test]
fn vector_products() {
    assert_eq!(vector(&[1.0, 2.0, 3.0]).dot(vector(&[4.0, 5.0, 6.0])).unwrap(), Real(32.0));
    assert_eq!(operator_of(vector(&[1.0, 2.0]).dot(vector(&[1.0])).unwrap_err()), "dot");
    let c = vector(&[1.0, 0.0, 0.0]).cross(vector(&[0.0, 1.0, 0.0])).unwrap();
    assert_eq!(floats(&c), vec![0.0, 0.0, 1.0]);
    let c = vector(&[2.0, 3.0, 4.0]).cross(vector(&[5.0, 6.0, 7.0])).unwrap();
    assert_eq!(floats(&c), vec![-3.0, 6.0, -3.0]);
    assert_eq!(operator_of(vector(&[1.0, 2.0]).cross(vector(&[1.0, 2.0])).unwrap_err()), "cross");
}

#[test]
fn vector_magnitude_and_unit() {
    let v = vector(&[3.0, 4.0]);
    assert_eq!(v.dim(), 2);
    assert_eq!(v.magnitude(), Some(Real(5.0)));
    assert_eq!(floats(&v.to_unit().unwrap()), vec![0.6, 0.8]);
}

#[test]
fn vector_angle_needs_two_dimensions() {
    assert_eq!(vector(&[1.0, 1.0]).angle().unwrap(), Real(1.0f64.atan2(1.0)));
    assert_eq!(vector(&[0.0, 2.0]).angle().unwrap(), Real(std::f64::consts::FRAC_PI_2));
    match vector(&[1.0, 2.0, 3.0]).angle() {
        Err(Error::OperationError(action, reason)) => {
            assert_eq!(action, "angle");
            assert_eq!(reason, "can only find angle for dim = 2, got dim = 3");
        }
        other => panic!("unexpected {:?}", other),
    }
    match vector(&[]).angle() {
        Err(Error::OperationError(_, reason)) => assert_eq!(reason, "no data loaded (error state)"),
        other => panic!("unexpected {:?}", other),
    }
}

#[test]
fn vectors_round_trip_through_units() {
    let v = vector(&[1.5, -2.0, 1e300]);
    let units = v.encode_units();
    assert_eq!(units.len(), v.required_units());
    assert_eq!(units.len(), 4);
    assert_eq!(units[0].to_u64().unwrap(), 3);
    let back = MVector::<Real>::decode_units(&units).unwrap();
    assert_eq!(floats(&back), floats(&v));
    let empty: MVector<Real> = MVector::default();
    let units = empty.encode_units();
    assert_eq!(units.len(), 1);
    assert!(MVector::<Real>::decode_units(&units).unwrap().is_error());
}

#[test]
fn vector_decoding_checks_the_count() {
    let mut units = vector(&[1.0, 2.0]).encode_units();
    units.pop();
    assert!(matches!(MVector::<Real>::decode_units(&units), Err(Error::ConversionError(_))));
    assert!(MVector::<Real>::decode_units(&[]).is_err());
    let bad = vec![BinaryUnit::from_bytes(vec![1, 2, 3])];
    assert!(matches!(MVector::<Real>::decode_units(&bad), Err(Error::ConversionError(_))));
}

#[test]
fn complex_algebra() {
    let p = complex(1.0, 2.0).mul(complex(3.0, -1.0));
    assert_eq!((p.re(), p.im()), (Real(5.0), Real(5.0)));
    let q = complex(1.0, 0.0).div(complex(1.0, 0.0)).unwrap();
    assert_eq!((q.re(), q.im()), (Real(1.0), Real(0.0)));
    let err = complex(1.0, 1.0).div(complex(0.0, 0.0)).unwrap_err();
    assert_eq!(operator_of(err), "/");
    let s = complex(1.0, 2.0).add(Complex::from_real(Real(3.0)));
    assert_eq!((s.re(), s.im()), (Real(4.0), Real(2.0)));
    let d = complex(1.0, 2.0).sub(complex(0.5, 4.0));
    assert_eq!((d.re(), d.im()), (Real(0.5), Real(-2.0)));
    let q = complex(1.0, 1.0).div(complex(1.0, -1.0)).unwrap();
    assert_eq!((q.re(), q.im()), (Real(0.0), Real(1.0)));
}

#[test]
fn complex_polar_form() {
    let (m, a) = complex(3.0, 4.0).polar();
    assert_eq!(m, Real(5.0));
    assert_eq!(a, Real(4.0f64.atan2(3.0)));
}

#[test]
fn complex_numbers_round_trip_through_units() {
    let z = complex(-1.25, 8.0);
    let units = z.encode_units();
    assert_eq!(units.len(), z.required_units());
    assert_eq!(units.len(), 2);
    let back = Complex::<Real>::decode_units(&units).unwrap();
    assert_eq!((back.re(), back.im()), (Real(-1.25), Real(8.0)));
    assert!(Complex::<Real>::decode_units(&units[..1]).is_err());
}

#[test]
fn complex_vectors_combine() {
    let v = MVector::new(vec![complex(1.0, 1.0), complex(0.0, 2.0)]);
    let w = MVector::new(vec![complex(1.0, -1.0)]);
    let sum = v.add(w).unwrap();
    let parts: Vec<(f64, f64)> = sum.values().iter().map(|z| (z.re().0, z.im().0)).collect();
    assert_eq!(parts, vec![(2.0, 0.0), (0.0, 2.0)]);
    let units = sum.encode_units();
    assert_eq!(units.len(), 5);
    assert_eq!(MVector::<Complex<Real>>::decode_units(&units).unwrap().dim(), 2);
}

#[test]
fn matrix_products_check_shapes() {
    let a = matrix(&[&[1.0, 2.0, 3.0], &[4.0, 5.0, 6.0]]);
    let b = matrix(&[&[7.0, 8.0], &[9.0, 10.0], &[11.0, 12.0]]);
    let p = a.clone().mul(b).unwrap();
    assert_eq!((p.rows(), p.cols()), (2, 2));
    assert_eq!(grid(&p), vec![vec![58.0, 64.0], vec![139.0, 154.0]]);
    let err = a.clone().mul(a.clone()).unwrap_err();
    match err {
        Error::OperatorError(op, x, y) => {
            assert_eq!(op, "*");
            assert_eq!(x, "matrix of 2x3");
            assert_eq!(y, Some("matrix of 2x3".to_string()));
        }
        other => panic!("unexpected {:?}", other),
    }
}

#[test]
fn matrix_sums_check_shapes() {
    let a = matrix(&[&[1.0, 2.0], &[3.0, 4.0]]);
    let b = matrix(&[&[1.0, 1.0], &[1.0, 1.0]]);
    assert_eq!(grid(&a.clone().add(b.clone()).unwrap()), vec![vec![2.0, 3.0], vec![4.0, 5.0]]);
    assert_eq!(grid(&a.clone().sub(b).unwrap()), vec![vec![0.0, 1.0], vec![2.0, 3.0]]);
    let c = matrix(&[&[1.0, 2.0, 3.0]]);
    assert_eq!(operator_of(a.clone().add(c.clone()).unwrap_err()), "+");
    assert_eq!(operator_of(a.sub(c).unwrap_err()), "-");
}

#[test]
fn matrix_scalar_operations() {
    let a = matrix(&[&[1.0, -2.0], &[3.0, 4.0]]);
    assert_eq!(grid(&a.clone().mul_scalar(Real(2.0))), vec![vec![2.0, -4.0], vec![6.0, 8.0]]);
    assert_eq!(grid(&a.clone().div(Real(2.0)).unwrap()), vec![vec![0.5, -1.0], vec![1.5, 2.0]]);
    assert_eq!(operator_of(a.div(Real(0.0)).unwrap_err()), "/");
}

#[test]
fn matrix_times_vector() {
    let a = matrix(&[&[1.0, 2.0], &[3.0, 4.0], &[5.0, 6.0]]);
    let v = a.clone().mul_vector(vector(&[1.0, -1.0])).unwrap();
    assert_eq!(floats(&v), vec![-1.0, -1.0, -1.0]);
    assert!(a.clone().mul_vector(vector(&[1.0, 2.0, 3.0])).is_err());
    assert!(a.mul_vector(vector(&[])).is_err());
}

#[test]
fn ragged_rows_are_rejected() {
    let rows = vec![vec![Real(1.0)], vec![Real(1.0), Real(2.0)]];
    match Matrix::from_rows(rows) {
        Err(Error::ArgumentError(_, reason)) => assert_eq!(reason, "rows differ in length"),
        Err(other) => panic!("unexpected {:?}", other),
        Ok(_) => panic!("ragged rows accepted"),
    }
    let empty: Matrix<Real> = Matrix::default();
    assert_eq!((empty.rows(), empty.cols()), (0, 0));
}

#[test]
fn matrices_round_trip_through_units() {
    let a = matrix(&[&[1.0, 2.0, 3.0], &[4.0, 5.0, 6.0]]);
    let units = a.encode_units();
    assert_eq!(units.len(), a.required_units());
    assert_eq!(units.len(), 8);
    assert_eq!(units[0].to_u64().unwrap(), 2);
    assert_eq!(units[1].to_u64().unwrap(), 3);
    let back = Matrix::<Real>::decode_units(&units).unwrap();
    assert_eq!(grid(&back), grid(&a));
    assert!(Matrix::<Real>::decode_units(&units[..7]).is_err());
    let empty: Matrix<Real> = Matrix::new();
    assert_eq!(empty.encode_units().len(), 2);
    let bad = vec![BinaryUnit::from_u64(0), BinaryUnit::from_u64(3)];
    assert!(Matrix::<Real>::decode_units(&bad).is_err());
}

#[test]
fn complex_vectors_have_a_norm() {
    let v = MVector::new(vec![complex(3.0, 4.0), complex(0.0, 0.0)]);
    assert_eq!(v.magnitude(), Some(Real(5.0)));
    let u = v.to_unit().unwrap();
    let parts: Vec<(f64, f64)> = u.values().iter().map(|z| (z.re().0, z.im().0)).collect();
    assert_eq!(parts, vec![(0.6, 0.8), (0.0, 0.0)]);
    let zero = MVector::new(vec![complex(0.0, 0.0)]);
    assert_eq!(operator_of(zero.to_unit().unwrap_err()), "/");
    let empty: MVector<Complex<Real>> = MVector::default();
    assert_eq!(empty.magnitude(), None);
    assert!(empty.to_unit().is_err());
}

#[test]
fn complex_numbers_as_elements() {
    let z = complex(1.0, 2.0);
    assert_eq!(z.required_units(), 2);
    assert_eq!(<Complex<Real> as SimpleNumerical>::units_per_value(), 2);
    let zero = <Complex<Real> as SimpleNumerical>::zero();
    assert_eq!((zero.re(), zero.im()), (Real(0.0), Real(0.0)));
    assert!(complex(0.0, 0.0).is_zero());
    assert!(!z.is_zero());
    let p = z.times(complex(3.0, -1.0));
    assert_eq!((p.re(), p.im()), (Real(5.0), Real(5.0)));
    let q = z.over(complex(0.0, 0.0));
    assert_eq!((q.re(), q.im()), (Real(1.0), Real(2.0)));
    let s = z.plus(complex(1.0, 1.0)).minus(complex(0.5, 0.0));
    assert_eq!((s.re(), s.im()), (Real(1.5), Real(3.0)));
}

#[test]
fn values_compare_exactly() {
    assert!(complex(1.0, 2.0) == complex(1.0, 2.0));
    assert!(complex(1.0, 2.0) != complex(1.0, 2.5));
    assert!(vector(&[1.0, 2.0]) == vector(&[1.0, 2.0]));
    assert!(vector(&[1.0, 2.0]) != vector(&[1.0]));
    assert!(vector(&[f64::NAN]) != vector(&[f64::NAN]));
    assert!(matrix(&[&[1.0], &[2.0]]) == matrix(&[&[1.0], &[2.0]]));
    assert!(matrix(&[&[1.0], &[2.0]]) != matrix(&[&[1.0, 2.0]]));
}

#[test]
fn a_failing_value_passes_its_error_on() {
    let units = vec![BinaryUnit::from_u64(2), BinaryUnit::from_u64(1.0f64.to_bits()), BinaryUnit::from_bytes(vec![1, 2, 3])];
    match MVector::<Real>::decode_units(&units) {
        Err(Error::ConversionError(reason)) => assert_eq!(reason, "expected 8 bytes, got 3"),
        other => panic!("unexpected {:?}", other.map(|v| v.dim())),
    }
    let units = vec![BinaryUnit::from_u64(1), BinaryUnit::from_u64(1), BinaryUnit::from_bytes(vec![9])];
    match Matrix::<Real>::decode_units(&units) {
        Err(Error::ConversionError(reason)) => assert_eq!(reason, "expected 8 bytes, got 1"),
        other => panic!("unexpected {:?}", other.map(|m| m.rows())),
    }
}

#[test]
fn dispatch_reads_the_tagged_kind() {
    let v = vector(&[1.0, 2.0]);
    let units = v.encode_units();
    match VariableData::<Real>::decode(TypeTag::Vector, &units).unwrap() {
        VariableData::Vector(back) => assert_eq!(floats(&back), vec![1.0, 2.0]),
        other => panic!("unexpected {:?}", other.tag()),
    }
    let d = VariableData::<Real>::decode(TypeTag::Scalar, &[BinaryUnit::from_u64(2.5f64.to_bits())]).unwrap();
    assert_eq!(d.tag(), TypeTag::Scalar);
    assert_eq!(d.required_units(), 1);
    assert_eq!(d.encode_units().len(), 1);
    let z = VariableData::<Real>::Complex(complex(1.0, -1.0));
    let units = z.encode_units();
    assert_eq!(units.len(), z.required_units());
    assert_eq!(VariableData::<Real>::decode(TypeTag::Complex, &units).unwrap().tag(), TypeTag::Complex);
    match VariableData::<Real>::decode(TypeTag::Scalar, &[BinaryUnit::from_bytes(vec![1, 2, 3])]) {
        Err(Error::ConversionError(reason)) => assert_eq!(reason, "expected 8 bytes, got 3"),
        other => panic!("unexpected {:?}", other.map(|d| d.tag())),
    }
    assert!(VariableData::<Real>::decode(TypeTag::Matrix, &units).is_err());
    let m = VariableData::<Real>::Matrix(matrix(&[&[1.0, 2.0]]));
    let units = m.encode_units();
    assert_eq!(units.len(), 4);
    assert_eq!(VariableData::<Real>::decode(TypeTag::Matrix, &units).unwrap().tag(), TypeTag::Matrix);
}
