//! A value of any kind, and the dispatch that reads one back from units given
//! the tag of its kind.
use vstd::prelude::*;
use crate::complex::{Complex, complex_units, lemma_complex_lawful};
use crate::errors::Error;
use crate::kinds::{RealNumerical, VariableType, real_lawful, units_of, units_view};
use crate::matrix::{Matrix, matrix_units};
use crate::unit::BinaryUnit;
use crate::vector::{MVector, vector_units};

verus! {

/// The kind of a value, as the surrounding interpreter names it.
#[derive(Clone, Copy, Debug, PartialEq, Eq, Structural)]
pub enum TypeTag {
    Scalar,
    Complex,
    Vector,
    CVector,
    Matrix,
}

/// A value of one of the kinds over the real kind `T`.
#[derive(Clone, Debug)]
pub enum VariableData<T: RealNumerical> {
    Scalar(T),
    Complex(Complex<T>),
    Vector(MVector<T>),
    CVector(MVector<Complex<T>>),
    Matrix(Matrix<T>),
}

/// The tag of the kind of `d`.
pub open spec fn tag_of<T: RealNumerical>(d: VariableData<T>) -> TypeTag {
    match d {
        VariableData::Scalar(_) => TypeTag::Scalar,
        VariableData::Complex(_) => TypeTag::Complex,
        VariableData::Vector(_) => TypeTag::Vector,
        VariableData::CVector(_) => TypeTag::CVector,
        VariableData::Matrix(_) => TypeTag::Matrix,
    }
}

/// The units that encode `d`, as its kind writes them.
pub open spec fn data_units<T: RealNumerical>(d: VariableData<T>) -> Seq<Seq<u8>> {
    match d {
        VariableData::Scalar(x) => units_of(x),
        VariableData::Complex(z) => complex_units(z@),
        VariableData::Vector(v) => vector_units(v@),
        VariableData::CVector(v) => vector_units(v@),
        VariableData::Matrix(m) => matrix_units(m@),
    }
}

/// `e` is the error that the decoder of the kind tagged `tag` returned on `units`.
pub open spec fn kind_decode_error<T: RealNumerical>(
    tag: TypeTag,
    units: &[BinaryUnit],
    e: Error,
) -> bool {
    match tag {
        TypeTag::Scalar => call_ensures(T::decode_units, (units,), Err::<T, Error>(e)),
        TypeTag::Complex => call_ensures(
            Complex::<T>::decode_units,
            (units,),
            Err::<Complex<T>, Error>(e),
        ),
        TypeTag::Vector => call_ensures(
            MVector::<T>::decode_units,
            (units,),
            Err::<MVector<T>, Error>(e),
        ),
        TypeTag::CVector => call_ensures(
            MVector::<Complex<T>>::decode_units,
            (units,),
            Err::<MVector<Complex<T>>, Error>(e),
        ),
        TypeTag::Matrix => call_ensures(
            Matrix::<T>::decode_units,
            (units,),
            Err::<Matrix<T>, Error>(e),
        ),
    }
}

impl<T: RealNumerical> VariableData<T> {
    /// The tag of this value's kind.
    pub fn tag(&self) -> (r: TypeTag)
        ensures
            r == tag_of(*self),
    {
        match self {
            VariableData::Scalar(_) => TypeTag::Scalar,
            VariableData::Complex(_) => TypeTag::Complex,
            VariableData::Vector(_) => TypeTag::Vector,
            VariableData::CVector(_) => TypeTag::CVector,
            VariableData::Matrix(_) => TypeTag::Matrix,
        }
    }

    /// How many units encode this value.
    pub fn required_units(&self) -> (r: usize)
        requires
            real_lawful::<T>(),
        ensures
            r == data_units(*self).len(),
    {
        proof {
            lemma_complex_lawful::<T>();
        }
        match self {
            VariableData::Scalar(x) => x.required_units(),
            VariableData::Complex(z) => {
                proof {
                    assert(units_of(z@.0).len() == 1 && units_of(z@.1).len() == 1);
                }
                z.required_units()
            },
            VariableData::Vector(v) => v.required_units(),
            VariableData::CVector(v) => v.required_units(),
            VariableData::Matrix(m) => m.required_units(),
        }
    }

    /// Writes this value as its kind does.
    pub fn encode_units(&self) -> (r: Vec<BinaryUnit>)
        requires
            real_lawful::<T>(),
        ensures
            units_view(r@) == data_units(*self),
    {
        proof {
            lemma_complex_lawful::<T>();
        }
        match self {
            VariableData::Scalar(x) => x.encode_units(),
            VariableData::Complex(z) => z.encode_units(),
            VariableData::Vector(v) => v.encode_units(),
            VariableData::CVector(v) => v.encode_units(),
            VariableData::Matrix(m) => m.encode_units(),
        }
    }

    /// Reads a value of the kind tagged `tag`: it succeeds exactly when some
    /// value of that kind is encoded as these units, and a failure is the
    /// error that the kind's decoder returned, unchanged.
    pub fn decode(tag: TypeTag, units: &[BinaryUnit]) -> (r: Result<Self, Error>)
        requires
            real_lawful::<T>(),
        ensures
            match r {
                Ok(d) => tag_of(d) == tag && data_units(d) == units_view(units@),
                Err(e) => e is ConversionError && kind_decode_error::<T>(tag, units, e) && forall|
                    d: Self,
                | tag_of(d) == tag ==> #[trigger] data_units(d) != units_view(units@),
            },
    {
        proof {
            lemma_complex_lawful::<T>();
        }
        match tag {
            TypeTag::Scalar => match T::decode_units(units) {
                Ok(x) => Ok(VariableData::Scalar(x)),
                Err(e) => Err(e),
            },
            TypeTag::Complex => match Complex::<T>::decode_units(units) {
                Ok(z) => Ok(VariableData::Complex(z)),
                Err(e) => Err(e),
            },
            TypeTag::Vector => match MVector::<T>::decode_units(units) {
                Ok(v) => Ok(VariableData::Vector(v)),
                Err(e) => Err(e),
            },
            TypeTag::CVector => match MVector::<Complex<T>>::decode_units(units) {
                Ok(v) => Ok(VariableData::CVector(v)),
                Err(e) => Err(e),
            },
            TypeTag::Matrix => match Matrix::<T>::decode_units(units) {
                Ok(m) => Ok(VariableData::Matrix(m)),
                Err(e) => Err(e),
            },
        }
    }
}

} // verus!
