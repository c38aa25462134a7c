//! `BinaryUnit`: one fixed-width primitive value as raw bytes, and the codec
//! between primitives and units. Every width is written least significant
//! byte first, and reading a unit of the wrong length fails.
use vstd::prelude::*;
use vstd::string::*;
use crate::bytes::{byte_pow, le_bytes, le_value, encode_le, decode_le, lemma_byte_pow_monotonic, lemma_byte_pow_positive, lemma_le_value_bound, lemma_le_bytes_len, lemma_le_value_of_bytes};
use crate::errors::Error;
use crate::text::{decimal, decimal_text};

verus! {

/// One encoded primitive.
#[derive(Debug, Clone, PartialEq, Eq, Default)]
pub struct BinaryUnit {
    data: Vec<u8>,
}

impl View for BinaryUnit {
    type V = Seq<u8>;

    closed spec fn view(&self) -> Seq<u8> {
        self.data@
    }
}

/// The bytes of a signed number in two's complement over `n` bytes.
pub open spec fn signed_bytes(v: int, n: nat) -> Seq<u8> {
    if v >= 0 {
        le_bytes(v as nat, n)
    } else {
        le_bytes((v + byte_pow(n)) as nat, n)
    }
}

/// The signed number that `s` holds in two's complement.
pub open spec fn signed_value(s: Seq<u8>) -> int {
    if le_value(s) < byte_pow(s.len()) / 2 {
        le_value(s) as int
    } else {
        le_value(s) - byte_pow(s.len())
    }
}

/// The reason given when a unit of `actual` bytes is read as a value of `expected` bytes.
pub open spec fn width_mismatch_text(expected: nat, actual: nat) -> Seq<char> {
    "expected "@ + decimal_text(expected) + (if expected == 1 {
        " byte, got "@
    } else {
        " bytes, got "@
    }) + decimal_text(actual)
}

/// The error of reading a unit of `actual` bytes as a value of `expected` bytes.
pub open spec fn width_mismatch(e: Error, expected: nat, actual: nat) -> bool {
    e matches Error::ConversionError(reason) && reason@ == width_mismatch_text(expected, actual)
}

/// The error of reading a number that the target type cannot hold.
pub open spec fn too_large(e: Error) -> bool {
    e matches Error::ConversionError(reason) && reason@ == "value does not fit the target type"@
}

fn width_error(expected: usize, actual: usize) -> (e: Error)
    ensures
        width_mismatch(e, expected as nat, actual as nat),
{
    let mut s = String::from_str("expected ");
    let d = decimal(expected as u64);
    s.append(d.as_str());
    if expected == 1 {
        s.append(" byte, got ");
    } else {
        s.append(" bytes, got ");
    }
    let a = decimal(actual as u64);
    s.append(a.as_str());
    Error::ConversionError(s)
}

fn range_failure() -> (e: Error)
    ensures
        too_large(e),
{
    Error::ConversionError(String::from_str("value does not fit the target type"))
}

/// `256` to the power `n`, for `n` below sixteen.
fn byte_pow_exec(n: usize) -> (r: u128)
    requires
        n < 16,
    ensures
        r == byte_pow(n as nat),
    decreases n,
{
    if n == 0 {
        1
    } else {
        let p = byte_pow_exec(n - 1);
        proof {
            lemma_byte_pow_monotonic((n - 1) as nat, 14);
            reveal_with_fuel(byte_pow, 15);
        }
        p * 256
    }
}

impl BinaryUnit {
    /// A unit holding exactly `data`.
    pub fn from_bytes(data: Vec<u8>) -> (r: BinaryUnit)
        ensures
            r@ == data@,
    {
        BinaryUnit { data }
    }

    /// Number of bytes held.
    pub fn len(&self) -> (r: usize)
        ensures
            r == self@.len(),
    {
        self.data.len()
    }

    /// Whether the unit holds no byte.
    pub fn is_empty(&self) -> (r: bool)
        ensures
            r == (self@.len() == 0),
    {
        self.data.len() == 0
    }

    /// The bytes held.
    pub fn expose(&self) -> (r: &[u8])
        ensures
            r@ == self@,
    {
        self.data.as_slice()
    }

    fn of_unsigned(v: u128, width: usize) -> (r: BinaryUnit)
        ensures
            r@ == le_bytes(v as nat, width as nat),
    {
        BinaryUnit { data: encode_le(v, width) }
    }

    fn of_signed(v: i128, width: usize) -> (r: BinaryUnit)
        requires
            1 <= width <= 16,
            -(byte_pow(width as nat) / 2) <= v < byte_pow(width as nat) / 2,
        ensures
            r@ == signed_bytes(v as int, width as nat),
    {
        if v >= 0 {
            Self::of_unsigned(v as u128, width)
        } else if width == 16 {
            proof {
                reveal_with_fuel(byte_pow, 17);
            }
            let u: u128 = u128::MAX - ((-(v + 1)) as u128);
            Self::of_unsigned(u, width)
        } else {
            let p = byte_pow_exec(width);
            proof {
                lemma_byte_pow_monotonic(width as nat, 15);
                reveal_with_fuel(byte_pow, 16);
            }
            let u: u128 = (v + p as i128) as u128;
            Self::of_unsigned(u, width)
        }
    }

    /// Reads the unit as an unsigned number of `width` bytes.
    fn read_unsigned(&self, width: usize) -> (r: Result<u128, Error>)
        requires
            width <= 16,
        ensures
            match r {
                Ok(v) => self@.len() == width && v == le_value(self@) && v < byte_pow(width as nat),
                Err(e) => self@.len() != width && width_mismatch(e, width as nat, self@.len()),
            },
    {
        if self.data.len() != width {
            return Err(width_error(width, self.data.len()));
        }
        let v = decode_le(self.data.as_slice());
        proof {
            lemma_le_value_bound(self@);
        }
        Ok(v)
    }

    /// Reads the unit as a signed number of `width` bytes in two's complement.
    fn read_signed(&self, width: usize) -> (r: Result<i128, Error>)
        requires
            1 <= width <= 16,
        ensures
            match r {
                Ok(v) => self@.len() == width && v == signed_value(self@) && -(byte_pow(
                    width as nat,
                ) / 2) <= v < byte_pow(width as nat) / 2,
                Err(e) => self@.len() != width && width_mismatch(e, width as nat, self@.len()),
            },
    {
        let u = self.read_unsigned(width)?;
        proof {
            lemma_byte_pow_positive((width - 1) as nat);
            assert(byte_pow(width as nat) == 256 * byte_pow((width - 1) as nat));
            lemma_byte_pow_monotonic(width as nat, 16);
            reveal_with_fuel(byte_pow, 17);
        }
        if width == 16 {
            if u < 0x8000_0000_0000_0000_0000_0000_0000_0000 {
                Ok(u as i128)
            } else {
                Ok(-((u128::MAX - u) as i128) - 1)
            }
        } else {
            let p = byte_pow_exec(width);
            if u < p / 2 {
                Ok(u as i128)
            } else {
                Ok(u as i128 - p as i128)
            }
        }
    }

    /// The unit of a `u8`.
    pub fn from_u8(v: u8) -> (r: BinaryUnit)
        ensures
            r@ == le_bytes(v as nat, 1),
    {
        Self::of_unsigned(v as u128, 1)
    }

    /// Reads the unit as a `u8`; it must hold exactly 1 byte.
    pub fn to_u8(&self) -> (r: Result<u8, Error>)
        ensures
            match r {
                Ok(x) => self@.len() == 1 && x as nat == le_value(self@),
                Err(e) => self@.len() != 1 && width_mismatch(e, 1, self@.len()),
            },
    {
        let v = self.read_unsigned(1)?;
        proof {
            reveal_with_fuel(byte_pow, 2);
        }
        Ok(v as u8)
    }

    /// The unit of a `u16`.
    pub fn from_u16(v: u16) -> (r: BinaryUnit)
        ensures
            r@ == le_bytes(v as nat, 2),
    {
        Self::of_unsigned(v as u128, 2)
    }

    /// Reads the unit as a `u16`; it must hold exactly 2 bytes.
    pub fn to_u16(&self) -> (r: Result<u16, Error>)
        ensures
            match r {
                Ok(x) => self@.len() == 2 && x as nat == le_value(self@),
                Err(e) => self@.len() != 2 && width_mismatch(e, 2, self@.len()),
            },
    {
        let v = self.read_unsigned(2)?;
        proof {
            reveal_with_fuel(byte_pow, 3);
        }
        Ok(v as u16)
    }

    /// The unit of a `u32`.
    pub fn from_u32(v: u32) -> (r: BinaryUnit)
        ensures
            r@ == le_bytes(v as nat, 4),
    {
        Self::of_unsigned(v as u128, 4)
    }

    /// Reads the unit as a `u32`; it must hold exactly 4 bytes.
    pub fn to_u32(&self) -> (r: Result<u32, Error>)
        ensures
            match r {
                Ok(x) => self@.len() == 4 && x as nat == le_value(self@),
                Err(e) => self@.len() != 4 && width_mismatch(e, 4, self@.len()),
            },
    {
        let v = self.read_unsigned(4)?;
        proof {
            reveal_with_fuel(byte_pow, 5);
        }
        Ok(v as u32)
    }

    /// The unit of a `u64`.
    pub fn from_u64(v: u64) -> (r: BinaryUnit)
        ensures
            r@ == le_bytes(v as nat, 8),
    {
        Self::of_unsigned(v as u128, 8)
    }

    /// Reads the unit as a `u64`; it must hold exactly 8 bytes.
    pub fn to_u64(&self) -> (r: Result<u64, Error>)
        ensures
            match r {
                Ok(x) => self@.len() == 8 && x as nat == le_value(self@),
                Err(e) => self@.len() != 8 && width_mismatch(e, 8, self@.len()),
            },
    {
        let v = self.read_unsigned(8)?;
        proof {
            reveal_with_fuel(byte_pow, 9);
        }
        Ok(v as u64)
    }

    /// The unit of a `u128`.
    pub fn from_u128(v: u128) -> (r: BinaryUnit)
        ensures
            r@ == le_bytes(v as nat, 16),
    {
        Self::of_unsigned(v as u128, 16)
    }

    /// Reads the unit as a `u128`; it must hold exactly 16 bytes.
    pub fn to_u128(&self) -> (r: Result<u128, Error>)
        ensures
            match r {
                Ok(x) => self@.len() == 16 && x as nat == le_value(self@),
                Err(e) => self@.len() != 16 && width_mismatch(e, 16, self@.len()),
            },
    {
        let v = self.read_unsigned(16)?;
        proof {
            reveal_with_fuel(byte_pow, 17);
        }
        Ok(v as u128)
    }

    /// The unit of an `i8`, in two's complement.
    pub fn from_i8(v: i8) -> (r: BinaryUnit)
        ensures
            r@ == signed_bytes(v as int, 1),
    {
        proof {
            reveal_with_fuel(byte_pow, 2);
        }
        Self::of_signed(v as i128, 1)
    }

    /// Reads the unit as an `i8`; it must hold exactly 1 byte.
    pub fn to_i8(&self) -> (r: Result<i8, Error>)
        ensures
            match r {
                Ok(x) => self@.len() == 1 && x as int == signed_value(self@),
                Err(e) => self@.len() != 1 && width_mismatch(e, 1, self@.len()),
            },
    {
        let v = self.read_signed(1)?;
        proof {
            reveal_with_fuel(byte_pow, 2);
        }
        Ok(v as i8)
    }

    /// The unit of an `i16`, in two's complement.
    pub fn from_i16(v: i16) -> (r: BinaryUnit)
        ensures
            r@ == signed_bytes(v as int, 2),
    {
        proof {
            reveal_with_fuel(byte_pow, 3);
        }
        Self::of_signed(v as i128, 2)
    }

    /// Reads the unit as an `i16`; it must hold exactly 2 bytes.
    pub fn to_i16(&self) -> (r: Result<i16, Error>)
        ensures
            match r {
                Ok(x) => self@.len() == 2 && x as int == signed_value(self@),
                Err(e) => self@.len() != 2 && width_mismatch(e, 2, self@.len()),
            },
    {
        let v = self.read_signed(2)?;
        proof {
            reveal_with_fuel(byte_pow, 3);
        }
        Ok(v as i16)
    }

    /// The unit of an `i32`, in two's complement.
    pub fn from_i32(v: i32) -> (r: BinaryUnit)
        ensures
            r@ == signed_bytes(v as int, 4),
    {
        proof {
            reveal_with_fuel(byte_pow, 5);
        }
        Self::of_signed(v as i128, 4)
    }

    /// Reads the unit as an `i32`; it must hold exactly 4 bytes.
    pub fn to_i32(&self) -> (r: Result<i32, Error>)
        ensures
            match r {
                Ok(x) => self@.len() == 4 && x as int == signed_value(self@),
                Err(e) => self@.len() != 4 && width_mismatch(e, 4, self@.len()),
            },
    {
        let v = self.read_signed(4)?;
        proof {
            reveal_with_fuel(byte_pow, 5);
        }
        Ok(v as i32)
    }

    /// The unit of an `i64`, in two's complement.
    pub fn from_i64(v: i64) -> (r: BinaryUnit)
        ensures
            r@ == signed_bytes(v as int, 8),
    {
        proof {
            reveal_with_fuel(byte_pow, 9);
        }
        Self::of_signed(v as i128, 8)
    }

    /// Reads the unit as an `i64`; it must hold exactly 8 bytes.
    pub fn to_i64(&self) -> (r: Result<i64, Error>)
        ensures
            match r {
                Ok(x) => self@.len() == 8 && x as int == signed_value(self@),
                Err(e) => self@.len() != 8 && width_mismatch(e, 8, self@.len()),
            },
    {
        let v = self.read_signed(8)?;
        proof {
            reveal_with_fuel(byte_pow, 9);
        }
        Ok(v as i64)
    }

    /// The unit of an `i128`, in two's complement.
    pub fn from_i128(v: i128) -> (r: BinaryUnit)
        ensures
            r@ == signed_bytes(v as int, 16),
    {
        proof {
            reveal_with_fuel(byte_pow, 17);
        }
        Self::of_signed(v as i128, 16)
    }

    /// Reads the unit as an `i128`; it must hold exactly 16 bytes.
    pub fn to_i128(&self) -> (r: Result<i128, Error>)
        ensures
            match r {
                Ok(x) => self@.len() == 16 && x as int == signed_value(self@),
                Err(e) => self@.len() != 16 && width_mismatch(e, 16, self@.len()),
            },
    {
        let v = self.read_signed(16)?;
        proof {
            reveal_with_fuel(byte_pow, 17);
        }
        Ok(v as i128)
    }

    /// The unit of a `usize`, written over eight bytes.
    pub fn from_usize(v: usize) -> (r: BinaryUnit)
        ensures
            r@ == le_bytes(v as nat, 8),
    {
        Self::of_unsigned(v as u128, 8)
    }

    /// Reads the unit as a `usize`; it must hold exactly 8 bytes, and a number
    /// that this machine's `usize` holds.
    pub fn to_usize(&self) -> (r: Result<usize, Error>)
        ensures
            match r {
                Ok(x) => self@.len() == 8 && x as nat == le_value(self@),
                Err(e) => if self@.len() != 8 {
                    width_mismatch(e, 8, self@.len())
                } else {
                    le_value(self@) > usize::MAX && too_large(e)
                },
            },
    {
        let v = self.read_unsigned(8)?;
        if v > usize::MAX as u128 {
            return Err(range_failure());
        }
        Ok(v as usize)
    }

    /// The unit of an `isize`, written over eight bytes in two's complement.
    pub fn from_isize(v: isize) -> (r: BinaryUnit)
        ensures
            r@ == signed_bytes(v as int, 8),
    {
        proof {
            reveal_with_fuel(byte_pow, 9);
        }
        Self::of_signed(v as i128, 8)
    }

    /// Reads the unit as an `isize`; it must hold exactly 8 bytes, and a number
    /// that this machine's `isize` holds.
    pub fn to_isize(&self) -> (r: Result<isize, Error>)
        ensures
            match r {
                Ok(x) => self@.len() == 8 && x as int == signed_value(self@),
                Err(e) => if self@.len() != 8 {
                    width_mismatch(e, 8, self@.len())
                } else {
                    (signed_value(self@) < isize::MIN || signed_value(self@) > isize::MAX)
                        && too_large(e)
                },
            },
    {
        let v = self.read_signed(8)?;
        if v < isize::MIN as i128 || v > isize::MAX as i128 {
            return Err(range_failure());
        }
        Ok(v as isize)
    }

    /// The unit of a `bool`: one byte, `1` for true and `0` for false.
    pub fn from_bool(v: bool) -> (r: BinaryUnit)
        ensures
            r@ == seq![if v { 1u8 } else { 0u8 }],
    {
        let mut data: Vec<u8> = Vec::new();
        data.push(if v { 1u8 } else { 0u8 });
        proof {
            assert(data@ =~= seq![if v { 1u8 } else { 0u8 }]);
        }
        BinaryUnit { data }
    }

    /// Reads the unit as a `bool`; it must hold exactly one byte, and any byte
    /// but zero reads as true.
    pub fn to_bool(&self) -> (r: Result<bool, Error>)
        ensures
            match r {
                Ok(x) => self@.len() == 1 && x == (self@[0] != 0),
                Err(e) => self@.len() != 1 && width_mismatch(e, 1, self@.len()),
            },
    {
        if self.data.len() != 1 {
            return Err(width_error(1, self.data.len()));
        }
        Ok(self.data[0] != 0)
    }
}

impl From<Vec<u8>> for BinaryUnit {
    fn from(data: Vec<u8>) -> (r: BinaryUnit)
        ensures
            r@ == data@,
    {
        BinaryUnit::from_bytes(data)
    }
}

impl vstd::std_specs::convert::FromSpecImpl<Vec<u8>> for BinaryUnit {
    open spec fn obeys_from_spec() -> bool {
        false
    }

    open spec fn from_spec(v: Vec<u8>) -> BinaryUnit {
        arbitrary()
    }
}

impl From<u8> for BinaryUnit {
    fn from(v: u8) -> (r: BinaryUnit)
        ensures
            r@ == le_bytes(v as nat, 1),
    {
        BinaryUnit::from_u8(v)
    }
}

impl vstd::std_specs::convert::FromSpecImpl<u8> for BinaryUnit {
    open spec fn obeys_from_spec() -> bool {
        false
    }

    open spec fn from_spec(v: u8) -> BinaryUnit {
        arbitrary()
    }
}

impl TryFrom<BinaryUnit> for u8 {
    type Error = Error;

    fn try_from(unit: BinaryUnit) -> (r: Result<u8, Error>)
        ensures
            match r {
                Ok(x) => unit@.len() == 1 && x as nat == le_value(unit@),
                Err(e) => unit@.len() != 1 && width_mismatch(e, 1, unit@.len()),
            },
    {
        unit.to_u8()
    }
}

impl vstd::std_specs::convert::TryFromSpecImpl<BinaryUnit> for u8 {
    open spec fn obeys_try_from_spec() -> bool {
        false
    }

    open spec fn try_from_spec(v: BinaryUnit) -> Result<u8, Error> {
        arbitrary()
    }
}

impl From<u16> for BinaryUnit {
    fn from(v: u16) -> (r: BinaryUnit)
        ensures
            r@ == le_bytes(v as nat, 2),
    {
        BinaryUnit::from_u16(v)
    }
}

impl vstd::std_specs::convert::FromSpecImpl<u16> for BinaryUnit {
    open spec fn obeys_from_spec() -> bool {
        false
    }

    open spec fn from_spec(v: u16) -> BinaryUnit {
        arbitrary()
    }
}

impl TryFrom<BinaryUnit> for u16 {
    type Error = Error;

    fn try_from(unit: BinaryUnit) -> (r: Result<u16, Error>)
        ensures
            match r {
                Ok(x) => unit@.len() == 2 && x as nat == le_value(unit@),
                Err(e) => unit@.len() != 2 && width_mismatch(e, 2, unit@.len()),
            },
    {
        unit.to_u16()
    }
}

impl vstd::std_specs::convert::TryFromSpecImpl<BinaryUnit> for u16 {
    open spec fn obeys_try_from_spec() -> bool {
        false
    }

    open spec fn try_from_spec(v: BinaryUnit) -> Result<u16, Error> {
        arbitrary()
    }
}

impl From<u32> for BinaryUnit {
    fn from(v: u32) -> (r: BinaryUnit)
        ensures
            r@ == le_bytes(v as nat, 4),
    {
        BinaryUnit::from_u32(v)
    }
}

impl vstd::std_specs::convert::FromSpecImpl<u32> for BinaryUnit {
    open spec fn obeys_from_spec() -> bool {
        false
    }

    open spec fn from_spec(v: u32) -> BinaryUnit {
        arbitrary()
    }
}

impl TryFrom<BinaryUnit> for u32 {
    type Error = Error;

    fn try_from(unit: BinaryUnit) -> (r: Result<u32, Error>)
        ensures
            match r {
                Ok(x) => unit@.len() == 4 && x as nat == le_value(unit@),
                Err(e) => unit@.len() != 4 && width_mismatch(e, 4, unit@.len()),
            },
    {
        unit.to_u32()
    }
}

impl vstd::std_specs::convert::TryFromSpecImpl<BinaryUnit> for u32 {
    open spec fn obeys_try_from_spec() -> bool {
        false
    }

    open spec fn try_from_spec(v: BinaryUnit) -> Result<u32, Error> {
        arbitrary()
    }
}

impl From<u64> for BinaryUnit {
    fn from(v: u64) -> (r: BinaryUnit)
        ensures
            r@ == le_bytes(v as nat, 8),
    {
        BinaryUnit::from_u64(v)
    }
}

impl vstd::std_specs::convert::FromSpecImpl<u64> for BinaryUnit {
    open spec fn obeys_from_spec() -> bool {
        false
    }

    open spec fn from_spec(v: u64) -> BinaryUnit {
        arbitrary()
    }
}

impl TryFrom<BinaryUnit> for u64 {
    type Error = Error;

    fn try_from(unit: BinaryUnit) -> (r: Result<u64, Error>)
        ensures
            match r {
                Ok(x) => unit@.len() == 8 && x as nat == le_value(unit@),
                Err(e) => unit@.len() != 8 && width_mismatch(e, 8, unit@.len()),
            },
    {
        unit.to_u64()
    }
}

impl vstd::std_specs::convert::TryFromSpecImpl<BinaryUnit> for u64 {
    open spec fn obeys_try_from_spec() -> bool {
        false
    }

    open spec fn try_from_spec(v: BinaryUnit) -> Result<u64, Error> {
        arbitrary()
    }
}

impl From<u128> for BinaryUnit {
    fn from(v: u128) -> (r: BinaryUnit)
        ensures
            r@ == le_bytes(v as nat, 16),
    {
        BinaryUnit::from_u128(v)
    }
}

impl vstd::std_specs::convert::FromSpecImpl<u128> for BinaryUnit {
    open spec fn obeys_from_spec() -> bool {
        false
    }

    open spec fn from_spec(v: u128) -> BinaryUnit {
        arbitrary()
    }
}

impl TryFrom<BinaryUnit> for u128 {
    type Error = Error;

    fn try_from(unit: BinaryUnit) -> (r: Result<u128, Error>)
        ensures
            match r {
                Ok(x) => unit@.len() == 16 && x as nat == le_value(unit@),
                Err(e) => unit@.len() != 16 && width_mismatch(e, 16, unit@.len()),
            },
    {
        unit.to_u128()
    }
}

impl vstd::std_specs::convert::TryFromSpecImpl<BinaryUnit> for u128 {
    open spec fn obeys_try_from_spec() -> bool {
        false
    }

    open spec fn try_from_spec(v: BinaryUnit) -> Result<u128, Error> {
        arbitrary()
    }
}

impl From<usize> for BinaryUnit {
    fn from(v: usize) -> (r: BinaryUnit)
        ensures
            r@ == le_bytes(v as nat, 8),
    {
        BinaryUnit::from_usize(v)
    }
}

impl vstd::std_specs::convert::FromSpecImpl<usize> for BinaryUnit {
    open spec fn obeys_from_spec() -> bool {
        false
    }

    open spec fn from_spec(v: usize) -> BinaryUnit {
        arbitrary()
    }
}

impl TryFrom<BinaryUnit> for usize {
    type Error = Error;

    fn try_from(unit: BinaryUnit) -> (r: Result<usize, Error>)
        ensures
            match r {
                Ok(x) => unit@.len() == 8 && x as nat == le_value(unit@),
                Err(e) => if unit@.len() != 8 {
                    width_mismatch(e, 8, unit@.len())
                } else {
                    le_value(unit@) > usize::MAX && too_large(e)
                },
            },
    {
        unit.to_usize()
    }
}

impl vstd::std_specs::convert::TryFromSpecImpl<BinaryUnit> for usize {
    open spec fn obeys_try_from_spec() -> bool {
        false
    }

    open spec fn try_from_spec(v: BinaryUnit) -> Result<usize, Error> {
        arbitrary()
    }
}

impl From<i8> for BinaryUnit {
    fn from(v: i8) -> (r: BinaryUnit)
        ensures
            r@ == signed_bytes(v as int, 1),
    {
        BinaryUnit::from_i8(v)
    }
}

impl vstd::std_specs::convert::FromSpecImpl<i8> for BinaryUnit {
    open spec fn obeys_from_spec() -> bool {
        false
    }

    open spec fn from_spec(v: i8) -> BinaryUnit {
        arbitrary()
    }
}

impl TryFrom<BinaryUnit> for i8 {
    type Error = Error;

    fn try_from(unit: BinaryUnit) -> (r: Result<i8, Error>)
        ensures
            match r {
                Ok(x) => unit@.len() == 1 && x as int == signed_value(unit@),
                Err(e) => unit@.len() != 1 && width_mismatch(e, 1, unit@.len()),
            },
    {
        unit.to_i8()
    }
}

impl vstd::std_specs::convert::TryFromSpecImpl<BinaryUnit> for i8 {
    open spec fn obeys_try_from_spec() -> bool {
        false
    }

    open spec fn try_from_spec(v: BinaryUnit) -> Result<i8, Error> {
        arbitrary()
    }
}

impl From<i16> for BinaryUnit {
    fn from(v: i16) -> (r: BinaryUnit)
        ensures
            r@ == signed_bytes(v as int, 2),
    {
        BinaryUnit::from_i16(v)
    }
}

impl vstd::std_specs::convert::FromSpecImpl<i16> for BinaryUnit {
    open spec fn obeys_from_spec() -> bool {
        false
    }

    open spec fn from_spec(v: i16) -> BinaryUnit {
        arbitrary()
    }
}

impl TryFrom<BinaryUnit> for i16 {
    type Error = Error;

    fn try_from(unit: BinaryUnit) -> (r: Result<i16, Error>)
        ensures
            match r {
                Ok(x) => unit@.len() == 2 && x as int == signed_value(unit@),
                Err(e) => unit@.len() != 2 && width_mismatch(e, 2, unit@.len()),
            },
    {
        unit.to_i16()
    }
}

impl vstd::std_specs::convert::TryFromSpecImpl<BinaryUnit> for i16 {
    open spec fn obeys_try_from_spec() -> bool {
        false
    }

    open spec fn try_from_spec(v: BinaryUnit) -> Result<i16, Error> {
        arbitrary()
    }
}

impl From<i32> for BinaryUnit {
    fn from(v: i32) -> (r: BinaryUnit)
        ensures
            r@ == signed_bytes(v as int, 4),
    {
        BinaryUnit::from_i32(v)
    }
}

impl vstd::std_specs::convert::FromSpecImpl<i32> for BinaryUnit {
    open spec fn obeys_from_spec() -> bool {
        false
    }

    open spec fn from_spec(v: i32) -> BinaryUnit {
        arbitrary()
    }
}

impl TryFrom<BinaryUnit> for i32 {
    type Error = Error;

    fn try_from(unit: BinaryUnit) -> (r: Result<i32, Error>)
        ensures
            match r {
                Ok(x) => unit@.len() == 4 && x as int == signed_value(unit@),
                Err(e) => unit@.len() != 4 && width_mismatch(e, 4, unit@.len()),
            },
    {
        unit.to_i32()
    }
}

impl vstd::std_specs::convert::TryFromSpecImpl<BinaryUnit> for i32 {
    open spec fn obeys_try_from_spec() -> bool {
        false
    }

    open spec fn try_from_spec(v: BinaryUnit) -> Result<i32, Error> {
        arbitrary()
    }
}

impl From<i64> for BinaryUnit {
    fn from(v: i64) -> (r: BinaryUnit)
        ensures
            r@ == signed_bytes(v as int, 8),
    {
        BinaryUnit::from_i64(v)
    }
}

impl vstd::std_specs::convert::FromSpecImpl<i64> for BinaryUnit {
    open spec fn obeys_from_spec() -> bool {
        false
    }

    open spec fn from_spec(v: i64) -> BinaryUnit {
        arbitrary()
    }
}

impl TryFrom<BinaryUnit> for i64 {
    type Error = Error;

    fn try_from(unit: BinaryUnit) -> (r: Result<i64, Error>)
        ensures
            match r {
                Ok(x) => unit@.len() == 8 && x as int == signed_value(unit@),
                Err(e) => unit@.len() != 8 && width_mismatch(e, 8, unit@.len()),
            },
    {
        unit.to_i64()
    }
}

impl vstd::std_specs::convert::TryFromSpecImpl<BinaryUnit> for i64 {
    open spec fn obeys_try_from_spec() -> bool {
        false
    }

    open spec fn try_from_spec(v: BinaryUnit) -> Result<i64, Error> {
        arbitrary()
    }
}

impl From<i128> for BinaryUnit {
    fn from(v: i128) -> (r: BinaryUnit)
        ensures
            r@ == signed_bytes(v as int, 16),
    {
        BinaryUnit::from_i128(v)
    }
}

impl vstd::std_specs::convert::FromSpecImpl<i128> for BinaryUnit {
    open spec fn obeys_from_spec() -> bool {
        false
    }

    open spec fn from_spec(v: i128) -> BinaryUnit {
        arbitrary()
    }
}

impl TryFrom<BinaryUnit> for i128 {
    type Error = Error;

    fn try_from(unit: BinaryUnit) -> (r: Result<i128, Error>)
        ensures
            match r {
                Ok(x) => unit@.len() == 16 && x as int == signed_value(unit@),
                Err(e) => unit@.len() != 16 && width_mismatch(e, 16, unit@.len()),
            },
    {
        unit.to_i128()
    }
}

impl vstd::std_specs::convert::TryFromSpecImpl<BinaryUnit> for i128 {
    open spec fn obeys_try_from_spec() -> bool {
        false
    }

    open spec fn try_from_spec(v: BinaryUnit) -> Result<i128, Error> {
        arbitrary()
    }
}

impl From<isize> for BinaryUnit {
    fn from(v: isize) -> (r: BinaryUnit)
        ensures
            r@ == signed_bytes(v as int, 8),
    {
        BinaryUnit::from_isize(v)
    }
}

impl vstd::std_specs::convert::FromSpecImpl<isize> for BinaryUnit {
    open spec fn obeys_from_spec() -> bool {
        false
    }

    open spec fn from_spec(v: isize) -> BinaryUnit {
        arbitrary()
    }
}

impl TryFrom<BinaryUnit> for isize {
    type Error = Error;

    fn try_from(unit: BinaryUnit) -> (r: Result<isize, Error>)
        ensures
            match r {
                Ok(x) => unit@.len() == 8 && x as int == signed_value(unit@),
                Err(e) => if unit@.len() != 8 {
                    width_mismatch(e, 8, unit@.len())
                } else {
                    (signed_value(unit@) < isize::MIN || signed_value(unit@) > isize::MAX)
                        && too_large(e)
                },
            },
    {
        unit.to_isize()
    }
}

impl vstd::std_specs::convert::TryFromSpecImpl<BinaryUnit> for isize {
    open spec fn obeys_try_from_spec() -> bool {
        false
    }

    open spec fn try_from_spec(v: BinaryUnit) -> Result<isize, Error> {
        arbitrary()
    }
}

impl From<bool> for BinaryUnit {
    fn from(v: bool) -> (r: BinaryUnit)
        ensures
            r@ == seq![if v { 1u8 } else { 0u8 }],
    {
        BinaryUnit::from_bool(v)
    }
}

impl vstd::std_specs::convert::FromSpecImpl<bool> for BinaryUnit {
    open spec fn obeys_from_spec() -> bool {
        false
    }

    open spec fn from_spec(v: bool) -> BinaryUnit {
        arbitrary()
    }
}

impl TryFrom<BinaryUnit> for bool {
    type Error = Error;

    fn try_from(unit: BinaryUnit) -> (r: Result<bool, Error>)
        ensures
            match r {
                Ok(x) => unit@.len() == 1 && x == (unit@[0] != 0),
                Err(e) => unit@.len() != 1 && width_mismatch(e, 1, unit@.len()),
            },
    {
        unit.to_bool()
    }
}

impl vstd::std_specs::convert::TryFromSpecImpl<BinaryUnit> for bool {
    open spec fn obeys_try_from_spec() -> bool {
        false
    }

    open spec fn try_from_spec(v: BinaryUnit) -> Result<bool, Error> {
        arbitrary()
    }
}

/// Reading back the `n` bytes written for an unsigned number below `256^n`
/// gives the number.
pub proof fn lemma_unsigned_round_trip(v: nat, n: nat)
    requires
        v < byte_pow(n),
    ensures
        le_bytes(v, n).len() == n,
        le_value(le_bytes(v, n)) == v,
{
    lemma_le_bytes_len(v, n);
    lemma_le_value_of_bytes(v, n);
}

/// Reading back the `n` bytes written for a signed number in the range of
/// `n`-byte two's complement gives the number.
pub proof fn lemma_signed_round_trip(v: int, n: nat)
    requires
        n >= 1,
        -(byte_pow(n) / 2) <= v < byte_pow(n) / 2,
    ensures
        signed_bytes(v, n).len() == n,
        signed_value(signed_bytes(v, n)) == v,
{
    let p = byte_pow(n);
    assert(p == 256 * byte_pow((n - 1) as nat));
    lemma_byte_pow_positive((n - 1) as nat);
    let u: nat = if v >= 0 {
        v as nat
    } else {
        (v + p) as nat
    };
    lemma_le_bytes_len(u, n);
    lemma_le_value_of_bytes(u, n);
}

} // verus!
