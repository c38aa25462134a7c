//! The closed error taxonomy shared by every fallible operation of the kernel.
use vstd::prelude::*;
use vstd::string::*;

verus! {

/// One case per failure family.
#[derive(Debug, Clone, PartialEq, Eq)]
pub enum Error {
    /// Name, value.
    ArgumentError(String, String),
    /// Name.
    NullError(String),
    /// Text, reason.
    FormatError(String, String),
    /// Variable, value, lower bound, upper bound.
    RangeError(String, String, Option<String>, Option<String>),
    /// Identifier.
    NotFoundError(String),
    PermissionError,
    /// Operator, first operand, second operand.
    OperatorError(String, String, Option<String>),
    /// Reason.
    UnexpectedError(String),
    /// Action, reason.
    OperationError(String, String),
    /// Reason.
    ConversionError(String),
    /// Description of a failed input/output call.
    IOError(String),
}

/// The message shown for an error.
pub open spec fn error_text(e: Error) -> Seq<char> {
    match e {
        Error::ArgumentError(name, value) => "argument '"@ + name@ + "' held an invalid value of '"@
            + value@ + "'"@,
        Error::NullError(name) => "'"@ + name@ + "' is null"@,
        Error::FormatError(text, reason) => "the value '"@ + text@
            + "' held an invalid format because of '"@ + reason@ + "'"@,
        Error::RangeError(variable, value, lo, hi) => {
            let head = "the value '"@ + value@ + "' in variable '"@ + variable@ + "' is out of range"@;
            match (lo, hi) {
                (Some(lo), Some(hi)) => head + " ("@ + lo@ + " to "@ + hi@ + ")"@,
                _ => head,
            }
        },
        Error::NotFoundError(value) => "the value '"@ + value@ + "' was not found"@,
        Error::PermissionError => "invalid permissions"@,
        Error::OperatorError(op, a, b) => {
            let head = "operator '"@ + op@ + "' cannot be applied to '"@ + a@ + "'"@;
            match b {
                Some(b) => head + " and '"@ + b@ + "'"@,
                None => head,
            }
        },
        Error::ConversionError(s) => "converson failed because of '"@ + s@ + "'"@,
        Error::UnexpectedError(s) => "unexpected error: '"@ + s@ + "'"@,
        Error::OperationError(action, reason) => "operation '"@ + action@
            + "' is not permitted because of '"@ + reason@ + "'"@,
        Error::IOError(s) => s@,
    }
}

impl Error {
    /// The message of this error, as a user reads it.
    pub fn message(&self) -> (r: String)
        ensures
            r@ == error_text(*self),
    {
        match self {
            Error::ArgumentError(name, value) => {
                let mut s = String::from_str("argument '");
                s.append(name.as_str());
                s.append("' held an invalid value of '");
                s.append(value.as_str());
                s.append("'");
                s
            },
            Error::NullError(name) => {
                let mut s = String::from_str("'");
                s.append(name.as_str());
                s.append("' is null");
                s
            },
            Error::FormatError(text, reason) => {
                let mut s = String::from_str("the value '");
                s.append(text.as_str());
                s.append("' held an invalid format because of '");
                s.append(reason.as_str());
                s.append("'");
                s
            },
            Error::RangeError(variable, value, lo, hi) => {
                let mut s = String::from_str("the value '");
                s.append(value.as_str());
                s.append("' in variable '");
                s.append(variable.as_str());
                s.append("' is out of range");
                match (lo, hi) {
                    (Some(lo), Some(hi)) => {
                        s.append(" (");
                        s.append(lo.as_str());
                        s.append(" to ");
                        s.append(hi.as_str());
                        s.append(")");
                    },
                    _ => {},
                }
                s
            },
            Error::NotFoundError(value) => {
                let mut s = String::from_str("the value '");
                s.append(value.as_str());
                s.append("' was not found");
                s
            },
            Error::PermissionError => String::from_str("invalid permissions"),
            Error::OperatorError(op, a, b) => {
                let mut s = String::from_str("operator '");
                s.append(op.as_str());
                s.append("' cannot be applied to '");
                s.append(a.as_str());
                s.append("'");
                match b {
                    Some(b) => {
                        s.append(" and '");
                        s.append(b.as_str());
                        s.append("'");
                    },
                    None => {},
                }
                s
            },
            Error::ConversionError(reason) => {
                let mut s = String::from_str("converson failed because of '");
                s.append(reason.as_str());
                s.append("'");
                s
            },
            Error::UnexpectedError(reason) => {
                let mut s = String::from_str("unexpected error: '");
                s.append(reason.as_str());
                s.append("'");
                s
            },
            Error::OperationError(action, reason) => {
                let mut s = String::from_str("operation '");
                s.append(action.as_str());
                s.append("' is not permitted because of '");
                s.append(reason.as_str());
                s.append("'");
                s
            },
            Error::IOError(description) => description.clone(),
        }
    }
}

/// Builds an `ArgumentError`.
pub fn argument_error(name: &str, value: &str) -> (r: Error)
    ensures
        r matches Error::ArgumentError(n, v) && n@ == name@ && v@ == value@,
{
    Error::ArgumentError(name.to_owned(), value.to_owned())
}

/// Builds a `NullError`.
pub fn null_error(name: &str) -> (r: Error)
    ensures
        r matches Error::NullError(n) && n@ == name@,
{
    Error::NullError(name.to_owned())
}

/// Builds a `FormatError`.
pub fn format_error(text: &str, reason: &str) -> (r: Error)
    ensures
        r matches Error::FormatError(t, w) && t@ == text@ && w@ == reason@,
{
    Error::FormatError(text.to_owned(), reason.to_owned())
}

/// Builds a `RangeError`; the bounds are given together or not at all.
pub fn range_error(variable: &str, value: &str, bounds: Option<(&str, &str)>) -> (r: Error)
    ensures
        r matches Error::RangeError(n, v, lo, hi) && n@ == variable@ && v@ == value@ && match bounds {
            Some((l, h)) => lo matches Some(lo) && hi matches Some(hi) && lo@ == l@ && hi@ == h@,
            None => lo is None && hi is None,
        },
{
    match bounds {
        Some((l, h)) => Error::RangeError(
            variable.to_owned(),
            value.to_owned(),
            Some(l.to_owned()),
            Some(h.to_owned()),
        ),
        None => Error::RangeError(variable.to_owned(), value.to_owned(), None, None),
    }
}

/// Builds a `NotFoundError`.
pub fn not_found_error(identifier: &str) -> (r: Error)
    ensures
        r matches Error::NotFoundError(n) && n@ == identifier@,
{
    Error::NotFoundError(identifier.to_owned())
}

/// Builds a `PermissionError`.
pub fn permission_error() -> (r: Error)
    ensures
        r is PermissionError,
{
    Error::PermissionError
}

/// Builds an `OperatorError` for an operator applied to one or two operands.
pub fn operator_error(op: &str, first: &str, second: Option<&str>) -> (r: Error)
    ensures
        r matches Error::OperatorError(o, a, b) && o@ == op@ && a@ == first@ && match second {
            Some(s) => b matches Some(b) && b@ == s@,
            None => b is None,
        },
{
    match second {
        Some(s) => Error::OperatorError(op.to_owned(), first.to_owned(), Some(s.to_owned())),
        None => Error::OperatorError(op.to_owned(), first.to_owned(), None),
    }
}

/// Builds an `UnexpectedError`.
pub fn unexpected_error(reason: &str) -> (r: Error)
    ensures
        r matches Error::UnexpectedError(w) && w@ == reason@,
{
    Error::UnexpectedError(reason.to_owned())
}

/// Builds an `OperationError`.
pub fn operation_error(action: &str, reason: &str) -> (r: Error)
    ensures
        r matches Error::OperationError(a, w) && a@ == action@ && w@ == reason@,
{
    Error::OperationError(action.to_owned(), reason.to_owned())
}

/// Builds a `ConversionError`.
pub fn conversion_error(reason: &str) -> (r: Error)
    ensures
        r matches Error::ConversionError(w) && w@ == reason@,
{
    Error::ConversionError(reason.to_owned())
}

/// Builds an `IOError` from the description of a failed input/output call.
pub fn io_error(description: &str) -> (r: Error)
    ensures
        r matches Error::IOError(d) && d@ == description@,
{
    Error::IOError(description.to_owned())
}

} // verus!
