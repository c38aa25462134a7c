//! Numeric value kernel: a binary unit codec, an error taxonomy, vectors,
//! complex numbers and matrices over "simple numerical" element kinds, and
//! the decisions of a leveled logger.
pub mod errors;
pub mod text;
pub mod bytes;
pub mod unit;
pub mod kinds;
pub mod vector;
pub mod complex;
pub mod matrix;
pub mod data;
pub mod logger;
pub mod utility;
