//! Parsing of geographic coordinates as people write them.
//!
//! A latitude, a longitude or a pair of both is read from text in any of a
//! fixed set of layouts: degrees, minutes and seconds; degrees and decimal
//! minutes; decimal degrees; each with a hemisphere letter before or after the
//! numbers, or with none. Symbols and spaces may be left out, a comma may
//! stand for the decimal point, and a minus sign before the degrees inverts
//! the hemisphere.
//!
//! Nothing is rounded. A parsed [`Angle`] holds the digits that were written
//! and a sign, and the range check (90 degrees for a latitude, 180 for a
//! longitude) is made on the exact value. A [`Point`] has the longitude as `x`
//! and the latitude as `y`.
//!
//! - [`grammar`] holds the layouts, their patterns and their priority;
//! - [`parse`] tries the patterns in order and holds the entry points;
//! - [`extract`] turns the capture groups of a match into readings;
//! - [`angle`] applies the hemisphere and checks the range;
//! - [`decimal`] holds exact decimal numerals;
//! - [`hemisphere`], [`text`] and [`errors`] hold the small types;
//! - [`laws`] states what holds of all of them.

pub mod angle;
pub mod decimal;
pub mod errors;
pub mod extract;
pub mod grammar;
pub mod hemisphere;
pub mod laws;
pub mod parse;
pub mod text;

pub use crate::angle::{Angle, Point};
pub use crate::decimal::Decimal;
pub use crate::errors::GeoParseError;
pub use crate::hemisphere::{EW, NS};
pub use crate::parse::{parse, parse_lat, parse_lng};
pub use crate::text::Text;
