//! Decimal file-size conversion: a size token such as `10kb` is parsed into a
//! magnitude and a unit, converted to a byte count, and reported in bytes,
//! kilobytes, megabytes and gigabytes with 1000-based scaling.

pub mod command;
pub mod decimal;
pub mod laws;
pub mod size;
pub mod text;
pub mod unit;
