//! Typed values for weather observations, a registry of weather
//! descriptions keyed by WMO code, and the reading of forecast answers.
//!
//! Numbers with a fraction enter and leave the crate as the bit patterns of
//! IEEE 754 single-precision numbers (`f32::to_bits`, `f32::from_bits`); the
//! crate reads them exactly, in integer arithmetic.

pub mod data;
pub mod open_meteo;
pub mod util;
