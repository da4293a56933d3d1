//! Networked thermometer and power socket: bounded value models, the line
//! protocol the devices speak, and the classification of incoming payloads.
//!
//! Readings are held as fixed-point numbers in thousandths of a unit
//! (`21_500` is 21.5 degrees, `1_500_000` is 1500 W).
use vstd::prelude::*;

pub mod ingest;
pub mod message;
pub mod power;
pub mod ratio;
pub mod reading;
pub mod temperature;
pub mod socket;
pub mod station;
pub mod termometer;
pub mod text;

verus! {

} // verus!
