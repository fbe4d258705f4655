//! Scalar emulation of x86 vector instructions, with the small programs
//! that grew up around it.
//!
//! The emulation computes every vector instruction lane by lane on ordinary
//! integers, and each function carries a contract that pins its result
//! down bit for bit:
//!
//! - [`bitcast`] packs bytes into wider lanes and back;
//! - [`vector`] holds the registers, the lane vectors and their conversions;
//! - [`scalar`] holds what an instruction does to a single lane;
//! - [`lift`] carries a single-lane operation over whole vectors;
//! - [`mask`] packs one bit per lane into an integer;
//! - [`intrinsics`] and [`for_miri`] are the instructions themselves, on
//!   lane vectors and on registers.
//!
//! Beside it stand [`sampling`], which decides what to explore of a value
//! that a solver hands out, and four puzzles: [`parcel`], [`delivery`],
//! [`coin`] and [`nice`].

pub mod bitcast;
pub mod coin;
pub mod delivery;
pub mod for_miri;
pub mod intrinsics;
pub mod lift;
pub mod mask;
pub mod nice;
pub mod parcel;
pub mod sampling;
pub mod scalar;
pub mod vector;
