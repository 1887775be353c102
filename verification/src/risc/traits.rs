//! The capability set that every supported register width provides.

pub mod pattern;
pub mod reg;
pub mod signed;
pub mod signedunsigned;
pub mod unsigned;
