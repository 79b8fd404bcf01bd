//! The domain values and their wire layouts.
//!
//! Every number that is a float on the wire is held as the bit pattern of
//! a 32-bit float, so that a value read back is the value written, bit for
//! bit.

pub mod drive_train;
pub mod environment;
pub mod geopoint;
pub mod path;
pub mod pose;
pub mod quaternion;
pub mod sensors;
pub mod vector;
pub mod yaw_mode;
