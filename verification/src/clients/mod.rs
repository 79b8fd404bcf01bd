//! The commands, one method each.

pub mod multi_rotor_client;
