//! Session and presence lifecycle management for a fleet of remotely driven
//! cars: email-code login, signed session tokens with a sliding refresh
//! window, device registration under a fixed quota, heartbeat-driven
//! presence, a sweepable store of short-lived records, and the five-byte
//! movement packet codec.
//!
//! The persistence gateway is a single capability interface with two
//! in-process implementations that differ in where presence lives; the
//! lifecycle facade is written once against that interface, so its
//! behaviour is the same over either.

pub mod auth;
pub mod database;
pub mod hybrid;
pub mod json;
pub mod jwt_claims;
pub mod lifecycle;
pub mod memory;
pub mod movement;
pub mod presence;
pub mod store;
