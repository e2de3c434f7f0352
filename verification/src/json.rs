//! Plain request and response shapes exchanged with clients.

use vstd::prelude::*;

verus! {

#[derive(Debug)]
pub struct AuthStartJson {
    pub emailaddress: String,
}

#[derive(Debug)]
pub struct AuthVerifyJson {
    pub auth_code: String,
    pub jwt: String,
}

/// Derived liveness of a device: never stored, always computed from the
/// recency of its last heartbeat.
#[derive(Debug, Clone, Copy, PartialEq, Eq, Structural)]
pub enum CarState {
    Offline,
    Online,
}

#[derive(Debug)]
pub struct Car {
    pub uuid: String,
    pub status: CarState,
    pub name: String,
}

#[derive(Debug)]
pub struct GetCars {
    pub cars: Vec<Car>,
}

#[derive(Debug)]
pub struct CreateCar {
    pub name: String,
}

#[derive(Debug)]
pub struct CreateCarReturn {
    pub name: String,
    pub uuid: String,
    pub api_key: String,
}

} // verus!
