//! The persistence gateway: one capability interface over accounts, devices,
//! one-time codes and device presence.
//!
//! Every implementation exposes the same four abstract maps — accounts,
//! codes, cars and presence — and every operation is specified against
//! them, so callers observe identical behaviour whichever backing layout an
//! implementation chooses.

use vstd::prelude::*;
use crate::json::Car;
use crate::presence::{classify_spec, PRESENCE_WINDOW_SECONDS};

verus! {

#[derive(Debug, Clone, PartialEq, Eq)]
pub enum DatabaseError {
    ServerError,
    DoesNotExist,
    QueryError,
    ConnectionError,
}

/// A live one-time code: the code itself and the moment it was created.
#[derive(Debug, Clone, PartialEq)]
pub struct UserAuth {
    pub code: String,
    pub created: i64,
}

/// A stored account: its email and the moment of its last sign-in.
#[derive(Debug, Clone, PartialEq)]
pub struct User {
    pub username: String,
    pub last_login: i64,
}

/// A stored device row, its presence timestamp included.
#[derive(Debug, Clone, PartialEq)]
pub struct CarFull {
    pub uuid: String,
    pub name: String,
    pub secret: String,
    pub username: String,
    pub last_updated: i64,
    pub last_ping: Option<i64>,
}

/// Abstract one-time-code record.
pub struct CodeRec {
    pub code: Seq<char>,
    pub created: i64,
}

/// Abstract device row; presence is kept apart, in the presence map.
pub struct CarRec {
    pub name: Seq<char>,
    pub secret: Seq<char>,
    pub username: Seq<char>,
    pub last_updated: i64,
}

/// The last-seen timestamp the presence map holds for a device, if any.
pub open spec fn presence_of(p: Map<Seq<char>, i64>, uuid: Seq<char>) -> Option<i64> {
    if p.contains_key(uuid) {
        Option::Some(p[uuid])
    } else {
        Option::None
    }
}

/// The derived status a device listing must report for `uuid` at time `now`.
pub open spec fn car_status_spec(p: Map<Seq<char>, i64>, uuid: Seq<char>, now: i64) -> crate::json::CarState {
    classify_spec(presence_of(p, uuid), now as int, PRESENCE_WINDOW_SECONDS as int)
}

/// What a correct device listing for `owner` at time `now` looks like:
/// every listed device is a device of `owner` with its name and derived
/// status; every device of `owner` is listed; no device is listed twice.
pub open spec fn cars_listing_ok(
    cars: Map<Seq<char>, CarRec>,
    presence: Map<Seq<char>, i64>,
    owner: Seq<char>,
    now: i64,
    v: Seq<Car>,
) -> bool {
    &&& forall|i: int|
        0 <= i < v.len() ==> cars.contains_key(#[trigger] v[i].uuid@) && cars[v[i].uuid@].username
            == owner && v[i].name@ == cars[v[i].uuid@].name && v[i].status == car_status_spec(
            presence,
            v[i].uuid@,
            now,
        )
    &&& forall|u: Seq<char>|
        cars.dom().contains(u) && cars[u].username == owner ==> exists|i: int|
            0 <= i < v.len() && #[trigger] v[i].uuid@ == u
    &&& forall|i: int, j: int| 0 <= i < j < v.len() ==> v[i].uuid@ != v[j].uuid@
}

/// An owner already holding two distinct live devices is at the quota.
pub open spec fn at_device_quota(cars: Map<Seq<char>, CarRec>, owner: Seq<char>) -> bool {
    exists|u1: Seq<char>, u2: Seq<char>|
        u1 != u2 && cars.dom().contains(u1) && cars.dom().contains(u2) && cars[u1].username
            == owner && cars[u2].username == owner
}

/// The capability interface over durable entities and presence. An
/// implementation may keep presence inside its device rows or in a separate
/// volatile store; the contracts below are the same either way.
pub trait DataBase: Sized {
    open spec fn wf(&self) -> bool {
        true
    }

    /// Email address -> last sign-in time.
    open spec fn accounts(&self) -> Map<Seq<char>, i64> {
        Map::empty()
    }

    /// Email address -> live one-time code.
    open spec fn codes(&self) -> Map<Seq<char>, CodeRec> {
        Map::empty()
    }

    /// Device id -> device row.
    open spec fn cars(&self) -> Map<Seq<char>, CarRec> {
        Map::empty()
    }

    /// Device id -> last heartbeat time.
    open spec fn presence(&self) -> Map<Seq<char>, i64> {
        Map::empty()
    }

    /// Idempotent upsert: creates the account if absent, else bumps its
    /// last sign-in to `now`.
    fn user_login(&mut self, username: &String, now: i64) -> (r: Result<(), DatabaseError>)
        requires
            old(self).wf(),
        ensures
            final(self).wf(),
            r is Ok ==> final(self).accounts() == old(self).accounts().insert(username@, now)
                && final(self).codes() == old(self).codes() && final(self).cars() == old(self).cars() && final(self).presence() == old(self).presence(),
            r is Err ==> *final(self) == *old(self),
    ;

    /// Stores a one-time code for `username`, superseding any live one.
    fn create_user_auth(&mut self, username: &String, code: &String, now: i64) -> (r: Result<
        (),
        DatabaseError,
    >)
        requires
            old(self).wf(),
        ensures
            final(self).wf(),
            r is Ok ==> final(self).codes() == old(self).codes().insert(
                username@,
                CodeRec { code: code@, created: now },
            ) && final(self).accounts() == old(self).accounts() && final(self).cars() == old(self).cars() && final(self).presence() == old(self).presence(),
            r is Err ==> *final(self) == *old(self),
    ;

    /// Looks up the live one-time code for `username`.
    fn fetch_user_auth(&self, username: &String) -> (r: Result<Option<UserAuth>, DatabaseError>)
        requires
            self.wf(),
        ensures
            r matches Ok(opt) ==> match opt {
                Option::Some(ua) => self.codes().contains_key(username@) && ua.code@
                    == self.codes()[username@].code && ua.created
                    == self.codes()[username@].created,
                Option::None => !self.codes().contains_key(username@),
            },
    ;

    /// Deletes the one-time code for `username`; absence is a successful
    /// no-op.
    fn delete_user_auth(&mut self, username: &String) -> (r: Result<(), DatabaseError>)
        requires
            old(self).wf(),
        ensures
            final(self).wf(),
            r is Ok ==> final(self).codes() == old(self).codes().remove(username@) && final(self).accounts() == old(self).accounts() && final(self).cars() == old(self).cars()
                && final(self).presence() == old(self).presence(),
            r is Err ==> *final(self) == *old(self),
    ;

    /// Looks up an account.
    fn fetch_user(&self, username: &String) -> (r: Result<Option<User>, DatabaseError>)
        requires
            self.wf(),
        ensures
            r matches Ok(opt) ==> match opt {
                Option::Some(u) => self.accounts().contains_key(username@) && u.username@
                    == username@ && u.last_login == self.accounts()[username@],
                Option::None => !self.accounts().contains_key(username@),
            },
    ;

    /// Lists the devices `username` owns, each with the status derived from
    /// its presence at time `now`; the derivation happens here so callers
    /// never reimplement the freshness policy.
    fn fetch_cars_by_user(&self, username: &String, now: i64) -> (r: Result<Vec<Car>, DatabaseError>)
        requires
            self.wf(),
        ensures
            r matches Ok(v) ==> cars_listing_ok(self.cars(), self.presence(), username@, now, v@),
    ;

    /// Looks a device up by id; its `last_ping` reports the presence map's
    /// entry for it.
    fn fetch_car(&self, car_id: &String) -> (r: Result<Option<CarFull>, DatabaseError>)
        requires
            self.wf(),
        ensures
            r matches Ok(opt) ==> match opt {
                Option::Some(c) => self.cars().contains_key(car_id@) && c.uuid@ == car_id@
                    && c.name@ == self.cars()[car_id@].name && c.secret@
                    == self.cars()[car_id@].secret && c.username@
                    == self.cars()[car_id@].username && c.last_updated
                    == self.cars()[car_id@].last_updated && c.last_ping == presence_of(
                    self.presence(),
                    car_id@,
                ),
                Option::None => !self.cars().contains_key(car_id@),
            },
    ;

    /// Inserts the device if its id is new, else updates its name, secret
    /// and owner in place. The row's creation time survives an update, and
    /// the given `last_ping` field is ignored: presence changes only through
    /// heartbeats.
    fn put_car(&mut self, car: &CarFull) -> (r: Result<(), DatabaseError>)
        requires
            old(self).wf(),
        ensures
            final(self).wf(),
            r is Ok ==> final(self).cars() == old(self).cars().insert(
                car.uuid@,
                CarRec {
                    name: car.name@,
                    secret: car.secret@,
                    username: car.username@,
                    last_updated: if old(self).cars().contains_key(car.uuid@) {
                        old(self).cars()[car.uuid@].last_updated
                    } else {
                        car.last_updated
                    },
                },
            ) && final(self).accounts() == old(self).accounts() && final(self).codes() == old(self).codes(),
            r is Ok && old(self).cars().contains_key(car.uuid@) ==> final(self).presence() == old(self).presence(),
            r is Ok && !old(self).cars().contains_key(car.uuid@) ==> final(self).presence() == old(self).presence().remove(car.uuid@),
            r is Err ==> *final(self) == *old(self),
    ;

    /// Deletes a device and its presence; absence is a successful no-op.
    fn delete_car(&mut self, car_id: &String) -> (r: Result<(), DatabaseError>)
        requires
            old(self).wf(),
        ensures
            final(self).wf(),
            r is Ok ==> final(self).cars() == old(self).cars().remove(car_id@) && final(self).presence() == old(self).presence().remove(car_id@) && final(self).accounts() == old(self).accounts() && final(self).codes() == old(self).codes(),
            r is Err ==> *final(self) == *old(self),
    ;

    /// A heartbeat: refreshes the device's last-seen time to `now`. Fails
    /// with `DoesNotExist` when the device was never registered.
    fn ping_car_state(&mut self, car_id: &String, now: i64) -> (r: Result<(), DatabaseError>)
        requires
            old(self).wf(),
        ensures
            final(self).wf(),
            r is Ok ==> old(self).cars().contains_key(car_id@) && final(self).presence() == old(self).presence().insert(car_id@, now) && final(self).cars() == old(self).cars() && final(self).accounts() == old(self).accounts() && final(self).codes() == old(self).codes(),
            r is Err ==> *final(self) == *old(self),
            r == Err::<(), DatabaseError>(DatabaseError::DoesNotExist) ==> !old(self).cars().contains_key(car_id@),
            !old(self).cars().contains_key(car_id@) ==> !(r is Ok),
    ;
}

} // verus!
