//! An in-process gateway that keeps durable rows and presence apart:
//! presence lives entirely in a volatile record store that heartbeats
//! refresh and a periodic sweep empties of stale entries.

use vstd::prelude::*;
use crate::auth::CHALLENGE_LIFETIME_SECONDS;
use crate::database::{CarFull, CarRec, CodeRec, DataBase, DatabaseError, User, UserAuth};
use crate::database::{car_status_spec, presence_of};
use crate::json::Car;
use crate::presence::{classify, PRESENCE_WINDOW_SECONDS};
use crate::store::VolatileRecordStore;

verus! {

/// Seconds after which a presence record with no further heartbeat is swept.
/// Eviction is a second safety net: staleness alone already reports a device
/// offline through the freshness window.
pub const PRESENCE_STALE_SECONDS: i64 = 30;

/// Seconds between runs of each background sweep loop.
pub const SWEEP_INTERVAL_SECONDS: i64 = 30;

/// A device row as this backend stores it: identity only, no presence.
struct CarIdent {
    name: String,
    secret: String,
    username: String,
}

/// A gateway whose durable rows and presence live in different stores: the
/// hybrid layout, with presence in a sweepable volatile store.
pub struct HybridDatabase {
    users: VolatileRecordStore<()>,
    auth: VolatileRecordStore<String>,
    cars: VolatileRecordStore<CarIdent>,
    pings: VolatileRecordStore<()>,
}

impl HybridDatabase {
    pub fn new() -> (r: Self)
        ensures
            r.wf(),
            r.accounts() == Map::<Seq<char>, i64>::empty(),
            r.codes() == Map::<Seq<char>, CodeRec>::empty(),
            r.cars() == Map::<Seq<char>, CarRec>::empty(),
            r.presence() == Map::<Seq<char>, i64>::empty(),
    {
        let r = HybridDatabase {
            users: VolatileRecordStore::new(),
            auth: VolatileRecordStore::new(),
            cars: VolatileRecordStore::new(),
            pings: VolatileRecordStore::new(),
        };
        proof {
            assert(r.accounts() =~= Map::<Seq<char>, i64>::empty());
            assert(r.codes() =~= Map::<Seq<char>, CodeRec>::empty());
            assert(r.cars() =~= Map::<Seq<char>, CarRec>::empty());
            assert(r.presence() =~= Map::<Seq<char>, i64>::empty());
        }
        r
    }

    /// One pass of the one-time-code sweep loop: every code older than the
    /// challenge lifetime is evicted; fresh codes survive untouched.
    pub fn sweep_auth_codes(&mut self, now: i64)
        requires
            old(self).wf(),
        ensures
            final(self).wf(),
            forall|k: Seq<char>| #[trigger] final(self).codes().contains_key(k) <==> (old(self).codes().contains_key(k) && now - old(self).codes()[k].created
                <= CHALLENGE_LIFETIME_SECONDS),
            forall|k: Seq<char>| #[trigger] final(self).codes().contains_key(k) ==> final(self).codes()[k] == old(self).codes()[k],
            final(self).accounts() == old(self).accounts(),
            final(self).cars() == old(self).cars(),
            final(self).presence() == old(self).presence(),
    {
        self.auth.sweep(now, CHALLENGE_LIFETIME_SECONDS);
        proof {
            assert forall|k: Seq<char>| #[trigger]
                self.codes().contains_key(k) <==> (old(self).codes().contains_key(k) && now - old(self).codes()[k].created <= CHALLENGE_LIFETIME_SECONDS) by {
                assert(self.codes().contains_key(k) == self.auth@.contains_key(k));
            }
        }
    }

    /// One pass of the presence sweep loop: every presence record older
    /// than the staleness bound is evicted; fresh ones survive untouched.
    pub fn sweep_presence(&mut self, now: i64)
        requires
            old(self).wf(),
        ensures
            final(self).wf(),
            forall|k: Seq<char>| #[trigger] final(self).presence().contains_key(k) <==> (old(self).presence().contains_key(k) && now - old(self).presence()[k]
                <= PRESENCE_STALE_SECONDS),
            forall|k: Seq<char>| #[trigger] final(self).presence().contains_key(k) ==> final(self).presence()[k] == old(self).presence()[k],
            final(self).accounts() == old(self).accounts(),
            final(self).codes() == old(self).codes(),
            final(self).cars() == old(self).cars(),
    {
        self.pings.sweep(now, PRESENCE_STALE_SECONDS);
        proof {
            assert forall|k: Seq<char>| #[trigger]
                self.presence().contains_key(k) <==> (old(self).presence().contains_key(k) && now
                    - old(self).presence()[k] <= PRESENCE_STALE_SECONDS) by {
                assert(self.presence().contains_key(k) == self.pings@.contains_key(k));
            }
        }
    }
}

impl DataBase for HybridDatabase {
    closed spec fn wf(&self) -> bool {
        self.users.wf() && self.auth.wf() && self.cars.wf() && self.pings.wf()
    }

    closed spec fn accounts(&self) -> Map<Seq<char>, i64> {
        self.users@.map_values(|p: (i64, ())| p.0)
    }

    closed spec fn codes(&self) -> Map<Seq<char>, CodeRec> {
        self.auth@.map_values(|p: (i64, String)| CodeRec { code: p.1@, created: p.0 })
    }

    closed spec fn cars(&self) -> Map<Seq<char>, CarRec> {
        self.cars@.map_values(
            |p: (i64, CarIdent)|
                CarRec {
                    name: p.1.name@,
                    secret: p.1.secret@,
                    username: p.1.username@,
                    last_updated: p.0,
                },
        )
    }

    closed spec fn presence(&self) -> Map<Seq<char>, i64> {
        self.pings@.map_values(|p: (i64, ())| p.0)
    }

    fn user_login(&mut self, username: &String, now: i64) -> (r: Result<(), DatabaseError>) {
        self.users.put(username.clone(), (), now);
        proof {
            assert(self.accounts() =~= old(self).accounts().insert(username@, now));
        }
        Ok(())
    }

    fn create_user_auth(&mut self, username: &String, code: &String, now: i64) -> (r: Result<
        (),
        DatabaseError,
    >) {
        self.auth.put(username.clone(), code.clone(), now);
        proof {
            assert(self.codes() =~= old(self).codes().insert(
                username@,
                CodeRec { code: code@, created: now },
            ));
        }
        Ok(())
    }

    fn fetch_user_auth(&self, username: &String) -> (r: Result<Option<UserAuth>, DatabaseError>) {
        match self.auth.get(username) {
            Some((created, code)) => Ok(Some(UserAuth { code: code.clone(), created })),
            None => Ok(None),
        }
    }

    fn delete_user_auth(&mut self, username: &String) -> (r: Result<(), DatabaseError>) {
        self.auth.remove(username);
        proof {
            assert(self.codes() =~= old(self).codes().remove(username@));
        }
        Ok(())
    }

    fn fetch_user(&self, username: &String) -> (r: Result<Option<User>, DatabaseError>) {
        match self.users.get(username) {
            Some((last_login, _)) => Ok(Some(User { username: username.clone(), last_login })),
            None => Ok(None),
        }
    }

    #[verifier::rlimit(80)]
    fn fetch_cars_by_user(&self, username: &String, now: i64) -> (r: Result<
        Vec<Car>,
        DatabaseError,
    >) {
        let mut out: Vec<Car> = Vec::new();
        let n = self.cars.len();
        let ghost ks = self.cars.key_seq();
        let ghost mut srcs: Seq<int> = Seq::empty();
        for i in 0..n
            invariant
                self.wf(),
                n == self.cars.spec_len(),
                ks == self.cars.key_seq(),
                srcs.len() == out@.len(),
                forall|j: int| 0 <= j < out@.len() ==> 0 <= #[trigger] srcs[j] < i && out@[j].uuid@
                    == ks[srcs[j]],
                forall|j1: int, j2: int| 0 <= j1 < j2 < out@.len() ==> srcs[j1] < srcs[j2],
                forall|j: int| 0 <= j < out@.len() ==> self.cars().contains_key(
                    #[trigger] out@[j].uuid@,
                ) && self.cars()[out@[j].uuid@].username == username@ && out@[j].name@
                    == self.cars()[out@[j].uuid@].name && out@[j].status == car_status_spec(
                    self.presence(),
                    out@[j].uuid@,
                    now,
                ),
                forall|m: int|
                    0 <= m < i && self.cars()[#[trigger] ks[m]].username == username@ ==> exists|
                        j: int,
                    | 0 <= j < out@.len() && out@[j].uuid@ == ks[m],
        {
            proof {
                self.cars.lemma_keys_cover();
            }
            let (key, _created, row) = self.cars.entry_at(i);
            let ghost out0 = out@;
            if row.username == *username {
                let last_seen: Option<i64> = match self.pings.get(key) {
                    Some((t, _)) => Some(t),
                    None => None,
                };
                let status = classify(last_seen, now, PRESENCE_WINDOW_SECONDS);
                proof {
                    assert(self.cars@[key@].1 == *row);
                    assert(presence_of(self.presence(), key@) == last_seen);
                }
                let car = Car { uuid: key.clone(), status, name: row.name.clone() };
                out.push(car);
                proof {
                    srcs = srcs.push(i as int);
                    assert forall|m: int|
                        0 <= m < i + 1 && self.cars()[#[trigger] ks[m]].username
                            == username@ implies exists|j: int|
                        0 <= j < out@.len() && out@[j].uuid@ == ks[m] by {
                        if m < i {
                            let j = choose|j: int| 0 <= j < out0.len() && out0[j].uuid@ == ks[m];
                            assert(out@[j].uuid@ == ks[m]);
                        } else {
                            assert(out@[out@.len() - 1].uuid@ == ks[m]);
                        }
                    }
                }
            } else {
                proof {
                    assert(self.cars@[key@].1 == *row);
                    assert(self.cars()[ks[i as int]].username != username@);
                    assert forall|m: int|
                        0 <= m < i + 1 && self.cars()[#[trigger] ks[m]].username
                            == username@ implies exists|j: int|
                        0 <= j < out@.len() && out@[j].uuid@ == ks[m] by {
                        let j = choose|j: int| 0 <= j < out0.len() && out0[j].uuid@ == ks[m];
                        assert(out@[j].uuid@ == ks[m]);
                    }
                }
            }
        }
        proof {
            self.cars.lemma_keys_cover();
            assert forall|j1: int, j2: int| 0 <= j1 < j2 < out@.len() implies out@[j1].uuid@
                != out@[j2].uuid@ by {
                assert(ks[srcs[j1]] != ks[srcs[j2]]);
            }
            assert forall|u: Seq<char>|
                self.cars().dom().contains(u) && self.cars()[u].username == username@ implies
                exists|i: int| 0 <= i < out@.len() && #[trigger] out@[i].uuid@ == u by {
                assert(self.cars@.contains_key(u));
                let m = choose|m: int| 0 <= m < ks.len() && ks[m] == u;
                let j = choose|j: int| 0 <= j < out@.len() && out@[j].uuid@ == ks[m];
                assert(out@[j].uuid@ == u);
            }
        }
        Ok(out)
    }

    fn fetch_car(&self, car_id: &String) -> (r: Result<Option<CarFull>, DatabaseError>) {
        match self.cars.get(car_id) {
            Some((created, row)) => {
                let last_ping: Option<i64> = match self.pings.get(car_id) {
                    Some((t, _)) => Some(t),
                    None => None,
                };
                proof {
                    assert(presence_of(self.presence(), car_id@) == last_ping);
                }
                Ok(
                    Some(
                        CarFull {
                            uuid: car_id.clone(),
                            name: row.name.clone(),
                            secret: row.secret.clone(),
                            username: row.username.clone(),
                            last_updated: created,
                            last_ping,
                        },
                    ),
                )
            },
            None => Ok(None),
        }
    }

    fn put_car(&mut self, car: &CarFull) -> (r: Result<(), DatabaseError>) {
        match self.cars.get(&car.uuid) {
            Some((created, _row)) => {
                let new_row = CarIdent {
                    name: car.name.clone(),
                    secret: car.secret.clone(),
                    username: car.username.clone(),
                };
                self.cars.put(car.uuid.clone(), new_row, created);
                proof {
                    assert(self.cars() =~= old(self).cars().insert(
                        car.uuid@,
                        CarRec {
                            name: car.name@,
                            secret: car.secret@,
                            username: car.username@,
                            last_updated: old(self).cars()[car.uuid@].last_updated,
                        },
                    ));
                }
            },
            None => {
                let new_row = CarIdent {
                    name: car.name.clone(),
                    secret: car.secret.clone(),
                    username: car.username.clone(),
                };
                self.cars.put(car.uuid.clone(), new_row, car.last_updated);
                self.pings.remove(&car.uuid);
                proof {
                    assert(self.cars() =~= old(self).cars().insert(
                        car.uuid@,
                        CarRec {
                            name: car.name@,
                            secret: car.secret@,
                            username: car.username@,
                            last_updated: car.last_updated,
                        },
                    ));
                    assert(self.presence() =~= old(self).presence().remove(car.uuid@));
                }
            },
        }
        Ok(())
    }

    fn delete_car(&mut self, car_id: &String) -> (r: Result<(), DatabaseError>) {
        self.cars.remove(car_id);
        self.pings.remove(car_id);
        proof {
            assert(self.cars() =~= old(self).cars().remove(car_id@));
            assert(self.presence() =~= old(self).presence().remove(car_id@));
        }
        Ok(())
    }

    fn ping_car_state(&mut self, car_id: &String, now: i64) -> (r: Result<(), DatabaseError>) {
        match self.cars.get(car_id) {
            Some(_) => {
                self.pings.put(car_id.clone(), (), now);
                proof {
                    assert(self.presence() =~= old(self).presence().insert(car_id@, now));
                }
                Ok(())
            },
            None => Err(DatabaseError::DoesNotExist),
        }
    }
}

} // verus!
