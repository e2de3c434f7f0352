//! An in-process gateway that keeps presence inside its device rows, the
//! way a relational backend keeps a nullable last-ping column.

use vstd::prelude::*;
use crate::database::{CarFull, CarRec, CodeRec, DataBase, DatabaseError, User, UserAuth};
use crate::database::{car_status_spec, presence_of};
use crate::json::Car;
use crate::presence::{classify, PRESENCE_WINDOW_SECONDS};
use crate::store::VolatileRecordStore;

verus! {

/// A device row as this backend stores it: presence is the `last_ping`
/// field; the row's write time in the store is its `last_updated`.
struct CarRow {
    name: String,
    secret: String,
    username: String,
    last_ping: Option<i64>,
}

/// A gateway backed by in-process tables, with presence kept as a nullable
/// field of the device row itself.
pub struct MemoryDatabase {
    users: VolatileRecordStore<()>,
    auth: VolatileRecordStore<String>,
    cars: VolatileRecordStore<CarRow>,
}

impl MemoryDatabase {
    pub fn new() -> (r: Self)
        ensures
            r.wf(),
            r.accounts() == Map::<Seq<char>, i64>::empty(),
            r.codes() == Map::<Seq<char>, CodeRec>::empty(),
            r.cars() == Map::<Seq<char>, CarRec>::empty(),
            r.presence() == Map::<Seq<char>, i64>::empty(),
    {
        let r = MemoryDatabase {
            users: VolatileRecordStore::new(),
            auth: VolatileRecordStore::new(),
            cars: VolatileRecordStore::new(),
        };
        proof {
            assert(r.accounts() =~= Map::<Seq<char>, i64>::empty());
            assert(r.codes() =~= Map::<Seq<char>, CodeRec>::empty());
            assert(r.cars() =~= Map::<Seq<char>, CarRec>::empty());
            assert(r.presence() =~= Map::<Seq<char>, i64>::empty());
        }
        r
    }
}

impl DataBase for MemoryDatabase {
    closed spec fn wf(&self) -> bool {
        self.users.wf() && self.auth.wf() && self.cars.wf()
    }

    closed spec fn accounts(&self) -> Map<Seq<char>, i64> {
        self.users@.map_values(|p: (i64, ())| p.0)
    }

    closed spec fn codes(&self) -> Map<Seq<char>, CodeRec> {
        self.auth@.map_values(|p: (i64, String)| CodeRec { code: p.1@, created: p.0 })
    }

    closed spec fn cars(&self) -> Map<Seq<char>, CarRec> {
        self.cars@.map_values(
            |p: (i64, CarRow)|
                CarRec {
                    name: p.1.name@,
                    secret: p.1.secret@,
                    username: p.1.username@,
                    last_updated: p.0,
                },
        )
    }

    closed spec fn presence(&self) -> Map<Seq<char>, i64> {
        Map::new(
            |u: Seq<char>| self.cars@.contains_key(u) && self.cars@[u].1.last_ping is Some,
            |u: Seq<char>|
                match self.cars@[u].1.last_ping {
                    Option::Some(t) => t,
                    Option::None => 0,
                },
        )
    }

    fn user_login(&mut self, username: &String, now: i64) -> (r: Result<(), DatabaseError>) {
        self.users.put(username.clone(), (), now);
        proof {
            assert(self.accounts() =~= old(self).accounts().insert(username@, now));
        }
        Ok(())
    }

    fn create_user_auth(&mut self, username: &String, code: &String, now: i64) -> (r: Result<
        (),
        DatabaseError,
    >) {
        self.auth.put(username.clone(), code.clone(), now);
        proof {
            assert(self.codes() =~= old(self).codes().insert(
                username@,
                CodeRec { code: code@, created: now },
            ));
        }
        Ok(())
    }

    fn fetch_user_auth(&self, username: &String) -> (r: Result<Option<UserAuth>, DatabaseError>) {
        match self.auth.get(username) {
            Some((created, code)) => Ok(Some(UserAuth { code: code.clone(), created })),
            None => Ok(None),
        }
    }

    fn delete_user_auth(&mut self, username: &String) -> (r: Result<(), DatabaseError>) {
        self.auth.remove(username);
        proof {
            assert(self.codes() =~= old(self).codes().remove(username@));
        }
        Ok(())
    }

    fn fetch_user(&self, username: &String) -> (r: Result<Option<User>, DatabaseError>) {
        match self.users.get(username) {
            Some((last_login, _)) => Ok(Some(User { username: username.clone(), last_login })),
            None => Ok(None),
        }
    }

    #[verifier::rlimit(80)]
    fn fetch_cars_by_user(&self, username: &String, now: i64) -> (r: Result<
        Vec<Car>,
        DatabaseError,
    >) {
        let mut out: Vec<Car> = Vec::new();
        let n = self.cars.len();
        let ghost ks = self.cars.key_seq();
        let ghost mut srcs: Seq<int> = Seq::empty();
        for i in 0..n
            invariant
                self.wf(),
                n == self.cars.spec_len(),
                ks == self.cars.key_seq(),
                srcs.len() == out@.len(),
                forall|j: int| 0 <= j < out@.len() ==> 0 <= #[trigger] srcs[j] < i && out@[j].uuid@
                    == ks[srcs[j]],
                forall|j1: int, j2: int| 0 <= j1 < j2 < out@.len() ==> srcs[j1] < srcs[j2],
                forall|j: int| 0 <= j < out@.len() ==> self.cars().contains_key(
                    #[trigger] out@[j].uuid@,
                ) && self.cars()[out@[j].uuid@].username == username@ && out@[j].name@
                    == self.cars()[out@[j].uuid@].name && out@[j].status == car_status_spec(
                    self.presence(),
                    out@[j].uuid@,
                    now,
                ),
                forall|m: int|
                    0 <= m < i && self.cars()[#[trigger] ks[m]].username == username@ ==> exists|
                        j: int,
                    | 0 <= j < out@.len() && out@[j].uuid@ == ks[m],
        {
            proof {
                self.cars.lemma_keys_cover();
            }
            let (key, _created, row) = self.cars.entry_at(i);
            let ghost out0 = out@;
            if row.username == *username {
                let status = classify(row.last_ping, now, PRESENCE_WINDOW_SECONDS);
                proof {
                    assert(self.cars@[key@].1 == *row);
                    assert(presence_of(self.presence(), key@) == row.last_ping);
                }
                let car = Car { uuid: key.clone(), status, name: row.name.clone() };
                out.push(car);
                proof {
                    srcs = srcs.push(i as int);
                    assert forall|m: int|
                        0 <= m < i + 1 && self.cars()[#[trigger] ks[m]].username
                            == username@ implies exists|j: int|
                        0 <= j < out@.len() && out@[j].uuid@ == ks[m] by {
                        if m < i {
                            let j = choose|j: int| 0 <= j < out0.len() && out0[j].uuid@ == ks[m];
                            assert(out@[j].uuid@ == ks[m]);
                        } else {
                            assert(out@[out@.len() - 1].uuid@ == ks[m]);
                        }
                    }
                }
            } else {
                proof {
                    assert(self.cars@[key@].1 == *row);
                    assert(self.cars()[ks[i as int]].username != username@);
                    assert forall|m: int|
                        0 <= m < i + 1 && self.cars()[#[trigger] ks[m]].username
                            == username@ implies exists|j: int|
                        0 <= j < out@.len() && out@[j].uuid@ == ks[m] by {
                        let j = choose|j: int| 0 <= j < out0.len() && out0[j].uuid@ == ks[m];
                        assert(out@[j].uuid@ == ks[m]);
                    }
                }
            }
        }
        proof {
            self.cars.lemma_keys_cover();
            assert forall|j1: int, j2: int| 0 <= j1 < j2 < out@.len() implies out@[j1].uuid@
                != out@[j2].uuid@ by {
                assert(ks[srcs[j1]] != ks[srcs[j2]]);
            }
            assert forall|u: Seq<char>|
                self.cars().dom().contains(u) && self.cars()[u].username == username@ implies
                exists|i: int| 0 <= i < out@.len() && #[trigger] out@[i].uuid@ == u by {
                assert(self.cars@.contains_key(u));
                let m = choose|m: int| 0 <= m < ks.len() && ks[m] == u;
                let j = choose|j: int| 0 <= j < out@.len() && out@[j].uuid@ == ks[m];
                assert(out@[j].uuid@ == u);
            }
        }
        Ok(out)
    }

    fn fetch_car(&self, car_id: &String) -> (r: Result<Option<CarFull>, DatabaseError>) {
        match self.cars.get(car_id) {
            Some((created, row)) => {
                proof {
                    assert(presence_of(self.presence(), car_id@) == row.last_ping);
                }
                Ok(
                    Some(
                        CarFull {
                            uuid: car_id.clone(),
                            name: row.name.clone(),
                            secret: row.secret.clone(),
                            username: row.username.clone(),
                            last_updated: created,
                            last_ping: row.last_ping,
                        },
                    ),
                )
            },
            None => Ok(None),
        }
    }

    fn put_car(&mut self, car: &CarFull) -> (r: Result<(), DatabaseError>) {
        match self.cars.get(&car.uuid) {
            Some((created, row)) => {
                let new_row = CarRow {
                    name: car.name.clone(),
                    secret: car.secret.clone(),
                    username: car.username.clone(),
                    last_ping: row.last_ping,
                };
                self.cars.put(car.uuid.clone(), new_row, created);
                proof {
                    assert(self.cars() =~= old(self).cars().insert(
                        car.uuid@,
                        CarRec {
                            name: car.name@,
                            secret: car.secret@,
                            username: car.username@,
                            last_updated: old(self).cars()[car.uuid@].last_updated,
                        },
                    ));
                    assert(self.presence() =~= old(self).presence());
                }
            },
            None => {
                let new_row = CarRow {
                    name: car.name.clone(),
                    secret: car.secret.clone(),
                    username: car.username.clone(),
                    last_ping: None,
                };
                self.cars.put(car.uuid.clone(), new_row, car.last_updated);
                proof {
                    assert(self.cars() =~= old(self).cars().insert(
                        car.uuid@,
                        CarRec {
                            name: car.name@,
                            secret: car.secret@,
                            username: car.username@,
                            last_updated: car.last_updated,
                        },
                    ));
                    assert(self.presence() =~= old(self).presence().remove(car.uuid@));
                }
            },
        }
        Ok(())
    }

    fn delete_car(&mut self, car_id: &String) -> (r: Result<(), DatabaseError>) {
        self.cars.remove(car_id);
        proof {
            assert(self.cars() =~= old(self).cars().remove(car_id@));
            assert(self.presence() =~= old(self).presence().remove(car_id@));
        }
        Ok(())
    }

    fn ping_car_state(&mut self, car_id: &String, now: i64) -> (r: Result<(), DatabaseError>) {
        match self.cars.get(car_id) {
            Some((created, row)) => {
                let new_row = CarRow {
                    name: row.name.clone(),
                    secret: row.secret.clone(),
                    username: row.username.clone(),
                    last_ping: Some(now),
                };
                self.cars.put(car_id.clone(), new_row, created);
                proof {
                    assert(self.cars() =~= old(self).cars());
                    assert(self.presence() =~= old(self).presence().insert(car_id@, now));
                }
                Ok(())
            },
            None => Err(DatabaseError::DoesNotExist),
        }
    }
}

} // verus!
