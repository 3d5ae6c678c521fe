//! The fleet-vehicle registry: user accounts with a single process-wide
//! session, and a catalog of vehicles keyed by license plate with the
//! lifecycle rule registered -> retired -> removed.
//!
//! Every operation's contract is stated over [`RegistryView`], the
//! mathematical model of the registry's state.

use crate::clock::now_secs;
use crate::models::UserProfile;
use crate::models::UserView;
use crate::models::Vehicle;
use crate::models::VehicleStatus;
use crate::models::VehicleView;
use vstd::prelude::*;

verus! {

/// The reason a registry operation was refused. Every fallible operation
/// reports exactly one of these; none is fatal to the process.
#[derive(Debug, Clone, Copy, PartialEq, Eq, Structural)]
pub enum RegistryError {
    /// The username of a sign-up is already taken.
    DuplicateUser,
    /// The username of a login is unknown, or the password does not match.
    InvalidCredentials,
    /// A mutating vehicle operation was attempted with no active session.
    NotLoggedIn,
    /// The license plate of a new vehicle is already in the catalog.
    DuplicateVehicle,
    /// No vehicle carries the given license plate.
    VehicleNotFound,
    /// The vehicle to retire is already retired.
    AlreadyRetired,
    /// The vehicle to remove has not been retired yet.
    NotRetired,
    /// The new license plate of an edit is already in use by another vehicle.
    DuplicatePlate,
}

/// The views of a sequence of accounts, in the same order.
pub open spec fn user_views(users: Seq<UserProfile>) -> Seq<UserView> {
    users.map_values(|u: UserProfile| u@)
}

/// The views of a sequence of vehicles, in the same order.
pub open spec fn vehicle_views(vehicles: Seq<Vehicle>) -> Seq<VehicleView> {
    vehicles.map_values(|v: Vehicle| v@)
}

/// The position of the first vehicle carrying this plate, or -1 if none does.
pub open spec fn plate_index(vehicles: Seq<VehicleView>, plate: Seq<char>) -> int
    decreases vehicles.len(),
{
    if vehicles.len() == 0 {
        -1
    } else if vehicles[0].license_plate == plate {
        0
    } else {
        let r = plate_index(vehicles.drop_first(), plate);
        if r == -1 {
            -1
        } else {
            r + 1
        }
    }
}

/// Whether some vehicle carries this plate.
pub open spec fn has_plate(vehicles: Seq<VehicleView>, plate: Seq<char>) -> bool {
    plate_index(vehicles, plate) >= 0
}

/// What `plate_index` finds: the first position carrying the plate, or -1
/// when the plate is absent.
pub proof fn lemma_plate_index_spec(vehicles: Seq<VehicleView>, plate: Seq<char>)
    ensures
        plate_index(vehicles, plate) == -1 ==> forall|i: int|
            0 <= i < vehicles.len() ==> (#[trigger] vehicles[i]).license_plate != plate,
        plate_index(vehicles, plate) != -1 ==> {
            let k = plate_index(vehicles, plate);
            &&& 0 <= k < vehicles.len()
            &&& vehicles[k].license_plate == plate
            &&& forall|i: int|
                0 <= i < k ==> (#[trigger] vehicles[i]).license_plate != plate
        },
    decreases vehicles.len(),
{
    if vehicles.len() > 0 && vehicles[0].license_plate != plate {
        let rest = vehicles.drop_first();
        lemma_plate_index_spec(rest, plate);
        let r = plate_index(rest, plate);
        if r == -1 {
            assert forall|i: int|
                0 <= i < vehicles.len() implies (#[trigger] vehicles[i]).license_plate
                != plate by {
                if i > 0 {
                    assert(rest[i - 1] == vehicles[i]);
                }
            }
        } else {
            assert(vehicles[r + 1] == rest[r]);
            assert forall|i: int|
                0 <= i < r + 1 implies (#[trigger] vehicles[i]).license_plate != plate by {
                if i > 0 {
                    assert(rest[i - 1] == vehicles[i]);
                }
            }
        }
    }
}

/// A position whose prefix is free of the plate and which carries the plate
/// is exactly what `plate_index` returns.
pub proof fn lemma_plate_index_first(vehicles: Seq<VehicleView>, plate: Seq<char>, i: int)
    requires
        0 <= i < vehicles.len(),
        vehicles[i].license_plate == plate,
        forall|j: int| 0 <= j < i ==> (#[trigger] vehicles[j]).license_plate != plate,
    ensures
        plate_index(vehicles, plate) == i,
    decreases i,
{
    let rest = vehicles.drop_first();
    if i == 0 {
    } else {
        assert(vehicles[0].license_plate != plate);
        assert(rest[i - 1] == vehicles[i]);
        assert forall|j: int|
            0 <= j < i - 1 implies (#[trigger] rest[j]).license_plate != plate by {
            assert(rest[j] == vehicles[j + 1]);
        }
        lemma_plate_index_first(rest, plate, i - 1);
    }
}

/// Mathematical model of the registry: the accounts in sign-up order, the
/// session, the vehicles in insertion order, and the two id counters.
#[verifier::ext_equal]
pub struct RegistryView {
    pub users: Seq<UserView>,
    pub session: Option<Seq<char>>,
    pub vehicles: Seq<VehicleView>,
    pub next_user_id: u32,
    pub next_vehicle_id: u32,
}

impl RegistryView {
    /// The registry's invariants: user ids are assigned in order starting at
    /// 1, usernames are unique, the session names an existing user, vehicle
    /// ids are strictly increasing and below the id counter, and license
    /// plates are unique.
    pub open spec fn wf(self) -> bool {
        &&& self.next_user_id as int == self.users.len() + 1
        &&& forall|i: int|
            0 <= i < self.users.len() ==> (#[trigger] self.users[i]).id as int == i + 1
        &&& forall|i: int, j: int|
            0 <= i < j < self.users.len() ==> self.users[i].user_name != self.users[j].user_name
        &&& match self.session {
            Some(name) => self.has_user(name),
            None => true,
        }
        &&& self.next_vehicle_id >= 1
        &&& forall|i: int|
            0 <= i < self.vehicles.len() ==> 1 <= (#[trigger] self.vehicles[i]).id
                < self.next_vehicle_id
        &&& forall|i: int, j: int|
            0 <= i < j < self.vehicles.len() ==> self.vehicles[i].id < self.vehicles[j].id
        &&& forall|i: int, j: int|
            0 <= i < j < self.vehicles.len() ==> self.vehicles[i].license_plate
                != self.vehicles[j].license_plate
    }

    /// Whether some account carries this username.
    pub open spec fn has_user(self, name: Seq<char>) -> bool {
        exists|i: int| 0 <= i < self.users.len() && (#[trigger] self.users[i]).user_name == name
    }

    /// Whether this username and password verbatim match some account.
    pub open spec fn credentials_ok(self, name: Seq<char>, password: Seq<char>) -> bool {
        exists|i: int|
            0 <= i < self.users.len() && (#[trigger] self.users[i]).user_name == name
                && self.users[i].password == password
    }

    /// The state after a successful sign-up at time `t`.
    pub open spec fn with_user(self, name: Seq<char>, password: Seq<char>, t: u64) -> RegistryView {
        RegistryView {
            users: self.users.push(
                UserView { id: self.next_user_id, user_name: name, password, created_at: t },
            ),
            next_user_id: (self.next_user_id + 1) as u32,
            ..self
        }
    }

    /// The state after a successful login as `name`.
    pub open spec fn with_session(self, name: Seq<char>) -> RegistryView {
        RegistryView { session: Some(name), ..self }
    }

    /// The state after a logout.
    pub open spec fn without_session(self) -> RegistryView {
        RegistryView { session: None, ..self }
    }

    /// Whether some vehicle in the catalog carries this plate.
    pub open spec fn has_plate(self, plate: Seq<char>) -> bool {
        has_plate(self.vehicles, plate)
    }

    /// The vehicle carrying this plate (meaningful when `has_plate` holds; in
    /// a well-formed registry at most one vehicle carries any plate).
    pub open spec fn vehicle_at(self, plate: Seq<char>) -> VehicleView {
        self.vehicles[plate_index(self.vehicles, plate)]
    }

    /// The state after a successful vehicle registration at time `t`.
    pub open spec fn with_vehicle(self, model: Seq<char>, plate: Seq<char>, t: u64) -> RegistryView {
        RegistryView {
            vehicles: self.vehicles.push(
                VehicleView {
                    id: self.next_vehicle_id,
                    model,
                    license_plate: plate,
                    status: VehicleStatus::Registered,
                    registered_at: t,
                },
            ),
            next_vehicle_id: (self.next_vehicle_id + 1) as u32,
            ..self
        }
    }

    /// The state after a successful retirement of the vehicle at this plate.
    pub open spec fn with_retired(self, plate: Seq<char>) -> RegistryView {
        let k = plate_index(self.vehicles, plate);
        RegistryView {
            vehicles: self.vehicles.update(
                k,
                (VehicleView { status: VehicleStatus::Retired, ..self.vehicles[k] }),
            ),
            ..self
        }
    }

    /// The state after a successful removal of the vehicle at this plate.
    pub open spec fn without_vehicle(self, plate: Seq<char>) -> RegistryView {
        RegistryView { vehicles: self.vehicles.remove(plate_index(self.vehicles, plate)), ..self }
    }

    /// The state after a successful edit of the vehicle at this plate:
    /// only the supplied fields change, and the identifier is preserved.
    pub open spec fn with_edit(
        self,
        plate: Seq<char>,
        new_model: Option<Seq<char>>,
        new_plate: Option<Seq<char>>,
    ) -> RegistryView {
        let k = plate_index(self.vehicles, plate);
        let v = self.vehicles[k];
        let edited = VehicleView {
            model: match new_model {
                Some(m) => m,
                None => v.model,
            },
            license_plate: match new_plate {
                Some(p) => p,
                None => v.license_plate,
            },
            ..v
        };
        RegistryView { vehicles: self.vehicles.update(k, edited), ..self }
    }

    /// The plate-keyed lookup view of the catalog, derived from the
    /// insertion-ordered sequence.
    pub open spec fn plate_view(self) -> Map<Seq<char>, VehicleView> {
        Map::new(|p: Seq<char>| self.has_plate(p), |p: Seq<char>| self.vehicle_at(p))
    }
}

/// The view of an optional string: present exactly when the string is.
pub open spec fn opt_view(o: Option<String>) -> Option<Seq<char>> {
    match o {
        Some(s) => Some(s@),
        None => None,
    }
}

/// The in-memory registry. The catalog is held in insertion order; the
/// plate-keyed lookup view derived from it is [`RegistryView::plate_view`].
pub struct VehiclesRegistry {
    users: Vec<UserProfile>,
    logged_in: Option<String>,
    fleet_vehicles: Vec<Vehicle>,
    next_user_id: u32,
    next_vehicle_id: u32,
}

impl View for VehiclesRegistry {
    type V = RegistryView;

    closed spec fn view(&self) -> RegistryView {
        RegistryView {
            users: user_views(self.users@),
            session: match self.logged_in {
                Some(name) => Some(name@),
                None => None,
            },
            vehicles: vehicle_views(self.fleet_vehicles@),
            next_user_id: self.next_user_id,
            next_vehicle_id: self.next_vehicle_id,
        }
    }
}

/// A sign-up with a fresh username keeps the registry well-formed.
proof fn lemma_sign_up_wf(r: RegistryView, name: Seq<char>, password: Seq<char>, t: u64)
    requires
        r.wf(),
        r.next_user_id < u32::MAX,
        !r.has_user(name),
    ensures
        r.with_user(name, password, t).wf(),
{
    let r2 = r.with_user(name, password, t);
    assert forall|i: int|
        0 <= i < r2.users.len() implies (#[trigger] r2.users[i]).id as int == i + 1 by {
        if i < r.users.len() {
            assert(r2.users[i] == r.users[i]);
        } else {
            assert(r2.users[i] == (UserView {
                id: r.next_user_id,
                user_name: name,
                password,
                created_at: t,
            }));
        }
    }
    assert forall|i: int, j: int|
        0 <= i < j < r2.users.len() implies r2.users[i].user_name != r2.users[j].user_name by {
        if j == r.users.len() {
            if r2.users[i].user_name == name {
                assert(r.users[i].user_name == name);
                assert(r.has_user(name));
            }
        } else {
            assert(r.users[i].user_name != r.users[j].user_name);
        }
    }
    match r.session {
        Some(s) => {
            let i = choose|i: int|
                0 <= i < r.users.len() && (#[trigger] r.users[i]).user_name == s;
            assert(r2.users[i].user_name == s);
        },
        None => {},
    }
}

/// Finds the first account with this username.
fn find_user_index(users: &Vec<UserProfile>, name: &String) -> (r: Option<usize>)
    ensures
        match r {
            Some(i) => i < users@.len() && (#[trigger] users@[i as int])@.user_name == name@,
            None => forall|j: int|
                0 <= j < users@.len() ==> (#[trigger] users@[j])@.user_name != name@,
        },
{
    let mut i: usize = 0;
    let n: usize = users.len();
    while i < n
        invariant
            i <= n,
            n == users@.len(),
            forall|j: int| 0 <= j < i ==> (#[trigger] users@[j])@.user_name != name@,
        decreases n - i,
    {
        if users[i].user_name == *name {
            return Some(i);
        }
        i = i + 1;
    }
    None
}

/// Finds the first vehicle with this license plate, as `plate_index` does on
/// the catalog's view.
fn find_plate_index(vehicles: &Vec<Vehicle>, plate: &String) -> (r: Option<usize>)
    ensures
        match r {
            Some(i) => i < vehicles@.len() && plate_index(vehicle_views(vehicles@), plate@)
                == i as int,
            None => plate_index(vehicle_views(vehicles@), plate@) == -1,
        },
{
    let ghost s = vehicle_views(vehicles@);
    let mut i: usize = 0;
    let n: usize = vehicles.len();
    while i < n
        invariant
            i <= n,
            n == vehicles@.len(),
            s == vehicle_views(vehicles@),
            forall|j: int| 0 <= j < i ==> (#[trigger] s[j]).license_plate != plate@,
        decreases n - i,
    {
        if vehicles[i].license_plate == *plate {
            proof {
                assert(s[i as int] == vehicles@[i as int]@);
                lemma_plate_index_first(s, plate@, i as int);
            }
            return Some(i);
        }
        proof {
            assert(s[i as int] == vehicles@[i as int]@);
        }
        i = i + 1;
    }
    proof {
        lemma_plate_index_spec(s, plate@);
        if plate_index(s, plate@) != -1 {
            assert(s[plate_index(s, plate@)].license_plate == plate@);
        }
    }
    None
}

/// Registering a vehicle with a fresh plate keeps the registry well-formed.
proof fn lemma_add_vehicle_wf(r: RegistryView, model: Seq<char>, plate: Seq<char>, t: u64)
    requires
        r.wf(),
        r.next_vehicle_id < u32::MAX,
        !r.has_plate(plate),
    ensures
        r.with_vehicle(model, plate, t).wf(),
{
    let r2 = r.with_vehicle(model, plate, t);
    let n = r.vehicles.len() as int;
    lemma_plate_index_spec(r.vehicles, plate);
    assert forall|i: int, j: int|
        0 <= i < j < r2.vehicles.len() implies r2.vehicles[i].license_plate
        != r2.vehicles[j].license_plate by {
        if j < n {
            assert(r.vehicles[i].license_plate != r.vehicles[j].license_plate);
        } else {
            assert(r2.vehicles[i] == r.vehicles[i]);
        }
    }
    assert forall|i: int, j: int|
        0 <= i < j < r2.vehicles.len() implies r2.vehicles[i].id < r2.vehicles[j].id by {
        if j < n {
            assert(r.vehicles[i].id < r.vehicles[j].id);
        } else {
            assert(r2.vehicles[i] == r.vehicles[i]);
        }
    }
    match r.session {
        Some(name) => {
            let i = choose|i: int|
                0 <= i < r.users.len() && (#[trigger] r.users[i]).user_name == name;
            assert(r2.users[i].user_name == name);
        },
        None => {},
    }
}

/// Retiring an existing vehicle keeps the registry well-formed.
proof fn lemma_retire_wf(r: RegistryView, plate: Seq<char>)
    requires
        r.wf(),
        r.has_plate(plate),
    ensures
        r.with_retired(plate).wf(),
{
    lemma_plate_index_spec(r.vehicles, plate);
    let r2 = r.with_retired(plate);
    assert forall|i: int|
        0 <= i < r2.vehicles.len() implies (#[trigger] r2.vehicles[i]).id == r.vehicles[i].id
        && r2.vehicles[i].license_plate == r.vehicles[i].license_plate by {}
    assert forall|i: int, j: int|
        0 <= i < j < r2.vehicles.len() implies r2.vehicles[i].license_plate
        != r2.vehicles[j].license_plate by {
        assert(r.vehicles[i].license_plate != r.vehicles[j].license_plate);
    }
    assert forall|i: int, j: int|
        0 <= i < j < r2.vehicles.len() implies r2.vehicles[i].id < r2.vehicles[j].id by {
        assert(r.vehicles[i].id < r.vehicles[j].id);
    }
    assert forall|i: int|
        0 <= i < r2.vehicles.len() implies 1 <= (#[trigger] r2.vehicles[i]).id
        < r2.next_vehicle_id by {
        assert(1 <= r.vehicles[i].id < r.next_vehicle_id);
    }
    match r.session {
        Some(name) => {
            let i = choose|i: int|
                0 <= i < r.users.len() && (#[trigger] r.users[i]).user_name == name;
            assert(r2.users[i].user_name == name);
        },
        None => {},
    }
}

/// Removing an existing vehicle keeps the registry well-formed.
proof fn lemma_remove_wf(r: RegistryView, plate: Seq<char>)
    requires
        r.wf(),
        r.has_plate(plate),
    ensures
        r.without_vehicle(plate).wf(),
{
    let k = plate_index(r.vehicles, plate);
    lemma_plate_index_spec(r.vehicles, plate);
    let r2 = r.without_vehicle(plate);
    assert forall|i: int, j: int|
        0 <= i < j < r2.vehicles.len() implies r2.vehicles[i].license_plate
        != r2.vehicles[j].license_plate && r2.vehicles[i].id < r2.vehicles[j].id by {
        let oi: int = if i < k {
            i
        } else {
            i + 1
        };
        let oj: int = if j < k {
            j
        } else {
            j + 1
        };
        assert(r2.vehicles[i] == r.vehicles[oi]);
        assert(r2.vehicles[j] == r.vehicles[oj]);
        assert(r.vehicles[oi].license_plate != r.vehicles[oj].license_plate);
        assert(r.vehicles[oi].id < r.vehicles[oj].id);
    }
    assert forall|i: int|
        0 <= i < r2.vehicles.len() implies 1 <= (#[trigger] r2.vehicles[i]).id
        < r2.next_vehicle_id by {
        let oi: int = if i < k {
            i
        } else {
            i + 1
        };
        assert(r2.vehicles[i] == r.vehicles[oi]);
        assert(1 <= r.vehicles[oi].id < r.next_vehicle_id);
    }
    match r.session {
        Some(name) => {
            let i = choose|i: int|
                0 <= i < r.users.len() && (#[trigger] r.users[i]).user_name == name;
            assert(r2.users[i].user_name == name);
        },
        None => {},
    }
}

/// Editing an existing vehicle keeps the registry well-formed, provided a
/// supplied plate is the vehicle's own or not in use.
proof fn lemma_edit_wf(
    r: RegistryView,
    plate: Seq<char>,
    new_model: Option<Seq<char>>,
    new_plate: Option<Seq<char>>,
)
    requires
        r.wf(),
        r.has_plate(plate),
        new_plate matches Some(p) ==> p == plate || !r.has_plate(p),
    ensures
        r.with_edit(plate, new_model, new_plate).wf(),
{
    let k = plate_index(r.vehicles, plate);
    lemma_plate_index_spec(r.vehicles, plate);
    let r2 = r.with_edit(plate, new_model, new_plate);
    assert forall|i: int|
        0 <= i < r2.vehicles.len() && i != k implies (#[trigger] r2.vehicles[i]) == r.vehicles[
        i
    ] by {}
    assert(r2.vehicles[k].id == r.vehicles[k].id);
    match new_plate {
        Some(p) => {
            if p != plate {
                lemma_plate_index_spec(r.vehicles, p);
            }
        },
        None => {},
    }
    assert forall|i: int, j: int|
        0 <= i < j < r2.vehicles.len() implies r2.vehicles[i].license_plate
        != r2.vehicles[j].license_plate by {
        assert(r.vehicles[i].license_plate != r.vehicles[j].license_plate);
        if i == k || j == k {
            let o: int = if i == k {
                j
            } else {
                i
            };
            match new_plate {
                Some(p) => {
                    if p != plate {
                        assert(r.vehicles[o].license_plate != p);
                    }
                },
                None => {},
            }
        }
    }
    assert forall|i: int, j: int|
        0 <= i < j < r2.vehicles.len() implies r2.vehicles[i].id < r2.vehicles[j].id by {
        assert(r.vehicles[i].id < r.vehicles[j].id);
    }
    assert forall|i: int|
        0 <= i < r2.vehicles.len() implies 1 <= (#[trigger] r2.vehicles[i]).id
        < r2.next_vehicle_id by {
        assert(1 <= r.vehicles[i].id < r.next_vehicle_id);
    }
    match r.session {
        Some(name) => {
            let i = choose|i: int|
                0 <= i < r.users.len() && (#[trigger] r.users[i]).user_name == name;
            assert(r2.users[i].user_name == name);
        },
        None => {},
    }
}

impl VehiclesRegistry {
    /// A fresh registry: no accounts, no session, no vehicles, both id
    /// counters at 1.
    pub fn new() -> (r: VehiclesRegistry)
        ensures
            r@.wf(),
            r@.users == Seq::<UserView>::empty(),
            r@.session is None,
            r@.vehicles == Seq::<VehicleView>::empty(),
            r@.next_user_id == 1,
            r@.next_vehicle_id == 1,
    {
        let r = VehiclesRegistry {
            users: Vec::new(),
            logged_in: None,
            fleet_vehicles: Vec::new(),
            next_user_id: 1,
            next_vehicle_id: 1,
        };
        proof {
            assert(r@.users =~= Seq::<UserView>::empty());
            assert(r@.vehicles =~= Seq::<VehicleView>::empty());
        }
        r
    }

    /// Creates an account, unless the username is already taken. On success
    /// the account gets the next user id and the current time, and the
    /// username is returned.
    pub fn sign_up(&mut self, user_name: String, password: String) -> (r: Result<
        String,
        RegistryError,
    >)
        requires
            old(self)@.wf(),
            old(self)@.next_user_id < u32::MAX,
        ensures
            final(self)@.wf(),
            old(self)@.has_user(user_name@) ==> r == Err::<String, RegistryError>(
                RegistryError::DuplicateUser,
            ) && final(self)@ == old(self)@,
            !old(self)@.has_user(user_name@) ==> (r matches Ok(u) && u@ == user_name@) && (exists|
                t: u64,
            |
                final(self)@ == old(self)@.with_user(user_name@, password@, t)),
    {
        match find_user_index(&self.users, &user_name) {
            Some(i) => {
                proof {
                    assert(self@.users[i as int] == self.users@[i as int]@);
                    assert(old(self)@.has_user(user_name@));
                }
                Err(RegistryError::DuplicateUser)
            },
            None => {
                proof {
                    assert forall|j: int|
                        0 <= j < self@.users.len() implies (#[trigger] self@.users[j]).user_name
                        != user_name@ by {
                        assert(self@.users[j] == self.users@[j]@);
                    }
                    assert(!old(self)@.has_user(user_name@));
                }
                let id = self.next_user_id;
                let t = now_secs();
                let user = UserProfile {
                    id,
                    user_name: user_name.clone(),
                    password,
                    created_at: t,
                };
                self.users.push(user);
                self.next_user_id = id + 1;
                proof {
                    lemma_sign_up_wf(old(self)@, user_name@, password@, t);
                    assert(self@.users =~= old(self)@.with_user(user_name@, password@, t).users);
                    assert(self@ =~= old(self)@.with_user(user_name@, password@, t));
                }
                Ok(user_name)
            },
        }
    }

    /// Logs in, setting the session to this username, if the username and
    /// password verbatim match an account; any prior session is overwritten
    /// without requiring a logout first. Succeeds if and only if the
    /// credentials match.
    pub fn login(&mut self, user_name: String, password: String) -> (r: Result<
        (),
        RegistryError,
    >)
        requires
            old(self)@.wf(),
        ensures
            final(self)@.wf(),
            old(self)@.credentials_ok(user_name@, password@) ==> r == Ok::<(), RegistryError>(())
                && final(self)@ == old(self)@.with_session(user_name@),
            !old(self)@.credentials_ok(user_name@, password@) ==> r == Err::<(), RegistryError>(
                RegistryError::InvalidCredentials,
            ) && final(self)@ == old(self)@,
    {
        match find_user_index(&self.users, &user_name) {
            Some(i) => {
                if self.users[i].password == password {
                    proof {
                        assert(self@.users[i as int] == self.users@[i as int]@);
                        assert(old(self)@.credentials_ok(user_name@, password@));
                        assert(old(self)@.has_user(user_name@));
                    }
                    self.logged_in = Some(user_name);
                    proof {
                        assert(self@ =~= old(self)@.with_session(user_name@));
                    }
                    Ok(())
                } else {
                    proof {
                        assert(self@.users[i as int] == self.users@[i as int]@);
                        assert forall|j: int|
                            0 <= j < self@.users.len() && (#[trigger] self@.users[j]).user_name
                                == user_name@ implies self@.users[j].password != password@ by {
                            if j < i as int {
                                assert(self@.users[j].user_name != self@.users[
                                    i as int
                                ].user_name);
                            } else if j > i as int {
                                assert(self@.users[i as int].user_name != self@.users[
                                    j
                                ].user_name);
                            }
                        }
                        assert(!old(self)@.credentials_ok(user_name@, password@));
                    }
                    Err(RegistryError::InvalidCredentials)
                }
            },
            None => {
                proof {
                    assert forall|j: int|
                        0 <= j < self@.users.len() implies (#[trigger] self@.users[j]).user_name
                        != user_name@ by {
                        assert(self@.users[j] == self.users@[j]@);
                    }
                }
                Err(RegistryError::InvalidCredentials)
            },
        }
    }

    /// Clears the session unconditionally; nothing else changes, so a logout
    /// always succeeds even when no session was active.
    pub fn logout(&mut self)
        requires
            old(self)@.wf(),
        ensures
            final(self)@.wf(),
            final(self)@ == old(self)@.without_session(),
    {
        self.logged_in = None;
    }

    /// Registers a vehicle, provided a session is active and the plate is
    /// not already in the catalog. On success the vehicle gets the next
    /// vehicle id (which is returned), status `Registered`, and the current
    /// time; it is appended to the catalog.
    pub fn add_vehicle(&mut self, model: String, license_plate: String) -> (r: Result<
        u32,
        RegistryError,
    >)
        requires
            old(self)@.wf(),
            old(self)@.next_vehicle_id < u32::MAX,
        ensures
            final(self)@.wf(),
            old(self)@.session is None ==> r == Err::<u32, RegistryError>(
                RegistryError::NotLoggedIn,
            ) && final(self)@ == old(self)@,
            old(self)@.session is Some && old(self)@.has_plate(license_plate@) ==> r == Err::<
                u32,
                RegistryError,
            >(RegistryError::DuplicateVehicle) && final(self)@ == old(self)@,
            old(self)@.session is Some && !old(self)@.has_plate(license_plate@) ==> r == Ok::<
                u32,
                RegistryError,
            >(old(self)@.next_vehicle_id) && (exists|t: u64|
                final(self)@ == old(self)@.with_vehicle(model@, license_plate@, t)),
    {
        if self.logged_in.is_none() {
            return Err(RegistryError::NotLoggedIn);
        }
        match find_plate_index(&self.fleet_vehicles, &license_plate) {
            Some(_) => Err(RegistryError::DuplicateVehicle),
            None => {
                let id = self.next_vehicle_id;
                let t = now_secs();
                let vehicle = Vehicle {
                    id,
                    model,
                    license_plate: license_plate.clone(),
                    status: VehicleStatus::Registered,
                    registered_at: t,
                };
                self.fleet_vehicles.push(vehicle);
                self.next_vehicle_id = id + 1;
                proof {
                    lemma_add_vehicle_wf(old(self)@, model@, license_plate@, t);
                    assert(self@.vehicles =~= old(self)@.with_vehicle(
                        model@,
                        license_plate@,
                        t,
                    ).vehicles);
                    assert(self@ =~= old(self)@.with_vehicle(model@, license_plate@, t));
                }
                Ok(id)
            },
        }
    }

    /// Retires the vehicle at this plate, provided a session is active, the
    /// plate is in the catalog, and the vehicle is still `Registered`.
    /// `Retired` is terminal: a second retirement is refused.
    pub fn retire_vehicle(&mut self, license_plate: String) -> (r: Result<(), RegistryError>)
        requires
            old(self)@.wf(),
        ensures
            final(self)@.wf(),
            old(self)@.session is None ==> r == Err::<(), RegistryError>(
                RegistryError::NotLoggedIn,
            ) && final(self)@ == old(self)@,
            old(self)@.session is Some && !old(self)@.has_plate(license_plate@) ==> r == Err::<
                (),
                RegistryError,
            >(RegistryError::VehicleNotFound) && final(self)@ == old(self)@,
            old(self)@.session is Some && old(self)@.has_plate(license_plate@) && old(
                self,
            )@.vehicle_at(license_plate@).status is Retired ==> r == Err::<(), RegistryError>(
                RegistryError::AlreadyRetired,
            ) && final(self)@ == old(self)@,
            old(self)@.session is Some && old(self)@.has_plate(license_plate@) && old(
                self,
            )@.vehicle_at(license_plate@).status is Registered ==> r == Ok::<(), RegistryError>(())
                && final(self)@ == old(self)@.with_retired(license_plate@),
    {
        if self.logged_in.is_none() {
            return Err(RegistryError::NotLoggedIn);
        }
        match find_plate_index(&self.fleet_vehicles, &license_plate) {
            None => Err(RegistryError::VehicleNotFound),
            Some(i) => {
                proof {
                    assert(self@.vehicles[i as int] == self.fleet_vehicles@[i as int]@);
                }
                match self.fleet_vehicles[i].status {
                    VehicleStatus::Retired => Err(RegistryError::AlreadyRetired),
                    VehicleStatus::Registered => {
                        self.fleet_vehicles[i].status = VehicleStatus::Retired;
                        proof {
                            lemma_retire_wf(old(self)@, license_plate@);
                            assert(self@.vehicles =~= old(self)@.with_retired(
                                license_plate@,
                            ).vehicles);
                            assert(self@ =~= old(self)@.with_retired(license_plate@));
                        }
                        Ok(())
                    },
                }
            },
        }
    }

    /// Removes the vehicle at this plate from the catalog and returns its
    /// record, provided a session is active, the plate is in the catalog,
    /// and the vehicle has been retired first.
    pub fn remove_vehicle(&mut self, license_plate: String) -> (r: Result<
        Vehicle,
        RegistryError,
    >)
        requires
            old(self)@.wf(),
        ensures
            final(self)@.wf(),
            old(self)@.session is None ==> r == Err::<Vehicle, RegistryError>(
                RegistryError::NotLoggedIn,
            ) && final(self)@ == old(self)@,
            old(self)@.session is Some && !old(self)@.has_plate(license_plate@) ==> r == Err::<
                Vehicle,
                RegistryError,
            >(RegistryError::VehicleNotFound) && final(self)@ == old(self)@,
            old(self)@.session is Some && old(self)@.has_plate(license_plate@) && old(
                self,
            )@.vehicle_at(license_plate@).status is Registered ==> r == Err::<
                Vehicle,
                RegistryError,
            >(RegistryError::NotRetired) && final(self)@ == old(self)@,
            old(self)@.session is Some && old(self)@.has_plate(license_plate@) && old(
                self,
            )@.vehicle_at(license_plate@).status is Retired ==> (r matches Ok(v) && v@ == old(
                self,
            )@.vehicle_at(license_plate@)) && final(self)@ == old(self)@.without_vehicle(
                license_plate@,
            ),
    {
        if self.logged_in.is_none() {
            return Err(RegistryError::NotLoggedIn);
        }
        match find_plate_index(&self.fleet_vehicles, &license_plate) {
            None => Err(RegistryError::VehicleNotFound),
            Some(i) => {
                proof {
                    assert(self@.vehicles[i as int] == self.fleet_vehicles@[i as int]@);
                }
                match self.fleet_vehicles[i].status {
                    VehicleStatus::Registered => Err(RegistryError::NotRetired),
                    VehicleStatus::Retired => {
                        let vehicle = self.fleet_vehicles.remove(i);
                        proof {
                            lemma_remove_wf(old(self)@, license_plate@);
                            assert(self@.vehicles =~= old(self)@.without_vehicle(
                                license_plate@,
                            ).vehicles);
                            assert(self@ =~= old(self)@.without_vehicle(license_plate@));
                        }
                        Ok(vehicle)
                    },
                }
            },
        }
    }

    /// Edits the vehicle at this plate, provided a session is active and the
    /// plate is in the catalog. Only the supplied fields change (absent
    /// fields are left as they are); a supplied plate that differs from the
    /// current one must not collide with another vehicle. The vehicle's
    /// identifier is preserved even when its plate changes.
    pub fn edit_vehicle(
        &mut self,
        license_plate: String,
        new_model: Option<String>,
        new_license_plate: Option<String>,
    ) -> (r: Result<(), RegistryError>)
        requires
            old(self)@.wf(),
        ensures
            final(self)@.wf(),
            old(self)@.session is None ==> r == Err::<(), RegistryError>(
                RegistryError::NotLoggedIn,
            ) && final(self)@ == old(self)@,
            old(self)@.session is Some && !old(self)@.has_plate(license_plate@) ==> r == Err::<
                (),
                RegistryError,
            >(RegistryError::VehicleNotFound) && final(self)@ == old(self)@,
            old(self)@.session is Some && old(self)@.has_plate(license_plate@) && (
            new_license_plate matches Some(p) && p@ != license_plate@ && old(self)@.has_plate(p@))
                ==> r == Err::<(), RegistryError>(RegistryError::DuplicatePlate) && final(self)@
                == old(self)@,
            old(self)@.session is Some && old(self)@.has_plate(license_plate@) && !(
            new_license_plate matches Some(p) && p@ != license_plate@ && old(self)@.has_plate(p@))
                ==> r == Ok::<(), RegistryError>(()) && final(self)@ == old(self)@.with_edit(
                license_plate@,
                opt_view(new_model),
                opt_view(new_license_plate),
            ),
    {
        let ghost goal = old(self)@.with_edit(
            license_plate@,
            opt_view(new_model),
            opt_view(new_license_plate),
        );
        if self.logged_in.is_none() {
            return Err(RegistryError::NotLoggedIn);
        }
        let idx = match find_plate_index(&self.fleet_vehicles, &license_plate) {
            None => {
                return Err(RegistryError::VehicleNotFound);
            },
            Some(i) => i,
        };
        match &new_license_plate {
            Some(np) => {
                if *np != license_plate {
                    match find_plate_index(&self.fleet_vehicles, np) {
                        Some(_) => {
                            return Err(RegistryError::DuplicatePlate);
                        },
                        None => {},
                    }
                }
            },
            None => {},
        }
        proof {
            lemma_edit_wf(
                old(self)@,
                license_plate@,
                opt_view(new_model),
                opt_view(new_license_plate),
            );
        }
        match new_model {
            Some(m) => {
                self.fleet_vehicles[idx].model = m;
            },
            None => {},
        }
        match new_license_plate {
            Some(p) => {
                self.fleet_vehicles[idx].license_plate = p;
            },
            None => {},
        }
        proof {
            assert(self@.vehicles =~= goal.vehicles);
            assert(self@ =~= goal);
        }
        Ok(())
    }

    /// Returns all vehicles, in insertion order. No login is required: the
    /// fleet is shared.
    pub fn view_vehicles(&self) -> (r: &[Vehicle])
        ensures
            r@.len() == self@.vehicles.len(),
            forall|i: int| 0 <= i < r@.len() ==> (#[trigger] r@[i])@ == self@.vehicles[i],
    {
        self.fleet_vehicles.as_slice()
    }

    /// Looks a vehicle up by license plate; fails with `VehicleNotFound` if
    /// and only if the plate is absent. No login is required.
    pub fn view_vehicle(&self, license_plate: String) -> (r: Result<&Vehicle, RegistryError>)
        ensures
            self@.has_plate(license_plate@) ==> (r matches Ok(v) && v@ == self@.vehicle_at(
                license_plate@,
            )),
            !self@.has_plate(license_plate@) ==> r == Err::<&Vehicle, RegistryError>(
                RegistryError::VehicleNotFound,
            ),
    {
        match find_plate_index(&self.fleet_vehicles, &license_plate) {
            Some(i) => Ok(&self.fleet_vehicles[i]),
            None => Err(RegistryError::VehicleNotFound),
        }
    }
}

/// Law: after a sign-up as `name`, the username is taken; together with
/// `sign_up`'s contract, signing up with the same username a second time
/// yields `DuplicateUser`.
pub proof fn lemma_sign_up_takes_username(
    r: RegistryView,
    name: Seq<char>,
    password: Seq<char>,
    t: u64,
)
    ensures
        r.with_user(name, password, t).has_user(name),
{
    let r2 = r.with_user(name, password, t);
    assert(r2.users[r.users.len() as int].user_name == name);
}

/// Law: the credentials accepted after a sign-up are exactly the new
/// username-password pair and those accepted before; together with `login`'s
/// contract, a login succeeds if and only if it replays a prior sign-up's
/// username and password verbatim.
pub proof fn lemma_credentials_after_sign_up(
    r: RegistryView,
    name: Seq<char>,
    password: Seq<char>,
    t: u64,
    login_name: Seq<char>,
    login_password: Seq<char>,
)
    ensures
        r.with_user(name, password, t).credentials_ok(login_name, login_password) <==> ((
        login_name == name && login_password == password) || r.credentials_ok(
            login_name,
            login_password,
        )),
{
    let r2 = r.with_user(name, password, t);
    let n = r.users.len() as int;
    if login_name == name && login_password == password {
        assert(r2.users[n].user_name == login_name && r2.users[n].password == login_password);
    }
    if r.credentials_ok(login_name, login_password) {
        let i = choose|i: int|
            0 <= i < r.users.len() && (#[trigger] r.users[i]).user_name == login_name
                && r.users[i].password == login_password;
        assert(r2.users[i].user_name == login_name && r2.users[i].password == login_password);
    }
    if r2.credentials_ok(login_name, login_password) {
        let i = choose|i: int|
            0 <= i < r2.users.len() && (#[trigger] r2.users[i]).user_name == login_name
                && r2.users[i].password == login_password;
        if i < n {
            assert(r.users[i].user_name == login_name && r.users[i].password == login_password);
        }
    }
}

/// Law: a vehicle added with plate `p` makes `p` occupied; together with
/// `add_vehicle`'s contract, adding a second vehicle with the same plate
/// yields `DuplicateVehicle`.
pub proof fn lemma_add_vehicle_takes_plate(
    r: RegistryView,
    model: Seq<char>,
    plate: Seq<char>,
    t: u64,
)
    ensures
        r.with_vehicle(model, plate, t).has_plate(plate),
{
    let s2 = r.with_vehicle(model, plate, t).vehicles;
    lemma_plate_index_spec(s2, plate);
    if plate_index(s2, plate) == -1 {
        assert(s2[r.vehicles.len() as int].license_plate == plate);
    }
}

/// Law: a successful retirement leaves the vehicle under its plate with
/// status `Retired`; together with `retire_vehicle`'s contract, a second
/// retirement of the same plate yields `AlreadyRetired`.
pub proof fn lemma_retire_is_terminal(r: RegistryView, plate: Seq<char>)
    requires
        r.wf(),
        r.has_plate(plate),
    ensures
        r.with_retired(plate).has_plate(plate),
        r.with_retired(plate).vehicle_at(plate).status is Retired,
{
    let k = plate_index(r.vehicles, plate);
    lemma_plate_index_spec(r.vehicles, plate);
    let s2 = r.with_retired(plate).vehicles;
    assert(s2[k].license_plate == plate);
    assert forall|j: int| 0 <= j < k implies (#[trigger] s2[j]).license_plate != plate by {
        assert(s2[j] == r.vehicles[j]);
    }
    lemma_plate_index_first(s2, plate, k);
}

/// Law: after a successful removal no vehicle carries the plate; together
/// with `view_vehicle`'s contract, a lookup of the removed plate yields
/// `VehicleNotFound`.
pub proof fn lemma_removed_plate_is_gone(r: RegistryView, plate: Seq<char>)
    requires
        r.wf(),
        r.has_plate(plate),
    ensures
        !r.without_vehicle(plate).has_plate(plate),
{
    let k = plate_index(r.vehicles, plate);
    lemma_plate_index_spec(r.vehicles, plate);
    let s2 = r.without_vehicle(plate).vehicles;
    lemma_plate_index_spec(s2, plate);
    let m = plate_index(s2, plate);
    if m >= 0 {
        let om: int = if m < k {
            m
        } else {
            m + 1
        };
        assert(s2[m] == r.vehicles[om]);
        if om < k {
            assert(r.vehicles[om].license_plate != r.vehicles[k].license_plate);
        } else {
            assert(r.vehicles[k].license_plate != r.vehicles[om].license_plate);
        }
    }
}

/// Law: an edit that supplies neither a new model nor a new plate leaves
/// the registry unchanged (see `edit_vehicle`).
pub proof fn lemma_edit_without_changes_is_noop(r: RegistryView, plate: Seq<char>)
    requires
        r.wf(),
        r.has_plate(plate),
    ensures
        r.with_edit(plate, None, None) == r,
{
    lemma_plate_index_spec(r.vehicles, plate);
    assert(r.with_edit(plate, None, None).vehicles =~= r.vehicles);
    assert(r.with_edit(plate, None, None) =~= r);
}

/// Law: an edit that moves a vehicle to a fresh plate frees the old plate
/// and keeps the vehicle's identifier and model under the new one.
pub proof fn lemma_edit_moves_plate(r: RegistryView, plate: Seq<char>, new_plate: Seq<char>)
    requires
        r.wf(),
        r.has_plate(plate),
        new_plate != plate,
        !r.has_plate(new_plate),
    ensures
        !r.with_edit(plate, None, Some(new_plate)).has_plate(plate),
        r.with_edit(plate, None, Some(new_plate)).has_plate(new_plate),
        r.with_edit(plate, None, Some(new_plate)).vehicle_at(new_plate).id == r.vehicle_at(
            plate,
        ).id,
        r.with_edit(plate, None, Some(new_plate)).vehicle_at(new_plate).model == r.vehicle_at(
            plate,
        ).model,
{
    let k = plate_index(r.vehicles, plate);
    lemma_plate_index_spec(r.vehicles, plate);
    lemma_plate_index_spec(r.vehicles, new_plate);
    let s2 = r.with_edit(plate, None, Some(new_plate)).vehicles;
    assert(s2[k].license_plate == new_plate);
    assert forall|j: int| 0 <= j < k implies (#[trigger] s2[j]).license_plate != new_plate by {
        assert(s2[j] == r.vehicles[j]);
    }
    lemma_plate_index_first(s2, new_plate, k);
    lemma_plate_index_spec(s2, plate);
    let m = plate_index(s2, plate);
    if m >= 0 {
        assert(s2[m].license_plate == plate);
        if m != k {
            assert(s2[m] == r.vehicles[m]);
            if m < k {
                assert(r.vehicles[m].license_plate != r.vehicles[k].license_plate);
            } else {
                assert(r.vehicles[k].license_plate != r.vehicles[m].license_plate);
            }
        }
    }
}

/// Law: the insertion-ordered catalog and the plate-keyed view are in sync:
/// every vehicle is found under exactly its own plate, with identical field
/// values, and the view holds nothing besides the catalog's vehicles.
pub proof fn lemma_plate_view_in_sync(r: RegistryView)
    requires
        r.wf(),
    ensures
        forall|i: int|
            0 <= i < r.vehicles.len() ==> r.plate_view().dom().contains(
                (#[trigger] r.vehicles[i]).license_plate,
            ) && r.plate_view()[r.vehicles[i].license_plate] == r.vehicles[i],
        forall|p: Seq<char>|
            r.plate_view().dom().contains(p) ==> exists|i: int|
                0 <= i < r.vehicles.len() && (#[trigger] r.vehicles[i]).license_plate == p,
{
    assert forall|i: int|
        0 <= i < r.vehicles.len() implies r.plate_view().dom().contains(
        (#[trigger] r.vehicles[i]).license_plate,
    ) && r.plate_view()[r.vehicles[i].license_plate] == r.vehicles[i] by {
        let p = r.vehicles[i].license_plate;
        assert forall|j: int| 0 <= j < i implies (#[trigger] r.vehicles[j]).license_plate
            != p by {
            assert(r.vehicles[j].license_plate != r.vehicles[i].license_plate);
        }
        lemma_plate_index_first(r.vehicles, p, i);
    }
    assert forall|p: Seq<char>| r.plate_view().dom().contains(p) implies exists|i: int|
        0 <= i < r.vehicles.len() && (#[trigger] r.vehicles[i]).license_plate == p by {
        lemma_plate_index_spec(r.vehicles, p);
        let k = plate_index(r.vehicles, p);
        assert(r.vehicles[k].license_plate == p);
    }
}

} // verus!
