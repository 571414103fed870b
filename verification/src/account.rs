//! Accounts: a user and the vehicles registered to them.

use vstd::prelude::*;

use crate::label::{label, lemma_label_injective, make_label};
use crate::search::{
    first_index, first_index_from, lemma_first_index, lemma_first_index_agrees,
    lemma_first_index_is,
};
use crate::vehicle::{Vehicle, VehicleView};

verus! {

/// What keeps a register of vehicles.
pub trait Account {
    /// Whether the value is fit to register and look up vehicles.
    spec fn ready(&self) -> bool;

    /// Registers the vehicle and returns the identifier that it is kept under.
    fn register_vehicle(&mut self, vehicle: Vehicle) -> (vehicle_id: String)
        requires
            old(self).ready(),
        ensures
            final(self).ready(),
    ;

    /// Takes the vehicle off the register.
    fn remove_vehicle(&mut self, vehicle: Vehicle)
        requires
            old(self).ready(),
        ensures
            final(self).ready(),
    ;

    /// The vehicle kept under the identifier.
    fn get_vehicle_by_id(&self, vehicle_id: String) -> (found: Option<&Vehicle>)
        requires
            self.ready(),
    ;
}

/// A user: their name, their phone number and their register of vehicles.
///
/// The register has one entry for every identifier that it has given out,
/// in the order in which it gave them out. A vehicle that is removed leaves
/// its entry empty, so the register gives no identifier twice.
#[derive(Debug)]
pub struct User {
    name: String,
    phone: String,
    vehicles: Vec<(String, Option<Vehicle>)>,
}

/// What a `User` holds, as plain values.
pub struct UserView {
    pub name: Seq<char>,
    pub phone: Seq<char>,
    pub vehicles: Seq<(Seq<char>, Option<VehicleView>)>,
}

/// The identifier of the vehicle that is registered as the `number`th:
/// `veh_` and the number.
pub open spec fn vehicle_label(number: nat) -> Seq<char> {
    label("veh_"@, number)
}

impl UserView {
    /// Every entry carries the identifier of its place in the order of
    /// registration, counted from one.
    pub open spec fn wf(self) -> bool {
        forall|k: int|
            0 <= k < self.vehicles.len() ==> (#[trigger] self.vehicles[k]).0 == vehicle_label(
                (k + 1) as nat,
            )
    }

    /// The predicate that holds of the entries under the given identifier.
    pub open spec fn under(vehicle_id: Seq<char>) -> spec_fn((Seq<char>, Option<VehicleView>))
        -> bool {
        |entry: (Seq<char>, Option<VehicleView>)| entry.0 == vehicle_id
    }

    /// The place of the entry under the given identifier.
    pub open spec fn position_of(self, vehicle_id: Seq<char>) -> Option<int> {
        first_index(self.vehicles, Self::under(vehicle_id))
    }

    /// The vehicle kept under the given identifier.
    pub open spec fn vehicle_with_id(self, vehicle_id: Seq<char>) -> Option<VehicleView> {
        match self.position_of(vehicle_id) {
            Some(index) => self.vehicles[index].1,
            None => None,
        }
    }

    /// The identifier that the next vehicle is registered under.
    pub open spec fn next_vehicle_id(self) -> Seq<char> {
        vehicle_label(self.vehicles.len() + 1)
    }

    /// The user with the vehicle registered under `next_vehicle_id`.
    pub open spec fn registered(self, vehicle: VehicleView) -> UserView {
        UserView { vehicles: self.vehicles.push((self.next_vehicle_id(), Some(vehicle))), ..self }
    }

    /// The entry without its vehicle where that carries the license plate,
    /// and the entry itself where it does not.
    pub open spec fn cleared_of(license_plate: Seq<char>) -> spec_fn(
        (Seq<char>, Option<VehicleView>),
    ) -> (Seq<char>, Option<VehicleView>) {
        |entry: (Seq<char>, Option<VehicleView>)|
            match entry.1 {
                Some(vehicle) if vehicle.license_plate == license_plate => (entry.0, None),
                _ => entry,
            }
    }

    /// The user without the vehicles that carry the license plate.
    pub open spec fn without_plate(self, license_plate: Seq<char>) -> UserView {
        UserView { vehicles: self.vehicles.map_values(Self::cleared_of(license_plate)), ..self }
    }
}

/// On a well-formed register every entry is found under its identifier at
/// its own place: no two entries share an identifier.
pub proof fn lemma_entry_found_at(user: UserView, place: int)
    requires
        user.wf(),
        0 <= place < user.vehicles.len(),
    ensures
        user.position_of(user.vehicles[place].0) == Some(place),
{
    let vehicle_id = user.vehicles[place].0;
    assert forall|j: int| 0 <= j < place implies !UserView::under(vehicle_id)(
        #[trigger] user.vehicles[j],
    ) by {
        if user.vehicles[j].0 == vehicle_id {
            lemma_label_injective("veh_"@, (j + 1) as nat, (place + 1) as nat);
        }
    }
    lemma_first_index_is(user.vehicles, UserView::under(vehicle_id), place);
}

/// Registering keeps the register well formed, puts the vehicle under an
/// identifier that kept no vehicle before, and leaves what is kept under
/// every other identifier as it was.
pub proof fn lemma_registered(user: UserView, vehicle: VehicleView, vehicle_id: Seq<char>)
    requires
        user.wf(),
    ensures
        user.registered(vehicle).wf(),
        user.position_of(user.next_vehicle_id()) is None,
        user.registered(vehicle).vehicle_with_id(vehicle_id) == if vehicle_id
            == user.next_vehicle_id() {
            Some(vehicle)
        } else {
            user.vehicle_with_id(vehicle_id)
        },
{
    let after = user.registered(vehicle);
    let count = user.vehicles.len() as int;
    lemma_entry_found_at(after, count);
    lemma_first_index(user.vehicles, UserView::under(vehicle_id));
    lemma_first_index(after.vehicles, UserView::under(vehicle_id));
    lemma_first_index(user.vehicles, UserView::under(user.next_vehicle_id()));
    match user.position_of(user.next_vehicle_id()) {
        Some(index) => {
            assert(after.vehicles[index] == user.vehicles[index]);
            lemma_entry_found_at(after, index);
        },
        None => {},
    }
    match user.position_of(vehicle_id) {
        Some(index) => {
            assert(after.vehicles[index] == user.vehicles[index]);
            lemma_entry_found_at(after, index);
        },
        None => {
            match after.position_of(vehicle_id) {
                Some(index) => {
                    if index < count {
                        assert(after.vehicles[index] == user.vehicles[index]);
                    }
                },
                None => {},
            }
        },
    }
}

/// Removing keeps the register well formed. Afterwards no identifier keeps
/// a vehicle with the license plate, and every other vehicle is kept under
/// its identifier as before.
pub proof fn lemma_without_plate(user: UserView, license_plate: Seq<char>, vehicle_id: Seq<char>)
    requires
        user.wf(),
    ensures
        user.without_plate(license_plate).wf(),
        user.without_plate(license_plate).vehicle_with_id(vehicle_id) == match user.vehicle_with_id(
            vehicle_id,
        ) {
            Some(vehicle) if vehicle.license_plate == license_plate => None,
            kept => kept,
        },
{
    let after = user.without_plate(license_plate);
    assert forall|j: int| 0 <= j < user.vehicles.len() implies UserView::under(vehicle_id)(
        #[trigger] user.vehicles[j],
    ) == UserView::under(vehicle_id)(after.vehicles[j]) by {}
    lemma_first_index_agrees(
        user.vehicles,
        UserView::under(vehicle_id),
        after.vehicles,
        UserView::under(vehicle_id),
    );
    lemma_first_index(user.vehicles, UserView::under(vehicle_id));
    assert forall|k: int| 0 <= k < after.vehicles.len() implies (#[trigger] after.vehicles[k]).0
        == vehicle_label((k + 1) as nat) by {
        assert(user.vehicles[k].0 == vehicle_label((k + 1) as nat));
    }
}

impl View for User {
    type V = UserView;

    closed spec fn view(&self) -> UserView {
        UserView {
            name: self.name@,
            phone: self.phone@,
            vehicles: self.vehicles@.map_values(
                |entry: (String, Option<Vehicle>)|
                    (
                        entry.0@,
                        match entry.1 {
                            Some(vehicle) => Some(vehicle@),
                            None => None,
                        },
                    ),
            ),
        }
    }
}

impl User {
    /// A user with the given name and phone number and no vehicles.
    pub fn new(name: String, phone: String) -> (user: Self)
        ensures
            user@ == (UserView { name: name@, phone: phone@, vehicles: Seq::empty() }),
            user@.wf(),
    {
        let user = Self { name, phone, vehicles: Vec::new() };
        assert(user@.vehicles =~= Seq::empty());
        user
    }

    /// The user's name.
    pub fn name(&self) -> (name: &str)
        ensures
            name@ == self@.name,
    {
        self.name.as_str()
    }

    /// The user's phone number.
    pub fn phone(&self) -> (phone: &str)
        ensures
            phone@ == self@.phone,
    {
        self.phone.as_str()
    }

    /// The place of the entry under the given identifier.
    fn position(&self, vehicle_id: &String) -> (place: Option<usize>)
        ensures
            match place {
                Some(index) => self@.position_of(vehicle_id@) == Some(index as int),
                None => self@.position_of(vehicle_id@) is None,
            },
    {
        let mut index: usize = 0;
        while index < self.vehicles.len()
            invariant
                index <= self.vehicles.len(),
                self@.position_of(vehicle_id@) == first_index_from(
                    self@.vehicles,
                    UserView::under(vehicle_id@),
                    index as int,
                ),
            decreases self.vehicles.len() - index,
        {
            if self.vehicles[index].0 == *vehicle_id {
                return Some(index);
            }
            index += 1;
        }
        None
    }
}

impl Account for User {
    open spec fn ready(&self) -> bool {
        self@.wf()
    }

    /// Registers the vehicle under `veh_` and the number of identifiers that
    /// the register has given out, this one counted, and returns that
    /// identifier. What is kept under the other identifiers stays.
    fn register_vehicle(&mut self, vehicle: Vehicle) -> (vehicle_id: String)
        ensures
            vehicle_id@ == old(self)@.next_vehicle_id(),
            final(self)@ == old(self)@.registered(vehicle@),
            old(self)@.vehicle_with_id(vehicle_id@) is None,
            final(self)@.vehicle_with_id(vehicle_id@) == Some(vehicle@),
            forall|other: Seq<char>|
                other != vehicle_id@ ==> #[trigger] final(self)@.vehicle_with_id(other) == old(
                    self,
                )@.vehicle_with_id(other),
    {
        let vehicle_id = make_label("veh_", self.vehicles.len() as u128 + 1);
        self.vehicles.push((vehicle_id.clone(), Some(vehicle)));
        proof {
            let before = old(self)@;
            assert(self@.vehicles =~= before.vehicles.push((vehicle_id@, Some(vehicle@))));
            lemma_registered(before, vehicle@, vehicle_id@);
            assert forall|other: Seq<char>| other != vehicle_id@ implies (
            #[trigger] self@.vehicle_with_id(other)) == before.vehicle_with_id(other) by {
                lemma_registered(before, vehicle@, other);
            }
        }
        vehicle_id
    }

    /// Takes off the register every vehicle that carries the license plate
    /// of the given one. The other vehicles stay under their identifiers.
    fn remove_vehicle(&mut self, vehicle: Vehicle)
        ensures
            final(self)@ == old(self)@.without_plate(vehicle@.license_plate),
            forall|vehicle_id: Seq<char>| #[trigger]
                final(self)@.vehicle_with_id(vehicle_id) == match old(self)@.vehicle_with_id(
                    vehicle_id,
                ) {
                    Some(kept) if kept.license_plate == vehicle@.license_plate => None,
                    kept => kept,
                },
    {
        let ghost plate = vehicle@.license_plate;
        let mut index: usize = 0;
        while index < self.vehicles.len()
            invariant
                index <= self.vehicles.len(),
                self@.name == old(self)@.name,
                self@.phone == old(self)@.phone,
                self@.vehicles.len() == old(self)@.vehicles.len(),
                plate == vehicle@.license_plate,
                forall|k: int|
                    0 <= k < index ==> #[trigger] self@.vehicles[k] == UserView::cleared_of(plate)(
                        old(self)@.vehicles[k],
                    ),
                forall|k: int|
                    index <= k < self@.vehicles.len() ==> #[trigger] self@.vehicles[k] == old(
                        self,
                    )@.vehicles[k],
            decreases self.vehicles.len() - index,
        {
            let ghost entered = self@.vehicles;
            let carries = match &self.vehicles[index].1 {
                Some(kept) => kept.same_plate(&vehicle),
                None => false,
            };
            if carries {
                self.vehicles[index].1 = None;
                assert(self@.vehicles =~= entered.update(
                    index as int,
                    (entered[index as int].0, None),
                ));
            }
            index += 1;
        }
        proof {
            let before = old(self)@;
            assert(self@.vehicles =~= before.vehicles.map_values(UserView::cleared_of(plate)));
            assert forall|vehicle_id: Seq<char>| #[trigger]
                self@.vehicle_with_id(vehicle_id) == match before.vehicle_with_id(vehicle_id) {
                    Some(kept) if kept.license_plate == plate => None,
                    kept => kept,
                } by {
                lemma_without_plate(before, plate, vehicle_id);
            }
            // the register is still well formed
            lemma_without_plate(before, plate, plate);
        }
    }

    /// The vehicle kept under the identifier.
    fn get_vehicle_by_id(&self, vehicle_id: String) -> (found: Option<&Vehicle>)
        ensures
            match self@.vehicle_with_id(vehicle_id@) {
                Some(vehicle) => found matches Some(kept) && kept@ == vehicle,
                None => found is None,
            },
    {
        proof {
            lemma_first_index(self@.vehicles, UserView::under(vehicle_id@));
        }
        match self.position(&vehicle_id) {
            Some(index) => self.vehicles[index].1.as_ref(),
            None => None,
        }
    }
}

} // verus!
