//! Parking spots: the smallest unit that a vehicle can occupy.

use vstd::prelude::*;

use crate::kinds::{compatible, is_compatible_pair, ParkingError, SpotType, VehicleType};
use crate::label::{label, lemma_label_injective, make_label};
use crate::vehicle::{Vehicle, VehicleView};

verus! {

/// A parking spot: its identifier, whether it is free, its class and the
/// vehicle that stands on it. A spot is free exactly when it holds no
/// vehicle.
#[derive(Debug)]
pub struct ParkingSpot {
    id: String,
    is_free: bool,
    spot_type: SpotType,
    vehicle: Option<Vehicle>,
}

/// What a `ParkingSpot` holds, as plain values.
pub struct SpotView {
    pub id: Seq<char>,
    pub is_free: bool,
    pub spot_type: SpotType,
    pub vehicle: Option<VehicleView>,
}

impl SpotView {
    /// A spot is free exactly when no vehicle stands on it.
    pub open spec fn wf(self) -> bool {
        self.is_free <==> self.vehicle is None
    }

    /// Whether the spot is free and its class admits the vehicle class.
    pub open spec fn available_for(self, vehicle_type: VehicleType) -> bool {
        self.is_free && compatible(vehicle_type, self.spot_type)
    }

    /// The predicate that holds of the spots with the given identifier.
    pub open spec fn with_id(id: Seq<char>) -> spec_fn(SpotView) -> bool {
        |spot: SpotView| spot.id == id
    }

    /// The predicate that holds of the spots that are free and admit the
    /// vehicle class.
    pub open spec fn open_to(vehicle_type: VehicleType) -> spec_fn(SpotView) -> bool {
        |spot: SpotView| spot.available_for(vehicle_type)
    }

    /// The predicate that holds of the spots that are not free.
    pub open spec fn occupied() -> spec_fn(SpotView) -> bool {
        |spot: SpotView| !spot.is_free
    }

    /// The spot with the vehicle standing on it.
    pub open spec fn occupied_by(self, vehicle: VehicleView) -> SpotView {
        SpotView { is_free: false, vehicle: Some(vehicle), ..self }
    }

    /// The spot with no vehicle on it.
    pub open spec fn vacated(self) -> SpotView {
        SpotView { is_free: true, vehicle: None, ..self }
    }
}

/// Vacating is idempotent: a vacated spot is free, and vacating it once more
/// leaves it as it is.
pub proof fn lemma_vacate_idempotent(spot: SpotView)
    ensures
        spot.vacated().is_free,
        spot.vacated().wf(),
        spot.vacated().vacated() == spot.vacated(),
{
}

/// The identifier that a `SpotIdSequence` hands out after `count` others:
/// `spot_` and the count.
pub open spec fn spot_label(count: nat) -> Seq<char> {
    label("spot_"@, count)
}

/// Identifiers that a `SpotIdSequence` hands out at different counts differ.
pub proof fn lemma_spot_labels_distinct(count: nat, other: nat)
    requires
        spot_label(count) == spot_label(other),
    ensures
        count == other,
{
    lemma_label_injective("spot_"@, count, other);
}

/// A source of spot identifiers, `spot_0`, `spot_1` and so on, that hands
/// out each of them once.
#[derive(Debug)]
pub struct SpotIdSequence {
    next: u128,
}

impl SpotIdSequence {
    /// The number of identifiers handed out so far.
    pub closed spec fn issued(&self) -> nat {
        self.next as nat
    }

    /// A sequence that has handed out no identifier yet.
    pub fn new() -> (ids: Self)
        ensures
            ids.issued() == 0,
    {
        Self { next: 0 }
    }

    /// The next identifier: `spot_` and the number of identifiers handed out
    /// before it. A sequence that has handed out `u128::MAX` identifiers is
    /// exhausted and hands out nothing more.
    pub fn next_id(&mut self) -> (id: Option<String>)
        ensures
            match id {
                Some(text) => {
                    &&& old(self).issued() < u128::MAX
                    &&& text@ == spot_label(old(self).issued())
                    &&& final(self).issued() == old(self).issued() + 1
                },
                None => old(self).issued() == u128::MAX && final(self).issued() == old(
                    self,
                ).issued(),
            },
    {
        if self.next == u128::MAX {
            return None;
        }
        let id = make_label("spot_", self.next);
        self.next = self.next + 1;
        Some(id)
    }
}

impl View for ParkingSpot {
    type V = SpotView;

    closed spec fn view(&self) -> SpotView {
        SpotView {
            id: self.id@,
            is_free: self.is_free,
            spot_type: self.spot_type,
            vehicle: match self.vehicle {
                Some(vehicle) => Some(vehicle@),
                None => None,
            },
        }
    }
}

impl ParkingSpot {
    /// A spot with the given identifier and class. No vehicle stands on a
    /// new spot, so it is free whatever `is_free` says: a spot becomes
    /// occupied only when a vehicle is assigned to it.
    #[allow(unused_variables)]
    pub fn new(id: String, is_free: bool, spot_type: SpotType) -> (spot: Self)
        ensures
            spot@ == (SpotView { id: id@, is_free: true, spot_type, vehicle: None }),
            spot@.wf(),
    {
        Self { id, is_free: true, spot_type, vehicle: None }
    }

    /// Puts the vehicle on the spot. An occupied spot refuses with
    /// `AlreadyOccupied`; a free spot whose class does not admit the
    /// vehicle's class refuses with `IncompatibleClass`. A spot that refuses
    /// is left as it was.
    pub fn assign_vehicle(&mut self, vehicle: Vehicle) -> (outcome: Result<(), ParkingError>)
        requires
            old(self)@.wf(),
        ensures
            final(self)@.wf(),
            outcome is Ok <==> old(self)@.available_for(vehicle@.vehicle_type),
            outcome is Ok ==> final(self)@ == old(self)@.occupied_by(vehicle@),
            outcome is Err ==> final(self)@ == old(self)@,
            !old(self)@.is_free ==> outcome == Err::<(), ParkingError>(
                ParkingError::AlreadyOccupied,
            ),
            old(self)@.is_free && !compatible(vehicle@.vehicle_type, old(self)@.spot_type)
                ==> outcome == Err::<(), ParkingError>(ParkingError::IncompatibleClass),
    {
        if !self.is_free {
            return Err(ParkingError::AlreadyOccupied);
        }
        if !self.is_compatible(&vehicle.vehicle_type()) {
            return Err(ParkingError::IncompatibleClass);
        }
        self.vehicle = Some(vehicle);
        self.is_free = false;
        Ok(())
    }

    /// Takes the vehicle, if any, off the spot and marks the spot free.
    pub fn remove_vehicle(&mut self)
        ensures
            final(self)@ == old(self)@.vacated(),
            final(self)@.wf(),
    {
        self.vehicle = None;
        self.is_free = true;
    }

    /// Whether the spot's class admits the vehicle class.
    pub fn is_compatible(&self, vehicle_type: &VehicleType) -> (admitted: bool)
        ensures
            admitted == compatible(*vehicle_type, self@.spot_type),
    {
        is_compatible_pair(*vehicle_type, self.spot_type)
    }

    /// The spot's identifier.
    pub fn get_id(&self) -> (id: &str)
        ensures
            id@ == self@.id,
    {
        self.id.as_str()
    }

    /// Whether the spot's identifier is the given text.
    pub fn has_id(&self, id: &String) -> (same: bool)
        ensures
            same == (self@.id == id@),
    {
        self.id == *id
    }

    /// Whether no vehicle occupies the spot.
    pub fn is_free(&self) -> (free: bool)
        ensures
            free == self@.is_free,
    {
        self.is_free
    }

    /// The vehicle that stands on the spot.
    pub fn vehicle(&self) -> (found: Option<&Vehicle>)
        ensures
            match self@.vehicle {
                Some(vehicle) => found matches Some(held) && held@ == vehicle,
                None => found is None,
            },
    {
        self.vehicle.as_ref()
    }

    /// The spot's class.
    pub fn spot_type(&self) -> (spot_type: SpotType)
        ensures
            spot_type == self@.spot_type,
    {
        self.spot_type
    }
}

impl Clone for ParkingSpot {
    fn clone(&self) -> (copy: Self)
        ensures
            copy@ == self@,
    {
        Self {
            id: self.id.clone(),
            is_free: self.is_free,
            spot_type: self.spot_type,
            vehicle: match &self.vehicle {
                Some(vehicle) => Some(vehicle.clone()),
                None => None,
            },
        }
    }
}

} // verus!
