//! Parking floors: each a collection of spots keyed by their identifiers.

use vstd::prelude::*;
use vstd::string::*;

use crate::kinds::{ParkingError, SpotType, VehicleType};
use crate::label::{
    label_pair, lemma_label_differs_from_pair, lemma_label_pair_injective, make_label_pair,
};
use crate::search::{
    first_index, first_index_from, lemma_first_index, lemma_first_index_is, replace_or_push,
};
use crate::spot::{spot_label, ParkingSpot, SpotView};
use crate::vehicle::{Vehicle, VehicleView};

verus! {

/// The number of regular spots that a new floor starts with.
pub const DEFAULT_SPOT_COUNT: u32 = 10;

/// A parking floor: its number and its spots, in the order in which their
/// identifiers first came to the floor.
#[derive(Debug)]
pub struct ParkingFloor {
    id: u32,
    spots: Vec<ParkingSpot>,
}

/// What a `ParkingFloor` holds, as plain values.
pub struct FloorView {
    pub id: u32,
    pub spots: Seq<SpotView>,
}

/// The identifier of the spot that a new floor with the given number holds
/// at the given place: `spot_`, the floor's number, `_`, and the place.
pub open spec fn default_spot_id(floor_id: u32, index: int) -> Seq<char> {
    label_pair("spot_"@, floor_id as nat, index as nat)
}

/// The spot that a new floor with the given number holds at the given place.
pub open spec fn default_spot(floor_id: u32, index: int) -> SpotView {
    SpotView {
        id: default_spot_id(floor_id, index),
        is_free: true,
        spot_type: SpotType::Regular,
        vehicle: None,
    }
}

impl FloorView {
    /// Every spot is well formed and no identifier occurs twice.
    pub open spec fn wf(self) -> bool {
        &&& forall|i: int| 0 <= i < self.spots.len() ==> (#[trigger] self.spots[i]).wf()
        &&& forall|i: int, j: int|
            0 <= i < j < self.spots.len() ==> (#[trigger] self.spots[i]).id != (
            #[trigger] self.spots[j]).id
    }

    /// The predicate that holds of the floors with the given number.
    pub open spec fn with_number(id: u32) -> spec_fn(FloorView) -> bool {
        |floor: FloorView| floor.id == id
    }

    /// The predicate that holds of the floors with a spot that is free and
    /// admits the vehicle class.
    pub open spec fn has_room_for(vehicle_type: VehicleType) -> spec_fn(FloorView) -> bool {
        |floor: FloorView| floor.first_available(vehicle_type) is Some
    }

    /// The predicate that holds of the floors with a spot of the given identifier.
    pub open spec fn holds_spot(spot_id: Seq<char>) -> spec_fn(FloorView) -> bool {
        |floor: FloorView| floor.position_of(spot_id) is Some
    }

    /// A floor with the given number as `ParkingFloor::new` makes it.
    pub open spec fn default_floor(id: u32) -> FloorView {
        FloorView {
            id,
            spots: Seq::new(DEFAULT_SPOT_COUNT as nat, |index: int| default_spot(id, index)),
        }
    }

    /// The place of the spot with the given identifier.
    pub open spec fn position_of(self, spot_id: Seq<char>) -> Option<int> {
        first_index(self.spots, SpotView::with_id(spot_id))
    }

    /// The place of the first spot that is free and admits the vehicle class.
    pub open spec fn first_available(self, vehicle_type: VehicleType) -> Option<int> {
        first_index(self.spots, SpotView::open_to(vehicle_type))
    }

    /// The floor with the spot added: in the place of the spot that has its
    /// identifier, or behind the others where none has.
    pub open spec fn with_spot(self, spot: SpotView) -> FloorView {
        FloorView { spots: replace_or_push(self.spots, SpotView::with_id(spot.id), spot), ..self }
    }

    /// The floor with the vehicle standing on the spot at the given place.
    pub open spec fn with_vehicle_at(self, index: int, vehicle: VehicleView) -> FloorView {
        FloorView {
            spots: self.spots.update(index, self.spots[index].occupied_by(vehicle)),
            ..self
        }
    }

    /// The floor with the spot of the given identifier vacated; the floor
    /// itself where it holds no such spot.
    pub open spec fn vacated(self, spot_id: Seq<char>) -> FloorView {
        match self.position_of(spot_id) {
            Some(index) => FloorView {
                spots: self.spots.update(index, self.spots[index].vacated()),
                ..self
            },
            None => self,
        }
    }

    /// The function that gives a floor's spots.
    pub open spec fn spots_of() -> spec_fn(FloorView) -> Seq<SpotView> {
        |floor: FloorView| floor.spots
    }

    /// The number of spots on the floor that are not free.
    pub open spec fn occupied_count(self) -> nat {
        self.spots.filter(SpotView::occupied()).len()
    }
}

/// Spots that `ParkingFloor::new` makes under one identifier stand on the
/// same floor at the same place.
pub proof fn lemma_default_spot_ids_distinct(floor_a: u32, index_a: int, floor_b: u32, index_b: int)
    requires
        0 <= index_a,
        0 <= index_b,
        default_spot_id(floor_a, index_a) == default_spot_id(floor_b, index_b),
    ensures
        floor_a == floor_b,
        index_a == index_b,
{
    lemma_label_pair_injective(
        "spot_"@,
        floor_a as nat,
        index_a as nat,
        floor_b as nat,
        index_b as nat,
    );
}

/// No identifier that a `SpotIdSequence` hands out is one that
/// `ParkingFloor::new` gives to a spot.
pub proof fn lemma_spot_label_not_default(count: nat, floor_id: u32, index: int)
    requires
        0 <= index,
    ensures
        spot_label(count) != default_spot_id(floor_id, index),
{
    lemma_label_differs_from_pair("spot_"@, count, floor_id as nat, index as nat);
}

/// A new floor is well formed.
pub proof fn lemma_default_floor_wf(id: u32)
    ensures
        FloorView::default_floor(id).wf(),
{
    let floor = FloorView::default_floor(id);
    assert forall|i: int, j: int| 0 <= i < j < floor.spots.len() implies (
    #[trigger] floor.spots[i]).id != (#[trigger] floor.spots[j]).id by {
        if floor.spots[i].id == floor.spots[j].id {
            lemma_default_spot_ids_distinct(id, i, id, j);
        }
    }
}

/// On a well-formed floor a spot is found under its identifier at its own place.
pub proof fn lemma_position_of_own_id(floor: FloorView, index: int)
    requires
        floor.wf(),
        0 <= index < floor.spots.len(),
    ensures
        floor.position_of(floor.spots[index].id) == Some(index),
{
    lemma_first_index_is(floor.spots, SpotView::with_id(floor.spots[index].id), index);
}

impl View for ParkingFloor {
    type V = FloorView;

    closed spec fn view(&self) -> FloorView {
        FloorView { id: self.id, spots: self.spots@.map_values(|spot: ParkingSpot| spot@) }
    }
}

impl ParkingFloor {
    /// A floor with the given number and `DEFAULT_SPOT_COUNT` free regular spots.
    pub fn new(id: u32) -> (floor: Self)
        ensures
            floor@ == FloorView::default_floor(id),
            floor@.wf(),
    {
        let mut floor = Self { id, spots: Vec::new() };
        floor.initialize_spots();
        proof {
            lemma_default_floor_wf(id);
        }
        floor
    }

    /// Fills an empty floor with its default spots.
    fn initialize_spots(&mut self)
        requires
            old(self)@.spots.len() == 0,
        ensures
            final(self)@ == FloorView::default_floor(old(self)@.id),
    {
        let mut index: u32 = 0;
        while index < DEFAULT_SPOT_COUNT
            invariant
                index <= DEFAULT_SPOT_COUNT,
                self.id == old(self).id,
                self@.spots =~= Seq::new(index as nat, |i: int| default_spot(self.id, i)),
            decreases DEFAULT_SPOT_COUNT - index,
        {
            let spot_id = make_label_pair("spot_", self.id as u128, index as u128);
            let spot = ParkingSpot::new(spot_id, true, SpotType::Regular);
            let ghost before = self@.spots;
            self.spots.push(spot);
            assert(self@.spots =~= before.push(default_spot(self.id, index as int)));
            index += 1;
        }
        assert(self@.spots =~= FloorView::default_floor(self.id).spots);
    }

    /// The floor's number.
    pub fn id(&self) -> (id: u32)
        ensures
            id == self@.id,
    {
        self.id
    }

    /// The place of the spot with the given identifier.
    fn position(&self, spot_id: &String) -> (place: Option<usize>)
        ensures
            match place {
                Some(index) => self@.position_of(spot_id@) == Some(index as int),
                None => self@.position_of(spot_id@) is None,
            },
    {
        let mut index: usize = 0;
        while index < self.spots.len()
            invariant
                index <= self.spots.len(),
                self@.position_of(spot_id@) == first_index_from(
                    self@.spots,
                    SpotView::with_id(spot_id@),
                    index as int,
                ),
            decreases self.spots.len() - index,
        {
            if self.spots[index].has_id(spot_id) {
                return Some(index);
            }
            index += 1;
        }
        None
    }

    /// Adds the spot under its identifier. A spot that the floor already
    /// holds under that identifier gives way to the new one.
    pub fn add_spot(&mut self, spot: ParkingSpot)
        requires
            old(self)@.wf(),
            spot@.wf(),
        ensures
            final(self)@ == old(self)@.with_spot(spot@),
            final(self)@.wf(),
    {
        let spot_id = String::from_str(spot.get_id());
        proof {
            lemma_first_index(self@.spots, SpotView::with_id(spot@.id));
        }
        match self.position(&spot_id) {
            Some(index) => {
                self.spots[index] = spot;
                assert(self@.spots =~= old(self)@.spots.update(index as int, spot@));
            },
            None => {
                self.spots.push(spot);
                assert(self@.spots =~= old(self)@.spots.push(spot@));
            },
        }
    }

    /// The first spot, in the floor's order, that is free and admits the
    /// vehicle class: the floor's number and the spot's identifier.
    pub fn find_available_spot(&self, vehicle_type: VehicleType) -> (found: Option<(u32, String)>)
        ensures
            match self@.first_available(vehicle_type) {
                Some(index) => found matches Some((floor_id, spot_id)) && floor_id == self@.id
                    && spot_id@ == self@.spots[index].id,
                None => found is None,
            },
    {
        let mut index: usize = 0;
        while index < self.spots.len()
            invariant
                index <= self.spots.len(),
                self@.first_available(vehicle_type) == first_index_from(
                    self@.spots,
                    SpotView::open_to(vehicle_type),
                    index as int,
                ),
            decreases self.spots.len() - index,
        {
            let spot = &self.spots[index];
            if spot.is_free() && spot.is_compatible(&vehicle_type) {
                return Some((self.id, String::from_str(spot.get_id())));
            }
            index += 1;
        }
        None
    }

    /// Puts the vehicle on the spot with the given identifier, which the
    /// floor must hold. The spot refuses as `ParkingSpot::assign_vehicle`
    /// says, and the floor is then left as it was.
    pub(crate) fn assign_vehicle(&mut self, spot_id: &String, vehicle: Vehicle) -> (outcome: Result<
        (),
        ParkingError,
    >)
        requires
            old(self)@.wf(),
            old(self)@.position_of(spot_id@) is Some,
        ensures
            final(self)@.wf(),
            ({
                let index = old(self)@.position_of(spot_id@).unwrap();
                let spot = old(self)@.spots[index];
                &&& outcome is Ok <==> spot.available_for(vehicle@.vehicle_type)
                &&& outcome is Ok ==> final(self)@ == old(self)@.with_vehicle_at(index, vehicle@)
                &&& outcome is Err ==> final(self)@ == old(self)@
                &&& !spot.is_free ==> outcome == Err::<(), ParkingError>(
                    ParkingError::AlreadyOccupied,
                )
                &&& spot.is_free && !spot.available_for(vehicle@.vehicle_type) ==> outcome == Err::<
                    (),
                    ParkingError,
                >(ParkingError::IncompatibleClass)
            }),
    {
        proof {
            lemma_first_index(self@.spots, SpotView::with_id(spot_id@));
        }
        let index = self.position(spot_id).unwrap();
        let outcome = self.spots[index].assign_vehicle(vehicle);
        assert(self@.spots =~= old(self)@.spots.update(index as int, self.spots[index as int]@));
        assert(outcome is Err ==> self@.spots =~= old(self)@.spots);
        outcome
    }

    /// Vacates the spot with the given identifier and says whether the floor
    /// holds such a spot.
    pub fn vacate(&mut self, spot_id: &String) -> (found: bool)
        requires
            old(self)@.wf(),
        ensures
            final(self)@ == old(self)@.vacated(spot_id@),
            final(self)@.wf(),
            found == (old(self)@.position_of(spot_id@) is Some),
    {
        proof {
            lemma_first_index(self@.spots, SpotView::with_id(spot_id@));
        }
        match self.position(spot_id) {
            Some(index) => {
                self.spots[index].remove_vehicle();
                assert(self@.spots =~= old(self)@.spots.update(
                    index as int,
                    self.spots[index as int]@,
                ));
                true
            },
            None => false,
        }
    }

    /// The spot with the given identifier.
    pub fn spot(&self, spot_id: &String) -> (found: Option<&ParkingSpot>)
        ensures
            match self@.position_of(spot_id@) {
                Some(index) => found matches Some(spot) && spot@ == self@.spots[index],
                None => found is None,
            },
    {
        proof {
            lemma_first_index(self@.spots, SpotView::with_id(spot_id@));
        }
        match self.position(spot_id) {
            Some(index) => Some(&self.spots[index]),
            None => None,
        }
    }

    /// The number of spots on the floor.
    pub fn spot_count(&self) -> (count: usize)
        ensures
            count == self@.spots.len(),
    {
        self.spots.len()
    }

    /// The number of spots on the floor that are not free.
    pub fn occupied_count(&self) -> (count: usize)
        ensures
            count == self@.occupied_count(),
    {
        let mut count: usize = 0;
        let mut index: usize = 0;
        while index < self.spots.len()
            invariant
                index <= self.spots.len(),
                count <= index,
                count == self@.spots.take(index as int).filter(SpotView::occupied()).len(),
            decreases self.spots.len() - index,
        {
            proof {
                let spots = self@.spots;
                spots.lemma_take_succ_push(index as int);
                spots.take(index as int).lemma_filter_len_push(
                    SpotView::occupied(),
                    spots[index as int],
                );
            }
            if !self.spots[index].is_free() {
                count += 1;
            }
            index += 1;
        }
        assert(self@.spots.take(index as int) =~= self@.spots);
        count
    }
}

impl Clone for ParkingFloor {
    fn clone(&self) -> (copy: Self)
        ensures
            copy@ == self@,
    {
        let mut spots: Vec<ParkingSpot> = Vec::new();
        let mut index: usize = 0;
        while index < self.spots.len()
            invariant
                index <= self.spots.len(),
                spots.len() == index,
                forall|i: int| 0 <= i < index ==> (#[trigger] spots[i])@ == self.spots[i]@,
            decreases self.spots.len() - index,
        {
            spots.push(self.spots[index].clone());
            index += 1;
        }
        let copy = Self { id: self.id, spots };
        assert(copy@.spots =~= self@.spots);
        copy
    }
}

} // verus!
