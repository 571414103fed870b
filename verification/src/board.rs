//! The display board: a count of a parking lot's floors and spots.

use vstd::prelude::*;

verus! {

/// A snapshot of a parking lot's counts.
#[derive(Debug)]
pub struct ParkingLotDisplayBoard {
    uid: String,
    num_floors: u32,
    num_empty_spots: u32,
    num_parked_vehicles: u32,
}

/// What a `ParkingLotDisplayBoard` holds, as plain values.
pub struct BoardView {
    pub uid: Seq<char>,
    pub num_floors: u32,
    pub num_empty_spots: u32,
    pub num_parked_vehicles: u32,
}

impl View for ParkingLotDisplayBoard {
    type V = BoardView;

    closed spec fn view(&self) -> BoardView {
        BoardView {
            uid: self.uid@,
            num_floors: self.num_floors,
            num_empty_spots: self.num_empty_spots,
            num_parked_vehicles: self.num_parked_vehicles,
        }
    }
}

impl ParkingLotDisplayBoard {
    /// A board with the given counts.
    pub(crate) fn new(uid: String, num_floors: u32, num_empty_spots: u32, num_parked_vehicles: u32)
        -> (board: Self)
        ensures
            board@ == (BoardView { uid: uid@, num_floors, num_empty_spots, num_parked_vehicles }),
    {
        Self { uid, num_floors, num_empty_spots, num_parked_vehicles }
    }

    /// The identifier of the lot that the board shows.
    pub fn uid(&self) -> (uid: &str)
        ensures
            uid@ == self@.uid,
    {
        self.uid.as_str()
    }

    /// The number of floors.
    pub fn num_floors(&self) -> (count: u32)
        ensures
            count == self@.num_floors,
    {
        self.num_floors
    }

    /// The number shown as empty spots: the number of all spots, free or occupied.
    pub fn num_empty_spots(&self) -> (count: u32)
        ensures
            count == self@.num_empty_spots,
    {
        self.num_empty_spots
    }

    /// The number of spots that are not free.
    pub fn num_parked_vehicles(&self) -> (count: u32)
        ensures
            count == self@.num_parked_vehicles,
    {
        self.num_parked_vehicles
    }
}

} // verus!
