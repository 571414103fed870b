//! The parking lot: floors, the tickets of all stays, and the operations
//! that park and unpark vehicles.

use vstd::prelude::*;
use vstd::seq_lib::lemma_flatten_concat;

use crate::billing::{calculate_charge, charge_between, ParkingCharge, HOURLY_RATE};
use crate::board::{BoardView, ParkingLotDisplayBoard};
use crate::clock::{current_time, Timestamp};
use crate::floor::{default_spot_id, lemma_position_of_own_id, FloorView, ParkingFloor};
use crate::laws::{lemma_parked_sound, lemma_ticket_found_at, lemma_unparked_sound};
use crate::kinds::{ParkingError, VehicleType};
use crate::label::{label, make_label};
use crate::search::{first_index, first_index_from, lemma_first_index, replace_or_push};
use crate::spot::SpotView;
use crate::ticket::{ParkingTicket, TicketView};
use crate::vehicle::{Vehicle, VehicleView};

verus! {

/// A parking lot: its name, address and identifier, its floors in the order
/// in which their numbers first came to the lot, and the tickets of all
/// stays, open and closed, in the order in which they were issued.
///
/// The lot is changed through `&mut self`. Whoever parks a vehicle holds the
/// lot alone from the search for a spot to the parking on it, so no other
/// caller can take the spot in between; callers that share a lot put it
/// behind one lock.
#[derive(Debug)]
pub struct ParkingLot {
    name: String,
    address: String,
    uid: String,
    floors: Vec<ParkingFloor>,
    tickets: Vec<ParkingTicket>,
}

/// What a `ParkingLot` holds, as plain values.
pub struct LotView {
    pub name: Seq<char>,
    pub address: Seq<char>,
    pub uid: Seq<char>,
    pub floors: Seq<FloorView>,
    pub tickets: Seq<TicketView>,
}

/// The identifier of the ticket that a lot issues after `count` others:
/// `TKT_` and the count.
pub open spec fn ticket_label(count: nat) -> Seq<char> {
    label("TKT_"@, count)
}

impl LotView {
    /// Every floor is well formed, no floor number occurs twice, and every
    /// ticket carries the identifier of its place in the order of issue and
    /// a well-formed entry time.
    pub open spec fn wf(self) -> bool {
        &&& forall|i: int| 0 <= i < self.floors.len() ==> (#[trigger] self.floors[i]).wf()
        &&& forall|i: int, j: int|
            0 <= i < j < self.floors.len() ==> (#[trigger] self.floors[i]).id != (
            #[trigger] self.floors[j]).id
        &&& forall|k: int|
            0 <= k < self.tickets.len() ==> (#[trigger] self.tickets[k]).ticket_id == ticket_label(
                k as nat,
            )
        &&& forall|k: int|
            0 <= k < self.tickets.len() ==> (#[trigger] self.tickets[k]).entry_time.wf()
    }

    /// A lot without floors and tickets.
    pub open spec fn empty(name: Seq<char>, address: Seq<char>, uid: Seq<char>) -> LotView {
        LotView { name, address, uid, floors: Seq::empty(), tickets: Seq::empty() }
    }

    /// The place of the floor with the given number.
    pub open spec fn floor_position(self, id: u32) -> Option<int> {
        first_index(self.floors, FloorView::with_number(id))
    }

    /// The floor with the given number.
    pub open spec fn floor_with_number(self, id: u32) -> Option<FloorView> {
        match self.floor_position(id) {
            Some(index) => Some(self.floors[index]),
            None => None,
        }
    }

    /// The lot with the floor added: in the place of the floor that has its
    /// number, or behind the others where none has.
    pub open spec fn with_floor(self, floor: FloorView) -> LotView {
        LotView {
            floors: replace_or_push(self.floors, FloorView::with_number(floor.id), floor),
            ..self
        }
    }

    /// The spots of all floors, floor after floor.
    pub open spec fn all_spots(self) -> Seq<SpotView> {
        self.floors.flat_map(FloorView::spots_of())
    }

    /// The number of spots in the lot.
    pub open spec fn total_spots(self) -> nat {
        self.all_spots().len()
    }

    /// The number of spots in the lot that are not free.
    pub open spec fn occupied_spots(self) -> nat {
        self.all_spots().filter(SpotView::occupied()).len()
    }

    /// The place of the first floor with a spot that is free and admits the
    /// vehicle class.
    pub open spec fn floor_with_room(self, vehicle_type: VehicleType) -> Option<int> {
        first_index(self.floors, FloorView::has_room_for(vehicle_type))
    }

    /// Whether some floor has a spot that is free and admits the vehicle class.
    pub open spec fn has_room_for(self, vehicle_type: VehicleType) -> bool {
        self.floor_with_room(vehicle_type) is Some
    }

    /// The identifier of the spot that a vehicle of the given class is
    /// parked on: the first free spot that admits the class, on the first
    /// floor that has one.
    pub open spec fn spot_for(self, vehicle_type: VehicleType) -> Seq<char> {
        let floor = self.floors[self.floor_with_room(vehicle_type).unwrap()];
        floor.spots[floor.first_available(vehicle_type).unwrap()].id
    }

    /// Whether the spot that a vehicle of the given class is parked on is the
    /// first in the lot's order with its identifier: no floor before its own
    /// holds a spot with that identifier.
    pub open spec fn parks_on_first_with_its_id(self, vehicle_type: VehicleType) -> bool {
        self.floor_of_spot(self.spot_for(vehicle_type)) == self.floor_with_room(vehicle_type)
    }

    /// The ticket that the lot issues for the vehicle when it parks it at `now`.
    pub open spec fn ticket_for(self, vehicle: VehicleView, now: Timestamp) -> TicketView {
        TicketView::issued(
            ticket_label(self.tickets.len()),
            vehicle,
            self.spot_for(vehicle.vehicle_type),
            now,
        )
    }

    /// The lot after it has parked the vehicle at `now`, where it has room
    /// for it: the vehicle stands on its spot and its ticket is on record.
    pub open spec fn parked(self, vehicle: VehicleView, now: Timestamp) -> LotView {
        let at = self.floor_with_room(vehicle.vehicle_type).unwrap();
        let floor = self.floors[at];
        let spot = floor.first_available(vehicle.vehicle_type).unwrap();
        LotView {
            floors: self.floors.update(at, floor.with_vehicle_at(spot, vehicle)),
            tickets: self.tickets.push(self.ticket_for(vehicle, now)),
            ..self
        }
    }

    /// The place of the ticket with the given identifier.
    pub open spec fn ticket_position(self, ticket_id: Seq<char>) -> Option<int> {
        first_index(self.tickets, TicketView::with_id(ticket_id))
    }

    /// The ticket with the given identifier.
    pub open spec fn ticket_with_id(self, ticket_id: Seq<char>) -> Option<TicketView> {
        match self.ticket_position(ticket_id) {
            Some(index) => Some(self.tickets[index]),
            None => None,
        }
    }

    /// The place of the first floor that holds a spot with the given identifier.
    pub open spec fn floor_of_spot(self, spot_id: Seq<char>) -> Option<int> {
        first_index(self.floors, FloorView::holds_spot(spot_id))
    }

    /// The floors after the spot with the given identifier has been
    /// vacated on the first floor that holds one; the floors themselves
    /// where no floor does.
    pub open spec fn floors_after_vacating(self, spot_id: Seq<char>) -> Seq<FloorView> {
        match self.floor_of_spot(spot_id) {
            Some(at) => self.floors.update(at, self.floors[at].vacated(spot_id)),
            None => self.floors,
        }
    }

    /// The spot with the given identifier on the first floor that holds one.
    pub open spec fn spot_with_id(self, spot_id: Seq<char>) -> Option<SpotView> {
        match self.floor_of_spot(spot_id) {
            Some(at) => Some(
                self.floors[at].spots[self.floors[at].position_of(spot_id).unwrap()],
            ),
            None => None,
        }
    }

    /// The lot after the stay with the given ticket has ended at `now`: the
    /// ticket's spot is vacated and the ticket is closed. The lot itself
    /// where it has no such ticket.
    pub open spec fn unparked(self, ticket_id: Seq<char>, now: Timestamp) -> LotView {
        match self.ticket_position(ticket_id) {
            Some(index) => LotView {
                floors: self.floors_after_vacating(self.tickets[index].spot_id),
                tickets: self.tickets.update(index, self.tickets[index].closed_at(now)),
                ..self
            },
            None => self,
        }
    }
}

impl LotView {
    /// No two spots of the lot, on one floor or on two, share an identifier.
    pub open spec fn spot_ids_distinct(self) -> bool {
        forall|f1: int, s1: int, f2: int, s2: int|
            0 <= f1 < self.floors.len() && 0 <= s1 < self.floors[f1].spots.len() && 0 <= f2
                < self.floors.len() && 0 <= s2 < self.floors[f2].spots.len() && (
            #[trigger] self.floors[f1].spots[s1]).id == (#[trigger] self.floors[f2].spots[s2]).id
                ==> f1 == f2 && s1 == s2
    }

    /// Every spot carries the identifier that `ParkingFloor::new` gives to
    /// the spot at its place on a floor with its floor's number.
    pub open spec fn has_default_spot_ids(self) -> bool {
        forall|f: int, s: int|
            0 <= f < self.floors.len() && 0 <= s < self.floors[f].spots.len() ==> (
            #[trigger] self.floors[f].spots[s]).id == default_spot_id(self.floors[f].id, s)
    }

    /// The spot of every open ticket is in the lot and is occupied.
    pub open spec fn open_tickets_hold_spots(self) -> bool {
        forall|k: int|
            0 <= k < self.tickets.len() && (#[trigger] self.tickets[k]).is_active() ==> (
            self.spot_with_id(self.tickets[k].spot_id) matches Some(spot) && !spot.is_free)
    }

    /// No two open tickets name the same spot.
    pub open spec fn open_tickets_disjoint(self) -> bool {
        forall|j: int, k: int|
            0 <= j < k < self.tickets.len() && (#[trigger] self.tickets[j]).is_active() && (
            #[trigger] self.tickets[k]).is_active() ==> self.tickets[j].spot_id
                != self.tickets[k].spot_id
    }

    /// The lot's spots and open tickets match: no spot identifier occurs
    /// twice, the spot of every open ticket is occupied, and no two open
    /// tickets name the same spot.
    pub open spec fn sound(self) -> bool {
        &&& self.spot_ids_distinct()
        &&& self.open_tickets_hold_spots()
        &&& self.open_tickets_disjoint()
    }
}

impl View for ParkingLot {
    type V = LotView;

    closed spec fn view(&self) -> LotView {
        LotView {
            name: self.name@,
            address: self.address@,
            uid: self.uid@,
            floors: self.floors@.map_values(|floor: ParkingFloor| floor@),
            tickets: self.tickets@.map_values(|ticket: ParkingTicket| ticket@),
        }
    }
}

impl ParkingLot {
    /// A lot with the given name, address and identifier, without floors
    /// and tickets.
    pub fn new(name: String, address: String, uid: String) -> (lot: Self)
        ensures
            lot@ == LotView::empty(name@, address@, uid@),
            lot@.wf(),
    {
        let lot = Self { name, address, uid, floors: Vec::new(), tickets: Vec::new() };
        assert(lot@.floors =~= Seq::empty());
        assert(lot@.tickets =~= Seq::empty());
        lot
    }

    /// The place of the floor with the given number.
    fn position_of_floor(&self, id: u32) -> (place: Option<usize>)
        ensures
            match place {
                Some(index) => self@.floor_position(id) == Some(index as int),
                None => self@.floor_position(id) is None,
            },
    {
        let mut index: usize = 0;
        while index < self.floors.len()
            invariant
                index <= self.floors.len(),
                self@.floor_position(id) == first_index_from(
                    self@.floors,
                    FloorView::with_number(id),
                    index as int,
                ),
            decreases self.floors.len() - index,
        {
            if self.floors[index].id() == id {
                return Some(index);
            }
            index += 1;
        }
        None
    }

    /// Adds the floor under its number. A floor that the lot already holds
    /// under that number gives way to the new one.
    pub fn add_floor(&mut self, floor: ParkingFloor)
        requires
            old(self)@.wf(),
            floor@.wf(),
        ensures
            final(self)@ == old(self)@.with_floor(floor@),
            final(self)@.wf(),
    {
        proof {
            lemma_first_index(self@.floors, FloorView::with_number(floor@.id));
        }
        match self.position_of_floor(floor.id()) {
            Some(index) => {
                self.floors[index] = floor;
                assert(self@.floors =~= old(self)@.floors.update(index as int, floor@));
            },
            None => {
                self.floors.push(floor);
                assert(self@.floors =~= old(self)@.floors.push(floor@));
            },
        }
        assert(self@.tickets =~= old(self)@.tickets);
    }

    /// The floor with the given number, to read.
    pub fn floor(&self, id: u32) -> (found: Option<&ParkingFloor>)
        ensures
            match self@.floor_with_number(id) {
                Some(floor) => found matches Some(held) && held@ == floor,
                None => found is None,
            },
    {
        proof {
            lemma_first_index(self@.floors, FloorView::with_number(id));
        }
        match self.position_of_floor(id) {
            Some(index) => Some(&self.floors[index]),
            None => None,
        }
    }

    /// The floor with the given number, to change: what is done to the floor
    /// through the reference is done to the lot's floor, and nothing else
    /// in the lot changes. The floor's own operations keep its number and
    /// keep it well formed, so the lot stays well formed under them.
    pub fn get_floor_by_id(&mut self, id: u32) -> (found: Option<&mut ParkingFloor>)
        ensures
            match old(self)@.floor_position(id) {
                Some(index) => {
                    &&& found matches Some(floor)
                    &&& floor@ == old(self)@.floors[index]
                    &&& final(self)@.floors == old(self)@.floors.update(index, final(floor)@)
                    &&& final(self)@.tickets == old(self)@.tickets
                    &&& final(self)@.name == old(self)@.name
                    &&& final(self)@.address == old(self)@.address
                    &&& final(self)@.uid == old(self)@.uid
                },
                None => found is None && final(self)@ == old(self)@,
            },
    {
        proof {
            lemma_first_index(self@.floors, FloorView::with_number(id));
        }
        match self.position_of_floor(id) {
            Some(index) => Some(&mut self.floors[index]),
            None => None,
        }
    }

    /// The identifier of the ticket that the lot issues next.
    fn generate_ticket_id(&self) -> (ticket_id: String)
        ensures
            ticket_id@ == ticket_label(self@.tickets.len()),
    {
        make_label("TKT_", self.tickets.len() as u128)
    }

    /// The place of the first floor with a spot that is free and admits the
    /// vehicle class, and that spot's identifier.
    fn find_room(&self, vehicle_type: VehicleType) -> (found: Option<(usize, String)>)
        ensures
            match self@.floor_with_room(vehicle_type) {
                Some(at) => found matches Some((index, spot_id)) && index == at && spot_id@
                    == self@.spot_for(vehicle_type),
                None => found is None,
            },
    {
        let mut index: usize = 0;
        while index < self.floors.len()
            invariant
                index <= self.floors.len(),
                self@.floor_with_room(vehicle_type) == first_index_from(
                    self@.floors,
                    FloorView::has_room_for(vehicle_type),
                    index as int,
                ),
            decreases self.floors.len() - index,
        {
            match self.floors[index].find_available_spot(vehicle_type) {
                Some((_, spot_id)) => {
                    return Some((index, spot_id));
                },
                None => {},
            }
            index += 1;
        }
        None
    }

    /// Parks the vehicle at `now`: on the first floor, in the lot's order,
    /// that has a free spot admitting the vehicle's class, and there on the
    /// first such spot in the floor's order. The lot issues a ticket for the
    /// stay, keeps it on record and returns a copy. Where no floor has such
    /// a spot the lot is left as it was. A sound lot stays sound: the
    /// vehicle's spot is one that no open ticket names.
    pub fn park_vehicle_at(&mut self, vehicle: Vehicle, now: Timestamp) -> (outcome: Result<
        ParkingTicket,
        ParkingError,
    >)
        requires
            old(self)@.wf(),
            now.wf(),
        ensures
            final(self)@.wf(),
            match outcome {
                Ok(ticket) => {
                    &&& old(self)@.has_room_for(vehicle@.vehicle_type)
                    &&& final(self)@ == old(self)@.parked(vehicle@, now)
                    &&& ticket@ == old(self)@.ticket_for(vehicle@, now)
                },
                Err(error) => {
                    &&& !old(self)@.has_room_for(vehicle@.vehicle_type)
                    &&& error == ParkingError::NoAvailableSpot
                    &&& final(self)@ == old(self)@
                },
            },
            old(self)@.sound() ==> final(self)@.sound(),
            old(self)@.sound() && outcome is Ok ==> forall|k: int|
                0 <= k < old(self)@.tickets.len() && (#[trigger] old(self)@.tickets[k]).is_active()
                    ==> old(self)@.tickets[k].spot_id != outcome.unwrap()@.spot_id,
    {
        let vehicle_type = vehicle.vehicle_type();
        let (at, spot_id) = match self.find_room(vehicle_type) {
            Some(found) => found,
            None => {
                return Err(ParkingError::NoAvailableSpot);
            },
        };
        proof {
            let floor = self@.floors[at as int];
            lemma_first_index(self@.floors, FloorView::has_room_for(vehicle_type));
            lemma_first_index(floor.spots, SpotView::open_to(vehicle_type));
            lemma_position_of_own_id(floor, floor.first_available(vehicle_type).unwrap());
        }
        // The spot was found free and admitting under this same exclusive
        // borrow, so it does not refuse.
        match self.floors[at].assign_vehicle(&spot_id, vehicle.clone()) {
            Ok(()) => {},
            Err(error) => {
                return Err(error);
            },
        }
        let ticket_id = self.generate_ticket_id();
        let ticket = ParkingTicket::issued_at(ticket_id, vehicle, spot_id, now);
        let copy = ticket.clone();
        self.tickets.push(ticket);
        proof {
            let before = old(self)@;
            let spot = before.floors[at as int].first_available(vehicle_type).unwrap();
            assert(self@.floors =~= before.floors.update(
                at as int,
                before.floors[at as int].with_vehicle_at(spot, vehicle@),
            ));
            assert(self@.tickets =~= before.tickets.push(before.ticket_for(vehicle@, now)));
            if before.sound() {
                lemma_parked_sound(before, vehicle@, now);
            }
        }
        Ok(copy)
    }

    /// The place of the ticket with the given identifier.
    fn position_of_ticket(&self, ticket_id: &String) -> (place: Option<usize>)
        ensures
            match place {
                Some(index) => self@.ticket_position(ticket_id@) == Some(index as int),
                None => self@.ticket_position(ticket_id@) is None,
            },
    {
        let mut index: usize = 0;
        while index < self.tickets.len()
            invariant
                index <= self.tickets.len(),
                self@.ticket_position(ticket_id@) == first_index_from(
                    self@.tickets,
                    TicketView::with_id(ticket_id@),
                    index as int,
                ),
            decreases self.tickets.len() - index,
        {
            if self.tickets[index].has_id(ticket_id) {
                return Some(index);
            }
            index += 1;
        }
        None
    }

    /// Vacates the spot with the given identifier on the first floor, in
    /// the lot's order, that holds one.
    fn vacate_spot(&mut self, spot_id: &String)
        requires
            old(self)@.wf(),
        ensures
            final(self)@ == (LotView {
                floors: old(self)@.floors_after_vacating(spot_id@),
                ..old(self)@
            }),
            final(self)@.wf(),
    {
        let mut index: usize = 0;
        while index < self.floors.len()
            invariant
                index <= self.floors.len(),
                old(self)@.wf(),
                self@ == old(self)@,
                self@.floor_of_spot(spot_id@) == first_index_from(
                    self@.floors,
                    FloorView::holds_spot(spot_id@),
                    index as int,
                ),
            decreases self.floors.len() - index,
        {
            let found = self.floors[index].vacate(spot_id);
            if found {
                assert(self@.floors =~= old(self)@.floors.update(
                    index as int,
                    old(self)@.floors[index as int].vacated(spot_id@),
                ));
                assert(self@.tickets =~= old(self)@.tickets);
                return ;
            }
            assert(self@.floors =~= old(self)@.floors);
            assert(self@.tickets =~= old(self)@.tickets);
            index += 1;
        }
    }

    /// Ends the stay with the given ticket at `now`: vacates the ticket's
    /// spot on the first floor, in the lot's order, that holds a spot with
    /// that identifier, records the exit time and the payment on the
    /// ticket, which stays on record, and returns the charge for the whole
    /// hours of the stay at `HOURLY_RATE`. Where the lot has no such ticket
    /// it is left as it was. A closed ticket is a ticket on record: it can
    /// be presented again, and its spot is then vacated again, whoever
    /// stands on it. A sound lot stays sound where the ticket is open.
    pub fn unpark_vehicle_at(&mut self, ticket_id: String, now: Timestamp) -> (outcome: Result<
        ParkingCharge,
        ParkingError,
    >)
        requires
            old(self)@.wf(),
            now.wf(),
        ensures
            final(self)@.wf(),
            match outcome {
                Ok(charge) => {
                    &&& old(self)@.ticket_with_id(ticket_id@) matches Some(ticket)
                    &&& charge == charge_between(ticket.entry_time, now, HOURLY_RATE)
                    &&& final(self)@ == old(self)@.unparked(ticket_id@, now)
                },
                Err(error) => {
                    &&& old(self)@.ticket_with_id(ticket_id@) is None
                    &&& error == ParkingError::InvalidTicket
                    &&& final(self)@ == old(self)@
                },
            },
            old(self)@.sound() && (old(self)@.ticket_with_id(ticket_id@) matches Some(ticket)
                ==> ticket.is_active()) ==> final(self)@.sound(),
    {
        proof {
            lemma_first_index(self@.tickets, TicketView::with_id(ticket_id@));
        }
        let index = match self.position_of_ticket(&ticket_id) {
            Some(index) => index,
            None => {
                return Err(ParkingError::InvalidTicket);
            },
        };
        let charge = calculate_charge(self.tickets[index].entry_time, now, HOURLY_RATE);
        let spot_id = self.tickets[index].spot_id.clone();
        self.vacate_spot(&spot_id);
        let ghost vacated = self@;
        self.tickets[index].close(now);
        proof {
            let before = old(self)@;
            assert(self@.floors =~= vacated.floors);
            assert(self@.floors =~= before.floors_after_vacating(
                before.tickets[index as int].spot_id,
            ));
            assert(self@.tickets =~= before.tickets.update(
                index as int,
                before.tickets[index as int].closed_at(now),
            ));
            if before.sound() && before.tickets[index as int].is_active() {
                lemma_unparked_sound(before, ticket_id@, now);
            }
        }
        Ok(charge)
    }

    /// The ticket with the given identifier, open or closed.
    pub fn ticket(&self, ticket_id: &String) -> (found: Option<&ParkingTicket>)
        ensures
            match self@.ticket_with_id(ticket_id@) {
                Some(ticket) => found matches Some(held) && held@ == ticket,
                None => found is None,
            },
    {
        proof {
            lemma_first_index(self@.tickets, TicketView::with_id(ticket_id@));
        }
        match self.position_of_ticket(ticket_id) {
            Some(index) => Some(&self.tickets[index]),
            None => None,
        }
    }

    /// The board that `display_info` describes, where the number of floors
    /// and the number of spots fit it, and nothing where one does not.
    pub fn try_display_info(&self) -> (found: Option<ParkingLotDisplayBoard>)
        ensures
            self@.occupied_spots() <= self@.total_spots(),
            found is Some <==> self@.floors.len() <= u32::MAX && self@.total_spots() <= u32::MAX,
            found matches Some(board) ==> board@ == (BoardView {
                uid: self@.uid,
                num_floors: self@.floors.len() as u32,
                num_empty_spots: self@.total_spots() as u32,
                num_parked_vehicles: self@.occupied_spots() as u32,
            }),
    {
        let mut spots: u32 = 0;
        let mut occupied: u32 = 0;
        let mut index: usize = 0;
        proof {
            self@.all_spots().lemma_filter_len(SpotView::occupied());
        }
        while index < self.floors.len()
            invariant
                index <= self.floors.len(),
                spots == self@.floors.take(index as int).flat_map(FloorView::spots_of()).len(),
                occupied == self@.floors.take(index as int).flat_map(FloorView::spots_of()).filter(
                    SpotView::occupied(),
                ).len(),
                occupied <= spots,
            decreases self.floors.len() - index,
        {
            proof {
                let floors = self@.floors;
                let counted = floors.take(index as int).flat_map(FloorView::spots_of());
                floors.lemma_flat_map_take_append(FloorView::spots_of(), index as int);
                Seq::filter_distributes_over_add(
                    counted,
                    floors[index as int].spots,
                    SpotView::occupied(),
                );
                floors[index as int].spots.lemma_filter_len(SpotView::occupied());
                lemma_spots_of_first_floors(floors, index as int + 1);
            }
            let on_floor = self.floors[index].spot_count();
            if on_floor > (u32::MAX - spots) as usize {
                return None;
            }
            spots += on_floor as u32;
            occupied += self.floors[index].occupied_count() as u32;
            index += 1;
        }
        assert(self@.floors.take(index as int) =~= self@.floors);
        if self.floors.len() > u32::MAX as usize {
            return None;
        }
        Some(ParkingLotDisplayBoard::new(
            self.uid.clone(),
            self.floors.len() as u32,
            spots,
            occupied,
        ))
    }

    /// The lot's counts: its floors, all its spots, shown as empty spots
    /// whether they are free or not, and the spots that are not free. The
    /// number of floors and the number of spots must fit the board.
    pub fn display_info(&self) -> (board: ParkingLotDisplayBoard)
        requires
            self@.floors.len() <= u32::MAX,
            self@.total_spots() <= u32::MAX,
        ensures
            board@ == (BoardView {
                uid: self@.uid,
                num_floors: self@.floors.len() as u32,
                num_empty_spots: self@.total_spots() as u32,
                num_parked_vehicles: self@.occupied_spots() as u32,
            }),
            self@.occupied_spots() <= self@.total_spots(),
    {
        self.try_display_info().unwrap()
    }
}

/// The spots on the first `count` floors are no more than the spots on all.
pub proof fn lemma_spots_of_first_floors(floors: Seq<FloorView>, count: int)
    requires
        0 <= count <= floors.len(),
    ensures
        floors.take(count).flat_map(FloorView::spots_of()).len() <= floors.flat_map(
            FloorView::spots_of(),
        ).len(),
{
    let first = floors.take(count).map_values(FloorView::spots_of());
    let rest = floors.skip(count).map_values(FloorView::spots_of());
    assert(floors.map_values(FloorView::spots_of()) =~= first + rest);
    lemma_flatten_concat(first, rest);
}

/// What parks vehicles and lets them leave again.
pub trait Parkable {
    /// Whether the value is fit to park and unpark.
    spec fn ready(&self) -> bool;

    /// Parks the vehicle now and returns the ticket for its stay.
    fn park_vehicle(&mut self, vehicle: Vehicle) -> (outcome: Result<ParkingTicket, ParkingError>)
        requires
            old(self).ready(),
        ensures
            final(self).ready(),
    ;

    /// Ends the stay with the given ticket now and returns its charge.
    fn unpark_vehicle(&mut self, ticket_id: String) -> (outcome: Result<
        ParkingCharge,
        ParkingError,
    >)
        requires
            old(self).ready(),
        ensures
            final(self).ready(),
    ;
}

impl Parkable for ParkingLot {
    open spec fn ready(&self) -> bool {
        self@.wf()
    }

    /// Parks the vehicle at the instant that the clock gives, which the
    /// ticket records as its entry time, as `park_vehicle_at` does.
    fn park_vehicle(&mut self, vehicle: Vehicle) -> (outcome: Result<ParkingTicket, ParkingError>)
        ensures
            match outcome {
                Ok(ticket) => {
                    &&& ticket.entry_time.wf()
                    &&& old(self)@.has_room_for(vehicle@.vehicle_type)
                    &&& final(self)@ == old(self)@.parked(vehicle@, ticket.entry_time)
                    &&& ticket@ == old(self)@.ticket_for(vehicle@, ticket.entry_time)
                },
                Err(error) => {
                    &&& !old(self)@.has_room_for(vehicle@.vehicle_type)
                    &&& error == ParkingError::NoAvailableSpot
                    &&& final(self)@ == old(self)@
                },
            },
            old(self)@.sound() ==> final(self)@.sound(),
            old(self)@.sound() && outcome is Ok ==> forall|k: int|
                0 <= k < old(self)@.tickets.len() && (#[trigger] old(self)@.tickets[k]).is_active()
                    ==> old(self)@.tickets[k].spot_id != outcome.unwrap()@.spot_id,
    {
        let now = current_time();
        self.park_vehicle_at(vehicle, now)
    }

    /// Ends the stay with the given ticket at the instant that the clock
    /// gives, which the ticket records as its exit time, as
    /// `unpark_vehicle_at` does.
    fn unpark_vehicle(&mut self, ticket_id: String) -> (outcome: Result<
        ParkingCharge,
        ParkingError,
    >)
        ensures
            match outcome {
                Ok(charge) => {
                    &&& old(self)@.ticket_with_id(ticket_id@) matches Some(ticket)
                    &&& final(self)@.ticket_with_id(ticket_id@) matches Some(closed)
                    &&& closed.exit_time matches Some(now)
                    &&& now.wf()
                    &&& charge == charge_between(ticket.entry_time, now, HOURLY_RATE)
                    &&& final(self)@ == old(self)@.unparked(ticket_id@, now)
                },
                Err(error) => {
                    &&& old(self)@.ticket_with_id(ticket_id@) is None
                    &&& error == ParkingError::InvalidTicket
                    &&& final(self)@ == old(self)@
                },
            },
            old(self)@.sound() && (old(self)@.ticket_with_id(ticket_id@) matches Some(ticket)
                ==> ticket.is_active()) ==> final(self)@.sound(),
    {
        let now = current_time();
        let outcome = self.unpark_vehicle_at(ticket_id, now);
        proof {
            if outcome is Ok {
                lemma_first_index(old(self)@.tickets, TicketView::with_id(ticket_id@));
                lemma_ticket_found_at(self@, old(self)@.ticket_position(ticket_id@).unwrap());
            }
        }
        outcome
    }
}

} // verus!
