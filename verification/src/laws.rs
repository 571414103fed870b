//! What holds of a parking lot across the operations that park and unpark.

use vstd::prelude::*;

use crate::clock::Timestamp;
use crate::floor::{lemma_default_spot_ids_distinct, lemma_position_of_own_id, FloorView};
use crate::kinds::VehicleType;
use crate::label::lemma_label_injective;
use crate::lot::LotView;
use crate::search::{
    lemma_first_index, lemma_first_index_agrees, lemma_first_index_is, lemma_first_index_push,
};
use crate::spot::SpotView;
use crate::ticket::TicketView;
use crate::vehicle::VehicleView;

verus! {

/// In a lot whose spot identifiers are distinct, a spot is found under its
/// identifier on its own floor at its own place.
pub proof fn lemma_spot_found_at(lot: LotView, at: int, place: int)
    requires
        lot.wf(),
        lot.spot_ids_distinct(),
        0 <= at < lot.floors.len(),
        0 <= place < lot.floors[at].spots.len(),
    ensures
        lot.floor_of_spot(lot.floors[at].spots[place].id) == Some(at),
        lot.floors[at].position_of(lot.floors[at].spots[place].id) == Some(place),
        lot.spot_with_id(lot.floors[at].spots[place].id) == Some(lot.floors[at].spots[place]),
{
    let spot_id = lot.floors[at].spots[place].id;
    lemma_position_of_own_id(lot.floors[at], place);
    lemma_first_index(lot.floors, FloorView::holds_spot(spot_id));
    let first = lot.floor_of_spot(spot_id).unwrap();
    lemma_first_index(lot.floors[first].spots, SpotView::with_id(spot_id));
    let first_place = lot.floors[first].position_of(spot_id).unwrap();
    assert(lot.floors[first].spots[first_place].id == lot.floors[at].spots[place].id);
}

/// In a well-formed lot every ticket is found under its identifier at its
/// own place: no two tickets share an identifier.
pub proof fn lemma_ticket_found_at(lot: LotView, place: int)
    requires
        lot.wf(),
        0 <= place < lot.tickets.len(),
    ensures
        lot.ticket_position(lot.tickets[place].ticket_id) == Some(place),
{
    let ticket_id = lot.tickets[place].ticket_id;
    assert forall|j: int| 0 <= j < place implies !TicketView::with_id(ticket_id)(
        #[trigger] lot.tickets[j],
    ) by {
        if lot.tickets[j].ticket_id == ticket_id {
            lemma_label_injective("TKT_"@, j as nat, place as nat);
        }
    }
    lemma_first_index_is(lot.tickets, TicketView::with_id(ticket_id), place);
}

/// Whether the two rows of floors hold, floor by floor and place by place,
/// spots with the same identifiers.
pub open spec fn same_spot_ids(floors: Seq<FloorView>, others: Seq<FloorView>) -> bool {
    &&& floors.len() == others.len()
    &&& forall|f: int|
        0 <= f < floors.len() ==> (#[trigger] floors[f]).spots.len() == others[f].spots.len()
    &&& forall|f: int, s: int|
        0 <= f < floors.len() && 0 <= s < floors[f].spots.len() ==> (
        #[trigger] floors[f].spots[s]).id == others[f].spots[s].id
}

/// Floors that hold spots with the same identifiers give the same answer to
/// the question where a spot with a given identifier stands.
pub proof fn lemma_same_spot_ids(lot: LotView, other: LotView, spot_id: Seq<char>)
    requires
        same_spot_ids(lot.floors, other.floors),
    ensures
        lot.floor_of_spot(spot_id) == other.floor_of_spot(spot_id),
        forall|f: int|
            0 <= f < lot.floors.len() ==> (#[trigger] lot.floors[f]).position_of(spot_id)
                == other.floors[f].position_of(spot_id),
        lot.spot_ids_distinct() ==> other.spot_ids_distinct(),
{
    assert forall|f: int| 0 <= f < lot.floors.len() implies (#[trigger] lot.floors[f]).position_of(
        spot_id,
    ) == other.floors[f].position_of(spot_id) by {
        assert forall|s: int| 0 <= s < lot.floors[f].spots.len() implies SpotView::with_id(
            spot_id,
        )(#[trigger] lot.floors[f].spots[s]) == SpotView::with_id(spot_id)(
            other.floors[f].spots[s],
        ) by {}
        lemma_first_index_agrees(
            lot.floors[f].spots,
            SpotView::with_id(spot_id),
            other.floors[f].spots,
            SpotView::with_id(spot_id),
        );
    }
    lemma_first_index_agrees(
        lot.floors,
        FloorView::holds_spot(spot_id),
        other.floors,
        FloorView::holds_spot(spot_id),
    );
    if lot.spot_ids_distinct() {
        assert forall|f1: int, s1: int, f2: int, s2: int|
            0 <= f1 < other.floors.len() && 0 <= s1 < other.floors[f1].spots.len() && 0 <= f2
                < other.floors.len() && 0 <= s2 < other.floors[f2].spots.len() && (
            #[trigger] other.floors[f1].spots[s1]).id == (
            #[trigger] other.floors[f2].spots[s2]).id implies f1 == f2 && s1 == s2 by {
            assert(lot.floors[f1].spots[s1].id == lot.floors[f2].spots[s2].id);
        }
    }
}

/// Where a lot has room for a vehicle, parking it changes one spot, from
/// free to occupied by the vehicle, and adds one ticket; the lot stays well
/// formed.
pub proof fn lemma_parked(lot: LotView, vehicle: VehicleView, now: Timestamp)
    requires
        lot.wf(),
        now.wf(),
        lot.has_room_for(vehicle.vehicle_type),
    ensures
        lot.parked(vehicle, now).wf(),
        same_spot_ids(lot.floors, lot.parked(vehicle, now).floors),
        ({
            let at = lot.floor_with_room(vehicle.vehicle_type).unwrap();
            let place = lot.floors[at].first_available(vehicle.vehicle_type).unwrap();
            let parked = lot.parked(vehicle, now);
            &&& 0 <= at < lot.floors.len()
            &&& 0 <= place < lot.floors[at].spots.len()
            &&& lot.floors[at].spots[place].available_for(vehicle.vehicle_type)
            &&& lot.floors[at].spots[place].id == lot.spot_for(vehicle.vehicle_type)
            &&& parked.floors[at].spots[place] == lot.floors[at].spots[place].occupied_by(vehicle)
            &&& forall|f: int, s: int|
                0 <= f < lot.floors.len() && 0 <= s < lot.floors[f].spots.len() && !(f == at && s
                    == place) ==> #[trigger] parked.floors[f].spots[s] == lot.floors[f].spots[s]
        }),
{
    let at = lot.floor_with_room(vehicle.vehicle_type).unwrap();
    lemma_first_index(lot.floors, FloorView::has_room_for(vehicle.vehicle_type));
    lemma_first_index(lot.floors[at].spots, SpotView::open_to(vehicle.vehicle_type));
    let parked = lot.parked(vehicle, now);
    assert forall|i: int| 0 <= i < parked.floors.len() implies (
    #[trigger] parked.floors[i]).wf() by {
        assert(lot.floors[i].wf());
    }
}

/// A vehicle that is parked and then unparked with its ticket. The ticket is
/// on record when the vehicle is to leave, which is when unparking succeeds,
/// and the closed ticket stays on record. Where the vehicle's spot is the
/// first in the lot's order with its identifier, every spot of the lot, the
/// vehicle's among them, is afterwards as it was before the vehicle came,
/// free. Where an earlier floor holds a spot with that identifier, that one
/// is vacated and the vehicle's spot stays occupied.
pub proof fn lemma_park_then_unpark(
    lot: LotView,
    vehicle: VehicleView,
    entry: Timestamp,
    exit: Timestamp,
)
    requires
        lot.wf(),
        entry.wf(),
        lot.has_room_for(vehicle.vehicle_type),
    ensures
        ({
            let ticket = lot.ticket_for(vehicle, entry);
            let parked = lot.parked(vehicle, entry);
            let left = parked.unparked(ticket.ticket_id, exit);
            let at = lot.floor_with_room(vehicle.vehicle_type).unwrap();
            let place = lot.floors[at].first_available(vehicle.vehicle_type).unwrap();
            &&& parked.ticket_with_id(ticket.ticket_id) == Some(ticket)
            &&& left.tickets == lot.tickets.push(ticket.closed_at(exit))
            &&& lot.parks_on_first_with_its_id(vehicle.vehicle_type) ==> {
                &&& left.floors == lot.floors
                &&& left.spot_with_id(ticket.spot_id) matches Some(spot) && spot.is_free
            }
            &&& !lot.parks_on_first_with_its_id(vehicle.vehicle_type) ==> {
                &&& left.floors[at].spots[place] == lot.floors[at].spots[place].occupied_by(vehicle)
                &&& !left.floors[at].spots[place].is_free
            }
        }),
{
    let ticket = lot.ticket_for(vehicle, entry);
    let parked = lot.parked(vehicle, entry);
    let left = parked.unparked(ticket.ticket_id, exit);
    let at = lot.floor_with_room(vehicle.vehicle_type).unwrap();
    let place = lot.floors[at].first_available(vehicle.vehicle_type).unwrap();
    let count = lot.tickets.len() as int;
    lemma_parked(lot, vehicle, entry);
    lemma_ticket_found_at(parked, count);
    lemma_same_spot_ids(lot, parked, ticket.spot_id);
    lemma_position_of_own_id(parked.floors[at], place);
    lemma_first_index(parked.floors, FloorView::holds_spot(ticket.spot_id));
    assert(left.tickets =~= lot.tickets.push(ticket.closed_at(exit)));
    if lot.parks_on_first_with_its_id(vehicle.vehicle_type) {
        assert(lot.floors[at].spots[place].wf());
        assert(parked.floors[at].vacated(ticket.spot_id).spots =~= lot.floors[at].spots);
        assert(left.floors =~= lot.floors);
        lemma_position_of_own_id(lot.floors[at], place);
    }
}

/// In a lot whose spot identifiers are distinct, the spot that a vehicle is
/// parked on is the first, and the only one, with its identifier.
pub proof fn lemma_distinct_parks_on_first(lot: LotView, vehicle_type: VehicleType)
    requires
        lot.wf(),
        lot.spot_ids_distinct(),
        lot.has_room_for(vehicle_type),
    ensures
        lot.parks_on_first_with_its_id(vehicle_type),
{
    let at = lot.floor_with_room(vehicle_type).unwrap();
    lemma_first_index(lot.floors, FloorView::has_room_for(vehicle_type));
    lemma_first_index(lot.floors[at].spots, SpotView::open_to(vehicle_type));
    lemma_spot_found_at(lot, at, lot.floors[at].first_available(vehicle_type).unwrap());
}

/// Where a lot has the ticket, unparking changes one spot at most, the first
/// in the lot's order with the ticket's spot identifier, which is vacated,
/// and closes the ticket; the lot stays well formed.
pub proof fn lemma_unparked(lot: LotView, ticket_id: Seq<char>, now: Timestamp)
    requires
        lot.wf(),
        lot.ticket_position(ticket_id) is Some,
    ensures
        lot.unparked(ticket_id, now).wf(),
        same_spot_ids(lot.floors, lot.unparked(ticket_id, now).floors),
        ({
            let index = lot.ticket_position(ticket_id).unwrap();
            let spot_id = lot.tickets[index].spot_id;
            let left = lot.unparked(ticket_id, now);
            &&& 0 <= index < lot.tickets.len()
            &&& lot.tickets[index].ticket_id == ticket_id
            &&& left.tickets == lot.tickets.update(index, lot.tickets[index].closed_at(now))
            &&& forall|f: int, s: int|
                0 <= f < lot.floors.len() && 0 <= s < lot.floors[f].spots.len() ==> (
                #[trigger] left.floors[f].spots[s]) == if lot.floor_of_spot(spot_id) == Some(f)
                    && lot.floors[f].position_of(spot_id) == Some(s) {
                    lot.floors[f].spots[s].vacated()
                } else {
                    lot.floors[f].spots[s]
                }
        }),
{
    let index = lot.ticket_position(ticket_id).unwrap();
    let spot_id = lot.tickets[index].spot_id;
    let left = lot.unparked(ticket_id, now);
    lemma_first_index(lot.tickets, TicketView::with_id(ticket_id));
    lemma_first_index(lot.floors, FloorView::holds_spot(spot_id));
    match lot.floor_of_spot(spot_id) {
        Some(at) => {
            lemma_first_index(lot.floors[at].spots, SpotView::with_id(spot_id));
        },
        None => {},
    }
    assert forall|i: int| 0 <= i < left.floors.len() implies (#[trigger] left.floors[i]).wf() by {
        assert(lot.floors[i].wf());
    }
}

/// Parking keeps a lot sound, and the spot that the vehicle is parked on is
/// named by no ticket that was open before: no two open tickets ever name
/// the same spot.
pub proof fn lemma_parked_sound(lot: LotView, vehicle: VehicleView, now: Timestamp)
    requires
        lot.wf(),
        lot.sound(),
        now.wf(),
        lot.has_room_for(vehicle.vehicle_type),
    ensures
        lot.parked(vehicle, now).sound(),
        forall|k: int|
            0 <= k < lot.tickets.len() && (#[trigger] lot.tickets[k]).is_active()
                ==> lot.tickets[k].spot_id != lot.spot_for(vehicle.vehicle_type),
{
    let parked = lot.parked(vehicle, now);
    let at = lot.floor_with_room(vehicle.vehicle_type).unwrap();
    let place = lot.floors[at].first_available(vehicle.vehicle_type).unwrap();
    let count = lot.tickets.len() as int;
    let taken = lot.spot_for(vehicle.vehicle_type);
    lemma_parked(lot, vehicle, now);
    lemma_same_spot_ids(lot, parked, taken);
    lemma_spot_found_at(lot, at, place);
    lemma_spot_found_at(parked, at, place);
    assert forall|k: int| 0 <= k < count && (#[trigger] lot.tickets[k]).is_active() implies {
        &&& lot.tickets[k].spot_id != taken
        &&& parked.spot_with_id(lot.tickets[k].spot_id) matches Some(spot) && !spot.is_free
    } by {
        let spot_id = lot.tickets[k].spot_id;
        lemma_same_spot_ids(lot, parked, spot_id);
        lemma_first_index(lot.floors, FloorView::holds_spot(spot_id));
        let f = lot.floor_of_spot(spot_id).unwrap();
        lemma_first_index(lot.floors[f].spots, SpotView::with_id(spot_id));
        let s = lot.floors[f].position_of(spot_id).unwrap();
        assert(parked.floors[f].spots[s] == if f == at && s == place {
            lot.floors[f].spots[s].occupied_by(vehicle)
        } else {
            lot.floors[f].spots[s]
        });
    }
    assert(parked.open_tickets_hold_spots()) by {
        assert forall|k: int|
            0 <= k < parked.tickets.len() && (#[trigger] parked.tickets[k]).is_active() implies (
        parked.spot_with_id(parked.tickets[k].spot_id) matches Some(spot) && !spot.is_free) by {
            if k < count {
                assert(lot.tickets[k].is_active());
            }
        }
    }
    assert(parked.open_tickets_disjoint()) by {
        assert forall|j: int, k: int|
            0 <= j < k < parked.tickets.len() && (#[trigger] parked.tickets[j]).is_active() && (
            #[trigger] parked.tickets[k]).is_active() implies parked.tickets[j].spot_id
            != parked.tickets[k].spot_id by {
            assert(lot.tickets[j].is_active());
            if k < count {
                assert(lot.tickets[k].is_active());
            }
        }
    }
}

/// Unparking with an open ticket keeps a lot sound.
pub proof fn lemma_unparked_sound(lot: LotView, ticket_id: Seq<char>, now: Timestamp)
    requires
        lot.wf(),
        lot.sound(),
        lot.ticket_with_id(ticket_id) matches Some(ticket) && ticket.is_active(),
    ensures
        lot.unparked(ticket_id, now).sound(),
{
    let left = lot.unparked(ticket_id, now);
    let index = lot.ticket_position(ticket_id).unwrap();
    let vacated = lot.tickets[index].spot_id;
    lemma_unparked(lot, ticket_id, now);
    lemma_same_spot_ids(lot, left, vacated);
    assert(left.open_tickets_hold_spots()) by {
        assert forall|k: int|
            0 <= k < left.tickets.len() && (#[trigger] left.tickets[k]).is_active() implies (
        left.spot_with_id(left.tickets[k].spot_id) matches Some(spot) && !spot.is_free) by {
            assert(k != index);
            assert(lot.tickets[k].is_active());
            assert(lot.tickets[index].is_active());
            let spot_id = lot.tickets[k].spot_id;
            assert(spot_id != vacated);
            lemma_same_spot_ids(lot, left, spot_id);
            lemma_first_index(lot.floors, FloorView::holds_spot(spot_id));
            let f = lot.floor_of_spot(spot_id).unwrap();
            lemma_first_index(lot.floors[f].spots, SpotView::with_id(spot_id));
            let s = lot.floors[f].position_of(spot_id).unwrap();
            assert(lot.floors[f].spots[s].id == spot_id);
            if lot.floor_of_spot(vacated) == Some(f) && lot.floors[f].position_of(vacated) == Some(
                s,
            ) {
                lemma_first_index(lot.floors[f].spots, SpotView::with_id(vacated));
            }
            assert(left.floors[f].spots[s] == lot.floors[f].spots[s]);
        }
    }
    assert(left.open_tickets_disjoint()) by {
        assert forall|j: int, k: int|
            0 <= j < k < left.tickets.len() && (#[trigger] left.tickets[j]).is_active() && (
            #[trigger] left.tickets[k]).is_active() implies left.tickets[j].spot_id
            != left.tickets[k].spot_id by {
            assert(lot.tickets[j].is_active());
            assert(lot.tickets[k].is_active());
        }
    }
}

/// In a well-formed lot whose spots carry the identifiers that
/// `ParkingFloor::new` gave them, no two spots share an identifier.
pub proof fn lemma_default_floors_distinct(lot: LotView)
    requires
        lot.wf(),
        lot.has_default_spot_ids(),
    ensures
        lot.spot_ids_distinct(),
{
    assert forall|f1: int, s1: int, f2: int, s2: int|
        0 <= f1 < lot.floors.len() && 0 <= s1 < lot.floors[f1].spots.len() && 0 <= f2
            < lot.floors.len() && 0 <= s2 < lot.floors[f2].spots.len() && (
        #[trigger] lot.floors[f1].spots[s1]).id == (
        #[trigger] lot.floors[f2].spots[s2]).id implies f1 == f2 && s1 == s2 by {
        lemma_default_spot_ids_distinct(lot.floors[f1].id, s1, lot.floors[f2].id, s2);
        if f1 != f2 {
            assert(lot.floors[f1].id != lot.floors[f2].id);
        }
    }
}

/// A lot whose spots carry the identifiers that `ParkingFloor::new` gave
/// them still does so after a floor that `ParkingFloor::new` made is added.
pub proof fn lemma_with_default_floor(lot: LotView, id: u32)
    requires
        lot.has_default_spot_ids(),
    ensures
        lot.with_floor(FloorView::default_floor(id)).has_default_spot_ids(),
{
    lemma_first_index(lot.floors, FloorView::with_number(id));
}

/// A well-formed lot without tickets, whose spots carry the identifiers
/// that `ParkingFloor::new` gave them, is sound.
pub proof fn lemma_fresh_lot_sound(lot: LotView)
    requires
        lot.wf(),
        lot.has_default_spot_ids(),
        lot.tickets.len() == 0,
    ensures
        lot.sound(),
{
    lemma_default_floors_distinct(lot);
}

/// Whether the identifier is that of no spot in the lot.
pub open spec fn is_new_spot_id(lot: LotView, spot_id: Seq<char>) -> bool {
    forall|f: int, s: int|
        0 <= f < lot.floors.len() && 0 <= s < lot.floors[f].spots.len() ==> (
        #[trigger] lot.floors[f].spots[s]).id != spot_id
}

/// Adding a well-formed floor whose number is new, and whose spots carry
/// identifiers of no spot in the lot, keeps a sound lot sound.
pub proof fn lemma_with_floor_sound(lot: LotView, floor: FloorView)
    requires
        lot.wf(),
        lot.sound(),
        floor.wf(),
        lot.floor_position(floor.id) is None,
        forall|t: int|
            0 <= t < floor.spots.len() ==> is_new_spot_id(lot, #[trigger] floor.spots[t].id),
    ensures
        lot.with_floor(floor).wf(),
        lot.with_floor(floor).sound(),
{
    let after = lot.with_floor(floor);
    let count = lot.floors.len() as int;
    lemma_first_index(lot.floors, FloorView::with_number(floor.id));
    assert(after.floors == lot.floors.push(floor));
    assert forall|f: int| 0 <= f < count implies #[trigger] after.floors[f] == lot.floors[f] by {}
    assert(after.spot_ids_distinct()) by {
        assert forall|f1: int, s1: int, f2: int, s2: int|
            0 <= f1 < after.floors.len() && 0 <= s1 < after.floors[f1].spots.len() && 0 <= f2
                < after.floors.len() && 0 <= s2 < after.floors[f2].spots.len() && (
            #[trigger] after.floors[f1].spots[s1]).id == (
            #[trigger] after.floors[f2].spots[s2]).id implies f1 == f2 && s1 == s2 by {
            if f1 < count && f2 < count {
                assert(lot.floors[f1].spots[s1].id == lot.floors[f2].spots[s2].id);
            } else if f1 < count {
                assert(is_new_spot_id(lot, floor.spots[s2].id));
                assert(lot.floors[f1].spots[s1].id != floor.spots[s2].id);
            } else if f2 < count {
                assert(is_new_spot_id(lot, floor.spots[s1].id));
                assert(lot.floors[f2].spots[s2].id != floor.spots[s1].id);
            } else {
                assert(floor.wf());
            }
        }
    }
    assert(after.open_tickets_hold_spots()) by {
        assert forall|k: int|
            0 <= k < after.tickets.len() && (#[trigger] after.tickets[k]).is_active() implies (
        after.spot_with_id(after.tickets[k].spot_id) matches Some(spot) && !spot.is_free) by {
            let spot_id = lot.tickets[k].spot_id;
            assert(lot.tickets[k].is_active());
            lemma_first_index(lot.floors, FloorView::holds_spot(spot_id));
            lemma_first_index_push(lot.floors, FloorView::holds_spot(spot_id), floor);
            let f = lot.floor_of_spot(spot_id).unwrap();
            assert(after.floors[f] == lot.floors[f]);
        }
    }
}

/// Adding a well-formed spot, whose identifier is that of no spot in the
/// lot, to a floor of the lot keeps a sound lot sound.
pub proof fn lemma_with_spot_sound(lot: LotView, at: int, spot: SpotView)
    requires
        lot.wf(),
        lot.sound(),
        spot.wf(),
        0 <= at < lot.floors.len(),
        is_new_spot_id(lot, spot.id),
    ensures
        ({
            let after = LotView {
                floors: lot.floors.update(at, lot.floors[at].with_spot(spot)),
                ..lot
            };
            &&& after.wf()
            &&& after.sound()
            &&& after.floors[at].spots == lot.floors[at].spots.push(spot)
        }),
{
    let floor = lot.floors[at];
    let longer = floor.with_spot(spot);
    let after = LotView { floors: lot.floors.update(at, longer), ..lot };
    lemma_first_index(floor.spots, SpotView::with_id(spot.id));
    assert(floor.position_of(spot.id) is None) by {
        if floor.position_of(spot.id) is Some {
            assert(floor.spots[floor.position_of(spot.id).unwrap()].id == spot.id);
        }
    }
    assert(longer.spots == floor.spots.push(spot));
    assert(longer.wf()) by {
        assert(floor.wf());
        assert forall|i: int, j: int| 0 <= i < j < longer.spots.len() implies (
        #[trigger] longer.spots[i]).id != (#[trigger] longer.spots[j]).id by {
            if j == floor.spots.len() {
                assert(floor.spots[i].id != spot.id);
            }
        }
    }
    assert(after.wf()) by {
        assert forall|i: int| 0 <= i < after.floors.len() implies (
        #[trigger] after.floors[i]).wf() by {
            assert(lot.floors[i].wf());
        }
        assert forall|i: int, j: int| 0 <= i < j < after.floors.len() implies (
        #[trigger] after.floors[i]).id != (#[trigger] after.floors[j]).id by {
            assert(lot.floors[i].id != lot.floors[j].id);
        }
    }
    assert(after.spot_ids_distinct()) by {
        assert forall|f1: int, s1: int, f2: int, s2: int|
            0 <= f1 < after.floors.len() && 0 <= s1 < after.floors[f1].spots.len() && 0 <= f2
                < after.floors.len() && 0 <= s2 < after.floors[f2].spots.len() && (
            #[trigger] after.floors[f1].spots[s1]).id == (
            #[trigger] after.floors[f2].spots[s2]).id implies f1 == f2 && s1 == s2 by {
            let first_is_new = f1 == at && s1 == floor.spots.len();
            let second_is_new = f2 == at && s2 == floor.spots.len();
            if !first_is_new && !second_is_new {
                assert(lot.floors[f1].spots[s1].id == lot.floors[f2].spots[s2].id);
            } else if !first_is_new {
                assert(lot.floors[f1].spots[s1].id != spot.id);
            } else if !second_is_new {
                assert(lot.floors[f2].spots[s2].id != spot.id);
            }
        }
    }
    assert(after.open_tickets_hold_spots()) by {
        assert forall|k: int|
            0 <= k < after.tickets.len() && (#[trigger] after.tickets[k]).is_active() implies (
        after.spot_with_id(after.tickets[k].spot_id) matches Some(found) && !found.is_free) by {
            let spot_id = lot.tickets[k].spot_id;
            assert(lot.tickets[k].is_active());
            lemma_first_index(lot.floors, FloorView::holds_spot(spot_id));
            let f = lot.floor_of_spot(spot_id).unwrap();
            lemma_first_index(lot.floors[f].spots, SpotView::with_id(spot_id));
            let s = lot.floors[f].position_of(spot_id).unwrap();
            assert(lot.floors[f].spots[s].id == spot_id);
            assert(spot_id != spot.id);
            lemma_first_index_push(floor.spots, SpotView::with_id(spot_id), spot);
            assert forall|j: int| 0 <= j < lot.floors.len() implies FloorView::holds_spot(spot_id)(
                #[trigger] lot.floors[j],
            ) == FloorView::holds_spot(spot_id)(after.floors[j]) by {}
            lemma_first_index_agrees(
                lot.floors,
                FloorView::holds_spot(spot_id),
                after.floors,
                FloorView::holds_spot(spot_id),
            );
        }
    }
}

} // verus!
