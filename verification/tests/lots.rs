use parking_lot::{
    Parkable, ParkingError, ParkingFloor, ParkingLot, ParkingSpot, ParkingTicket, PaymentStatus,
    SpotType, Timestamp, Vehicle, VehicleType,
};

fn lot() -> ParkingLot {
    ParkingLot::new("Park-Wella Parking Hub".into(), "Lagos, Nigeria".into(), "1234".into())
}

fn motor(plate: &str) -> Vehicle {
    Vehicle::new(VehicleType::Motor, "Toyota".into(), plate.into())
}

fn truck(plate: &str) -> Vehicle {
    Vehicle::new(VehicleType::Truck, "Mac".into(), plate.into())
}

fn bike(plate: &str) -> Vehicle {
    Vehicle::new(VehicleType::Bike, "Suzuki".into(), plate.into())
}

fn at(secs: i64) -> Timestamp {
    Timestamp { secs, nanos: 0 }
}

/// A lot with one floor on which `free` regular spots are free and the rest
/// of the ten are taken.
fn lot_with_free_regular_spots(free: usize) -> ParkingLot {
    let mut lot = lot();
    lot.add_floor(ParkingFloor::new(1));
    for index in 0..(10 - free) {
        lot.park_vehicle_at(motor(&format!("FILL{}", index)), at(0)).unwrap();
    }
    lot
}

fn spot_is_free(lot: &ParkingLot, floor: u32, spot_id: &str) -> bool {
    lot.floor(floor).unwrap().spot(&spot_id.to_string()).unwrap().is_free()
}

/// A spot of the given class with a bike standing on it.
fn taken(spot_id: &str, spot_type: SpotType) -> ParkingSpot {
    let mut spot = ParkingSpot::new(spot_id.to_string(), true, spot_type);
    spot.assign_vehicle(bike("TAKEN")).unwrap();
    spot
}

#[test]
fn test_parking_lot_initializes_with_required_number_of_floors() {
    let mut parking_lot = ParkingLot::new(
        "Park-Wella Parking Hub".into(),
        "Lagos, Nigeria".into(),
        "1234".into(),
    );

    for i in 1..=5 {
        parking_lot.add_floor(ParkingFloor::new(i));
    }

    assert_eq!(parking_lot.display_info().num_floors(), 5);
}

#[test]
fn new_lot_is_empty() {
    let mut lot = lot();
    let board = lot.display_info();
    assert_eq!(board.uid(), "1234");
    assert_eq!(board.num_floors(), 0);
    assert_eq!(board.num_empty_spots(), 0);
    assert_eq!(board.num_parked_vehicles(), 0);
    assert!(lot.get_floor_by_id(1).is_none());
    assert!(lot.ticket(&"TKT_0".to_string()).is_none());
}

#[test]
fn display_counts_all_spots_as_empty_spots() {
    let mut lot = lot();
    for number in 1..=5 {
        lot.add_floor(ParkingFloor::new(number));
    }
    let first = lot.get_floor_by_id(1).unwrap();
    for index in 0..5 {
        first.add_spot(ParkingSpot::new(format!("large_{}", index), true, SpotType::Large));
    }
    assert_eq!(lot.display_info().num_floors(), 5);
    assert_eq!(lot.display_info().num_empty_spots(), 55);
    assert_eq!(lot.display_info().num_parked_vehicles(), 0);
    lot.park_vehicle_at(motor("ABC123"), at(0)).unwrap();
    lot.park_vehicle_at(truck("XYZ789"), at(0)).unwrap();
    lot.park_vehicle_at(bike("DEF456"), at(0)).unwrap();
    let board = lot.display_info();
    assert_eq!(board.num_floors(), 5);
    // the count shown as empty spots stays the count of all spots
    assert_eq!(board.num_empty_spots(), 55);
    assert_eq!(board.num_parked_vehicles(), 3);
}

#[test]
fn add_floor_with_known_number_overwrites() {
    let mut lot = lot();
    lot.add_floor(ParkingFloor::new(1));
    lot.add_floor(ParkingFloor::new(2));
    let mut replacement = ParkingFloor::new(1);
    replacement.add_spot(taken("extra", SpotType::XLarge));
    lot.add_floor(replacement);
    let board = lot.display_info();
    assert_eq!(board.num_floors(), 2);
    assert_eq!(board.num_empty_spots(), 21);
    assert_eq!(board.num_parked_vehicles(), 1);
    assert_eq!(lot.floor(1).unwrap().spot_count(), 11);
    assert_eq!(lot.floor(2).unwrap().spot_count(), 10);
    assert!(lot.floor(3).is_none());
}

#[test]
fn spot_added_through_the_floor_of_the_lot_is_in_the_lot() {
    let mut lot = ParkingLot::new("L".into(), "A".into(), "1".into());
    lot.add_floor(ParkingFloor::new(1));
    assert_eq!(
        lot.park_vehicle_at(truck("EARLY"), at(0)).unwrap_err(),
        ParkingError::NoAvailableSpot
    );
    let floor = lot.get_floor_by_id(1).unwrap();
    floor.add_spot(ParkingSpot::new("large".to_string(), true, SpotType::Large));
    assert_eq!(lot.display_info().num_empty_spots(), 11);
    assert_eq!(lot.floor(1).unwrap().spot_count(), 11);
    let ticket = lot.park_vehicle(truck("XYZ789")).unwrap();
    assert_eq!(ticket.spot_id, "large");
    assert_eq!(lot.display_info().num_parked_vehicles(), 1);
}

#[test]
fn what_is_done_through_the_floor_of_the_lot_reaches_the_lot() {
    let mut lot = lot();
    lot.add_floor(ParkingFloor::new(1));
    lot.add_floor(ParkingFloor::new(2));
    let ticket = lot.park_vehicle_at(motor("ABC123"), at(0)).unwrap();
    assert!(lot.get_floor_by_id(1).unwrap().vacate(&ticket.spot_id));
    assert!(spot_is_free(&lot, 1, &ticket.spot_id));
    assert_eq!(lot.display_info().num_parked_vehicles(), 0);
    assert_eq!(lot.get_floor_by_id(2).unwrap().id(), 2);
    assert!(lot.get_floor_by_id(3).is_none());
    // a copy is a floor of its own
    let mut copy = lot.floor(2).unwrap().clone();
    copy.add_spot(ParkingSpot::new("extra".to_string(), true, SpotType::Large));
    assert_eq!(copy.spot_count(), 11);
    assert_eq!(lot.floor(2).unwrap().spot_count(), 10);
}

#[test]
fn park_takes_the_first_spot_of_the_first_floor_with_room() {
    let mut lot = lot();
    lot.add_floor(ParkingFloor::new(4));
    lot.add_floor(ParkingFloor::new(2));
    let ticket = lot.park_vehicle_at(motor("ABC123"), Timestamp { secs: 77, nanos: 5 }).unwrap();
    assert_eq!(ticket.ticket_id, "TKT_0");
    assert_eq!(ticket.spot_id, "spot_4_0");
    assert_eq!(ticket.vehicle.license_plate(), "ABC123");
    assert_eq!(ticket.vehicle.model(), "Toyota");
    assert_eq!(ticket.vehicle.vehicle_type(), VehicleType::Motor);
    assert_eq!(ticket.entry_time, Timestamp { secs: 77, nanos: 5 });
    assert_eq!(ticket.exit_time, None);
    assert_eq!(ticket.payment_status, PaymentStatus::Pending);
    assert!(!spot_is_free(&lot, 4, "spot_4_0"));
    let floor = lot.floor(4).unwrap();
    let spot = floor.spot(&"spot_4_0".to_string()).unwrap();
    assert_eq!(spot.vehicle().unwrap().license_plate(), "ABC123");
    let second = lot.park_vehicle_at(bike("DEF456"), at(78)).unwrap();
    assert_eq!(second.ticket_id, "TKT_1");
    assert_eq!(second.spot_id, "spot_4_1");
}

#[test]
fn park_moves_to_the_next_floor_when_the_first_has_no_room() {
    let mut lot = lot();
    lot.add_floor(ParkingFloor::new(1));
    let mut second = ParkingFloor::new(2);
    second.add_spot(ParkingSpot::new("large".to_string(), true, SpotType::Large));
    lot.add_floor(second);
    // trucks fit no regular spot: the first floor has no room for them
    let ticket = lot.park_vehicle_at(truck("XYZ789"), at(0)).unwrap();
    assert_eq!(ticket.spot_id, "large");
    assert!(!spot_is_free(&lot, 2, "large"));
    assert_eq!(
        lot.park_vehicle_at(truck("XYZ790"), at(0)).unwrap_err(),
        ParkingError::NoAvailableSpot
    );
    for index in 0..10 {
        let ticket = lot.park_vehicle_at(motor("M"), at(0)).unwrap();
        assert_eq!(ticket.spot_id, format!("spot_1_{}", index));
    }
    assert_eq!(lot.park_vehicle_at(motor("M"), at(0)).unwrap().spot_id, "spot_2_0");
}

#[test]
fn one_free_regular_spot_takes_one_compact_vehicle() {
    let mut lot = lot_with_free_regular_spots(1);
    let board = lot.display_info();
    assert_eq!(board.num_empty_spots() - board.num_parked_vehicles(), 1);
    let ticket = lot.park_vehicle_at(motor("ABC123"), at(10)).unwrap();
    assert_eq!(ticket.spot_id, "spot_1_9");
    assert_eq!(ticket.ticket_id, "TKT_9");
    assert_eq!(
        lot.park_vehicle_at(motor("XYZ789"), at(11)).unwrap_err(),
        ParkingError::NoAvailableSpot
    );
    // the refused vehicle left no trace
    assert_eq!(lot.display_info().num_parked_vehicles(), 10);
    assert!(lot.ticket(&"TKT_10".to_string()).is_none());
}

#[test]
fn bike_finds_no_room_where_only_a_handicapped_spot_is_free() {
    let mut lot = lot_with_free_regular_spots(0);
    let floor = lot.get_floor_by_id(1).unwrap();
    floor.add_spot(ParkingSpot::new("handicapped".to_string(), true, SpotType::Handicapped));
    assert_eq!(lot.display_info().num_empty_spots(), 11);
    assert_eq!(lot.display_info().num_parked_vehicles(), 10);
    // the lot's search passes over the spot, which does not admit bikes
    assert_eq!(
        lot.park_vehicle_at(bike("DEF456"), at(0)).unwrap_err(),
        ParkingError::NoAvailableSpot
    );
    assert!(spot_is_free(&lot, 1, "handicapped"));
    // the spot itself refuses the bike as incompatible
    let mut spot = ParkingSpot::new("handicapped".to_string(), true, SpotType::Handicapped);
    assert_eq!(spot.assign_vehicle(bike("DEF456")), Err(ParkingError::IncompatibleClass));
    assert!(spot.is_free());
}

#[test]
fn unpark_with_unknown_ticket_is_refused_and_changes_nothing() {
    let mut lot = lot_with_free_regular_spots(7);
    let before = lot.display_info();
    assert_eq!(before.num_parked_vehicles(), 3);
    assert_eq!(
        lot.unpark_vehicle("nonexistent".to_string()).unwrap_err(),
        ParkingError::InvalidTicket
    );
    assert_eq!(
        lot.unpark_vehicle_at("TKT_3".to_string(), at(5)).unwrap_err(),
        ParkingError::InvalidTicket
    );
    assert_eq!(
        lot.unpark_vehicle_at("".to_string(), at(5)).unwrap_err(),
        ParkingError::InvalidTicket
    );
    let after = lot.display_info();
    assert_eq!(after.num_parked_vehicles(), 3);
    assert_eq!(after.num_empty_spots(), before.num_empty_spots());
    assert_eq!(after.num_floors(), before.num_floors());
    for number in 0..3 {
        let ticket = lot.ticket(&format!("TKT_{}", number)).unwrap();
        assert_eq!(ticket.exit_time, None);
        assert_eq!(ticket.payment_status, PaymentStatus::Pending);
    }
}

#[test]
fn park_then_unpark_frees_the_spot_and_closes_the_ticket() {
    let mut lot = lot();
    lot.add_floor(ParkingFloor::new(1));
    lot.add_floor(ParkingFloor::new(2));
    let ticket = lot.park_vehicle_at(motor("ABC123"), at(1_000)).unwrap();
    assert!(!spot_is_free(&lot, 1, &ticket.spot_id));
    assert_eq!(lot.display_info().num_parked_vehicles(), 1);
    let exit = at(1_000 + 3 * 3600 + 59);
    let charge = lot.unpark_vehicle_at(ticket.ticket_id.clone(), exit).unwrap();
    assert_eq!(charge.total, 30);
    assert_eq!(charge.chargeback, 0);
    assert!(spot_is_free(&lot, 1, &ticket.spot_id));
    let floor = lot.floor(1).unwrap();
    assert!(floor.spot(&ticket.spot_id).unwrap().vehicle().is_none());
    assert_eq!(lot.display_info().num_parked_vehicles(), 0);
    let closed = lot.ticket(&ticket.ticket_id).unwrap();
    assert_eq!(closed.ticket_id, "TKT_0");
    assert_eq!(closed.spot_id, ticket.spot_id);
    assert_eq!(closed.entry_time, at(1_000));
    assert_eq!(closed.exit_time, Some(exit));
    assert_eq!(closed.payment_status, PaymentStatus::Succeeded);
    assert_eq!(closed.vehicle.license_plate(), "ABC123");
}

#[test]
fn unpark_bills_by_the_boundaries_of_the_hour() {
    let mut lot = lot();
    lot.add_floor(ParkingFloor::new(1));
    let a = lot.park_vehicle_at(motor("A"), at(0)).unwrap();
    let b = lot.park_vehicle_at(motor("B"), at(0)).unwrap();
    let c = lot.park_vehicle_at(motor("C"), at(0)).unwrap();
    assert_eq!(lot.unpark_vehicle_at(a.ticket_id, at(59 * 60)).unwrap().total, 0);
    assert_eq!(lot.unpark_vehicle_at(b.ticket_id, at(60 * 60)).unwrap().total, 10);
    assert_eq!(lot.unpark_vehicle_at(c.ticket_id, at(119 * 60)).unwrap().total, 10);
}

#[test]
fn freed_spot_is_given_out_again_and_ticket_numbers_go_on() {
    let mut lot = lot_with_free_regular_spots(0);
    assert_eq!(lot.park_vehicle_at(motor("X"), at(0)).unwrap_err(), ParkingError::NoAvailableSpot);
    lot.unpark_vehicle_at("TKT_4".to_string(), at(10)).unwrap();
    assert!(spot_is_free(&lot, 1, "spot_1_4"));
    let ticket = lot.park_vehicle_at(motor("X"), at(20)).unwrap();
    assert_eq!(ticket.spot_id, "spot_1_4");
    assert_eq!(ticket.ticket_id, "TKT_10");
    assert_eq!(lot.ticket(&"TKT_4".to_string()).unwrap().payment_status, PaymentStatus::Succeeded);
    assert_eq!(lot.ticket(&"TKT_10".to_string()).unwrap().payment_status, PaymentStatus::Pending);
}

#[test]
fn open_tickets_never_share_a_spot() {
    let mut lot = lot();
    for number in 1..=3 {
        lot.add_floor(ParkingFloor::new(number));
    }
    let mut open: Vec<ParkingTicket> = Vec::new();
    let mut clock: i64 = 0;
    for round in 0..60 {
        clock += 1;
        if round % 3 == 2 {
            let leaving = open.remove(round % open.len());
            lot.unpark_vehicle_at(leaving.ticket_id, at(clock)).unwrap();
        } else if let Ok(ticket) = lot.park_vehicle_at(motor(&format!("P{}", round)), at(clock)) {
            for other in &open {
                assert_ne!(other.spot_id, ticket.spot_id);
                assert_ne!(other.ticket_id, ticket.ticket_id);
            }
            open.push(ticket);
        }
        assert_eq!(lot.display_info().num_parked_vehicles() as usize, open.len());
    }
    assert_eq!(open.len(), 20);
    for number in 0..40 {
        assert!(lot.ticket(&format!("TKT_{}", number)).is_some());
    }
    assert!(lot.ticket(&"TKT_40".to_string()).is_none());
}

#[test]
fn full_lot_refuses_until_a_vehicle_leaves() {
    let mut lot = lot();
    lot.add_floor(ParkingFloor::new(1));
    lot.add_floor(ParkingFloor::new(2));
    let mut tickets: Vec<ParkingTicket> = Vec::new();
    for index in 0..20 {
        tickets.push(lot.park_vehicle_at(bike(&format!("B{}", index)), at(0)).unwrap());
    }
    assert_eq!(
        lot.park_vehicle_at(bike("LATE"), at(0)).unwrap_err(),
        ParkingError::NoAvailableSpot
    );
    assert_eq!(lot.display_info().num_parked_vehicles(), 20);
    let leaving = tickets.remove(13);
    assert_eq!(leaving.spot_id, "spot_2_3");
    lot.unpark_vehicle_at(leaving.ticket_id, at(1)).unwrap();
    assert_eq!(lot.park_vehicle_at(bike("LATE"), at(2)).unwrap().spot_id, "spot_2_3");
}

#[test]
fn closed_ticket_stays_on_record_and_can_be_presented_again() {
    let mut lot = lot();
    lot.add_floor(ParkingFloor::new(1));
    let ticket = lot.park_vehicle_at(motor("ABC123"), at(0)).unwrap();
    assert_eq!(lot.unpark_vehicle_at(ticket.ticket_id.clone(), at(3600)).unwrap().total, 10);
    // the record is found again: the charge runs from the entry to the new exit
    assert_eq!(lot.unpark_vehicle_at(ticket.ticket_id.clone(), at(7200)).unwrap().total, 20);
    let closed = lot.ticket(&ticket.ticket_id).unwrap();
    assert_eq!(closed.exit_time, Some(at(7200)));
    assert_eq!(closed.payment_status, PaymentStatus::Succeeded);
    assert!(spot_is_free(&lot, 1, "spot_1_0"));
}

#[test]
fn unpark_of_a_spot_that_is_gone_still_closes_the_ticket() {
    let mut lot = lot();
    let mut floor = ParkingFloor::new(1);
    floor.add_spot(ParkingSpot::new("large".to_string(), true, SpotType::Large));
    lot.add_floor(floor);
    let ticket = lot.park_vehicle_at(truck("XYZ789"), at(0)).unwrap();
    assert_eq!(ticket.spot_id, "large");
    // a fresh floor takes the place of the floor that the truck stands on
    lot.add_floor(ParkingFloor::new(1));
    assert!(lot.floor(1).unwrap().spot(&"large".to_string()).is_none());
    assert_eq!(lot.display_info().num_parked_vehicles(), 0);
    let charge = lot.unpark_vehicle_at(ticket.ticket_id.clone(), at(2 * 3600)).unwrap();
    assert_eq!(charge.total, 20);
    assert_eq!(lot.display_info().num_parked_vehicles(), 0);
    assert_eq!(lot.display_info().num_empty_spots(), 10);
    let closed = lot.ticket(&ticket.ticket_id).unwrap();
    assert_eq!(closed.payment_status, PaymentStatus::Succeeded);
    assert_eq!(closed.exit_time, Some(at(2 * 3600)));
}

#[test]
fn unpark_vacates_the_first_floor_that_holds_the_spot_identifier() {
    let mut lot = lot();
    let mut first = ParkingFloor::new(1);
    first.add_spot(taken("shared", SpotType::Large));
    let mut second = ParkingFloor::new(2);
    second.add_spot(ParkingSpot::new("shared".to_string(), true, SpotType::Large));
    lot.add_floor(first);
    lot.add_floor(second);
    let ticket = lot.park_vehicle_at(truck("XYZ789"), at(0)).unwrap();
    assert_eq!(ticket.spot_id, "shared");
    assert!(!spot_is_free(&lot, 1, "shared"));
    assert!(!spot_is_free(&lot, 2, "shared"));
    lot.unpark_vehicle_at(ticket.ticket_id, at(1)).unwrap();
    // two spots share the identifier: the one on the first floor is vacated
    assert!(spot_is_free(&lot, 1, "shared"));
    assert!(!spot_is_free(&lot, 2, "shared"));
}

#[test]
fn park_and_unpark_by_the_clock() {
    let mut lot = lot();
    lot.add_floor(ParkingFloor::new(1));
    let ticket = lot.park_vehicle(motor("ABC123")).unwrap();
    assert!(ticket.entry_time.is_valid());
    // the clock reads a time after 2020-01-01
    assert!(ticket.entry_time.secs > 1_577_836_800);
    assert_eq!(ticket.exit_time, None);
    assert_eq!(ticket.payment_status, PaymentStatus::Pending);
    let charge = lot.unpark_vehicle(ticket.ticket_id.clone()).unwrap();
    assert_eq!(charge.total, 0);
    assert_eq!(charge.chargeback, 0);
    let closed = lot.ticket(&ticket.ticket_id).unwrap();
    let exit = closed.exit_time.unwrap();
    assert!(exit.is_valid());
    assert!((exit.secs, exit.nanos) >= (ticket.entry_time.secs, ticket.entry_time.nanos));
    assert_eq!(closed.payment_status, PaymentStatus::Succeeded);
    assert!(spot_is_free(&lot, 1, &ticket.spot_id));
}

#[test]
fn ticket_issued_by_the_clock_is_pending() {
    let ticket = ParkingTicket::new("TKT_5".to_string(), bike("DEF456"), "spot_1_2".to_string());
    assert_eq!(ticket.ticket_id, "TKT_5");
    assert_eq!(ticket.spot_id, "spot_1_2");
    assert_eq!(ticket.vehicle.license_plate(), "DEF456");
    assert!(ticket.entry_time.is_valid());
    assert!(ticket.entry_time.secs > 1_577_836_800);
    assert_eq!(ticket.exit_time, None);
    assert_eq!(ticket.payment_status, PaymentStatus::Pending);
    let mut copy = ticket.clone();
    copy.close(Timestamp { secs: ticket.entry_time.secs + 1, nanos: 0 });
    assert_eq!(copy.payment_status, PaymentStatus::Succeeded);
    assert_eq!(copy.exit_time, Some(Timestamp { secs: ticket.entry_time.secs + 1, nanos: 0 }));
    assert_eq!(ticket.exit_time, None);
}

#[test]
fn presenting_a_closed_ticket_again_vacates_the_spot_for_whoever_holds_it() {
    let mut lot = lot_with_free_regular_spots(1);
    let first = lot.park_vehicle_at(motor("FIRST"), at(0)).unwrap();
    lot.unpark_vehicle_at(first.ticket_id.clone(), at(10)).unwrap();
    let second = lot.park_vehicle_at(motor("SECOND"), at(20)).unwrap();
    assert_eq!(second.spot_id, first.spot_id);
    // the closed ticket names the spot that the second vehicle stands on
    lot.unpark_vehicle_at(first.ticket_id.clone(), at(30)).unwrap();
    assert!(spot_is_free(&lot, 1, &second.spot_id));
    assert_eq!(lot.ticket(&second.ticket_id).unwrap().exit_time, None);
    let third = lot.park_vehicle_at(motor("THIRD"), at(40)).unwrap();
    assert_eq!(third.spot_id, second.spot_id);
}

#[test]
fn try_display_info_gives_the_board_of_display_info() {
    let mut lot = lot();
    assert_eq!(lot.try_display_info().unwrap().num_floors(), 0);
    lot.add_floor(ParkingFloor::new(9));
    lot.park_vehicle_at(bike("DEF456"), at(0)).unwrap();
    let board = lot.try_display_info().unwrap();
    assert_eq!(board.uid(), "1234");
    assert_eq!(board.num_floors(), 1);
    assert_eq!(board.num_empty_spots(), 10);
    assert_eq!(board.num_parked_vehicles(), 1);
}
