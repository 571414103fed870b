use parking_lot::{
    is_compatible_pair, ParkingError, ParkingSpot, SpotIdSequence, SpotType, Vehicle, VehicleType,
};

fn vehicle(vehicle_type: VehicleType) -> Vehicle {
    Vehicle::new(vehicle_type, "Model".to_string(), "PLATE".to_string())
}

fn vehicle_types() -> Vec<VehicleType> {
    vec![VehicleType::Motor, VehicleType::Truck, VehicleType::Bike]
}

fn spot_types() -> Vec<SpotType> {
    vec![SpotType::Large, SpotType::Regular, SpotType::XLarge, SpotType::Handicapped]
}

#[test]
fn new_spot_holds_what_it_was_made_with() {
    let spot = ParkingSpot::new("spot_7".to_string(), true, SpotType::XLarge);
    assert_eq!(spot.get_id(), "spot_7");
    assert!(spot.is_free());
    assert_eq!(spot.spot_type(), SpotType::XLarge);
    assert!(spot.vehicle().is_none());
}

#[test]
fn compatibility_table_has_the_twelve_entries() {
    let expected = vec![
        (VehicleType::Motor, SpotType::Large, true),
        (VehicleType::Motor, SpotType::Regular, true),
        (VehicleType::Motor, SpotType::XLarge, true),
        (VehicleType::Motor, SpotType::Handicapped, false),
        (VehicleType::Truck, SpotType::Large, true),
        (VehicleType::Truck, SpotType::Regular, false),
        (VehicleType::Truck, SpotType::XLarge, true),
        (VehicleType::Truck, SpotType::Handicapped, false),
        (VehicleType::Bike, SpotType::Large, true),
        (VehicleType::Bike, SpotType::Regular, true),
        (VehicleType::Bike, SpotType::XLarge, true),
        (VehicleType::Bike, SpotType::Handicapped, false),
    ];
    for (vehicle_type, spot_type, admitted) in expected {
        let spot = ParkingSpot::new("s".to_string(), true, spot_type);
        assert_eq!(spot.is_compatible(&vehicle_type), admitted);
        assert_eq!(is_compatible_pair(vehicle_type, spot_type), admitted);
    }
}

#[test]
fn assign_succeeds_exactly_on_is_compatible_pair() {
    for vehicle_type in vehicle_types() {
        for spot_type in spot_types() {
            let mut spot = ParkingSpot::new("s".to_string(), true, spot_type);
            let admitted = spot.is_compatible(&vehicle_type);
            let outcome = spot.assign_vehicle(vehicle(vehicle_type));
            if admitted {
                assert_eq!(outcome, Ok(()));
                assert!(!spot.is_free());
                assert_eq!(spot.vehicle().unwrap().vehicle_type(), vehicle_type);
            } else {
                assert_eq!(outcome, Err(ParkingError::IncompatibleClass));
                assert!(spot.is_free());
                assert!(spot.vehicle().is_none());
            }
        }
    }
}

#[test]
fn assign_to_occupied_spot_is_refused_and_keeps_the_occupant() {
    let mut spot = ParkingSpot::new("s".to_string(), true, SpotType::Regular);
    let first = Vehicle::new(VehicleType::Motor, "Toyota".to_string(), "ABC123".to_string());
    assert_eq!(spot.assign_vehicle(first), Ok(()));
    let second = Vehicle::new(VehicleType::Bike, "Suzuki".to_string(), "DEF456".to_string());
    assert_eq!(spot.assign_vehicle(second), Err(ParkingError::AlreadyOccupied));
    assert!(!spot.is_free());
    assert_eq!(spot.vehicle().unwrap().license_plate(), "ABC123");
}

#[test]
fn occupied_spot_refuses_incompatible_vehicle_as_occupied() {
    let mut spot = ParkingSpot::new("s".to_string(), true, SpotType::Regular);
    assert_eq!(spot.assign_vehicle(vehicle(VehicleType::Motor)), Ok(()));
    assert_eq!(
        spot.assign_vehicle(vehicle(VehicleType::Truck)),
        Err(ParkingError::AlreadyOccupied)
    );
}

#[test]
fn new_spot_is_free_whatever_the_flag() {
    for spot_type in spot_types() {
        for flag in [true, false] {
            let mut spot = ParkingSpot::new("s".to_string(), flag, spot_type);
            assert!(spot.is_free());
            assert!(spot.vehicle().is_none());
            assert_eq!(spot.spot_type(), spot_type);
            assert_eq!(spot.get_id(), "s");
            // free and without a vehicle: a truck is refused only by the class
            let outcome = spot.assign_vehicle(vehicle(VehicleType::Truck));
            assert_eq!(outcome.is_ok(), spot.is_compatible(&VehicleType::Truck));
        }
    }
}

#[test]
fn spot_is_free_exactly_when_it_holds_no_vehicle() {
    let mut spot = ParkingSpot::new("s".to_string(), true, SpotType::Large);
    assert_eq!(spot.is_free(), spot.vehicle().is_none());
    assert_eq!(spot.assign_vehicle(vehicle(VehicleType::Truck)), Ok(()));
    assert_eq!(spot.is_free(), spot.vehicle().is_none());
    assert_eq!(spot.assign_vehicle(vehicle(VehicleType::Bike)), Err(ParkingError::AlreadyOccupied));
    assert_eq!(spot.is_free(), spot.vehicle().is_none());
    spot.remove_vehicle();
    assert_eq!(spot.is_free(), spot.vehicle().is_none());
    spot.remove_vehicle();
    assert_eq!(spot.is_free(), spot.vehicle().is_none());
}

#[test]
fn spot_id_sequence_hands_out_each_identifier_once() {
    let mut ids = SpotIdSequence::new();
    assert_eq!(ids.next_id(), Some("spot_0".to_string()));
    assert_eq!(ids.next_id(), Some("spot_1".to_string()));
    let mut seen: Vec<String> = vec!["spot_0".to_string(), "spot_1".to_string()];
    for number in 2..300 {
        let id = ids.next_id().unwrap();
        assert_eq!(id, format!("spot_{}", number));
        assert!(!seen.contains(&id));
        seen.push(id);
    }
    let mut other = SpotIdSequence::new();
    assert_eq!(other.next_id(), Some("spot_0".to_string()));
}

#[test]
fn vacate_twice_leaves_the_spot_free_both_times() {
    let mut spot = ParkingSpot::new("s".to_string(), true, SpotType::Regular);
    assert_eq!(spot.assign_vehicle(vehicle(VehicleType::Bike)), Ok(()));
    spot.remove_vehicle();
    assert!(spot.is_free());
    assert!(spot.vehicle().is_none());
    spot.remove_vehicle();
    assert!(spot.is_free());
    assert!(spot.vehicle().is_none());
    assert_eq!(spot.get_id(), "s");
    assert_eq!(spot.spot_type(), SpotType::Regular);
}

#[test]
fn vacating_a_free_spot_changes_nothing() {
    let mut spot = ParkingSpot::new("s".to_string(), true, SpotType::Handicapped);
    spot.remove_vehicle();
    assert!(spot.is_free());
    assert!(spot.vehicle().is_none());
}

#[test]
fn spot_clone_is_equal_and_independent() {
    let mut spot = ParkingSpot::new("s".to_string(), true, SpotType::Regular);
    let copy = spot.clone();
    assert_eq!(spot.assign_vehicle(vehicle(VehicleType::Bike)), Ok(()));
    assert!(copy.is_free());
    assert_eq!(copy.get_id(), "s");
}

#[test]
fn vehicle_keeps_its_fields() {
    let car = Vehicle::new(VehicleType::Truck, "Mac".to_string(), "XYZ789".to_string());
    assert_eq!(car.vehicle_type(), VehicleType::Truck);
    assert_eq!(car.model(), "Mac");
    assert_eq!(car.license_plate(), "XYZ789");
    let copy = car.clone();
    assert_eq!(copy.model(), "Mac");
    assert_eq!(copy.license_plate(), "XYZ789");
    assert_eq!(copy.vehicle_type(), VehicleType::Truck);
}

#[test]
fn error_messages_name_the_failure() {
    assert_eq!(ParkingError::NoAvailableSpot.message(), "No available spots");
    assert_eq!(ParkingError::AlreadyOccupied.message(), "Spot is already occupied");
    assert_eq!(
        ParkingError::IncompatibleClass.message(),
        "Vehicle type not compatible with spot type"
    );
    assert_eq!(ParkingError::InvalidTicket.message(), "Invalid ticket ID");
}
