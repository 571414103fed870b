use parking_lot::floor::DEFAULT_SPOT_COUNT;
use parking_lot::{ParkingFloor, ParkingSpot, SpotType, Vehicle, VehicleType};

fn id(text: &str) -> String {
    text.to_string()
}

/// A spot of the given class with a bike standing on it.
fn taken(spot_id: &str, spot_type: SpotType) -> ParkingSpot {
    let mut spot = ParkingSpot::new(spot_id.to_string(), true, spot_type);
    let bike = Vehicle::new(VehicleType::Bike, "Suzuki".to_string(), "DEF456".to_string());
    spot.assign_vehicle(bike).unwrap();
    spot
}

#[test]
fn new_floor_has_ten_free_regular_spots() {
    let floor = ParkingFloor::new(3);
    assert_eq!(DEFAULT_SPOT_COUNT, 10);
    assert_eq!(floor.id(), 3);
    assert_eq!(floor.spot_count(), 10);
    assert_eq!(floor.occupied_count(), 0);
    for index in 0..10 {
        let spot_id = format!("spot_3_{}", index);
        let spot = floor.spot(&spot_id).unwrap();
        assert_eq!(spot.get_id(), spot_id);
        assert!(spot.is_free());
        assert_eq!(spot.spot_type(), SpotType::Regular);
        assert!(spot.vehicle().is_none());
    }
    assert!(floor.spot(&id("spot_3_10")).is_none());
    assert!(floor.spot(&id("spot_0")).is_none());
}

#[test]
fn default_spot_identifiers_differ_between_floors() {
    let low = ParkingFloor::new(1);
    let high = ParkingFloor::new(11);
    for index in 0..10 {
        assert!(high.spot(&format!("spot_1_{}", index)).is_none());
        assert!(low.spot(&format!("spot_11_{}", index)).is_none());
    }
    let largest = ParkingFloor::new(u32::MAX);
    assert!(largest.spot(&id("spot_4294967295_9")).is_some());
    let zero = ParkingFloor::new(0);
    assert!(zero.spot(&id("spot_0_0")).is_some());
}

#[test]
fn add_spot_with_new_identifier_appends() {
    let mut floor = ParkingFloor::new(1);
    floor.add_spot(ParkingSpot::new(id("large_1"), true, SpotType::Large));
    assert_eq!(floor.spot_count(), 11);
    let spot = floor.spot(&id("large_1")).unwrap();
    assert_eq!(spot.spot_type(), SpotType::Large);
    assert!(spot.is_free());
}

#[test]
fn add_spot_with_known_identifier_overwrites_in_place() {
    let mut floor = ParkingFloor::new(1);
    floor.add_spot(ParkingSpot::new(id("spot_1_0"), true, SpotType::Handicapped));
    assert_eq!(floor.spot_count(), 10);
    assert_eq!(floor.spot(&id("spot_1_0")).unwrap().spot_type(), SpotType::Handicapped);
    // the first place no longer admits anything, so the search moves on
    assert_eq!(floor.find_available_spot(VehicleType::Motor), Some((1, id("spot_1_1"))));
    floor.add_spot(taken("spot_1_0", SpotType::Regular));
    assert_eq!(floor.spot_count(), 10);
    assert_eq!(floor.occupied_count(), 1);
}

#[test]
fn find_available_spot_is_first_fit() {
    let mut floor = ParkingFloor::new(2);
    assert_eq!(floor.find_available_spot(VehicleType::Motor), Some((2, id("spot_2_0"))));
    assert_eq!(floor.find_available_spot(VehicleType::Bike), Some((2, id("spot_2_0"))));
    // regular spots do not admit trucks
    assert_eq!(floor.find_available_spot(VehicleType::Truck), None);
    floor.add_spot(ParkingSpot::new(id("xl"), true, SpotType::XLarge));
    floor.add_spot(ParkingSpot::new(id("l"), true, SpotType::Large));
    assert_eq!(floor.find_available_spot(VehicleType::Truck), Some((2, id("xl"))));
}

#[test]
fn first_fit_may_spend_a_large_spot_on_a_small_vehicle() {
    let mut floor = ParkingFloor::new(5);
    for index in 0..10 {
        floor.add_spot(taken(&format!("spot_5_{}", index), SpotType::Regular));
    }
    floor.add_spot(ParkingSpot::new(id("xl"), true, SpotType::XLarge));
    floor.add_spot(ParkingSpot::new(id("regular"), true, SpotType::Regular));
    assert_eq!(floor.find_available_spot(VehicleType::Bike), Some((5, id("xl"))));
}

#[test]
fn find_available_spot_skips_handicapped_spots() {
    let mut floor = ParkingFloor::new(1);
    for index in 0..10 {
        floor.add_spot(ParkingSpot::new(
            format!("spot_1_{}", index),
            true,
            SpotType::Handicapped,
        ));
    }
    assert_eq!(floor.find_available_spot(VehicleType::Motor), None);
    assert_eq!(floor.find_available_spot(VehicleType::Truck), None);
    assert_eq!(floor.find_available_spot(VehicleType::Bike), None);
}

#[test]
fn vacate_reports_whether_the_spot_is_there() {
    let mut floor = ParkingFloor::new(1);
    floor.add_spot(taken("closed", SpotType::Regular));
    assert_eq!(floor.occupied_count(), 1);
    assert!(!floor.vacate(&id("nowhere")));
    assert_eq!(floor.occupied_count(), 1);
    assert!(floor.vacate(&id("closed")));
    assert_eq!(floor.occupied_count(), 0);
    assert!(floor.spot(&id("closed")).unwrap().is_free());
    assert!(floor.vacate(&id("closed")));
    assert_eq!(floor.occupied_count(), 0);
    assert_eq!(floor.spot_count(), 11);
}

#[test]
fn floor_clone_is_equal_and_independent() {
    let mut floor = ParkingFloor::new(1);
    let copy = floor.clone();
    floor.add_spot(taken("extra", SpotType::Large));
    assert_eq!(copy.id(), 1);
    assert_eq!(copy.spot_count(), 10);
    assert_eq!(copy.occupied_count(), 0);
    assert_eq!(floor.spot_count(), 11);
    assert_eq!(floor.occupied_count(), 1);
}
