use parking_lot::{Account, User, Vehicle, VehicleType};

fn car(plate: &str) -> Vehicle {
    Vehicle::new(VehicleType::Motor, "Toyota".to_string(), plate.to_string())
}

fn plate_under(user: &User, vehicle_id: &str) -> Option<String> {
    user.get_vehicle_by_id(vehicle_id.to_string()).map(|kept| kept.license_plate().to_string())
}

#[test]
fn new_user_has_no_vehicles() {
    let user = User::new("Larry".to_string(), "123".to_string());
    assert_eq!(user.name(), "Larry");
    assert_eq!(user.phone(), "123");
    assert!(user.get_vehicle_by_id("veh_1".to_string()).is_none());
}

#[test]
fn register_numbers_vehicles_from_one() {
    let mut user = User::new("Larry".to_string(), "123".to_string());
    assert_eq!(user.register_vehicle(car("ABC123")), "veh_1");
    assert_eq!(user.register_vehicle(car("XYZ789")), "veh_2");
    assert_eq!(user.register_vehicle(car("DEF456")), "veh_3");
    assert_eq!(plate_under(&user, "veh_1"), Some("ABC123".to_string()));
    assert_eq!(plate_under(&user, "veh_2"), Some("XYZ789".to_string()));
    assert_eq!(plate_under(&user, "veh_3"), Some("DEF456".to_string()));
    assert_eq!(plate_under(&user, "veh_4"), None);
    assert_eq!(plate_under(&user, "veh_0"), None);
    assert_eq!(plate_under(&user, "ABC123"), None);
}

#[test]
fn remove_takes_the_vehicle_off_and_leaves_the_others() {
    let mut user = User::new("Larry".to_string(), "123".to_string());
    let first = user.register_vehicle(car("ABC123"));
    let second = user.register_vehicle(car("XYZ789"));
    let third = user.register_vehicle(car("DEF456"));
    user.remove_vehicle(car("XYZ789"));
    assert_eq!(plate_under(&user, &second), None);
    assert_eq!(plate_under(&user, &first), Some("ABC123".to_string()));
    assert_eq!(plate_under(&user, &third), Some("DEF456".to_string()));
}

#[test]
fn remove_of_a_vehicle_just_registered_leaves_nothing_under_its_identifier() {
    let mut user = User::new("Larry".to_string(), "123".to_string());
    let vehicle = car("ABC123");
    let vehicle_id = user.register_vehicle(vehicle.clone());
    assert!(user.get_vehicle_by_id(vehicle_id.clone()).is_some());
    user.remove_vehicle(vehicle);
    assert!(user.get_vehicle_by_id(vehicle_id).is_none());
}

#[test]
fn remove_of_an_unknown_vehicle_changes_nothing() {
    let mut user = User::new("Larry".to_string(), "123".to_string());
    user.register_vehicle(car("ABC123"));
    user.register_vehicle(car("XYZ789"));
    user.remove_vehicle(car("veh_1"));
    user.remove_vehicle(car("NOPE"));
    assert_eq!(plate_under(&user, "veh_1"), Some("ABC123".to_string()));
    assert_eq!(plate_under(&user, "veh_2"), Some("XYZ789".to_string()));
}

#[test]
fn remove_takes_off_every_entry_with_the_license_plate() {
    let mut user = User::new("Larry".to_string(), "123".to_string());
    user.register_vehicle(car("ABC123"));
    user.register_vehicle(car("XYZ789"));
    user.register_vehicle(car("ABC123"));
    let same_plate = Vehicle::new(VehicleType::Truck, "Other".to_string(), "ABC123".to_string());
    user.remove_vehicle(same_plate);
    assert_eq!(plate_under(&user, "veh_1"), None);
    assert_eq!(plate_under(&user, "veh_2"), Some("XYZ789".to_string()));
    assert_eq!(plate_under(&user, "veh_3"), None);
    user.remove_vehicle(car("ABC123"));
    assert_eq!(plate_under(&user, "veh_2"), Some("XYZ789".to_string()));
}

#[test]
fn register_after_remove_gives_an_identifier_not_given_before() {
    let mut user = User::new("Larry".to_string(), "123".to_string());
    user.register_vehicle(car("ABC123"));
    user.register_vehicle(car("XYZ789"));
    user.remove_vehicle(car("ABC123"));
    assert_eq!(user.register_vehicle(car("NEW000")), "veh_3");
    assert_eq!(plate_under(&user, "veh_1"), None);
    assert_eq!(plate_under(&user, "veh_2"), Some("XYZ789".to_string()));
    assert_eq!(plate_under(&user, "veh_3"), Some("NEW000".to_string()));
    user.remove_vehicle(car("XYZ789"));
    user.remove_vehicle(car("NEW000"));
    assert_eq!(user.register_vehicle(car("ABC123")), "veh_4");
    assert_eq!(plate_under(&user, "veh_4"), Some("ABC123".to_string()));
    assert_eq!(plate_under(&user, "veh_3"), None);
}
