//! The classes of vehicles and spots, the table that says which vehicle may
//! stand where, and the ways an operation can fail.

use vstd::prelude::*;
use vstd::string::*;

verus! {

/// The class of a parking spot.
#[derive(Debug, Clone, Copy, PartialEq, Eq, Structural)]
pub enum SpotType {
    Large,
    Regular,
    XLarge,
    Handicapped,
}

/// The class of a vehicle.
#[derive(Debug, Clone, Copy, PartialEq, Eq, Structural)]
pub enum VehicleType {
    Motor,
    Truck,
    Bike,
}

/// Where the payment for a stay stands.
#[derive(Debug, Clone, Copy, PartialEq, Eq, Structural)]
pub enum PaymentStatus {
    Succeeded,
    Failed,
    Pending,
}

/// Why parking or unparking did not happen.
#[derive(Debug, Clone, Copy, PartialEq, Eq, Structural)]
pub enum ParkingError {
    /// No floor holds a free spot that admits the vehicle.
    NoAvailableSpot,
    /// The spot already holds a vehicle.
    AlreadyOccupied,
    /// The spot's class does not admit the vehicle's class.
    IncompatibleClass,
    /// No ticket with the given identifier is on record.
    InvalidTicket,
}

/// The compatibility table: a handicapped spot admits no vehicle class, a
/// regular spot admits every class but trucks, and large and extra-large
/// spots admit every class.
pub open spec fn compatible(vehicle_type: VehicleType, spot_type: SpotType) -> bool {
    spot_type != SpotType::Handicapped && !(vehicle_type == VehicleType::Truck && spot_type
        == SpotType::Regular)
}

/// Looks the pair up in the compatibility table.
pub fn is_compatible_pair(vehicle_type: VehicleType, spot_type: SpotType) -> (admitted: bool)
    ensures
        admitted == compatible(vehicle_type, spot_type),
{
    match (vehicle_type, spot_type) {
        (VehicleType::Motor, SpotType::Regular) => true,
        (VehicleType::Motor, SpotType::Large) => true,
        (VehicleType::Motor, SpotType::XLarge) => true,
        (VehicleType::Motor, SpotType::Handicapped) => false,
        (VehicleType::Truck, SpotType::Regular) => false,
        (VehicleType::Truck, SpotType::Large) => true,
        (VehicleType::Truck, SpotType::XLarge) => true,
        (VehicleType::Truck, SpotType::Handicapped) => false,
        (VehicleType::Bike, SpotType::Regular) => true,
        (VehicleType::Bike, SpotType::Large) => true,
        (VehicleType::Bike, SpotType::XLarge) => true,
        (VehicleType::Bike, SpotType::Handicapped) => false,
    }
}

impl ParkingError {
    /// The text of the message that describes this error.
    pub open spec fn message_text(self) -> Seq<char> {
        match self {
            ParkingError::NoAvailableSpot => "No available spots"@,
            ParkingError::AlreadyOccupied => "Spot is already occupied"@,
            ParkingError::IncompatibleClass => "Vehicle type not compatible with spot type"@,
            ParkingError::InvalidTicket => "Invalid ticket ID"@,
        }
    }

    /// A message that describes this error.
    pub fn message(&self) -> (text: String)
        ensures
            text@ == self.message_text(),
    {
        match self {
            ParkingError::NoAvailableSpot => String::from_str("No available spots"),
            ParkingError::AlreadyOccupied => String::from_str("Spot is already occupied"),
            ParkingError::IncompatibleClass => String::from_str(
                "Vehicle type not compatible with spot type",
            ),
            ParkingError::InvalidTicket => String::from_str("Invalid ticket ID"),
        }
    }
}

} // verus!
