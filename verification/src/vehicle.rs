//! Vehicles.

use vstd::prelude::*;

use crate::kinds::VehicleType;

verus! {

/// A vehicle: its class, its model and the text on its license plate.
#[derive(Debug)]
pub struct Vehicle {
    vehicle_type: VehicleType,
    model: String,
    license_plate: String,
}

/// What a `Vehicle` holds, as plain values.
pub struct VehicleView {
    pub vehicle_type: VehicleType,
    pub model: Seq<char>,
    pub license_plate: Seq<char>,
}

impl View for Vehicle {
    type V = VehicleView;

    closed spec fn view(&self) -> VehicleView {
        VehicleView {
            vehicle_type: self.vehicle_type,
            model: self.model@,
            license_plate: self.license_plate@,
        }
    }
}

impl Vehicle {
    /// A vehicle of the given class, model and license plate.
    pub fn new(vehicle_type: VehicleType, model: String, license_plate: String) -> (vehicle: Self)
        ensures
            vehicle@ == (VehicleView {
                vehicle_type,
                model: model@,
                license_plate: license_plate@,
            }),
    {
        Self { vehicle_type, model, license_plate }
    }

    /// The vehicle's class.
    pub fn vehicle_type(&self) -> (vehicle_type: VehicleType)
        ensures
            vehicle_type == self@.vehicle_type,
    {
        self.vehicle_type
    }

    /// The vehicle's model.
    pub fn model(&self) -> (model: &str)
        ensures
            model@ == self@.model,
    {
        self.model.as_str()
    }

    /// The text on the vehicle's license plate.
    pub fn license_plate(&self) -> (license_plate: &str)
        ensures
            license_plate@ == self@.license_plate,
    {
        self.license_plate.as_str()
    }

    /// Whether the two vehicles carry the same license plate.
    pub fn same_plate(&self, other: &Vehicle) -> (same: bool)
        ensures
            same == (self@.license_plate == other@.license_plate),
    {
        self.license_plate == other.license_plate
    }
}

impl Clone for Vehicle {
    fn clone(&self) -> (copy: Self)
        ensures
            copy@ == self@,
    {
        Self {
            vehicle_type: self.vehicle_type,
            model: self.model.clone(),
            license_plate: self.license_plate.clone(),
        }
    }
}

} // verus!
