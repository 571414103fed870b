//! A parking lot allocator: floors of spots, vehicles that occupy them,
//! tickets that record each stay, and the charge owed when a stay ends.

pub mod account;
pub mod billing;
pub mod board;
pub mod clock;
pub mod floor;
pub mod kinds;
pub mod label;
pub mod laws;
pub mod lot;
pub mod search;
pub mod spot;
pub mod ticket;
pub mod vehicle;

pub use account::{Account, User, UserView};
pub use billing::{calculate_charge, ParkingCharge, HOURLY_RATE};
pub use board::{BoardView, ParkingLotDisplayBoard};
pub use clock::Timestamp;
pub use floor::{FloorView, ParkingFloor};
pub use kinds::{
    compatible, is_compatible_pair, ParkingError, PaymentStatus, SpotType, VehicleType,
};
pub use lot::{LotView, Parkable, ParkingLot};
pub use spot::{ParkingSpot, SpotIdSequence, SpotView};
pub use ticket::{ParkingTicket, TicketView};
pub use vehicle::{Vehicle, VehicleView};
