//! Parking tickets: the record of one stay, from entry to exit.

use vstd::prelude::*;

use crate::clock::{current_time, Timestamp};
use crate::kinds::PaymentStatus;
use crate::vehicle::{Vehicle, VehicleView};

verus! {

/// The record of one stay: the vehicle, the spot that it took, when it came
/// and left, and where the payment stands.
#[derive(Debug)]
pub struct ParkingTicket {
    pub ticket_id: String,
    pub vehicle: Vehicle,
    pub spot_id: String,
    pub entry_time: Timestamp,
    pub exit_time: Option<Timestamp>,
    pub payment_status: PaymentStatus,
}

/// What a `ParkingTicket` holds, as plain values.
pub struct TicketView {
    pub ticket_id: Seq<char>,
    pub vehicle: VehicleView,
    pub spot_id: Seq<char>,
    pub entry_time: Timestamp,
    pub exit_time: Option<Timestamp>,
    pub payment_status: PaymentStatus,
}

impl TicketView {
    /// The ticket as it is issued at `entry_time`: the payment pending and
    /// no exit recorded.
    pub open spec fn issued(
        ticket_id: Seq<char>,
        vehicle: VehicleView,
        spot_id: Seq<char>,
        entry_time: Timestamp,
    ) -> TicketView {
        TicketView {
            ticket_id,
            vehicle,
            spot_id,
            entry_time,
            exit_time: None,
            payment_status: PaymentStatus::Pending,
        }
    }

    /// The ticket after the stay has ended at `exit_time` and has been paid.
    pub open spec fn closed_at(self, exit_time: Timestamp) -> TicketView {
        TicketView {
            exit_time: Some(exit_time),
            payment_status: PaymentStatus::Succeeded,
            ..self
        }
    }

    /// Whether the stay is still going on: no exit has been recorded.
    pub open spec fn is_active(self) -> bool {
        self.exit_time is None
    }

    /// The predicate that holds of the tickets with the given identifier.
    pub open spec fn with_id(ticket_id: Seq<char>) -> spec_fn(TicketView) -> bool {
        |ticket: TicketView| ticket.ticket_id == ticket_id
    }
}

impl View for ParkingTicket {
    type V = TicketView;

    open spec fn view(&self) -> TicketView {
        TicketView {
            ticket_id: self.ticket_id@,
            vehicle: self.vehicle@,
            spot_id: self.spot_id@,
            entry_time: self.entry_time,
            exit_time: self.exit_time,
            payment_status: self.payment_status,
        }
    }
}

impl ParkingTicket {
    /// A ticket issued now. The entry time is what the clock gives; the rest
    /// is as `issued_at` makes it.
    pub fn new(ticket_id: String, vehicle: Vehicle, spot_id: String) -> (ticket: Self)
        ensures
            ticket.entry_time.wf(),
            ticket@ == TicketView::issued(ticket_id@, vehicle@, spot_id@, ticket.entry_time),
    {
        let now = current_time();
        Self::issued_at(ticket_id, vehicle, spot_id, now)
    }

    /// A ticket issued at `entry_time`: the payment pending and no exit recorded.
    pub fn issued_at(ticket_id: String, vehicle: Vehicle, spot_id: String, entry_time: Timestamp)
        -> (ticket: Self)
        ensures
            ticket@ == TicketView::issued(ticket_id@, vehicle@, spot_id@, entry_time),
    {
        Self {
            ticket_id,
            vehicle,
            spot_id,
            entry_time,
            exit_time: None,
            payment_status: PaymentStatus::Pending,
        }
    }

    /// Records that the stay has ended at `exit_time` and has been paid.
    pub fn close(&mut self, exit_time: Timestamp)
        ensures
            final(self)@ == old(self)@.closed_at(exit_time),
    {
        self.exit_time = Some(exit_time);
        self.payment_status = PaymentStatus::Succeeded;
    }

    /// Whether the ticket's identifier is the given text.
    pub fn has_id(&self, ticket_id: &String) -> (same: bool)
        ensures
            same == (self@.ticket_id == ticket_id@),
    {
        self.ticket_id == *ticket_id
    }
}

impl Clone for ParkingTicket {
    fn clone(&self) -> (copy: Self)
        ensures
            copy@ == self@,
    {
        Self {
            ticket_id: self.ticket_id.clone(),
            vehicle: self.vehicle.clone(),
            spot_id: self.spot_id.clone(),
            entry_time: self.entry_time,
            exit_time: self.exit_time,
            payment_status: self.payment_status,
        }
    }
}

} // verus!
