//! Callbacks through which a client hands decoded responses to the
//! application.

use vstd::prelude::*;

use crate::client::services::CoilDelivery;
use crate::models::coil::Coils;

verus! {

/// The callbacks an application has received, oldest first.
pub type DeliveryLog = Seq<CoilDelivery>;

/// Receives the results of coil requests.
pub trait CoilResponse {
    /// The callbacks received so far, each with its arguments.
    spec fn spec_deliveries(&self) -> DeliveryLog;

    /// A Read Coils response for `quantity` coils arrived.
    fn read_coils_response(&mut self, txn_id: u16, unit_id: u8, coils: &Coils, quantity: u16)
        ensures
            final(self).spec_deliveries() == old(self).spec_deliveries().push(
                CoilDelivery::Coils { txn_id, unit_id, coils: *coils, quantity },
            ),
    ;

    /// A response to a single-coil read arrived.
    fn read_single_coil_response(&mut self, txn_id: u16, unit_id: u8, address: u16, value: bool)
        ensures
            final(self).spec_deliveries() == old(self).spec_deliveries().push(
                CoilDelivery::SingleCoil { txn_id, unit_id, address, value },
            ),
    ;
}

} // verus!
