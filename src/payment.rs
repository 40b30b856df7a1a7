use vstd::prelude::*;

verus! {

/// The payment rail that a created order is handed to.
#[derive(Debug, Clone, Copy)]
pub struct PaymentService;

impl PaymentService {
    pub fn new() -> (r: PaymentService) {
        PaymentService
    }
}

} // verus!
