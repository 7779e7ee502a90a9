use vstd::prelude::*;

verus! {

/// Asks for the next order to be read.
#[derive(Debug, Clone, Copy, PartialEq, Eq, Structural)]
pub struct ReadOrder();

/// An order for `amount` of product `id`, as it is received. The answer to it
/// is whether it could be taken.
#[derive(Debug, Clone, Copy, PartialEq, Eq, Structural)]
pub struct ReceiveOrder {
    pub id: i32,
    pub amount: i32,
}

} // verus!
