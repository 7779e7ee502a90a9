use vstd::prelude::*;

verus! {

/// Asks a store to read its next order.
#[derive(Debug, Clone, Copy, PartialEq, Eq, Structural)]
pub struct ReadOrder();

/// An order for `amount` of product `id`, put to a store's inventory. The
/// answer is whether the store reserved the amount.
#[derive(Debug, Clone, Copy, PartialEq, Eq, Structural)]
pub struct ReceiveOrder {
    pub id: i32,
    pub amount: i32,
}

/// Tells a store to hold `amount` of product `id`, already reserved, for a
/// delivery worker.
#[derive(Debug, Clone, Copy, PartialEq, Eq, Structural)]
pub struct BlockProduct {
    pub id: i32,
    pub amount: i32,
}

} // verus!
