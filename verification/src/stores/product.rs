use vstd::prelude::*;

verus! {

/// An amount of one product: a line of a store's stock, or an order for it.
#[derive(Debug, Clone, Copy, PartialEq, Eq, Structural)]
pub struct Product {
    pub id: i32,
    pub amount: i32,
}

} // verus!
