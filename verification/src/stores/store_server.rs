use crate::stores::messages::{BlockProduct, ReceiveOrder};
use crate::stores::product::Product;
use crate::stores::store::{can_reserve, reserve_fits, Store};
use crate::wire::{encode_reply, ACCEPTED, REJECTED};
use vstd::prelude::*;

verus! {

/// Serves one line that came in from the dispatcher. `msg` is the order that
/// the line held, or `None` for a line that held none: such a line is dropped
/// without an answer. An order is put to the inventory; if its amount was
/// reserved it is set aside for delivery and answered with `ACCEPTED`, else it
/// is answered with `REJECTED` and nothing changes. The store never says
/// `ACCEPTED` for an order that it has not set aside.
pub fn handle(store: &mut Store, msg: Option<Product>) -> (reply: Option<u8>)
    requires
        msg matches Some(order) ==> reserve_fits(
            old(store)@.stock,
            order.id as int,
            order.amount as int,
        ),
    ensures
        msg is None ==> reply is None && final(store)@ == old(store)@,
        msg matches Some(order) ==> final(store)@ == old(store)@.accept(order) && reply == Some(
            if can_reserve(old(store)@.stock, order.id as int, order.amount as int) {
                ACCEPTED
            } else {
                REJECTED
            },
        ),
        msg matches Some(order) && old(store)@.sound() && order.amount >= 0 ==> final(store)@.sound(),
{
    match msg {
        Some(product) => {
            let order = ReceiveOrder { id: product.id, amount: product.amount };
            if store.handle_receive_order(order) {
                store.handle_block_product(BlockProduct { id: product.id, amount: product.amount });
                Some(encode_reply(true))
            } else {
                Some(encode_reply(false))
            }
        },
        None => None,
    }
}

} // verus!
