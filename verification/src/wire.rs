//! What travels between the dispatcher and a store: one order per line one
//! way, one byte per order the other way.

use vstd::prelude::*;

verus! {

/// The byte by which a store says that it reserved an order and will deliver
/// it.
pub const ACCEPTED: u8 = 1;

/// The byte by which a store says that it reserved nothing.
pub const REJECTED: u8 = 0;

/// The character that ends an order's line.
pub const END_OF_ORDER: char = '\n';

/// The byte that answers an order.
pub fn encode_reply(accepted: bool) -> (reply: u8)
    ensures
        reply == if accepted {
            ACCEPTED
        } else {
            REJECTED
        },
{
    if accepted {
        ACCEPTED
    } else {
        REJECTED
    }
}

/// Whether a store's answer says that it took the order: every byte but
/// `REJECTED` does.
pub fn decode_reply(reply: u8) -> (accepted: bool)
    ensures
        accepted == (reply != REJECTED),
{
    reply != REJECTED
}

/// The line that carries an order: its record and the character that ends
/// it.
pub fn frame_order(record: String) -> (line: String)
    ensures
        line@ == record@.push(END_OF_ORDER),
{
    let line = record.concat("\n");
    proof {
        reveal_strlit("\n");
    }
    line
}

} // verus!
