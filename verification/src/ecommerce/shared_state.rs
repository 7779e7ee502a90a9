use crate::ecommerce::product::{Product, ProductView};
use vstd::prelude::*;

verus! {

/// The mailbox of one store: the orders that wait to be sent to it. Whoever
/// shares a mailbox between producers and its one consumer guards it with a
/// lock and wakes the consumer after a `push`.
pub struct SharedState {
    pub products_to_deliver: Vec<Product>,
}

impl View for SharedState {
    type V = Seq<ProductView>;

    open spec fn view(&self) -> Seq<ProductView> {
        self.products_to_deliver@.map_values(|order: Product| order@)
    }
}

impl SharedState {
    /// An empty mailbox.
    pub fn new() -> (state: Self)
        ensures
            state@ == Seq::<ProductView>::empty(),
    {
        let state = SharedState { products_to_deliver: Vec::new() };
        state
    }

    /// How many orders wait.
    pub fn len(&self) -> (count: usize)
        ensures
            count == self@.len(),
    {
        self.products_to_deliver.len()
    }

    /// Whether no order waits.
    pub fn is_empty(&self) -> (empty: bool)
        ensures
            empty == (self@.len() == 0),
    {
        self.products_to_deliver.len() == 0
    }

    /// Puts `order` behind the orders that wait.
    pub fn push(&mut self, order: Product)
        ensures
            final(self)@ == old(self)@.push(order@),
    {
        self.products_to_deliver.push(order);
    }

    /// Takes the order that was put in last, or `None` from an empty mailbox.
    pub fn pop(&mut self) -> (order: Option<Product>)
        ensures
            old(self)@.len() == 0 ==> order is None && final(self)@ == old(self)@,
            old(self)@.len() > 0 ==> {
                &&& order is Some
                &&& order->0@ == old(self)@.last()
                &&& final(self)@ == old(self)@.drop_last()
            },
    {
        let order = self.products_to_deliver.pop();
        order
    }
}

/// One use of a mailbox.
pub enum MailboxUse {
    /// A producer put an order in.
    Push(ProductView),
    /// The consumer asked for an order.
    Pop,
}

/// The mailbox after `uses`, one after the other, on a mailbox that held
/// `waiting`.
pub open spec fn after_uses(waiting: Seq<ProductView>, uses: Seq<MailboxUse>) -> Seq<ProductView>
    decreases uses.len(),
{
    if uses.len() == 0 {
        waiting
    } else {
        let before = after_uses(waiting, uses.drop_last());
        match uses.last() {
            MailboxUse::Push(order) => before.push(order),
            MailboxUse::Pop => if before.len() > 0 {
                before.drop_last()
            } else {
                before
            },
        }
    }
}

/// How many orders `uses` put in.
pub open spec fn pushed(uses: Seq<MailboxUse>) -> nat
    decreases uses.len(),
{
    if uses.len() == 0 {
        0
    } else {
        pushed(uses.drop_last()) + if uses.last() is Push {
            1nat
        } else {
            0nat
        }
    }
}

/// How many orders `uses` took out of a mailbox that held `waiting`.
pub open spec fn popped(waiting: Seq<ProductView>, uses: Seq<MailboxUse>) -> nat
    decreases uses.len(),
{
    if uses.len() == 0 {
        0
    } else {
        popped(waiting, uses.drop_last()) + if uses.last() is Pop && after_uses(
            waiting,
            uses.drop_last(),
        ).len() > 0 {
            1nat
        } else {
            0nat
        }
    }
}

/// No order that was put into a mailbox is lost: what was there and what was
/// put in is what was taken out and what is left.
pub proof fn lemma_no_push_is_lost(waiting: Seq<ProductView>, uses: Seq<MailboxUse>)
    ensures
        waiting.len() + pushed(uses) == popped(waiting, uses) + after_uses(waiting, uses).len(),
    decreases uses.len(),
{
    if uses.len() > 0 {
        lemma_no_push_is_lost(waiting, uses.drop_last());
    }
}

} // verus!
