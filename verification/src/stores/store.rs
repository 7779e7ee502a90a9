use crate::rng::{gen_range, gen_ratio};
use crate::stores::messages::{BlockProduct, ReceiveOrder};
use crate::stores::product::Product;
use std::collections::HashMap;
use vstd::prelude::*;

verus! {

broadcast use vstd::std_specs::hash::group_hash_axioms;

/// How many delivery workers a store runs.
pub const AMOUNT_OF_DELIVERY_PROCESS: u32 = 5;

/// A delivery succeeds `DELIVERY_SUCCESS_IN` times in `DELIVERY_SUCCESS_OUT_OF`.
pub const DELIVERY_SUCCESS_IN: u32 = 4;

pub const DELIVERY_SUCCESS_OUT_OF: u32 = 5;

/// A new store lists the products `0..INITIAL_PRODUCTS`.
pub const INITIAL_PRODUCTS: i32 = 10;

/// A new store holds at least `INITIAL_STOCK_FROM` of each product and less
/// than `INITIAL_STOCK_BELOW`.
pub const INITIAL_STOCK_FROM: i32 = 5;

pub const INITIAL_STOCK_BELOW: i32 = 15;

/// A delivery is on its way for at least `TRANSIT_SECONDS_FROM` seconds and
/// less than `TRANSIT_SECONDS_BELOW`.
pub const TRANSIT_SECONDS_FROM: i32 = 5;

pub const TRANSIT_SECONDS_BELOW: i32 = 10;

/// The amount of product `id` in `stock`. A product that the stock does not
/// list counts as none in stock.
pub open spec fn amount_of(stock: Map<int, int>, id: int) -> int {
    if stock.contains_key(id) {
        stock[id]
    } else {
        0
    }
}

/// Whether `stock` holds at least `amount` of product `id`. A product that the
/// stock does not list cannot be reserved, whatever the amount.
pub open spec fn can_reserve(stock: Map<int, int>, id: int, amount: int) -> bool {
    stock.contains_key(id) && stock[id] >= amount
}

/// The stock after an attempt to reserve `amount` of product `id`: less by
/// `amount` where the reservation succeeds, unchanged where it does not.
pub open spec fn reserve(stock: Map<int, int>, id: int, amount: int) -> Map<int, int> {
    if can_reserve(stock, id, amount) {
        stock.insert(id, stock[id] - amount)
    } else {
        stock
    }
}

/// The stock after `amount` of product `id` came back from a failed delivery:
/// more by `amount`, whatever was there. A product that the stock did not
/// list is listed from then on, with `amount`.
pub open spec fn restock(stock: Map<int, int>, id: int, amount: int) -> Map<int, int> {
    stock.insert(id, amount_of(stock, id) + amount)
}

/// Whether the amount that a reservation leaves fits the integers in which
/// the stock is kept.
pub open spec fn reserve_fits(stock: Map<int, int>, id: int, amount: int) -> bool {
    can_reserve(stock, id, amount) ==> stock[id] - amount <= i32::MAX
}

/// Whether the amount that a restock leaves fits the integers in which the
/// stock is kept.
pub open spec fn restock_fits(stock: Map<int, int>, id: int, amount: int) -> bool {
    i32::MIN <= amount_of(stock, id) + amount <= i32::MAX
}

/// No product of `stock` is below zero.
pub open spec fn stock_nonnegative(stock: Map<int, int>) -> bool {
    forall|id: int| stock.contains_key(id) ==> stock[id] >= 0
}

/// The stock that lists `products` one after the other, a later entry for an
/// id replacing an earlier one.
pub open spec fn stock_of(products: Seq<Product>) -> Map<int, int>
    decreases products.len(),
{
    if products.len() == 0 {
        Map::empty()
    } else {
        stock_of(products.drop_last()).insert(
            products.last().id as int,
            products.last().amount as int,
        )
    }
}

/// The amount of product `id` that `orders` ask for, all together.
pub open spec fn committed(orders: Seq<Product>, id: int) -> int
    decreases orders.len(),
{
    if orders.len() == 0 {
        0
    } else {
        committed(orders.drop_last(), id) + if orders.last().id == id {
            orders.last().amount as int
        } else {
            0
        }
    }
}

/// A store as the contracts see it.
pub struct StoreState {
    /// For each product that the store lists, the amount left.
    pub stock: Map<int, int>,
    /// The accepted orders that wait for a delivery worker, oldest first.
    pub blocked: Seq<Product>,
}

impl StoreState {
    /// The store after an order was put to its inventory.
    pub open spec fn receive(self, id: int, amount: int) -> StoreState {
        StoreState { stock: reserve(self.stock, id, amount), blocked: self.blocked }
    }

    /// The store after a reserved order was set aside for delivery.
    pub open spec fn block(self, order: Product) -> StoreState {
        StoreState { stock: self.stock, blocked: self.blocked.push(order) }
    }

    /// The store after an order from the dispatcher: reserved and set aside if
    /// the stock allows it, nothing changed if not.
    pub open spec fn accept(self, order: Product) -> StoreState {
        if can_reserve(self.stock, order.id as int, order.amount as int) {
            self.receive(order.id as int, order.amount as int).block(order)
        } else {
            self
        }
    }

    /// The store after a delivery worker took the order that was set aside
    /// last.
    pub open spec fn take(self) -> StoreState {
        if self.blocked.len() > 0 {
            StoreState { stock: self.stock, blocked: self.blocked.drop_last() }
        } else {
            self
        }
    }

    /// The store after the delivery of `order` ended: nothing changes when it
    /// was delivered, its amount is back in stock when it was not.
    pub open spec fn settle(self, order: Product, delivered: bool) -> StoreState {
        if delivered {
            self
        } else {
            StoreState {
                stock: restock(self.stock, order.id as int, order.amount as int),
                blocked: self.blocked,
            }
        }
    }

    /// One move of a delivery worker. A worker that waits takes the order set
    /// aside last, if there is one, and is on its way with it for `seconds`;
    /// a worker that was on its way ends its delivery as `delivered` says and
    /// waits again.
    pub open spec fn deliver(self, worker: DeliveryWorker, seconds: u64, delivered: bool) -> (
        StoreState,
        DeliveryWorker,
    ) {
        match worker {
            DeliveryWorker::Waiting => if self.blocked.len() > 0 {
                (self.take(), DeliveryWorker::Delivering { order: self.blocked.last(), seconds })
            } else {
                (self, DeliveryWorker::Waiting)
            },
            DeliveryWorker::Delivering { order, .. } => (
                self.settle(order, delivered),
                DeliveryWorker::Waiting,
            ),
        }
    }

    /// What the store answers for of product `id`: the amount in stock and the
    /// amount set aside for delivery.
    pub open spec fn accounted(self, id: int) -> int {
        amount_of(self.stock, id) + committed(self.blocked, id)
    }

    /// Nothing in stock is below zero, and every order set aside is for no
    /// less than nothing.
    pub open spec fn sound(self) -> bool {
        &&& stock_nonnegative(self.stock)
        &&& forall|i: int| 0 <= i < self.blocked.len() ==> (#[trigger] self.blocked[i]).amount >= 0
    }
}

/// What a delivery worker has in hand.
#[derive(Debug, Clone, Copy, PartialEq, Eq, Structural)]
pub enum DeliveryWorker {
    /// Nothing: the worker waits until an order is set aside.
    Waiting,
    /// `order`, which is on its way for `seconds`.
    Delivering { order: Product, seconds: u64 },
}

impl DeliveryWorker {
    /// The amount of product `id` that the worker has in hand.
    pub open spec fn in_hand(self, id: int) -> int {
        match self {
            DeliveryWorker::Waiting => 0,
            DeliveryWorker::Delivering { order, .. } => if order.id == id {
                order.amount as int
            } else {
                0
            },
        }
    }

    /// What the worker carries, if anything, is for no less than nothing.
    pub open spec fn sound(self) -> bool {
        self matches DeliveryWorker::Delivering { order, .. } ==> order.amount >= 0
    }
}

/// One store: the stock it owns and the orders it has accepted and not yet
/// handed to a delivery worker.
pub struct Store {
    products: HashMap<i32, i32>,
    orders_blocked: Vec<Product>,
}

impl View for Store {
    type V = StoreState;

    closed spec fn view(&self) -> StoreState {
        StoreState {
            stock: Map::new(
                |id: int| i32::MIN <= id <= i32::MAX && self.products@.contains_key(id as i32),
                |id: int| self.products@[id as i32] as int,
            ),
            blocked: self.orders_blocked@,
        }
    }
}

impl Store {
    /// Lists `amount` as what is left of product `id`.
    fn set_amount(&mut self, id: i32, amount: i32)
        ensures
            final(self)@.stock == old(self)@.stock.insert(id as int, amount as int),
            final(self)@.blocked == old(self)@.blocked,
    {
        self.products.insert(id, amount);
    }

    /// A store that lists `products`, a later entry for an id replacing an
    /// earlier one, with no order set aside.
    pub fn with_products(products: &Vec<Product>) -> (store: Store)
        ensures
            store@.stock == stock_of(products@),
            store@.blocked == Seq::<Product>::empty(),
    {
        let mut store = Store { products: HashMap::new(), orders_blocked: Vec::new() };
        let mut i: usize = 0;
        while i < products.len()
            invariant
                i <= products.len(),
                store@.stock == stock_of(products@.take(i as int)),
                store@.blocked == Seq::<Product>::empty(),
            decreases products.len() - i,
        {
            let product = products[i];
            store.set_amount(product.id, product.amount);
            assert(products@.take(i + 1).drop_last() =~= products@.take(i as int));
            i += 1;
        }
        assert(products@.take(products.len() as int) =~= products@);
        store
    }

    /// A store with its opening stock: the products `0..INITIAL_PRODUCTS`, of
    /// each an amount drawn at random from
    /// `INITIAL_STOCK_FROM..INITIAL_STOCK_BELOW`.
    pub fn new() -> (store: Store)
        ensures
            forall|id: int| store@.stock.contains_key(id) <==> 0 <= id < INITIAL_PRODUCTS,
            forall|id: int|
                0 <= id < INITIAL_PRODUCTS ==> INITIAL_STOCK_FROM <= #[trigger] store@.stock[id]
                    && store@.stock[id] < INITIAL_STOCK_BELOW,
            store@.blocked == Seq::<Product>::empty(),
            store@.sound(),
    {
        let mut store = Store { products: HashMap::new(), orders_blocked: Vec::new() };
        let mut product_id: i32 = 0;
        while product_id < INITIAL_PRODUCTS
            invariant
                0 <= product_id <= INITIAL_PRODUCTS,
                forall|id: int| store@.stock.contains_key(id) <==> 0 <= id < product_id,
                forall|id: int|
                    0 <= id < product_id ==> INITIAL_STOCK_FROM <= #[trigger] store@.stock[id]
                        && store@.stock[id] < INITIAL_STOCK_BELOW,
                store@.blocked == Seq::<Product>::empty(),
            decreases INITIAL_PRODUCTS - product_id,
        {
            let random_amount = gen_range(INITIAL_STOCK_FROM, INITIAL_STOCK_BELOW);
            store.set_amount(product_id, random_amount);
            product_id += 1;
        }
        store
    }

    /// Every product that the store lists, and the amount of it, is a number
    /// that the stock's integer type holds. So an amount of no less than
    /// nothing can always be reserved: what it leaves fits.
    pub proof fn lemma_stock_fits(&self)
        ensures
            forall|id: int|
                #![trigger self@.stock.contains_key(id)]
                #![trigger self@.stock[id]]
                self@.stock.contains_key(id) ==> i32::MIN <= id <= i32::MAX && i32::MIN
                    <= self@.stock[id] <= i32::MAX,
            forall|id: int, amount: int|
                i32::MIN <= id <= i32::MAX && amount >= 0 ==> #[trigger] reserve_fits(
                    self@.stock,
                    id,
                    amount,
                ),
    {
    }

    /// The amount of product `id` in stock, or `None` for a product that the
    /// store does not list.
    pub fn available(&self, id: i32) -> (amount: Option<i32>)
        ensures
            amount is Some <==> self@.stock.contains_key(id as int),
            amount matches Some(in_stock) ==> self@.stock[id as int] == in_stock,
    {
        match self.products.get(&id) {
            Some(in_stock) => Some(*in_stock),
            None => None,
        }
    }

    /// How many accepted orders wait for a delivery worker.
    pub fn blocked_orders(&self) -> (count: usize)
        ensures
            count == self@.blocked.len(),
    {
        self.orders_blocked.len()
    }

    /// Reserves `amount` of product `id` if the stock holds that much, and says
    /// whether it did. The new amount has to fit the stock's integer type.
    pub fn get_product(&mut self, id: i32, amount: i32) -> (available: bool)
        requires
            reserve_fits(old(self)@.stock, id as int, amount as int),
        ensures
            available == can_reserve(old(self)@.stock, id as int, amount as int),
            final(self)@ == old(self)@.receive(id as int, amount as int),
            stock_nonnegative(old(self)@.stock) ==> stock_nonnegative(final(self)@.stock),
            old(self)@.sound() ==> final(self)@.sound(),
    {
        match self.available(id) {
            Some(in_stock) => {
                if in_stock >= amount {
                    let new_amount: i32 = in_stock - amount;
                    self.set_amount(id, new_amount);
                    true
                } else {
                    false
                }
            },
            None => false,
        }
    }

    /// Puts an order to the inventory: reserves its amount if the stock holds
    /// that much, and says whether it did.
    pub fn handle_receive_order(&mut self, msg: ReceiveOrder) -> (available: bool)
        requires
            reserve_fits(old(self)@.stock, msg.id as int, msg.amount as int),
        ensures
            available == can_reserve(old(self)@.stock, msg.id as int, msg.amount as int),
            final(self)@ == old(self)@.receive(msg.id as int, msg.amount as int),
            stock_nonnegative(old(self)@.stock) ==> stock_nonnegative(final(self)@.stock),
            old(self)@.sound() ==> final(self)@.sound(),
    {
        let id = msg.id;
        let amount = msg.amount;
        self.get_product(id, amount)
    }

    /// Sets a reserved order aside for the delivery workers.
    pub fn handle_block_product(&mut self, msg: BlockProduct)
        ensures
            final(self)@ == old(self)@.block(Product { id: msg.id, amount: msg.amount }),
            old(self)@.sound() && msg.amount >= 0 ==> final(self)@.sound(),
    {
        self.orders_blocked.push(Product { id: msg.id, amount: msg.amount });
        assert forall|i: int|
            old(self)@.sound() && msg.amount >= 0 && 0 <= i < self@.blocked.len() implies (
        #[trigger] self@.blocked[i]).amount >= 0 by {
            if i < old(self)@.blocked.len() {
                assert(self@.blocked[i] == old(self)@.blocked[i]);
            }
        }
    }

    /// Hands the order that was set aside last to a delivery worker, or `None`
    /// when no order waits.
    pub fn next_delivery(&mut self) -> (order: Option<Product>)
        ensures
            final(self)@ == old(self)@.take(),
            order is Some <==> old(self)@.blocked.len() > 0,
            order matches Some(taken) ==> taken == old(self)@.blocked.last(),
            old(self)@.sound() ==> final(self)@.sound(),
            old(self)@.sound() ==> (order matches Some(taken) ==> taken.amount >= 0),
    {
        self.orders_blocked.pop()
    }

    /// Gives `amount` of product `id` back to the stock, whatever is there. A
    /// product that the store does not list counts as none in stock: it is
    /// listed from then on, with `amount`. The new amount has to fit the
    /// stock's integer type.
    pub fn restore_product(&mut self, id: i32, amount: i32)
        requires
            restock_fits(old(self)@.stock, id as int, amount as int),
        ensures
            final(self)@.stock == restock(old(self)@.stock, id as int, amount as int),
            final(self)@.blocked == old(self)@.blocked,
            old(self)@.sound() && amount >= 0 ==> final(self)@.sound(),
    {
        match self.available(id) {
            Some(in_stock) => {
                let new_amount: i32 = in_stock + amount;
                self.set_amount(id, new_amount);
            },
            None => {
                self.set_amount(id, amount);
            },
        }
    }

    /// Ends the delivery of `order`: a delivered order changes nothing, the
    /// amount of one that was not delivered goes back to the stock.
    pub fn settle_delivery(&mut self, order: Product, delivered: bool)
        requires
            !delivered ==> restock_fits(old(self)@.stock, order.id as int, order.amount as int),
        ensures
            final(self)@ == old(self)@.settle(order, delivered),
            old(self)@.sound() && order.amount >= 0 ==> final(self)@.sound(),
    {
        if !delivered {
            self.restore_product(order.id, order.amount);
        }
    }
}

/// The seconds that a delivery is on its way: drawn at random from
/// `TRANSIT_SECONDS_FROM..TRANSIT_SECONDS_BELOW`.
pub fn transit_delay() -> (seconds: u64)
    ensures
        TRANSIT_SECONDS_FROM <= seconds < TRANSIT_SECONDS_BELOW,
{
    let drawn = gen_range(TRANSIT_SECONDS_FROM, TRANSIT_SECONDS_BELOW);
    drawn as u64
}

/// Whether a delivery succeeds: drawn at random, `true` with a chance of
/// `DELIVERY_SUCCESS_IN` in `DELIVERY_SUCCESS_OUT_OF`.
pub fn delivery_outcome() -> (delivered: bool) {
    gen_ratio(DELIVERY_SUCCESS_IN, DELIVERY_SUCCESS_OUT_OF)
}

/// One move of a delivery worker, with the transit time and the outcome given.
/// A worker that waits takes the order set aside last, if there is one; a
/// worker that was on its way ends its delivery and waits again. To give an
/// amount back, the new amount in stock has to fit its integer type.
pub fn delivery_step(
    store: &mut Store,
    worker: DeliveryWorker,
    seconds: u64,
    delivered: bool,
) -> (next: DeliveryWorker)
    requires
        worker matches DeliveryWorker::Delivering { order, .. } ==> (!delivered ==> restock_fits(
            old(store)@.stock,
            order.id as int,
            order.amount as int,
        )),
    ensures
        (final(store)@, next) == old(store)@.deliver(worker, seconds, delivered),
        old(store)@.sound() && worker.sound() ==> final(store)@.sound() && next.sound(),
{
    match worker {
        DeliveryWorker::Waiting => match store.next_delivery() {
            Some(order) => DeliveryWorker::Delivering { order, seconds },
            None => DeliveryWorker::Waiting,
        },
        DeliveryWorker::Delivering { order, .. } => {
            store.settle_delivery(order, delivered);
            DeliveryWorker::Waiting
        },
    }
}

/// One move of a delivery worker, and how a delivery ended if the move ended
/// one.
#[derive(Debug, Clone, Copy, PartialEq, Eq, Structural)]
pub struct DeliveryMove {
    pub next: DeliveryWorker,
    pub delivered: Option<bool>,
}

/// One move of a delivery worker. A worker that waits takes the order set
/// aside last, if there is one, and is told for how many seconds it is on its
/// way; a worker that was on its way learns whether it delivered, gives the
/// amount back to the stock if it did not, and waits again. The transit time
/// and the outcome are drawn at random: the contract says what holds of every
/// draw.
pub fn delivery_logic(store: &mut Store, worker: DeliveryWorker) -> (moved: DeliveryMove)
    requires
        worker matches DeliveryWorker::Delivering { order, .. } ==> restock_fits(
            old(store)@.stock,
            order.id as int,
            order.amount as int,
        ),
    ensures
        match worker {
            DeliveryWorker::Waiting => {
                &&& moved.delivered is None
                &&& moved.next matches DeliveryWorker::Delivering { seconds, .. }
                    ==> TRANSIT_SECONDS_FROM <= seconds < TRANSIT_SECONDS_BELOW
                &&& (final(store)@, moved.next) == old(store)@.deliver(
                    worker,
                    match moved.next {
                        DeliveryWorker::Delivering { seconds, .. } => seconds,
                        DeliveryWorker::Waiting => 0,
                    },
                    true,
                )
            },
            DeliveryWorker::Delivering { .. } => {
                &&& moved.delivered matches Some(delivered)
                &&& (final(store)@, moved.next) == old(store)@.deliver(worker, 0, delivered)
            },
        },
        old(store)@.sound() && worker.sound() ==> final(store)@.sound() && moved.next.sound(),
{
    match worker {
        DeliveryWorker::Waiting => {
            if store.blocked_orders() == 0 {
                DeliveryMove { next: DeliveryWorker::Waiting, delivered: None }
            } else {
                let seconds = transit_delay();
                let next = delivery_step(store, worker, seconds, true);
                DeliveryMove { next, delivered: None }
            }
        },
        DeliveryWorker::Delivering { .. } => {
            let delivered = delivery_outcome();
            let next = delivery_step(store, worker, 0, delivered);
            DeliveryMove { next, delivered: Some(delivered) }
        },
    }
}

/// An amount that was reserved and then given back leaves the stock as it
/// was.
pub proof fn lemma_restock_reverses_reserve(stock: Map<int, int>, id: int, amount: int)
    requires
        can_reserve(stock, id, amount),
    ensures
        restock(reserve(stock, id, amount), id, amount) == stock,
{
}

/// An order from the dispatcher, taken or not, changes nothing in what the
/// store answers for: what leaves the stock is set aside.
pub proof fn lemma_accept_conserves(state: StoreState, order: Product, id: int)
    ensures
        state.accept(order).accounted(id) == state.accounted(id),
{
    if can_reserve(state.stock, order.id as int, order.amount as int) {
        assert(state.blocked.push(order).drop_last() =~= state.blocked);
    }
}

/// A move of a delivery worker keeps what the store answers for together
/// with what the worker has in hand, but for a delivery that succeeds: that
/// one takes the order's amount away for good. An order whose delivery fails
/// is back in stock in full.
pub proof fn lemma_delivery_conserves(
    state: StoreState,
    worker: DeliveryWorker,
    seconds: u64,
    delivered: bool,
    id: int,
)
    ensures
        ({
            let (after, next) = state.deliver(worker, seconds, delivered);
            after.accounted(id) + next.in_hand(id) == state.accounted(id) + worker.in_hand(id) - (
            if delivered {
                worker.in_hand(id)
            } else {
                0
            })
        }),
{
}

/// Stock that is nowhere below zero stays so when an amount is reserved,
/// whatever the amount.
pub proof fn lemma_reserve_keeps_stock_nonnegative(stock: Map<int, int>, id: int, amount: int)
    requires
        stock_nonnegative(stock),
    ensures
        stock_nonnegative(reserve(stock, id, amount)),
{
}

/// Stock that is nowhere below zero stays so when an amount comes back that
/// does not take its product below zero; an amount of no less than nothing
/// never does.
pub proof fn lemma_restock_keeps_stock_nonnegative(stock: Map<int, int>, id: int, amount: int)
    requires
        stock_nonnegative(stock),
        amount_of(stock, id) + amount >= 0,
    ensures
        stock_nonnegative(restock(stock, id, amount)),
{
}

/// A sound store stays sound when an order is put to its inventory, whatever
/// the order asks for.
pub proof fn lemma_receive_keeps_sound(state: StoreState, id: int, amount: int)
    requires
        state.sound(),
    ensures
        state.receive(id, amount).sound(),
{
}

/// A sound store stays sound when it answers an order for no less than
/// nothing.
pub proof fn lemma_accept_keeps_sound(state: StoreState, order: Product)
    requires
        state.sound(),
        order.amount >= 0,
    ensures
        state.accept(order).sound(),
{
}

/// A sound store and a sound worker stay sound when the worker moves: the
/// stock is never below zero, whether deliveries succeed or fail.
pub proof fn lemma_delivery_keeps_sound(
    state: StoreState,
    worker: DeliveryWorker,
    seconds: u64,
    delivered: bool,
)
    requires
        state.sound(),
        worker.sound(),
    ensures
        state.deliver(worker, seconds, delivered).0.sound(),
        state.deliver(worker, seconds, delivered).1.sound(),
{
}

} // verus!
