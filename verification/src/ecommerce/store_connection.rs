use crate::ecommerce::product::{Product, ProductView};
use crate::wire::{decode_reply, REJECTED};
use vstd::prelude::*;

verus! {

/// The seconds to wait after a transport failure before connecting again.
pub const BACKOFF_SECONDS: u64 = 10;

/// The seconds spent on an order before it is sent.
pub const PROCESSING_SECONDS: u64 = 5;

/// The place in `stores` of the first store that is not among `tried`, or
/// `None` when all of them are.
pub open spec fn first_untried(tried: Seq<Seq<char>>, stores: Seq<Seq<char>>) -> Option<int>
    decreases stores.len(),
{
    if stores.len() == 0 {
        None
    } else {
        match first_untried(tried, stores.drop_last()) {
            Some(place) => Some(place),
            None => if tried.contains(stores.last()) {
                None
            } else {
                Some(stores.len() - 1)
            },
        }
    }
}

/// What `first_untried` finds: a store that was not tried, with only tried
/// stores before it; and nothing only when every store was tried.
pub proof fn lemma_first_untried(tried: Seq<Seq<char>>, stores: Seq<Seq<char>>)
    ensures
        match first_untried(tried, stores) {
            Some(place) => {
                &&& 0 <= place < stores.len()
                &&& !tried.contains(stores[place])
                &&& forall|before: int| 0 <= before < place ==> tried.contains(#[trigger] stores[before])
            },
            None => forall|place: int|
                0 <= place < stores.len() ==> tried.contains(#[trigger] stores[place]),
        },
    decreases stores.len(),
{
    if stores.len() > 0 {
        lemma_first_untried(tried, stores.drop_last());
        assert forall|place: int| 0 <= place < stores.len() - 1 implies stores.drop_last()[place]
            == stores[place] by {}
    }
}

/// Whether `store` is among the stores that turned `order` down.
pub fn has_tried(order: &Product, store: &String) -> (tried: bool)
    ensures
        tried == order@.stores.contains(store@),
{
    let mut i: usize = 0;
    while i < order.stores.len()
        invariant
            i <= order.stores.len(),
            forall|before: int| 0 <= before < i ==> order@.stores[before] != store@,
        decreases order.stores.len() - i,
    {
        if order.stores[i] == *store {
            assert(order@.stores[i as int] == store@);
            return true;
        }
        i += 1;
    }
    false
}

/// The store that gets a turned-down order next: the first of `stores_ids`,
/// in their order, that has not turned it down. `None` when every store has:
/// the order is then at its end.
pub fn resolve(order: &Product, stores_ids: &Vec<String>) -> (store: Option<usize>)
    ensures
        match store {
            Some(place) => first_untried(order@.stores, stores_ids.deep_view()) == Some(
                place as int,
            ),
            None => first_untried(order@.stores, stores_ids.deep_view()) is None,
        },
        store matches Some(place) ==> place < stores_ids.len() && !order@.stores.contains(
            stores_ids[place as int]@,
        ),
        forall|before: int|
            0 <= before < (match store {
                Some(place) => place as int,
                None => stores_ids.len() as int,
            }) ==> order@.stores.contains(#[trigger] stores_ids[before]@),
{
    let ghost ids = stores_ids.deep_view();
    let mut i: usize = 0;
    while i < stores_ids.len()
        invariant
            i <= stores_ids.len(),
            ids == stores_ids.deep_view(),
            forall|before: int| 0 <= before < i ==> order@.stores.contains(#[trigger] ids[before]),
        decreases stores_ids.len() - i,
    {
        if !has_tried(order, &stores_ids[i]) {
            proof {
                lemma_first_untried(order@.stores, ids);
                assert(ids[i as int] == stores_ids[i as int]@);
                assert forall|before: int| 0 <= before < i implies order@.stores.contains(
                    #[trigger] stores_ids[before]@,
                ) by {
                    assert(ids[before] == stores_ids[before]@);
                }
            }
            return Some(i);
        }
        i += 1;
    }
    proof {
        lemma_first_untried(order@.stores, ids);
        assert forall|before: int| 0 <= before < stores_ids.len() implies order@.stores.contains(
            #[trigger] stores_ids[before]@,
        ) by {
            assert(ids[before] == stores_ids[before]@);
        }
    }
    None
}

/// Where the connection to one store stands. In `Idle`, `Sending` and
/// `AwaitingReply` the connection is up.
#[derive(Debug, Clone, PartialEq, Eq)]
pub enum ConnectionState {
    /// Down; the backoff runs.
    Disconnected,
    /// An attempt to connect is under way.
    Connecting,
    /// Up, with no order in hand.
    Idle,
    /// Up; the order is being sent.
    Sending(Product),
    /// Up; the order was sent and the store's answer is awaited.
    AwaitingReply(Product),
}

/// What happened on the connection since the last step.
#[derive(Debug, Clone, PartialEq, Eq)]
pub enum Event {
    /// The backoff is over.
    BackoffElapsed,
    /// The attempt to connect succeeded.
    Connected,
    /// The attempt to connect failed.
    ConnectFailed,
    /// The mailbox gave an order.
    OrderTaken(Product),
    /// The order in hand went out.
    Sent,
    /// The order in hand could not be sent.
    SendFailed,
    /// The store answered with this byte.
    Replied(u8),
    /// The store's answer could not be read.
    ReplyFailed,
}

/// What a step did with an order.
#[derive(Debug, Clone, PartialEq, Eq)]
pub enum Effect {
    /// No order changed hands.
    Nothing,
    /// The store took the order.
    Accepted(Product),
    /// The order goes back into the mailbox of this connection's store.
    Requeued(Product),
    /// The order goes into the mailbox of the store at place `store`.
    Reassigned { store: usize, order: Product },
    /// Every store has turned the order down: it is dropped.
    Exhausted(Product),
    /// The answer for the order never came: it is given up.
    Lost(Product),
}

/// What the connection waits for next.
#[derive(Debug, Clone, Copy, PartialEq, Eq, Structural)]
pub enum Action {
    /// Wait this long, then report `BackoffElapsed`.
    Backoff { seconds: u64 },
    /// Connect to the store, then report `Connected` or `ConnectFailed`.
    Connect,
    /// Wait for the mailbox to hold an order, take it, and report
    /// `OrderTaken`.
    TakeOrder,
    /// Spend `pause` seconds on the order in hand, send it, and report `Sent`
    /// or `SendFailed`.
    Send { pause: u64 },
    /// Read the store's answer, then report `Replied` or `ReplyFailed`.
    ReadReply,
}

/// The outcome of a step.
#[derive(Debug, Clone, PartialEq, Eq)]
pub struct Step {
    pub state: ConnectionState,
    pub effect: Effect,
    pub action: Action,
}

pub enum ConnectionStateView {
    Disconnected,
    Connecting,
    Idle,
    Sending(ProductView),
    AwaitingReply(ProductView),
}

pub enum EventView {
    BackoffElapsed,
    Connected,
    ConnectFailed,
    OrderTaken(ProductView),
    Sent,
    SendFailed,
    Replied(u8),
    ReplyFailed,
}

pub enum EffectView {
    Nothing,
    Accepted(ProductView),
    Requeued(ProductView),
    Reassigned { store: int, order: ProductView },
    Exhausted(ProductView),
    Lost(ProductView),
}

pub struct StepView {
    pub state: ConnectionStateView,
    pub effect: EffectView,
    pub action: Action,
}

impl View for ConnectionState {
    type V = ConnectionStateView;

    open spec fn view(&self) -> ConnectionStateView {
        match self {
            ConnectionState::Disconnected => ConnectionStateView::Disconnected,
            ConnectionState::Connecting => ConnectionStateView::Connecting,
            ConnectionState::Idle => ConnectionStateView::Idle,
            ConnectionState::Sending(order) => ConnectionStateView::Sending(order@),
            ConnectionState::AwaitingReply(order) => ConnectionStateView::AwaitingReply(order@),
        }
    }
}

impl View for Event {
    type V = EventView;

    open spec fn view(&self) -> EventView {
        match self {
            Event::BackoffElapsed => EventView::BackoffElapsed,
            Event::Connected => EventView::Connected,
            Event::ConnectFailed => EventView::ConnectFailed,
            Event::OrderTaken(order) => EventView::OrderTaken(order@),
            Event::Sent => EventView::Sent,
            Event::SendFailed => EventView::SendFailed,
            Event::Replied(reply) => EventView::Replied(*reply),
            Event::ReplyFailed => EventView::ReplyFailed,
        }
    }
}

impl View for Effect {
    type V = EffectView;

    open spec fn view(&self) -> EffectView {
        match self {
            Effect::Nothing => EffectView::Nothing,
            Effect::Accepted(order) => EffectView::Accepted(order@),
            Effect::Requeued(order) => EffectView::Requeued(order@),
            Effect::Reassigned { store, order } => EffectView::Reassigned {
                store: *store as int,
                order: order@,
            },
            Effect::Exhausted(order) => EffectView::Exhausted(order@),
            Effect::Lost(order) => EffectView::Lost(order@),
        }
    }
}

impl View for Step {
    type V = StepView;

    open spec fn view(&self) -> StepView {
        StepView { state: self.state@, effect: self.effect@, action: self.action }
    }
}

/// What a connection in `state` waits for.
pub open spec fn awaited(state: ConnectionStateView) -> Action {
    match state {
        ConnectionStateView::Disconnected => Action::Backoff { seconds: BACKOFF_SECONDS },
        ConnectionStateView::Connecting => Action::Connect,
        ConnectionStateView::Idle => Action::TakeOrder,
        ConnectionStateView::Sending(_) => Action::Send { pause: PROCESSING_SECONDS },
        ConnectionStateView::AwaitingReply(_) => Action::ReadReply,
    }
}

/// What becomes of an order that the store `id` answered with `reply`: the
/// store took it unless the answer is `REJECTED`; a rejected order notes the
/// store and goes to the first store that has not turned it down, or is at
/// its end when there is none.
pub open spec fn answered(
    id: Seq<char>,
    stores: Seq<Seq<char>>,
    order: ProductView,
    reply: u8,
) -> EffectView {
    if reply != REJECTED {
        EffectView::Accepted(order)
    } else {
        let turned_down = order.turned_down_by(id);
        match first_untried(turned_down.stores, stores) {
            Some(store) => EffectView::Reassigned { store, order: turned_down },
            None => EffectView::Exhausted(turned_down),
        }
    }
}

/// The step that the connection to store `id` takes from `state` on `event`,
/// among the stores `stores`.
///
/// A connection that is down waits out the backoff and connects again, without
/// end. One that is up takes an order from the mailbox, sends it and reads
/// the answer. An order that could not be sent goes back into the mailbox and
/// the connection is down. An order whose answer could not be read is given
/// up. An event that the state does not wait for changes nothing, but an
/// order that comes with it goes back into the mailbox.
pub open spec fn next_step(
    id: Seq<char>,
    stores: Seq<Seq<char>>,
    state: ConnectionStateView,
    event: EventView,
) -> StepView {
    match (state, event) {
        (ConnectionStateView::Disconnected, EventView::BackoffElapsed) => StepView {
            state: ConnectionStateView::Connecting,
            effect: EffectView::Nothing,
            action: Action::Connect,
        },
        (ConnectionStateView::Connecting, EventView::Connected) => StepView {
            state: ConnectionStateView::Idle,
            effect: EffectView::Nothing,
            action: Action::TakeOrder,
        },
        (ConnectionStateView::Connecting, EventView::ConnectFailed) => StepView {
            state: ConnectionStateView::Disconnected,
            effect: EffectView::Nothing,
            action: Action::Backoff { seconds: BACKOFF_SECONDS },
        },
        (ConnectionStateView::Idle, EventView::OrderTaken(order)) => StepView {
            state: ConnectionStateView::Sending(order),
            effect: EffectView::Nothing,
            action: Action::Send { pause: PROCESSING_SECONDS },
        },
        (ConnectionStateView::Sending(order), EventView::Sent) => StepView {
            state: ConnectionStateView::AwaitingReply(order),
            effect: EffectView::Nothing,
            action: Action::ReadReply,
        },
        (ConnectionStateView::Sending(order), EventView::SendFailed) => StepView {
            state: ConnectionStateView::Disconnected,
            effect: EffectView::Requeued(order),
            action: Action::Backoff { seconds: BACKOFF_SECONDS },
        },
        (ConnectionStateView::AwaitingReply(order), EventView::Replied(reply)) => StepView {
            state: ConnectionStateView::Idle,
            effect: answered(id, stores, order, reply),
            action: Action::TakeOrder,
        },
        (ConnectionStateView::AwaitingReply(order), EventView::ReplyFailed) => StepView {
            state: ConnectionStateView::Idle,
            effect: EffectView::Lost(order),
            action: Action::TakeOrder,
        },
        (_, EventView::OrderTaken(order)) => StepView {
            state,
            effect: EffectView::Requeued(order),
            action: awaited(state),
        },
        _ => StepView { state, effect: EffectView::Nothing, action: awaited(state) },
    }
}

/// The state in which a connection starts, and what it waits for first.
pub fn start() -> (step: Step)
    ensures
        step@ == (StepView {
            state: ConnectionStateView::Connecting,
            effect: EffectView::Nothing,
            action: Action::Connect,
        }),
{
    Step { state: ConnectionState::Connecting, effect: Effect::Nothing, action: Action::Connect }
}

/// What a connection in `state` waits for.
pub fn awaited_action(state: &ConnectionState) -> (action: Action)
    ensures
        action == awaited(state@),
{
    match state {
        ConnectionState::Disconnected => Action::Backoff { seconds: BACKOFF_SECONDS },
        ConnectionState::Connecting => Action::Connect,
        ConnectionState::Idle => Action::TakeOrder,
        ConnectionState::Sending(_) => Action::Send { pause: PROCESSING_SECONDS },
        ConnectionState::AwaitingReply(_) => Action::ReadReply,
    }
}

/// What becomes of `order`, which the store `id` answered with `reply`.
pub fn handle_reply(id: &String, stores_ids: &Vec<String>, order: Product, reply: u8) -> (effect:
    Effect)
    ensures
        effect@ == answered(id@, stores_ids.deep_view(), order@, reply),
{
    if decode_reply(reply) {
        Effect::Accepted(order)
    } else {
        let mut order = order;
        order.add_store(id.clone());
        match resolve(&order, stores_ids) {
            Some(store) => Effect::Reassigned { store, order },
            None => Effect::Exhausted(order),
        }
    }
}

/// One step of the connection to the store `id`: from `state` and what
/// happened, the next state, what became of an order, and what to wait for.
/// `stores_ids` are the ids of all stores, in the order in which a turned-down
/// order tries them.
pub fn handle_store_connection(
    id: &String,
    stores_ids: &Vec<String>,
    state: ConnectionState,
    event: Event,
) -> (step: Step)
    ensures
        step@ == next_step(id@, stores_ids.deep_view(), state@, event@),
{
    match state {
        ConnectionState::Disconnected => match event {
            Event::BackoffElapsed => Step {
                state: ConnectionState::Connecting,
                effect: Effect::Nothing,
                action: Action::Connect,
            },
            other => stay(ConnectionState::Disconnected, other),
        },
        ConnectionState::Connecting => match event {
            Event::Connected => Step {
                state: ConnectionState::Idle,
                effect: Effect::Nothing,
                action: Action::TakeOrder,
            },
            Event::ConnectFailed => Step {
                state: ConnectionState::Disconnected,
                effect: Effect::Nothing,
                action: Action::Backoff { seconds: BACKOFF_SECONDS },
            },
            other => stay(ConnectionState::Connecting, other),
        },
        ConnectionState::Idle => match event {
            Event::OrderTaken(order) => Step {
                state: ConnectionState::Sending(order),
                effect: Effect::Nothing,
                action: Action::Send { pause: PROCESSING_SECONDS },
            },
            other => stay(ConnectionState::Idle, other),
        },
        ConnectionState::Sending(order) => match event {
            Event::Sent => Step {
                state: ConnectionState::AwaitingReply(order),
                effect: Effect::Nothing,
                action: Action::ReadReply,
            },
            Event::SendFailed => Step {
                state: ConnectionState::Disconnected,
                effect: Effect::Requeued(order),
                action: Action::Backoff { seconds: BACKOFF_SECONDS },
            },
            other => stay(ConnectionState::Sending(order), other),
        },
        ConnectionState::AwaitingReply(order) => match event {
            Event::Replied(reply) => Step {
                state: ConnectionState::Idle,
                effect: handle_reply(id, stores_ids, order, reply),
                action: Action::TakeOrder,
            },
            Event::ReplyFailed => Step {
                state: ConnectionState::Idle,
                effect: Effect::Lost(order),
                action: Action::TakeOrder,
            },
            other => stay(ConnectionState::AwaitingReply(order), other),
        },
    }
}

/// The step on an event that `state` does not wait for: the state stays, and
/// an order that came with the event goes back into the mailbox.
fn stay(state: ConnectionState, event: Event) -> (step: Step)
    ensures
        step.state@ == state@,
        step.action == awaited(state@),
        step.effect@ == match event@ {
            EventView::OrderTaken(order) => EffectView::Requeued(order),
            _ => EffectView::Nothing,
        },
{
    let action = awaited_action(&state);
    let effect = match event {
        Event::OrderTaken(order) => Effect::Requeued(order),
        _ => Effect::Nothing,
    };
    Step { state, effect, action }
}

/// An order that waits for the store `at` as it should: the stores that
/// turned it down are stores of `stores`, none is named twice, and `at` is a
/// store that has not turned it down.
pub open spec fn waits_for(order: ProductView, at: Seq<char>, stores: Seq<Seq<char>>) -> bool {
    &&& order.stores.no_duplicates()
    &&& forall|i: int| 0 <= i < order.stores.len() ==> stores.contains(#[trigger] order.stores[i])
    &&& stores.contains(at)
    &&& !order.stores.contains(at)
}

/// An order that no store has turned down waits as it should for whichever
/// store it is handed to first.
pub proof fn lemma_new_order_waits_as_it_should(
    order: ProductView,
    at: Seq<char>,
    stores: Seq<Seq<char>>,
)
    requires
        order.stores.len() == 0,
        stores.contains(at),
    ensures
        waits_for(order, at, stores),
{
}

/// The stores that have turned an order down never hold a store twice and
/// are never more than there are stores; and an order that moves on waits for
/// its next store as it should.
pub proof fn lemma_tried_stores_stay_distinct(
    order: ProductView,
    at: Seq<char>,
    stores: Seq<Seq<char>>,
)
    requires
        waits_for(order, at, stores),
    ensures
        order.turned_down_by(at).stores.no_duplicates(),
        order.turned_down_by(at).stores.len() <= stores.len(),
        forall|i: int|
            0 <= i < order.turned_down_by(at).stores.len() ==> stores.contains(
                #[trigger] order.turned_down_by(at).stores[i],
            ),
        first_untried(order.turned_down_by(at).stores, stores) matches Some(next) ==> waits_for(
            order.turned_down_by(at),
            stores[next],
            stores,
        ),
{
    let tried = order.turned_down_by(at).stores;
    tried.unique_seq_to_set();
    vstd::set_lib::lemma_len_subset(tried.to_set(), stores.to_set());
    stores.lemma_cardinality_of_set();
    lemma_first_untried(tried, stores);
}

/// The orders that a connection in `state` has in hand, by product and
/// amount.
pub open spec fn in_hand(state: ConnectionStateView) -> Seq<(int, int)> {
    match state {
        ConnectionStateView::Sending(order) => seq![(order.id, order.amount)],
        ConnectionStateView::AwaitingReply(order) => seq![(order.id, order.amount)],
        _ => seq![],
    }
}

/// The orders that come with `event`, by product and amount.
pub open spec fn brought(event: EventView) -> Seq<(int, int)> {
    match event {
        EventView::OrderTaken(order) => seq![(order.id, order.amount)],
        _ => seq![],
    }
}

/// The orders that `effect` hands on, by product and amount.
pub open spec fn handed_on(effect: EffectView) -> Seq<(int, int)> {
    match effect {
        EffectView::Nothing => seq![],
        EffectView::Accepted(order) => seq![(order.id, order.amount)],
        EffectView::Requeued(order) => seq![(order.id, order.amount)],
        EffectView::Reassigned { order, .. } => seq![(order.id, order.amount)],
        EffectView::Exhausted(order) => seq![(order.id, order.amount)],
        EffectView::Lost(order) => seq![(order.id, order.amount)],
    }
}

/// No step makes an order vanish or changes what it asks for: the orders in
/// hand and the one that an event brings are, after the step, in hand or
/// handed on.
pub proof fn lemma_step_keeps_every_order(
    id: Seq<char>,
    stores: Seq<Seq<char>>,
    state: ConnectionStateView,
    event: EventView,
)
    ensures
        in_hand(state) + brought(event) == in_hand(next_step(id, stores, state, event).state)
            + handed_on(next_step(id, stores, state, event).effect),
{
}

/// After every step the connection waits for what its new state calls for. So
/// it takes an order from the mailbox only with none in hand: at most one
/// order is on its way to a store at a time.
pub proof fn lemma_one_order_at_a_time(
    id: Seq<char>,
    stores: Seq<Seq<char>>,
    state: ConnectionStateView,
    event: EventView,
)
    ensures
        next_step(id, stores, state, event).action == awaited(
            next_step(id, stores, state, event).state,
        ),
        next_step(id, stores, state, event).action == Action::TakeOrder ==> in_hand(
            next_step(id, stores, state, event).state,
        ).len() == 0,
        in_hand(next_step(id, stores, state, event).state).len() <= 1,
{
}

/// An order leaves a connection for another store only if that store has not
/// turned it down, and is dropped as exhausted only when every store has.
pub proof fn lemma_reassignment_is_to_an_untried_store(
    id: Seq<char>,
    stores: Seq<Seq<char>>,
    order: ProductView,
    reply: u8,
)
    ensures
        match answered(id, stores, order, reply) {
            EffectView::Accepted(taken) => reply != REJECTED && taken == order,
            EffectView::Reassigned { store, order: moved } => {
                &&& reply == REJECTED
                &&& moved == order.turned_down_by(id)
                &&& 0 <= store < stores.len()
                &&& stores[store] != id
                &&& !moved.stores.contains(stores[store])
                &&& forall|before: int|
                    0 <= before < store ==> moved.stores.contains(#[trigger] stores[before])
            },
            EffectView::Exhausted(dropped) => {
                &&& reply == REJECTED
                &&& dropped == order.turned_down_by(id)
                &&& forall|place: int|
                    0 <= place < stores.len() ==> dropped.stores.contains(#[trigger] stores[place])
            },
            _ => false,
        },
{
    let tried = order.turned_down_by(id).stores;
    lemma_first_untried(tried, stores);
    assert(tried.last() == id);
}

} // verus!
