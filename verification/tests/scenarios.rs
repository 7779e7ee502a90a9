use fulfillment::ecommerce::assignment::choose_store;
use fulfillment::ecommerce::file_reader::read_and_process_file;
use fulfillment::ecommerce::product::Product;
use fulfillment::ecommerce::read_stores::{read_stores, store_ids};
use fulfillment::ecommerce::shared_state::SharedState;
use fulfillment::ecommerce::store_connection::{
    handle_store_connection, Action, ConnectionState, Effect, Event,
};
use fulfillment::stores::product::Product as Stock;
use fulfillment::stores::store::Store;
use fulfillment::stores::store_server::handle;
use fulfillment::wire::frame_order;

#[test]
fn a_rejected_order_is_reassigned_to_the_other_store() {
    let directory = read_stores(&b"id,address\n1,A\n2,B\n".to_vec()).unwrap();
    let stores_ids = store_ids(&directory);
    let mut store_one = Store::with_products(&vec![Stock { id: 7, amount: 3 }]);
    let order = Product { id: 7, amount: 5, stores: Vec::new() };

    let reply = handle(&mut store_one, Some(Stock { id: order.id, amount: order.amount }));
    assert_eq!(reply, Some(0));
    assert_eq!(store_one.available(7), Some(3));

    let step = handle_store_connection(
        &stores_ids[0],
        &stores_ids,
        ConnectionState::AwaitingReply(order),
        Event::Replied(reply.unwrap()),
    );
    assert_eq!(step.state, ConnectionState::Idle);
    assert_eq!(step.action, Action::TakeOrder);
    match step.effect {
        Effect::Reassigned { store, order } => {
            assert_eq!(stores_ids[store], "2");
            assert_eq!(order, Product { id: 7, amount: 5, stores: vec![String::from("1")] });
        }
        other => panic!("the order goes to the other store, not {:?}", other),
    }
}

#[test]
fn an_accepted_order_leaves_the_stock_and_a_failed_delivery_returns_it() {
    let mut store = Store::with_products(&vec![Stock { id: 7, amount: 10 }]);
    assert_eq!(handle(&mut store, Some(Stock { id: 7, amount: 4 })), Some(1));
    assert_eq!(store.available(7), Some(6));
    let order = store.next_delivery().expect("the accepted order was set aside");
    assert_eq!(order, Stock { id: 7, amount: 4 });
    store.settle_delivery(order, false);
    assert_eq!(store.available(7), Some(10));
}

#[test]
fn giving_orders_to_stores() {
    let mut text = vec![String::from("id,amount")];
    for i in 0..100 {
        text.push(format!("{},{}", i % 10, 1 + i % 5));
    }
    let products = match read_and_process_file(&text) {
        Ok(products) => products,
        Err(err) => {
            panic!("Failed to read and process file: {:?}", err);
        }
    };

    let stores = read_stores(&b"id,address\n1,127.0.0.1:9001\n2,127.0.0.1:9002\n".to_vec()).unwrap();
    let store_ids = store_ids(&stores);
    let mut store_states = Vec::new();
    for _ in store_ids.iter() {
        store_states.push(SharedState::new());
    }

    for product in products {
        if let Some(place) = choose_store(&store_ids) {
            store_states[place].push(product);
        }
    }

    let mut orders = store_states[0].products_to_deliver.len();
    orders += store_states[1].products_to_deliver.len();
    assert_eq!(orders, 100);
    assert_eq!(store_states[0].len() + store_states[1].len(), 100);
}

#[test]
fn every_order_ends_taken_or_exhausted() {
    let stores_ids = vec![String::from("1"), String::from("2")];
    let mut stores = vec![
        Store::with_products(&vec![Stock { id: 0, amount: 6 }]),
        Store::with_products(&vec![Stock { id: 0, amount: 9 }]),
    ];
    let mut mailboxes = vec![SharedState::new(), SharedState::new()];
    for i in 0..100 {
        let place = choose_store(&stores_ids).unwrap();
        mailboxes[place].push(Product { id: 0, amount: 1 + i % 3, stores: Vec::new() });
    }
    let mut taken = 0;
    let mut taken_amount = 0;
    let mut exhausted = 0;
    loop {
        let at = match mailboxes.iter().position(|mailbox| !mailbox.is_empty()) {
            Some(at) => at,
            None => break,
        };
        let order = mailboxes[at].pop().unwrap();
        let sending = handle_store_connection(
            &stores_ids[at],
            &stores_ids,
            ConnectionState::Idle,
            Event::OrderTaken(order),
        );
        let line = match &sending.state {
            ConnectionState::Sending(order) => {
                frame_order(format!("{},{}", order.id, order.amount))
            }
            other => panic!("the order is being sent, not {:?}", other),
        };
        assert!(line.ends_with('\n'));
        let sent = handle_store_connection(&stores_ids[at], &stores_ids, sending.state, Event::Sent);
        let (id, amount) = match &sent.state {
            ConnectionState::AwaitingReply(order) => (order.id, order.amount),
            other => panic!("the answer is awaited, not {:?}", other),
        };
        let reply = handle(&mut stores[at], Some(Stock { id, amount })).unwrap();
        let answered = handle_store_connection(
            &stores_ids[at],
            &stores_ids,
            sent.state,
            Event::Replied(reply),
        );
        match answered.effect {
            Effect::Accepted(order) => {
                taken += 1;
                taken_amount += order.amount;
            }
            Effect::Reassigned { store, order } => {
                assert_ne!(store, at);
                mailboxes[store].push(order);
            }
            Effect::Exhausted(order) => {
                assert_eq!(order.stores.len(), 2);
                exhausted += 1;
            }
            other => panic!("an answered order is taken, moved or dropped, not {:?}", other),
        }
    }
    assert_eq!(taken + exhausted, 100);
    assert_eq!(stores[0].blocked_orders() + stores[1].blocked_orders(), taken);
    let left = stores[0].available(0).unwrap() + stores[1].available(0).unwrap();
    assert_eq!(left + taken_amount, 15);
}
