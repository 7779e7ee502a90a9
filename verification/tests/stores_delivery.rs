use fulfillment::stores::product::Product;
use fulfillment::stores::store::{
    delivery_logic, delivery_outcome, delivery_step, transit_delay, DeliveryMove, DeliveryWorker,
    Store,
    AMOUNT_OF_DELIVERY_PROCESS, DELIVERY_SUCCESS_IN, DELIVERY_SUCCESS_OUT_OF,
    TRANSIT_SECONDS_BELOW, TRANSIT_SECONDS_FROM,
};
use fulfillment::stores::store_server::handle;

fn store_with_orders(stock: i32, amounts: &[i32]) -> Store {
    let mut store = Store::with_products(&vec![Product { id: 1, amount: stock }]);
    for amount in amounts {
        assert_eq!(handle(&mut store, Some(Product { id: 1, amount: *amount })), Some(1));
    }
    store
}

#[test]
fn delivery_constants() {
    assert_eq!(AMOUNT_OF_DELIVERY_PROCESS, 5);
    assert_eq!(DELIVERY_SUCCESS_IN, 4);
    assert_eq!(DELIVERY_SUCCESS_OUT_OF, 5);
    assert_eq!(TRANSIT_SECONDS_FROM, 5);
    assert_eq!(TRANSIT_SECONDS_BELOW, 10);
}

#[test]
fn next_delivery_hands_out_the_latest_order_first() {
    let mut store = store_with_orders(10, &[1, 2, 3]);
    assert_eq!(store.next_delivery(), Some(Product { id: 1, amount: 3 }));
    assert_eq!(store.next_delivery(), Some(Product { id: 1, amount: 2 }));
    assert_eq!(store.next_delivery(), Some(Product { id: 1, amount: 1 }));
    assert_eq!(store.next_delivery(), None);
    assert_eq!(store.next_delivery(), None);
}

#[test]
fn settle_delivery_of_a_delivered_order_changes_nothing() {
    let mut store = store_with_orders(10, &[4]);
    let order = store.next_delivery().unwrap();
    store.settle_delivery(order, true);
    assert_eq!(store.available(1), Some(6));
    assert_eq!(store.blocked_orders(), 0);
}

#[test]
fn settle_delivery_of_a_failed_order_restocks_its_amount() {
    let mut store = store_with_orders(10, &[4]);
    let order = store.next_delivery().unwrap();
    store.settle_delivery(order, false);
    assert_eq!(store.available(1), Some(10));
    assert_eq!(store.blocked_orders(), 0);
}

#[test]
fn delivery_step_of_a_waiting_worker_takes_an_order() {
    let mut store = store_with_orders(10, &[4, 5]);
    let next = delivery_step(&mut store, DeliveryWorker::Waiting, 7, true);
    assert_eq!(
        next,
        DeliveryWorker::Delivering { order: Product { id: 1, amount: 5 }, seconds: 7 }
    );
    assert_eq!(store.blocked_orders(), 1);
    assert_eq!(store.available(1), Some(1));
}

#[test]
fn delivery_step_of_a_waiting_worker_waits_on_when_nothing_is_set_aside() {
    let mut store = store_with_orders(10, &[]);
    assert_eq!(delivery_step(&mut store, DeliveryWorker::Waiting, 7, false), DeliveryWorker::Waiting);
    assert_eq!(store.available(1), Some(10));
}

#[test]
fn delivery_step_ends_a_delivery() {
    let order = Product { id: 1, amount: 4 };
    let mut store = store_with_orders(10, &[4]);
    store.next_delivery();
    let worker = DeliveryWorker::Delivering { order, seconds: 5 };
    assert_eq!(delivery_step(&mut store, worker, 0, true), DeliveryWorker::Waiting);
    assert_eq!(store.available(1), Some(6));
    assert_eq!(delivery_step(&mut store, worker, 0, false), DeliveryWorker::Waiting);
    assert_eq!(store.available(1), Some(10));
}

#[test]
fn a_failed_delivery_of_a_product_that_is_not_listed_lists_it() {
    let order = Product { id: 8, amount: 4 };
    let mut store = store_with_orders(10, &[]);
    assert_eq!(store.available(8), None);
    let worker = DeliveryWorker::Delivering { order, seconds: 5 };
    assert_eq!(delivery_step(&mut store, worker, 0, false), DeliveryWorker::Waiting);
    assert_eq!(store.available(8), Some(4));
    assert_eq!(store.available(1), Some(10));
}

#[test]
fn a_delivery_of_a_product_that_is_not_listed_changes_nothing_when_it_succeeds() {
    let order = Product { id: 8, amount: 4 };
    let mut store = store_with_orders(10, &[]);
    let worker = DeliveryWorker::Delivering { order, seconds: 5 };
    assert_eq!(delivery_step(&mut store, worker, 0, true), DeliveryWorker::Waiting);
    assert_eq!(store.available(8), None);
    store.settle_delivery(order, false);
    assert_eq!(store.available(8), Some(4));
}

#[test]
fn transit_delay_is_from_five_to_under_ten_seconds() {
    let mut seen = Vec::new();
    for _ in 0..500 {
        let seconds = transit_delay();
        assert!((5..10).contains(&seconds));
        if !seen.contains(&seconds) {
            seen.push(seconds);
        }
    }
    assert!(seen.len() > 1);
}

#[test]
fn delivery_outcome_succeeds_about_four_times_in_five() {
    let trials = 10_000;
    let mut delivered = 0;
    for _ in 0..trials {
        if delivery_outcome() {
            delivered += 1;
        }
    }
    let rate = delivered as f64 / trials as f64;
    assert!((rate - 0.8).abs() <= 0.05, "rate {}", rate);
}

#[test]
fn delivery_logic_takes_an_order_and_delivers_or_restocks() {
    for _ in 0..50 {
        let mut store = store_with_orders(10, &[4]);
        let taken = delivery_logic(&mut store, DeliveryWorker::Waiting);
        assert_eq!(taken.delivered, None);
        let (order, seconds) = match taken.next {
            DeliveryWorker::Delivering { order, seconds } => (order, seconds),
            DeliveryWorker::Waiting => panic!("an order was set aside"),
        };
        assert_eq!(order, Product { id: 1, amount: 4 });
        assert!((5..10).contains(&seconds));
        assert_eq!(store.blocked_orders(), 0);
        assert_eq!(store.available(1), Some(6));
        let ended = delivery_logic(&mut store, taken.next);
        assert_eq!(ended.next, DeliveryWorker::Waiting);
        match ended.delivered {
            Some(true) => assert_eq!(store.available(1), Some(6)),
            Some(false) => assert_eq!(store.available(1), Some(10)),
            None => panic!("a delivery ended"),
        }
    }
}

#[test]
fn delivery_logic_sees_both_outcomes() {
    let mut delivered = 0;
    let mut restocked = 0;
    for _ in 0..400 {
        let mut store = store_with_orders(10, &[4]);
        let taken = delivery_logic(&mut store, DeliveryWorker::Waiting);
        let ended = delivery_logic(&mut store, taken.next);
        if ended.delivered == Some(true) {
            assert_eq!(store.available(1), Some(6));
            delivered += 1;
        } else {
            assert_eq!(store.available(1), Some(10));
            restocked += 1;
        }
    }
    assert!(delivered > 0);
    assert!(restocked > 0);
    assert!(delivered > restocked);
}

#[test]
fn delivery_logic_waits_on_when_nothing_is_set_aside() {
    let mut store = store_with_orders(10, &[]);
    let moved = delivery_logic(&mut store, DeliveryWorker::Waiting);
    assert_eq!(moved, DeliveryMove { next: DeliveryWorker::Waiting, delivered: None });
    assert_eq!(store.available(1), Some(10));
}

#[test]
fn inventory_is_conserved_but_for_what_was_delivered() {
    let mut store = store_with_orders(12, &[3, 4, 5]);
    assert_eq!(store.available(1), Some(0));
    let mut delivered_amount = 0;
    let outcomes = [true, false, true];
    for delivered in outcomes {
        let worker = delivery_step(&mut store, DeliveryWorker::Waiting, 5, true);
        if let DeliveryWorker::Delivering { order, .. } = worker {
            if delivered {
                delivered_amount += order.amount;
            }
        }
        delivery_step(&mut store, worker, 0, delivered);
    }
    assert_eq!(delivered_amount, 5 + 3);
    assert_eq!(store.available(1), Some(12 - delivered_amount));
    assert_eq!(store.blocked_orders(), 0);
}
