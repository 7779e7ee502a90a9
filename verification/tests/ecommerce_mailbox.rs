use fulfillment::ecommerce::product::Product;
use fulfillment::ecommerce::shared_state::SharedState;

fn order(id: i32, amount: i32) -> Product {
    Product { id, amount, stores: Vec::new() }
}

#[test]
fn new_mailbox_is_empty() {
    let mut state = SharedState::new();
    assert!(state.is_empty());
    assert_eq!(state.len(), 0);
    assert!(state.products_to_deliver.is_empty());
    assert_eq!(state.pop(), None);
    assert!(state.is_empty());
}

#[test]
fn push_appends() {
    let mut state = SharedState::new();
    state.push(order(1, 1));
    state.push(order(2, 2));
    assert_eq!(state.len(), 2);
    assert!(!state.is_empty());
    assert_eq!(state.products_to_deliver, vec![order(1, 1), order(2, 2)]);
}

#[test]
fn pop_serves_the_latest_order_first() {
    let mut state = SharedState::new();
    state.push(order(1, 1));
    state.push(order(2, 2));
    state.push(order(3, 3));
    assert_eq!(state.pop(), Some(order(3, 3)));
    state.push(order(4, 4));
    assert_eq!(state.pop(), Some(order(4, 4)));
    assert_eq!(state.pop(), Some(order(2, 2)));
    assert_eq!(state.pop(), Some(order(1, 1)));
    assert_eq!(state.pop(), None);
}

#[test]
fn pushes_are_pops_and_what_is_left() {
    let mut state = SharedState::new();
    let mut pushes = 0;
    let mut pops = 0;
    for round in 0..50 {
        for i in 0..(round % 4) {
            state.push(order(round, i));
            pushes += 1;
        }
        for _ in 0..(round % 3) {
            if state.pop().is_some() {
                pops += 1;
            }
        }
        assert_eq!(pushes, pops + state.len());
    }
    assert!(pops > 0);
    assert!(state.len() > 0);
}
