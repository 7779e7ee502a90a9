use fulfillment::ecommerce::file_reader::{
    process_line, read_and_process_file, FileError, LineError,
};
use fulfillment::ecommerce::product::Product;

fn order(id: i32, amount: i32) -> Product {
    Product { id, amount, stores: Vec::new() }
}

fn lines(text: &[&str]) -> Vec<String> {
    text.iter().map(|line| line.to_string()).collect()
}

#[test]
fn add_store_appends_one_store() {
    let mut product = order(7, 5);
    product.add_store(String::from("1"));
    assert_eq!(product.stores, vec![String::from("1")]);
    product.add_store(String::from("2"));
    assert_eq!(product.stores, vec![String::from("1"), String::from("2")]);
    assert_eq!(product.id, 7);
    assert_eq!(product.amount, 5);
}

#[test]
fn get_stores_gives_the_stores_in_their_order() {
    let mut product = order(7, 5);
    assert_eq!(product.get_stores(), Vec::<String>::new());
    product.add_store(String::from("b"));
    product.add_store(String::from("a"));
    assert_eq!(product.get_stores(), vec![String::from("b"), String::from("a")]);
    assert_eq!(product.stores, vec![String::from("b"), String::from("a")]);
}

#[test]
fn process_line_reads_id_and_amount() {
    assert_eq!(process_line("7,5"), Ok(order(7, 5)));
    assert_eq!(process_line("0,0"), Ok(order(0, 0)));
    assert_eq!(process_line("-3,+12"), Ok(order(-3, 12)));
    assert_eq!(process_line("2147483647,-2147483648"), Ok(order(i32::MAX, i32::MIN)));
}

#[test]
fn process_line_does_not_read_past_the_second_field() {
    assert_eq!(process_line("7,5,"), Ok(order(7, 5)));
    assert_eq!(process_line("7,5,anything,else"), Ok(order(7, 5)));
}

#[test]
fn process_line_names_what_is_wrong() {
    assert_eq!(process_line(""), Err(LineError::InvalidId));
    assert_eq!(process_line(","), Err(LineError::InvalidId));
    assert_eq!(process_line("x,5"), Err(LineError::InvalidId));
    assert_eq!(process_line(" 7,5"), Err(LineError::InvalidId));
    assert_eq!(process_line("x"), Err(LineError::InvalidId));
    assert_eq!(process_line("7"), Err(LineError::MissingAmount));
    assert_eq!(process_line("7,"), Err(LineError::InvalidAmount));
    assert_eq!(process_line("7,,5"), Err(LineError::InvalidAmount));
    assert_eq!(process_line("7,5 "), Err(LineError::InvalidAmount));
    assert_eq!(process_line("7,5\r"), Err(LineError::InvalidAmount));
    assert_eq!(process_line("7,2147483648"), Err(LineError::InvalidAmount));
}

#[test]
fn read_and_process_file_passes_over_the_header() {
    let orders = read_and_process_file(&lines(&["id,amount", "1,2", "3,4"]));
    assert_eq!(orders, Ok(vec![order(1, 2), order(3, 4)]));
}

#[test]
fn read_and_process_file_passes_over_any_first_line() {
    let orders = read_and_process_file(&lines(&["9,9", "1,2"]));
    assert_eq!(orders, Ok(vec![order(1, 2)]));
}

#[test]
fn read_and_process_file_of_nothing_is_no_order() {
    assert_eq!(read_and_process_file(&Vec::new()), Ok(Vec::new()));
    assert_eq!(read_and_process_file(&lines(&["id,amount"])), Ok(Vec::new()));
}

#[test]
fn read_and_process_file_fails_on_the_first_bad_line() {
    let orders = read_and_process_file(&lines(&["id,amount", "1,2", "3", "x,4"]));
    assert_eq!(orders, Err(FileError { line: 2, error: LineError::MissingAmount }));
    let orders = read_and_process_file(&lines(&["id,amount", "", "1,2"]));
    assert_eq!(orders, Err(FileError { line: 1, error: LineError::InvalidId }));
}

#[test]
fn read_orders_csv() {
    let mut text = vec![String::from("id,amount")];
    for i in 0..100 {
        text.push(format!("{},{}", i % 10, 1 + i % 7));
    }
    let products = match read_and_process_file(&text) {
        Ok(products) => products,
        Err(err) => {
            panic!("Failed to read and process file: {:?}", err);
        }
    };
    assert_eq!(products.len(), 100);
    assert_eq!(products[0], order(0, 1));
    assert_eq!(products[99], order(9, 2));
    assert!(products.iter().all(|product| product.stores.is_empty()));
}
