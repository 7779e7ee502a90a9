use crate::catalog::{csv_records, read_records};
use crate::decimal::{decimal_i32, parse_i32};
use crate::rng::gen_range;
use crate::stores::messages::ReceiveOrder;
use vstd::prelude::*;

verus! {

/// A store waits at least `ORDER_PAUSE_FROM` seconds before it takes up the
/// next order of its own file, and less than `ORDER_PAUSE_BELOW`.
pub const ORDER_PAUSE_FROM: i32 = 1;

pub const ORDER_PAUSE_BELOW: i32 = 5;

/// Why a record of a store's orders file holds no order.
#[derive(Debug, Clone, Copy, PartialEq, Eq, Structural)]
pub enum RecordError {
    /// The record has no field.
    MissingId,
    /// The first field is not a number.
    InvalidId,
    /// The record has no second field.
    MissingAmount,
    /// The second field is not a number.
    InvalidAmount,
}

/// Why a store's orders file could not be read to its end.
#[derive(Debug)]
pub enum OrdersError {
    /// The text is not in comma-separated records: the error that the `csv`
    /// reader gave.
    Csv(csv::Error),
    /// The record `record`, counted from zero after the header, holds no
    /// order.
    Record { record: usize, error: RecordError },
}

/// The orders of a store's own file: those that could be read, in their
/// order, and what ended the reading early, if anything did.
#[derive(Debug)]
pub struct StoreOrders {
    pub orders: Vec<ReceiveOrder>,
    pub error: Option<OrdersError>,
}

/// The order that `record` holds: its first field is the product's id, its
/// second the amount.
pub open spec fn order_of_record(record: Seq<Seq<char>>) -> Result<ReceiveOrder, RecordError> {
    if record.len() < 1 {
        Err(RecordError::MissingId)
    } else {
        match decimal_i32(record[0]) {
            None => Err(RecordError::InvalidId),
            Some(id) => if record.len() < 2 {
                Err(RecordError::MissingAmount)
            } else {
                match decimal_i32(record[1]) {
                    None => Err(RecordError::InvalidAmount),
                    Some(amount) => Ok(ReceiveOrder { id, amount }),
                }
            },
        }
    }
}

/// How many of `records`, from the first on, hold an order each.
pub open spec fn readable(records: Seq<Seq<Seq<char>>>) -> int
    decreases records.len(),
{
    if records.len() == 0 {
        0
    } else {
        let before = readable(records.drop_last());
        if before == records.len() - 1 && order_of_record(records.last()) is Ok {
            before + 1
        } else {
            before
        }
    }
}

/// `readable` counts the records before the first that holds no order.
pub proof fn lemma_readable(records: Seq<Seq<Seq<char>>>)
    ensures
        0 <= readable(records) <= records.len(),
        forall|i: int| 0 <= i < readable(records) ==> (#[trigger] order_of_record(records[i])) is Ok,
        readable(records) < records.len() ==> order_of_record(records[readable(records)]) is Err,
    decreases records.len(),
{
    if records.len() > 0 {
        lemma_readable(records.drop_last());
        assert forall|i: int| 0 <= i < records.len() - 1 implies records.drop_last()[i]
            == records[i] by {}
    }
}

/// Reads the order that the record `line` holds.
pub fn process_line(line: &Vec<String>) -> (order: Result<ReceiveOrder, RecordError>)
    ensures
        order == order_of_record(line.deep_view()),
{
    if line.len() < 1 {
        return Err(RecordError::MissingId);
    }
    let id = match parse_i32(line[0].as_str()) {
        Some(id) => id,
        None => {
            return Err(RecordError::InvalidId);
        },
    };
    if line.len() < 2 {
        return Err(RecordError::MissingAmount);
    }
    let amount = match parse_i32(line[1].as_str()) {
        Some(amount) => amount,
        None => {
            return Err(RecordError::InvalidAmount);
        },
    };
    Ok(ReceiveOrder { id, amount })
}

/// The orders that `records` hold, up to the first record that holds none,
/// and the error of that record.
pub fn orders_from_records(records: &Vec<Vec<String>>) -> (read: StoreOrders)
    ensures
        read.orders.len() == readable(records.deep_view()),
        forall|i: int|
            0 <= i < read.orders.len() ==> order_of_record(records[i].deep_view()) == Ok::<
                ReceiveOrder,
                RecordError,
            >(#[trigger] read.orders[i]),
        match read.error {
            None => read.orders.len() == records.len(),
            Some(OrdersError::Record { record, error }) => {
                &&& record == read.orders.len()
                &&& record < records.len()
                &&& order_of_record(records[record as int].deep_view()) == Err::<
                    ReceiveOrder,
                    RecordError,
                >(error)
            },
            Some(OrdersError::Csv(_)) => false,
        },
{
    let mut orders: Vec<ReceiveOrder> = Vec::new();
    let mut i: usize = 0;
    while i < records.len()
        invariant
            i <= records.len(),
            orders.len() == i,
            readable(records.deep_view().take(i as int)) == i,
            forall|earlier: int|
                0 <= earlier < i ==> order_of_record(records[earlier].deep_view()) == Ok::<
                    ReceiveOrder,
                    RecordError,
                >(#[trigger] orders[earlier]),
        decreases records.len() - i,
    {
        assert(records.deep_view().take(i + 1).drop_last() =~= records.deep_view().take(i as int));
        match process_line(&records[i]) {
            Ok(order) => {
                orders.push(order);
            },
            Err(error) => {
                proof {
                    lemma_rest_is_unread(records.deep_view(), i as int);
                }
                return StoreOrders {
                    orders,
                    error: Some(OrdersError::Record { record: i, error }),
                };
            },
        }
        i += 1;
    }
    assert(records.deep_view().take(records.len() as int) =~= records.deep_view());
    StoreOrders { orders, error: None }
}

/// No record is counted after one that holds no order.
proof fn lemma_rest_is_unread(records: Seq<Seq<Seq<char>>>, bad: int)
    requires
        0 <= bad < records.len(),
        readable(records.take(bad)) == bad,
        order_of_record(records[bad]) is Err,
    ensures
        readable(records) == bad,
    decreases records.len(),
{
    if records.len() - 1 == bad {
    } else {
        assert(records.drop_last().take(bad) =~= records.take(bad));
        lemma_rest_is_unread(records.drop_last(), bad);
    }
}

/// Reads a store's own orders file, given by its bytes: comma-separated
/// records under a header line, of each record the first field a product's
/// id and the second the amount. The orders come in the order of their
/// records, up to the first record that holds none or cannot be read.
pub fn process_store_orders(data: &Vec<u8>) -> (read: StoreOrders)
    ensures
        read.orders.len() == readable(csv_records(data@).0),
        forall|i: int|
            0 <= i < read.orders.len() ==> order_of_record(csv_records(data@).0[i]) == Ok::<
                ReceiveOrder,
                RecordError,
            >(#[trigger] read.orders[i]),
        match read.error {
            None => read.orders.len() == csv_records(data@).0.len() && !csv_records(data@).1,
            Some(OrdersError::Record { record, error }) => {
                &&& record == read.orders.len()
                &&& record < csv_records(data@).0.len()
                &&& order_of_record(csv_records(data@).0[record as int]) == Err::<
                    ReceiveOrder,
                    RecordError,
                >(error)
            },
            Some(OrdersError::Csv(_)) => read.orders.len() == csv_records(data@).0.len()
                && csv_records(data@).1,
        },
{
    let (records, failure) = read_records(data);
    let read = orders_from_records(&records);
    match read.error {
        Some(_) => read,
        None => match failure {
            Some(error) => StoreOrders {
                orders: read.orders,
                error: Some(OrdersError::Csv(error)),
            },
            None => read,
        },
    }
}

/// The seconds that a store waits before it takes up the next order of its
/// own file: drawn at random from `ORDER_PAUSE_FROM..ORDER_PAUSE_BELOW`.
pub fn order_pause() -> (seconds: u64)
    ensures
        ORDER_PAUSE_FROM <= seconds < ORDER_PAUSE_BELOW,
{
    let drawn = gen_range(ORDER_PAUSE_FROM, ORDER_PAUSE_BELOW);
    drawn as u64
}

} // verus!
