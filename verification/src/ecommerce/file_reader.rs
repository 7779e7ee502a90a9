use crate::decimal::{chars_of, decimal_i32, parse_i32_within};
use crate::ecommerce::product::{Product, ProductView};
use vstd::prelude::*;

verus! {

/// Why a line of the orders file holds no order.
#[derive(Debug, Clone, Copy, PartialEq, Eq, Structural)]
pub enum LineError {
    /// The first field is not a number.
    InvalidId,
    /// There is no second field.
    MissingAmount,
    /// The second field is not a number.
    InvalidAmount,
}

/// Why the orders file could not be read: its line `line`, counted from zero
/// with the header, holds no order.
#[derive(Debug, Clone, Copy, PartialEq, Eq, Structural)]
pub struct FileError {
    pub line: usize,
    pub error: LineError,
}

/// Where the field of `line` that starts at `from` ends: at the next comma,
/// or at the end of the line.
pub open spec fn field_end(line: Seq<char>, from: int) -> int
    decreases line.len() - from,
{
    if from >= line.len() || line[from] == ',' {
        from
    } else {
        field_end(line, from + 1)
    }
}

/// The order that `line` holds: the product's id and the amount, two numbers
/// with a comma between them. What follows a second comma is not read. The
/// order has been turned down by no store.
pub open spec fn order_of_line(line: Seq<char>) -> Result<ProductView, LineError> {
    let id_end = field_end(line, 0);
    let amount_end = field_end(line, id_end + 1);
    match decimal_i32(line.subrange(0, id_end)) {
        None => Err(LineError::InvalidId),
        Some(id) => if id_end >= line.len() {
            Err(LineError::MissingAmount)
        } else {
            match decimal_i32(line.subrange(id_end + 1, amount_end)) {
                None => Err(LineError::InvalidAmount),
                Some(amount) => Ok(
                    ProductView { id: id as int, amount: amount as int, stores: Seq::empty() },
                ),
            }
        },
    }
}

/// The end of the field of `chars` that starts at `from`.
fn find_field_end(chars: &Vec<char>, from: usize) -> (end: usize)
    requires
        from <= chars.len(),
    ensures
        end == field_end(chars@, from as int),
        from <= end <= chars.len(),
{
    let mut end: usize = from;
    while end < chars.len() && chars[end] != ','
        invariant
            from <= end <= chars.len(),
            field_end(chars@, from as int) == field_end(chars@, end as int),
        decreases chars.len() - end,
    {
        end += 1;
    }
    end
}

/// Reads the order that `line` holds.
pub fn process_line(line: &str) -> (order: Result<Product, LineError>)
    ensures
        match order {
            Ok(product) => order_of_line(line@) == Ok::<ProductView, LineError>(product@),
            Err(error) => order_of_line(line@) == Err::<ProductView, LineError>(error),
        },
{
    let chars = chars_of(line);
    let id_end = find_field_end(&chars, 0);
    let id = match parse_i32_within(&chars, 0, id_end) {
        Some(id) => id,
        None => {
            return Err(LineError::InvalidId);
        },
    };
    if id_end >= chars.len() {
        return Err(LineError::MissingAmount);
    }
    let amount_end = find_field_end(&chars, id_end + 1);
    let amount = match parse_i32_within(&chars, id_end + 1, amount_end) {
        Some(amount) => amount,
        None => {
            return Err(LineError::InvalidAmount);
        },
    };
    let product = Product { id, amount, stores: Vec::new() };
    assert(product@.stores =~= Seq::<Seq<char>>::empty());
    Ok(product)
}

/// Reads the orders file, given by its lines. The first line is the header and
/// is passed over; every other line has to hold an order. The orders come in
/// the order of their lines. The first line that holds no order fails the
/// whole file.
pub fn read_and_process_file(lines: &Vec<String>) -> (orders: Result<Vec<Product>, FileError>)
    ensures
        match orders {
            Ok(products) => {
                &&& products.len() == if lines.len() == 0 {
                    0
                } else {
                    lines.len() - 1
                }
                &&& forall|i: int|
                    0 <= i < products.len() ==> order_of_line(lines[i + 1]@) == Ok::<
                        ProductView,
                        LineError,
                    >(#[trigger] products[i]@)
            },
            Err(failure) => {
                &&& 1 <= failure.line < lines.len()
                &&& order_of_line(lines[failure.line as int]@) == Err::<ProductView, LineError>(
                    failure.error,
                )
                &&& forall|i: int|
                    1 <= i < failure.line ==> (#[trigger] order_of_line(lines[i]@)) is Ok
            },
        },
{
    let mut products: Vec<Product> = Vec::new();
    if lines.len() == 0 {
        return Ok(products);
    }
    let mut line: usize = 1;
    while line < lines.len()
        invariant
            1 <= line <= lines.len(),
            products.len() == line - 1,
            forall|i: int|
                0 <= i < products.len() ==> order_of_line(lines[i + 1]@) == Ok::<
                    ProductView,
                    LineError,
                >(#[trigger] products[i]@),
            forall|i: int| 1 <= i < line ==> (#[trigger] order_of_line(lines[i]@)) is Ok,
        decreases lines.len() - line,
    {
        match process_line(lines[line].as_str()) {
            Ok(product) => {
                products.push(product);
            },
            Err(error) => {
                return Err(FileError { line, error });
            },
        }
        line += 1;
    }
    Ok(products)
}

} // verus!
