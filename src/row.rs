use vstd::prelude::*;
use crate::amount::{decimal_digits, decimal_string};
use crate::record::Record;

verus! {

/// The text of an optional address: empty when absent.
pub open spec fn address_text(a: Option<String>) -> Seq<char> {
    match a {
        Some(s) => s@,
        None => Seq::<char>::empty(),
    }
}

/// The cells of a record's table row: hash, sender, recipient, value in decimal.
pub fn row_cells(r: &Record) -> (cells: Vec<String>)
    ensures
        cells@.len() == 4,
        cells@[0]@ == r.id@,
        cells@[1]@ == r.from@,
        cells@[2]@ == address_text(r.to),
        cells@[3]@ == decimal_digits(r.value.value()),
{
    let mut cells: Vec<String> = Vec::new();
    cells.push(r.id.clone());
    cells.push(r.from.clone());
    let to = match &r.to {
        Some(t) => t.clone(),
        None => String::new(),
    };
    cells.push(to);
    cells.push(decimal_string(&r.value));
    cells
}

} // verus!
