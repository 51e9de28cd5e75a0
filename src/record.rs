use vstd::prelude::*;
use crate::amount::Amount;

verus! {

/// One accepted, enriched pending transaction.
#[derive(Clone, Debug)]
pub struct Record {
    pub id: String,
    pub from: String,
    /// Absent for a contract creation.
    pub to: Option<String>,
    pub value: Amount,
}

impl Record {
    pub fn new(id: String, from: String, to: Option<String>, value: Amount) -> (r: Record)
        ensures
            r.id == id,
            r.from == from,
            r.to == to,
            r.value == value,
    {
        Record { id, from, to, value }
    }
}

} // verus!
