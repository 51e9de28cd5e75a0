use vstd::prelude::*;
use std::collections::VecDeque;
use crate::record::Record;

verus! {

/// The last `cap` items of `s` (all of `s` when it is shorter).
pub open spec fn last_n(s: Seq<Record>, cap: nat) -> Seq<Record> {
    if s.len() > cap {
        s.subrange(s.len() - cap, s.len() as int)
    } else {
        s
    }
}

/// The records after appending `r` to `rs` under capacity `cap`: the oldest goes first.
pub open spec fn appended(rs: Seq<Record>, r: Record, cap: nat) -> Seq<Record> {
    last_n(rs.push(r), cap)
}

/// The records after appending each of `items` in turn.
pub open spec fn append_all(rs: Seq<Record>, items: Seq<Record>, cap: nat) -> Seq<Record>
    decreases items.len(),
{
    if items.len() == 0 {
        rs
    } else {
        appended(append_all(rs, items.drop_last(), cap), items.last(), cap)
    }
}

/// The selection that points at the newest of `rs`, if any.
pub open spec fn newest(rs: Seq<Record>) -> Option<usize> {
    if rs.len() == 0 {
        None
    } else {
        Some((rs.len() - 1) as usize)
    }
}

/// The selection after a move towards the newest record.
pub open spec fn next_selection(sel: Option<usize>, len: nat) -> Option<usize> {
    match sel {
        Some(i) => if i + 1 < len {
            Some((i + 1) as usize)
        } else {
            sel
        },
        None => None,
    }
}

/// The selection after a move towards the oldest record.
pub open spec fn prev_selection(sel: Option<usize>) -> Option<usize> {
    match sel {
        Some(i) => if i > 0 {
            Some((i - 1) as usize)
        } else {
            sel
        },
        None => None,
    }
}

/// However many records are appended, the view keeps exactly the most recent
/// `cap` of all it has seen, in the order they came; once `cap` have come, it
/// holds exactly `cap`.
pub proof fn lemma_append_keeps_latest(rs: Seq<Record>, items: Seq<Record>, cap: nat)
    requires
        rs.len() <= cap,
    ensures
        append_all(rs, items, cap) == last_n(rs + items, cap),
        append_all(rs, items, cap).len() <= cap,
        rs.len() + items.len() >= cap ==> append_all(rs, items, cap).len() == cap,
    decreases items.len(),
{
    if items.len() == 0 {
        assert(rs + items =~= rs);
    } else {
        let x = items.last();
        lemma_append_keeps_latest(rs, items.drop_last(), cap);
        let p = rs + items.drop_last();
        assert(rs + items =~= p.push(x));
        let a = last_n(p, cap);
        if p.len() > cap {
            let q = p.push(x);
            assert(last_n(a.push(x), cap) =~= q.subrange(q.len() - cap, q.len() as int));
        }
    }
}

/// The records on display, bounded by a capacity, and the selection cursor.
///
/// Every append selects the record just appended, so that the view follows
/// the newest arrival; navigation then moves the cursor among what is kept.
pub struct ViewModel {
    records: VecDeque<Record>,
    selected: Option<usize>,
    capacity: usize,
}

impl ViewModel {
    pub closed spec fn records(&self) -> Seq<Record> {
        self.records@
    }

    pub closed spec fn selection(&self) -> Option<usize> {
        self.selected
    }

    pub closed spec fn capacity(&self) -> nat {
        self.capacity as nat
    }

    /// Bounded length; a selection exactly when there are records, and in range.
    pub open spec fn inv(&self) -> bool {
        &&& self.records().len() <= self.capacity()
        &&& (self.selection() is None <==> self.records().len() == 0)
        &&& (self.selection() matches Some(i) ==> i < self.records().len())
    }

    pub fn new(capacity: usize) -> (r: ViewModel)
        ensures
            r.inv(),
            r.records() == Seq::<Record>::empty(),
            r.selection() is None,
            r.capacity() == capacity,
    {
        ViewModel { records: VecDeque::new(), selected: None, capacity }
    }

    /// Read-only view of the records, oldest first.
    pub fn snapshot(&self) -> (r: &VecDeque<Record>)
        ensures
            r@ == self.records(),
    {
        &self.records
    }

    pub fn selected(&self) -> (r: Option<usize>)
        ensures
            r == self.selection(),
    {
        self.selected
    }

    pub fn capacity_limit(&self) -> (r: usize)
        ensures
            r == self.capacity(),
    {
        self.capacity
    }

    pub fn len(&self) -> (r: usize)
        ensures
            r == self.records().len(),
    {
        self.records.len()
    }

    /// The selected record, if any.
    pub fn selected_record(&self) -> (r: Option<&Record>)
        requires
            self.inv(),
        ensures
            match self.selection() {
                Some(i) => r == Some(&self.records()[i as int]),
                None => r is None,
            },
    {
        match self.selected {
            Some(i) => Some(&self.records[i]),
            None => None,
        }
    }

    /// Appends at the tail, evicting the oldest record when full, and selects
    /// the new record. With capacity zero nothing is ever kept.
    pub fn append(&mut self, r: Record)
        requires
            old(self).inv(),
        ensures
            final(self).inv(),
            final(self).capacity() == old(self).capacity(),
            final(self).records() == appended(old(self).records(), r, old(self).capacity()),
            final(self).selection() == newest(final(self).records()),
    {
        if self.capacity == 0 {
            assert(self.records@ =~= last_n(old(self).records().push(r), 0));
            return;
        }
        if self.records.len() == self.capacity {
            let _ = self.records.pop_front();
        }
        self.records.push_back(r);
        self.selected = Some(self.records.len() - 1);
        proof {
            let s = old(self).records().push(r);
            if s.len() > self.capacity() {
                assert(self.records@ =~= s.subrange(s.len() - self.capacity(), s.len() as int));
            } else {
                assert(self.records@ =~= s);
            }
        }
    }

    pub fn select_next(&mut self)
        requires
            old(self).inv(),
        ensures
            final(self).inv(),
            final(self).records() == old(self).records(),
            final(self).capacity() == old(self).capacity(),
            final(self).selection() == next_selection(
                old(self).selection(),
                old(self).records().len(),
            ),
    {
        if let Some(i) = self.selected {
            if i + 1 < self.records.len() {
                self.selected = Some(i + 1);
            }
        }
    }

    pub fn select_prev(&mut self)
        requires
            old(self).inv(),
        ensures
            final(self).inv(),
            final(self).records() == old(self).records(),
            final(self).capacity() == old(self).capacity(),
            final(self).selection() == prev_selection(old(self).selection()),
    {
        if let Some(i) = self.selected {
            if i > 0 {
                self.selected = Some(i - 1);
            }
        }
    }
}

} // verus!
