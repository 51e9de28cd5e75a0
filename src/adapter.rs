use vstd::prelude::*;
use crate::record::Record;
use crate::view_model::{appended, newest, ViewModel};

verus! {

/// Which looked-up records the stream lets through to the view.
#[derive(Clone, Copy, Debug, PartialEq, Eq, Structural)]
pub enum Filter {
    AcceptAll,
    /// Only records whose value is not zero.
    NonZero,
}

impl Filter {
    pub open spec fn admits(self, r: Record) -> bool {
        match self {
            Filter::AcceptAll => true,
            Filter::NonZero => r.value.value() != 0,
        }
    }

    pub fn accept(&self, r: &Record) -> (b: bool)
        ensures
            b == self.admits(*r),
    {
        match self {
            Filter::AcceptAll => true,
            Filter::NonZero => !r.value.is_zero(),
        }
    }
}

/// The records after one lookup outcome: a miss or a rejected record leaves them as they are.
pub open spec fn ingested(rs: Seq<Record>, item: Option<Record>, filter: Filter, cap: nat) -> Seq<
    Record,
> {
    match item {
        Some(r) => if filter.admits(r) {
            appended(rs, r, cap)
        } else {
            rs
        },
        None => rs,
    }
}

/// The records after each lookup outcome of `items` in turn.
pub open spec fn ingest_all(
    rs: Seq<Record>,
    items: Seq<Option<Record>>,
    filter: Filter,
    cap: nat,
) -> Seq<Record>
    decreases items.len(),
{
    if items.len() == 0 {
        rs
    } else {
        ingested(ingest_all(rs, items.drop_last(), filter, cap), items.last(), filter, cap)
    }
}

/// Takes one lookup outcome from the data stream into the view: a record that
/// was found and that the filter admits is appended; anything else changes nothing.
/// Returns whether the view changed.
pub fn ingest(vm: &mut ViewModel, item: Option<Record>, filter: Filter) -> (changed: bool)
    requires
        old(vm).inv(),
    ensures
        final(vm).inv(),
        final(vm).capacity() == old(vm).capacity(),
        changed == (item matches Some(r) && filter.admits(r)),
        final(vm).records() == ingested(old(vm).records(), item, filter, old(vm).capacity()),
        changed ==> final(vm).selection() == newest(final(vm).records()),
        !changed ==> final(vm).selection() == old(vm).selection(),
{
    match item {
        Some(r) => {
            if filter.accept(&r) {
                vm.append(r);
                true
            } else {
                false
            }
        },
        None => false,
    }
}

/// With the filter that drops zero values, no record of value zero ever
/// reaches the view, whatever mix of lookup outcomes the stream delivers.
pub proof fn lemma_nonzero_filter_excludes_zero(
    rs: Seq<Record>,
    items: Seq<Option<Record>>,
    cap: nat,
)
    requires
        forall|i: int| 0 <= i < rs.len() ==> (#[trigger] rs[i]).value.value() != 0,
    ensures
        forall|i: int|
            0 <= i < ingest_all(rs, items, Filter::NonZero, cap).len() ==> (#[trigger] ingest_all(
                rs,
                items,
                Filter::NonZero,
                cap,
            )[i]).value.value() != 0,
    decreases items.len(),
{
    if items.len() > 0 {
        lemma_nonzero_filter_excludes_zero(rs, items.drop_last(), cap);
        let p = ingest_all(rs, items.drop_last(), Filter::NonZero, cap);
        if let Some(r) = items.last() {
            if Filter::NonZero.admits(r) {
                let s = p.push(r);
                assert forall|i: int| 0 <= i < s.len() implies (#[trigger] s[i]).value.value()
                    != 0 by {
                    if i < p.len() {
                        assert(s[i] == p[i]);
                    }
                }
                let q = appended(p, r, cap);
                if s.len() > cap {
                    assert forall|i: int| 0 <= i < q.len() implies (#[trigger] q[i]).value.value()
                        != 0 by {
                        assert(q[i] == s[i + s.len() - cap]);
                    }
                }
            }
        }
    }
}

} // verus!
