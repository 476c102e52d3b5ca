//! Which slice of a patron's item list a self-check client asked for.
use vstd::prelude::*;

verus! {

/// Items listed when the client names no end.
pub const DEFAULT_LIST_ITEM_SIZE: usize = 10;

/// The kinds of item list a client may ask for.
#[derive(Debug, Clone, Copy, PartialEq, Eq, Structural)]
pub enum SummaryListType {
    HoldItems,
    UnavailHoldItems,
    ChargedItems,
    FineItems,
}

/// A list request: its kind and the 1-based first and last items wanted.
#[derive(Debug, Clone, Copy, PartialEq, Eq, Structural)]
pub struct SummaryListOptions {
    pub list_type: SummaryListType,
    pub start_item: Option<usize>,
    pub end_item: Option<usize>,
}

/// The 0-based offset for a 1-based start item.
pub open spec fn offset_of(start_item: Option<usize>) -> usize {
    match start_item {
        Some(s) => if s > 0 { (s - 1) as usize } else { 0 },
        None => 0,
    }
}

/// The count of items for a 1-based end item.
pub open spec fn limit_of(end_item: Option<usize>) -> usize {
    match end_item {
        Some(e) => if e > 0 { (e - 1) as usize } else { DEFAULT_LIST_ITEM_SIZE },
        None => DEFAULT_LIST_ITEM_SIZE,
    }
}

/// The smaller of two numbers.
pub open spec fn min_of(a: int, b: int) -> int {
    if a < b { a } else { b }
}

impl SummaryListOptions {
    /// The kind of list asked for.
    pub fn list_type(&self) -> (r: &SummaryListType)
        ensures
            *r == self.list_type,
    {
        &self.list_type
    }

    /// Zero-based offset from the 1-based start item.
    pub fn offset(&self) -> (r: usize)
        ensures
            r == offset_of(self.start_item),
    {
        match self.start_item {
            Some(s) => if s > 0 { s - 1 } else { 0 },
            None => 0,
        }
    }

    /// How many items, from the 1-based end item.
    pub fn limit(&self) -> (r: usize)
        ensures
            r == limit_of(self.end_item),
    {
        match self.end_item {
            Some(e) => if e > 0 { e - 1 } else { DEFAULT_LIST_ITEM_SIZE },
            None => DEFAULT_LIST_ITEM_SIZE,
        }
    }

    /// The items of `values` from `offset()` on, at most `limit()` of them.
    pub fn data_range(&self, values: &Vec<String>) -> (r: Vec<String>)
        ensures
            ({
                let lo = min_of(offset_of(self.start_item) as int, values@.len() as int);
                let hi = min_of(offset_of(self.start_item) + limit_of(self.end_item), values@.len() as int);
                r@ == values@.subrange(lo, hi)
            }),
    {
        let offset = self.offset();
        let limit = self.limit();
        let mut out: Vec<String> = Vec::new();
        let mut idx = offset;
        let mut taken: usize = 0;
        proof {
            assert(values@.subrange(min_of(offset as int, values@.len() as int), min_of(offset as int, values@.len() as int)).len() == 0);
        }
        while taken < limit && idx < values.len()
            invariant
                offset == offset_of(self.start_item),
                limit == limit_of(self.end_item),
                idx == offset + taken,
                taken <= limit,
                out@ == values@.subrange(min_of(offset as int, values@.len() as int), min_of(idx as int, values@.len() as int)),
            decreases limit - taken,
        {
            out.push(values[idx].clone());
            proof {
                assert(out@ =~= values@.subrange(min_of(offset as int, values@.len() as int), idx + 1));
            }
            idx = idx + 1;
            taken = taken + 1;
        }
        out
    }
}

} // verus!
