//! Pagination of API collections.

use vstd::prelude::*;
use vstd::string::*;

verus! {

/// Pagination parameters of a query.
#[derive(Debug, Clone)]
pub struct PaginationParams {
    pub offset: usize,
    pub limit: usize,
    pub sort: Option<String>,
    pub order: String,
}

/// The largest page size.
pub const MAX_LIMIT: usize = 100;

impl Default for PaginationParams {
    /// Offset 0, limit 20, no sort key, descending.
    fn default() -> (r: Self)
        ensures
            r.offset == 0,
            r.limit == 20,
            r.sort is None,
            r.order@ == "desc"@,
    {
        PaginationParams { offset: 0, limit: 20, sort: None, order: String::from_str("desc") }
    }
}

impl PaginationParams {
    /// The parameters with the limit clamped to 100.
    pub fn validated(&self) -> (r: Self)
        ensures
            r.offset == self.offset,
            r.limit == if self.limit < MAX_LIMIT { self.limit } else { MAX_LIMIT },
            match (r.sort, self.sort) {
                (Some(a), Some(b)) => a@ == b@,
                (None, None) => true,
                _ => false,
            },
            r.order@ == self.order@,
    {
        PaginationParams {
            offset: self.offset,
            limit: if self.limit < MAX_LIMIT {
                self.limit
            } else {
                MAX_LIMIT
            },
            sort: match &self.sort {
                Some(s) => Some(s.clone()),
                None => None,
            },
            order: self.order.clone(),
        }
    }
}

/// A page of a collection and where it sits.
#[derive(Debug, Clone)]
pub struct PaginatedResponse<T> {
    pub data: Vec<T>,
    pub total: usize,
    pub offset: usize,
    pub limit: usize,
}

impl<T> PaginatedResponse<T> {
    /// A page made of `items`, with the parameters' offset and limit.
    pub fn from_slice(items: Vec<T>, total: usize, params: &PaginationParams) -> (r: Self)
        ensures
            r.data@ == items@,
            r.total == total,
            r.offset == params.offset,
            r.limit == params.limit,
    {
        PaginatedResponse { data: items, total, offset: params.offset, limit: params.limit }
    }
}

/// The page of `items` the parameters select (the limit clamped to 100),
/// and the total number of items.
pub fn paginate<T: Copy>(items: &[T], params: &PaginationParams) -> (r: (Vec<T>, usize))
    ensures
        ({
            let total = items@.len();
            let limit = if params.limit < MAX_LIMIT { params.limit as int } else { MAX_LIMIT as int };
            let start = if params.offset < total { params.offset as int } else { total as int };
            let end = if start + limit < total { start + limit } else { total as int };
            &&& r.1 == total
            &&& r.0@ == items@.subrange(start, end)
        }),
{
    let total = items.len();
    let params = params.validated();
    let start = if params.offset < total {
        params.offset
    } else {
        total
    };
    let end = if params.limit < total - start {
        start + params.limit
    } else {
        total
    };
    let mut out: Vec<T> = Vec::new();
    let mut i: usize = start;
    while i < end
        invariant
            start <= i <= end <= items@.len(),
            out@ == items@.subrange(start as int, i as int),
        decreases end - i,
    {
        out.push(items[i]);
        assert(items@.subrange(start as int, i + 1) =~= items@.subrange(start as int, i as int).push(items@[i as int]));
        i = i + 1;
    }
    (out, total)
}

} // verus!
