//! Pagination arguments of a listing query, with the defaults and the
//! clamping the service applies.

use vstd::prelude::*;

verus! {

pub struct PaginationInput {
    skip: Option<i32>,
    limit: Option<i32>,
}

impl PaginationInput {
    /// How many entries the query skips: the requested count, zero
    /// when none was requested.
    pub closed spec fn spec_skip(&self) -> int {
        match self.skip {
            Some(s) => s as int,
            None => 0,
        }
    }

    /// How many entries the query returns: the requested count
    /// clamped into `1..=100`, ten when none was requested.
    pub closed spec fn spec_limit(&self) -> int {
        let raw = match self.limit {
            Some(l) => l as int,
            None => 10,
        };
        if raw < 1 {
            1
        } else if raw > 100 {
            100
        } else {
            raw
        }
    }

    /// The default page: skip nothing, return ten entries.
    pub fn new() -> (r: Self)
        ensures
            r.spec_skip() == 0,
            r.spec_limit() == 10,
    {
        PaginationInput { skip: Some(0), limit: Some(10) }
    }

    /// A page with explicit arguments, either of which may be absent.
    pub fn with(skip: Option<i32>, limit: Option<i32>) -> (r: Self)
        ensures
            r.spec_skip() == (match skip {
                Some(s) => s as int,
                None => 0,
            }),
            r.spec_limit() == ({
                let raw = match limit {
                    Some(l) => l as int,
                    None => 10,
                };
                if raw < 1 {
                    1int
                } else if raw > 100 {
                    100int
                } else {
                    raw
                }
            }),
    {
        PaginationInput { skip, limit }
    }

    pub fn skip(&self) -> (r: i32)
        ensures
            r == self.spec_skip(),
    {
        match self.skip {
            Some(s) => s,
            None => 0,
        }
    }

    pub fn limit(&self) -> (r: i32)
        ensures
            r == self.spec_limit(),
    {
        let raw = match self.limit {
            Some(l) => l,
            None => 10,
        };
        if raw < 1 {
            1
        } else if raw > 100 {
            100
        } else {
            raw
        }
    }
}

impl Default for PaginationInput {
    fn default() -> (r: Self)
        ensures
            r.spec_skip() == 0,
            r.spec_limit() == 10,
    {
        Self::new()
    }
}

} // verus!
