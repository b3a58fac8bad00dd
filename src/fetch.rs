//! Splitting an address sequence into transport-sized requests and collecting
//! the answers in address order.
use vstd::prelude::*;
use vstd::arithmetic::div_mod::{lemma_fundamental_div_mod, lemma_fundamental_div_mod_converse};

verus! {

/// Largest number of accounts that one multiple-account query may name.
pub const FETCH_ACCOUNT_LIMIT: usize = 100;

/// Number of requests needed for `n` addresses at `limit` per request.
pub open spec fn ceil_div(n: int, limit: int) -> int {
    (n + limit - 1) / limit
}

/// The request range `[start, end)` of addresses.
pub struct ChunkRange {
    pub start: usize,
    pub end: usize,
}

/// A batched fetch in progress: `n` addresses, at most `limit` per request,
/// with the answers collected so far, position by position.
pub struct BatchedFetch<T> {
    pub n: usize,
    pub limit: usize,
    pub issued: usize,
    pub results: Vec<T>,
}

proof fn lemma_one_more_chunk(done: int, limit: int, c: int)
    requires
        limit > 0,
        done >= 0,
        done % limit == 0,
        0 < c <= limit,
    ensures
        ceil_div(done + c, limit) == ceil_div(done, limit) + 1,
        c == limit ==> (done + c) % limit == 0,
        ceil_div(done, limit) <= done,
{
    let m = done / limit;
    lemma_fundamental_div_mod(done, limit);
    assert(done == m * limit) by (nonlinear_arith)
        requires done == limit * (done / limit) + done % limit, done % limit == 0, m == done / limit;
    assert(m <= done) by (nonlinear_arith)
        requires done == m * limit, limit > 0, done >= 0;
    lemma_fundamental_div_mod_converse(done + limit - 1, limit, m, limit - 1);
    assert(done + c + limit - 1 == (m + 1) * limit + (c - 1)) by (nonlinear_arith)
        requires done == m * limit;
    lemma_fundamental_div_mod_converse(done + c + limit - 1, limit, m + 1, c - 1);
    if c == limit {
        assert(done + c == (m + 1) * limit + 0) by (nonlinear_arith)
            requires done == m * limit, c == limit;
        lemma_fundamental_div_mod_converse(done + c, limit, m + 1, 0);
    }
}

impl<T> BatchedFetch<T> {
    /// Every request issued so far asked for a full `limit` addresses, except
    /// possibly the last one, which ends at `n`.
    pub open spec fn wf(&self) -> bool {
        &&& self.limit > 0
        &&& self.results@.len() <= self.n
        &&& self.results@.len() == self.n || (self.results@.len() as int) % (self.limit as int) == 0
        &&& self.issued as int == ceil_div(self.results@.len() as int, self.limit as int)
    }

    pub open spec fn is_done(&self) -> bool {
        self.results@.len() == self.n
    }

    /// The range that the next request covers.
    pub open spec fn next_range(&self) -> (int, int) {
        let start = self.results@.len() as int;
        if self.n - start > self.limit {
            (start, start + self.limit)
        } else {
            (start, self.n as int)
        }
    }

    pub fn new(n: usize, limit: usize) -> (r: BatchedFetch<T>)
        requires
            limit > 0,
        ensures
            r.wf(),
            r.n == n,
            r.limit == limit,
            r.issued == 0,
            r.results@.len() == 0,
    {
        proof {
            lemma_fundamental_div_mod_converse(limit - 1, limit as int, 0, limit - 1);
            lemma_fundamental_div_mod_converse(0, limit as int, 0, 0);
        }
        BatchedFetch { n, limit, issued: 0, results: Vec::new() }
    }

    /// The addresses to ask for next, or `None` once every address has its answer.
    /// An empty address set issues no request at all.
    pub fn next_request(&self) -> (r: Option<ChunkRange>)
        requires
            self.wf(),
        ensures
            self.is_done() <==> r is None,
            r matches Some(c) ==> (c.start as int, c.end as int) == self.next_range(),
    {
        let start = self.results.len();
        if start == self.n {
            None
        } else if self.n - start > self.limit {
            Some(ChunkRange { start, end: start + self.limit })
        } else {
            Some(ChunkRange { start, end: self.n })
        }
    }

    /// Takes the answers of the request for `next_range`, one per address, in order.
    pub fn accept(&mut self, batch: Vec<T>)
        requires
            old(self).wf(),
            !old(self).is_done(),
            batch@.len() == old(self).next_range().1 - old(self).next_range().0,
        ensures
            final(self).wf(),
            final(self).n == old(self).n,
            final(self).limit == old(self).limit,
            final(self).issued == old(self).issued + 1,
            final(self).results@ == old(self).results@ + batch@,
    {
        let ghost done = self.results@.len() as int;
        let mut batch = batch;
        proof {
            lemma_one_more_chunk(done, self.limit as int, batch@.len() as int);
        }
        self.results.append(&mut batch);
        self.issued = self.issued + 1;
    }

    pub fn into_results(self) -> (r: Vec<T>)
        ensures
            r@ == self.results@,
    {
        self.results
    }
}

/// A finished fetch issued exactly one request per `limit` addresses, rounded
/// up, and holds one answer per address.
pub proof fn lemma_requests_issued<T>(f: BatchedFetch<T>)
    requires
        f.wf(),
        f.is_done(),
    ensures
        f.issued as int == ceil_div(f.n as int, f.limit as int),
        f.results@.len() == f.n,
{
}

} // verus!
