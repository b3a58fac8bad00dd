//! Gathering spendable balances into bounded transfer bundles, and deciding
//! for each full bundle whether it is submitted or the run is aborted.
use vstd::prelude::*;

verus! {

/// Most transfer instructions, and source signers, that one bundle carries.
pub const BUNDLE_CAP: usize = 8;

/// What a source can send while keeping its minimum reserve: the excess of
/// the balance over the reserve, when there is one.
pub fn spendable(balance: u64, reserve: u64) -> (r: Option<u64>)
    ensures
        r is Some <==> balance > reserve,
        r matches Some(v) ==> v == balance - reserve,
{
    if balance > reserve {
        Some(balance - reserve)
    } else {
        None
    }
}

/// A transfer of `amount` from the source at position `source` to the beneficiary.
#[derive(Clone, Copy, Debug, PartialEq, Eq, Structural)]
pub struct Transfer {
    pub source: usize,
    pub amount: u64,
}

/// Where the run stands.
#[derive(Clone, Copy, Debug, PartialEq, Eq, Structural)]
pub enum Phase {
    /// The bundle has room for more transfers.
    Accumulating,
    /// The bundle is full and waits for its fee check.
    Full,
    /// The fee payer can cover the bundle: it is to be submitted.
    Cleared,
    /// The fee payer could not cover a bundle: nothing more is submitted.
    Aborted,
}

/// A bundle that was submitted, the position in the source sequence reached
/// when it was, and whether it was confirmed.
pub struct Attempt {
    pub transfers: Vec<Transfer>,
    pub end: usize,
    pub confirmed: bool,
}

/// A consolidation run over the source keys, in order.
///
/// The fee payer's balance is read once, before the first source, and every
/// fee check compares against that one value. A bundle that is not full when
/// the sources run out stays pending and is not submitted.
pub struct Consolidator {
    pub cap: usize,
    pub fee_payer_balance: u64,
    pub position: usize,
    pub phase: Phase,
    pub pending: Vec<Transfer>,
    pub attempts: Vec<Attempt>,
}

impl Consolidator {
    /// The position at which the sources of attempt `a` begin.
    pub open spec fn attempt_start(&self, a: int) -> int {
        if a == 0 {
            0
        } else {
            self.attempts@[a - 1].end as int
        }
    }

    /// The position at which the pending sources begin.
    pub open spec fn pending_start(&self) -> int {
        self.attempt_start(self.attempts@.len() as int)
    }

    pub open spec fn wf(&self) -> bool {
        &&& self.cap > 0
        &&& self.pending@.len() <= self.cap
        &&& self.phase == Phase::Accumulating ==> self.pending@.len() < self.cap
        &&& (self.phase == Phase::Full || self.phase == Phase::Cleared) ==> self.pending@.len()
            == self.cap
        &&& forall|a: int| 0 <= a < self.attempts@.len() ==> (#[trigger] self.attempts@[a]).transfers@.len() == self.cap
        &&& forall|a: int, b: int| 0 <= a < b < self.attempts@.len() ==> (#[trigger] self.attempts@[a]).end
            <= #[trigger] self.attempt_start(b)
        &&& forall|a: int| 0 <= a < self.attempts@.len() ==> self.attempt_start(a) <= (#[trigger] self.attempts@[a]).end
        &&& forall|a: int, j: int|
            0 <= a < self.attempts@.len() && 0 <= j < self.attempts@[a].transfers@.len() ==> self.attempt_start(a)
                <= (#[trigger] self.attempts@[a].transfers@[j]).source < self.attempts@[a].end
        &&& self.pending_start() <= self.position
        &&& forall|j: int| 0 <= j < self.pending@.len() ==> self.pending_start() <= (#[trigger] self.pending@[j]).source
            < self.position
        &&& forall|i: int, j: int| 0 <= i < j < self.pending@.len() ==> (#[trigger] self.pending@[i]).source
            < (#[trigger] self.pending@[j]).source
        &&& forall|j: int| 0 <= j < self.pending@.len() ==> (#[trigger] self.pending@[j]).amount > 0
    }

    /// Starts a run with the fee payer's balance as read before the first source.
    pub fn new(cap: usize, fee_payer_balance: u64) -> (r: Consolidator)
        requires
            cap > 0,
        ensures
            r.wf(),
            r.cap == cap,
            r.fee_payer_balance == fee_payer_balance,
            r.position == 0,
            r.phase == Phase::Accumulating,
            r.pending@.len() == 0,
            r.attempts@.len() == 0,
    {
        Consolidator {
            cap,
            fee_payer_balance,
            position: 0,
            phase: Phase::Accumulating,
            pending: Vec::new(),
            attempts: Vec::new(),
        }
    }

    /// Takes the next source, with its balance and the minimum reserve. A
    /// source with a spendable excess adds one transfer of that excess to the
    /// bundle. Returns whether the bundle is now full.
    pub fn offer(&mut self, balance: u64, reserve: u64) -> (full: bool)
        requires
            old(self).wf(),
            old(self).phase == Phase::Accumulating,
            old(self).position < usize::MAX,
        ensures
            final(self).wf(),
            final(self).cap == old(self).cap,
            final(self).fee_payer_balance == old(self).fee_payer_balance,
            final(self).position == old(self).position + 1,
            final(self).attempts@ == old(self).attempts@,
            balance > reserve ==> final(self).pending@ == old(self).pending@.push(
                Transfer { source: old(self).position, amount: (balance - reserve) as u64 },
            ),
            balance <= reserve ==> final(self).pending@ == old(self).pending@,
            full == (final(self).pending@.len() == final(self).cap),
            final(self).phase == (if full { Phase::Full } else { Phase::Accumulating }),
    {
        match spendable(balance, reserve) {
            Some(amount) => {
                self.pending.push(Transfer { source: self.position, amount });
            },
            None => {},
        }
        self.position = self.position + 1;
        let full = self.pending.len() == self.cap;
        if full {
            self.phase = Phase::Full;
        }
        full
    }

    /// Compares the fee estimate of the full bundle with the fee payer's
    /// balance. Within it, the bundle is cleared for submission; beyond it the
    /// run is aborted and the bundle is not submitted.
    pub fn fee_check(&mut self, fee: u64) -> (submit: bool)
        requires
            old(self).wf(),
            old(self).phase == Phase::Full,
        ensures
            final(self).wf(),
            submit == (fee <= old(self).fee_payer_balance),
            final(self).phase == (if submit { Phase::Cleared } else { Phase::Aborted }),
            final(self).cap == old(self).cap,
            final(self).fee_payer_balance == old(self).fee_payer_balance,
            final(self).position == old(self).position,
            final(self).pending@ == old(self).pending@,
            final(self).attempts@ == old(self).attempts@,
    {
        let submit = fee <= self.fee_payer_balance;
        if submit {
            self.phase = Phase::Cleared;
        } else {
            self.phase = Phase::Aborted;
        }
        submit
    }

    /// Records how the submission of the cleared bundle ended. Either way the
    /// bundle is logged and emptied, and the run goes on with the next source.
    pub fn record_outcome(&mut self, confirmed: bool)
        requires
            old(self).wf(),
            old(self).phase == Phase::Cleared,
        ensures
            final(self).wf(),
            final(self).phase == Phase::Accumulating,
            final(self).cap == old(self).cap,
            final(self).fee_payer_balance == old(self).fee_payer_balance,
            final(self).position == old(self).position,
            final(self).pending@.len() == 0,
            final(self).attempts@.len() == old(self).attempts@.len() + 1,
            final(self).attempts@.drop_last() == old(self).attempts@,
            final(self).attempts@.last().transfers@ == old(self).pending@,
            final(self).attempts@.last().end == old(self).position,
            final(self).attempts@.last().confirmed == confirmed,
    {
        let mut transfers: Vec<Transfer> = Vec::new();
        std::mem::swap(&mut transfers, &mut self.pending);
        self.attempts.push(Attempt { transfers, end: self.position, confirmed });
        self.phase = Phase::Accumulating;
    }
}

/// No source's balance is spent twice: the sources of an earlier bundle all
/// stand before those of a later one, and the pending bundle only holds
/// sources after every submitted one.
pub proof fn lemma_sources_never_reused(c: Consolidator)
    requires
        c.wf(),
    ensures
        forall|a: int, b: int, i: int, j: int|
            0 <= a < b < c.attempts@.len() && 0 <= i < c.attempts@[a].transfers@.len() && 0 <= j
                < c.attempts@[b].transfers@.len() ==> (#[trigger] c.attempts@[a].transfers@[i]).source
                < (#[trigger] c.attempts@[b].transfers@[j]).source,
        forall|a: int, i: int, j: int|
            0 <= a < c.attempts@.len() && 0 <= i < c.attempts@[a].transfers@.len() && 0 <= j
                < c.pending@.len() ==> (#[trigger] c.attempts@[a].transfers@[i]).source
                < (#[trigger] c.pending@[j]).source,
{
    assert forall|a: int, i: int, j: int|
        0 <= a < c.attempts@.len() && 0 <= i < c.attempts@[a].transfers@.len() && 0 <= j < c.pending@.len()
        implies (#[trigger] c.attempts@[a].transfers@[i]).source < (#[trigger] c.pending@[j]).source by {
        let last = c.attempts@.len() - 1;
        if a < last {
            assert(c.attempts@[a].end <= c.attempt_start(last));
        }
    }
}

/// No bundle, pending or submitted, carries more than the cap of transfers.
pub proof fn lemma_bundles_bounded(c: Consolidator)
    requires
        c.wf(),
    ensures
        c.pending@.len() <= c.cap,
        forall|a: int| 0 <= a < c.attempts@.len() ==> (#[trigger] c.attempts@[a]).transfers@.len() <= c.cap,
{
}

} // verus!
