//! The walk over confirmed blocks: which block to ask for next, and when to
//! wait instead.

use vstd::prelude::*;

verus! {

/// How long to wait, in milliseconds, when the next block is not yet
/// confirmed.
pub const IDLE_PAUSE_MS: u64 = 1000;

/// How long to wait, in milliseconds, after a block has been fetched.
pub const FETCH_PAUSE_MS: u64 = 100;

/// What to do next in the walk.
#[derive(Clone, Copy, Debug, PartialEq, Eq, Structural)]
pub enum FetchStep {
    /// The provider has changed: start over with the new one.
    Restart,
    /// The next block is not confirmed yet: wait this long and look again.
    Wait { pause_ms: u64 },
    /// Ask the provider for this block.
    Fetch { number: u64 },
}

/// What to do after asking for a block.
#[derive(Clone, Copy, Debug, PartialEq, Eq, Structural)]
pub enum FetchFlow {
    /// The block came: wait this long, then go on with the next one.
    Continue { pause_ms: u64 },
    /// The block did not come: wait for the provider to change, then try the
    /// same block again.
    AwaitProvider,
}

/// Whether block `number` has at least `confirmations` blocks on top of it
/// when the chain's latest block is `latest`.
pub open spec fn confirmed(number: u64, latest: u64, confirmations: u64) -> bool {
    number + confirmations <= latest
}

/// A block is confirmed exactly when at least `confirmations` blocks lie on
/// top of it, however far behind the latest block it is.
pub proof fn lemma_confirmed(number: u64, latest: u64, confirmations: u64)
    ensures
        confirmed(number, latest, confirmations) <==> number + confirmations <= latest,
        number + confirmations <= latest ==> confirmed(number, latest, confirmations),
{
}

/// The position of a walk over the blocks that have enough confirmations.
pub struct FetchCursor {
    current_block: u64,
    confirmations: u64,
}

impl FetchCursor {
    /// The block that the walk asks for next.
    pub closed spec fn position(&self) -> u64 {
        self.current_block
    }

    /// How many blocks must lie on top of a block before it is fetched.
    pub closed spec fn depth(&self) -> u64 {
        self.confirmations
    }

    /// A walk that starts at block `start`.
    pub fn new(start: u64, confirmations: u64) -> (cursor: FetchCursor)
        ensures
            cursor.position() == start,
            cursor.depth() == confirmations,
    {
        FetchCursor { current_block: start, confirmations }
    }

    pub fn current_block(&self) -> (number: u64)
        ensures
            number == self.position(),
    {
        self.current_block
    }

    pub fn confirmations(&self) -> (confirmations: u64)
        ensures
            confirmations == self.depth(),
    {
        self.confirmations
    }

    /// The next step, given whether the provider has changed and the chain's
    /// latest block: start over after a change, otherwise fetch the next
    /// block once it is confirmed, and wait while it is not.
    pub fn step(&self, provider_changed: bool, latest_block: u64) -> (step: FetchStep)
        ensures
            step == if provider_changed {
                FetchStep::Restart
            } else if confirmed(self.position(), latest_block, self.depth()) {
                FetchStep::Fetch { number: self.position() }
            } else {
                FetchStep::Wait { pause_ms: IDLE_PAUSE_MS }
            },
    {
        if provider_changed {
            FetchStep::Restart
        } else if latest_block < self.confirmations || self.current_block > latest_block
            - self.confirmations {
            FetchStep::Wait { pause_ms: IDLE_PAUSE_MS }
        } else {
            FetchStep::Fetch { number: self.current_block }
        }
    }

    /// Records whether the block asked for came: when it did, the walk moves
    /// on to the following block; when it did not, it stays.
    pub fn record(&mut self, fetched: bool) -> (flow: FetchFlow)
        requires
            fetched ==> old(self).position() < u64::MAX,
        ensures
            final(self).depth() == old(self).depth(),
            fetched ==> final(self).position() == old(self).position() + 1 && flow == (
            FetchFlow::Continue { pause_ms: FETCH_PAUSE_MS }),
            !fetched ==> final(self).position() == old(self).position() && flow
                == FetchFlow::AwaitProvider,
    {
        if fetched {
            self.current_block = self.current_block + 1;
            FetchFlow::Continue { pause_ms: FETCH_PAUSE_MS }
        } else {
            FetchFlow::AwaitProvider
        }
    }
}

} // verus!
