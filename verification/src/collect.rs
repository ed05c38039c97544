//! Counting outcomes against the number of tasks.
//!
//! A collector knows from the start how many outcomes it is owed. It takes
//! them one by one, in whatever order they arrive, and is complete with the
//! last of them. This module holds the mathematics of that count; the
//! collectors themselves stand with their registries.

use vstd::prelude::*;

verus! {

/// Where a collection stands.
pub enum Stage<O> {
    /// Fewer outcomes than expected have arrived.
    Waiting { expected: nat, arrived: Seq<O> },
    /// Every expected outcome was consumed, and nothing else.
    Complete { consumed: Seq<O> },
}

impl<O> Stage<O> {
    /// The stage before any outcome has arrived. With nothing expected the
    /// collection is complete at once.
    pub open spec fn begin(expected: nat) -> Stage<O> {
        if expected == 0 {
            Stage::Complete { consumed: Seq::empty() }
        } else {
            Stage::Waiting { expected, arrived: Seq::empty() }
        }
    }

    /// The stage after one more outcome is offered. A waiting collection
    /// consumes it; a complete one leaves it alone.
    pub open spec fn accept(self, outcome: O) -> Stage<O> {
        match self {
            Stage::Waiting { expected, arrived } => if arrived.len() + 1 >= expected {
                Stage::Complete { consumed: arrived.push(outcome) }
            } else {
                Stage::Waiting { expected, arrived: arrived.push(outcome) }
            },
            Stage::Complete { consumed } => self,
        }
    }

    /// The stage after `outcomes` were offered in their order to a
    /// collection that expects `expected` of them.
    pub open spec fn after(expected: nat, outcomes: Seq<O>) -> Stage<O>
        decreases outcomes.len(),
    {
        if outcomes.len() == 0 {
            Stage::begin(expected)
        } else {
            Stage::after(expected, outcomes.drop_last()).accept(outcomes.last())
        }
    }
}

/// A collection that expects `expected` outcomes consumes exactly that many
/// before it is complete: while fewer have been offered it waits, having
/// consumed them all, and from the `expected`-th on it is complete, having
/// consumed the first `expected` and none of those that followed.
pub proof fn lemma_consumes_exactly_expected<O>(expected: nat, outcomes: Seq<O>)
    ensures
        outcomes.len() < expected ==> Stage::after(expected, outcomes) == (Stage::Waiting {
            expected,
            arrived: outcomes,
        }),
        outcomes.len() >= expected ==> Stage::after(expected, outcomes) == (Stage::Complete {
            consumed: outcomes.take(expected as int),
        }),
    decreases outcomes.len(),
{
    if outcomes.len() == 0 {
        assert(outcomes.take(0) =~= Seq::<O>::empty());
        assert(outcomes =~= Seq::<O>::empty());
    } else {
        let before = outcomes.drop_last();
        lemma_consumes_exactly_expected(expected, before);
        if before.len() < expected {
            assert(before.push(outcomes.last()) =~= outcomes);
            if outcomes.len() >= expected {
                assert(outcomes.take(expected as int) =~= outcomes);
            }
        } else {
            assert(outcomes.take(expected as int) =~= before.take(expected as int));
        }
    }
}

} // verus!
