//! The snapshot: who holds how many assets of a collection.
//!
//! One holder-resolution task runs for each asset. The collector counts the
//! owners that they report into the holder registry. A synthetic snapshot is
//! made without any ledger: every holder in it is a key drawn at random.

use crate::address::{address_text, fresh_key, write_address};
use crate::collect::Stage;
use crate::holders::{credited, lemma_quantity_within_total, Holders};
use crate::worker::HolderOutcome;
use vstd::prelude::*;

verus! {

/// The holder registry that counts the owners `owners`, one asset for each
/// time an owner is named.
pub open spec fn tallied(owners: Seq<Seq<u8>>) -> Map<Seq<char>, u32>
    decreases owners.len(),
{
    if owners.len() == 0 {
        Map::empty()
    } else {
        let before = tallied(owners.drop_last());
        let wallet = address_text(owners.last());
        before.insert(wallet, credited(before, wallet) as u32)
    }
}

/// How often `owners` names the owner whose address is `wallet`.
pub open spec fn holdings(owners: Seq<Seq<u8>>, wallet: Seq<char>) -> nat
    decreases owners.len(),
{
    if owners.len() == 0 {
        0
    } else {
        holdings(owners.drop_last(), wallet) + if address_text(owners.last()) == wallet {
            1nat
        } else {
            0nat
        }
    }
}

/// The registry of a snapshot holds exactly the wallets that own an asset,
/// each with the number of assets that it owns.
pub proof fn lemma_tallied(owners: Seq<Seq<u8>>, wallet: Seq<char>)
    requires
        owners.len() <= u32::MAX,
    ensures
        holdings(owners, wallet) <= owners.len(),
        tallied(owners).contains_key(wallet) <==> holdings(owners, wallet) > 0,
        tallied(owners).contains_key(wallet) ==> tallied(owners)[wallet] == holdings(owners, wallet),
        tallied(owners).dom().finite(),
    decreases owners.len(),
{
    if owners.len() > 0 {
        lemma_tallied(owners.drop_last(), wallet);
        lemma_tallied(owners.drop_last(), address_text(owners.last()));
    }
}

/// The collector of a snapshot while outcomes are still owed to it.
pub struct SnapshotOrchestrator {
    expected: u32,
    received: u32,
    holders: Holders,
    arrived: Ghost<Seq<Seq<u8>>>,
}

/// A snapshot's collection: waiting for outcomes, or complete with the
/// holder registry.
pub enum HolderCollection {
    Waiting(SnapshotOrchestrator),
    Complete(Holders),
}

impl HolderCollection {
    /// Whether the collection stands at `stage`: waiting collections agree
    /// on what is expected and which owners have arrived, complete ones on
    /// the registry of the owners that were consumed.
    pub open spec fn stands_at(self, stage: Stage<Seq<u8>>) -> bool {
        match self {
            HolderCollection::Waiting(orchestrator) => stage == orchestrator.stage(),
            HolderCollection::Complete(holders) => stage matches Stage::Complete { consumed }
                && holders@ == tallied(consumed) && holders.total() == consumed.len(),
        }
    }
}

impl SnapshotOrchestrator {
    /// The number of outcomes expected in all.
    pub closed spec fn target(&self) -> nat {
        self.expected as nat
    }

    /// The owners that have arrived, in the order of their arrival.
    pub closed spec fn arrived(&self) -> Seq<Seq<u8>> {
        self.arrived@
    }

    /// The registry of the owners that have arrived.
    pub closed spec fn registry(&self) -> Map<Seq<char>, u32> {
        self.holders@
    }

    /// The stage at which the collector stands.
    pub open spec fn stage(&self) -> Stage<Seq<u8>> {
        Stage::Waiting { expected: self.target(), arrived: self.arrived() }
    }

    /// Holds of every collector: outcomes are still owed to it, and its
    /// registry counts the owners that have arrived.
    #[verifier::type_invariant]
    pub open spec fn wf(self) -> bool {
        &&& self.arrived().len() < self.target()
        &&& self.registry() == tallied(self.arrived())
        &&& self.counted()
    }

    /// Whether the count of received outcomes, and the quantities of the
    /// registry together, are the number of owners that have arrived.
    pub closed spec fn counted(self) -> bool {
        &&& self.received == self.arrived@.len()
        &&& self.holders.total() == self.arrived@.len()
        &&& self.holders.wf()
    }

    /// Begins the collection of `expected` outcomes. With none expected it is
    /// complete at once, with an empty registry.
    pub fn start(expected: u32) -> (collection: HolderCollection)
        ensures
            collection.stands_at(Stage::begin(expected as nat)),
    {
        let holders = Holders::new();
        proof {
            use_type_invariant(&holders);
        }
        if expected == 0 {
            HolderCollection::Complete(holders)
        } else {
            HolderCollection::Waiting(
                SnapshotOrchestrator { expected, received: 0, holders, arrived: Ghost(Seq::empty()) },
            )
        }
    }

    /// The number of outcomes expected in all.
    pub fn expected(&self) -> (expected: u32)
        ensures
            expected == self.target(),
            expected > 0,
    {
        proof {
            use_type_invariant(self);
        }
        self.expected
    }

    /// The number of outcomes received so far.
    pub fn received(&self) -> (received: u32)
        ensures
            received == self.arrived().len(),
            received < self.target(),
    {
        proof {
            use_type_invariant(self);
        }
        self.received
    }

    /// Counts one more asset for the owner that `outcome` names. With the
    /// last expected outcome the collection is complete and the registry is
    /// handed out.
    pub fn accept(self, outcome: HolderOutcome) -> (collection: HolderCollection)
        ensures
            collection.stands_at(self.stage().accept(outcome.owner@)),
    {
        proof {
            use_type_invariant(&self);
        }
        let ghost arrived = self.arrived@.push(outcome.owner@);
        let SnapshotOrchestrator { expected, received, mut holders, arrived: _ } = self;
        let wallet = write_address(&outcome.owner);
        proof {
            if holders@.contains_key(wallet@) {
                lemma_quantity_within_total(holders, wallet@);
            }
        }
        holders.credit(wallet);
        proof {
            use_type_invariant(&holders);
            assert(arrived.drop_last() =~= self.arrived@);
        }
        let received = received + 1;
        if received == expected {
            HolderCollection::Complete(holders)
        } else {
            HolderCollection::Waiting(
                SnapshotOrchestrator { expected, received, holders, arrived: Ghost(arrived) },
            )
        }
    }
}

/// The addresses of `keys`, in their order.
pub open spec fn addresses_of(keys: Seq<Seq<u8>>) -> Seq<Seq<char>> {
    Seq::new(keys.len(), |i: int| address_text(keys[i]))
}

/// The holder registry in which each of `keys` holds one asset.
pub open spec fn unit_registry(keys: Seq<Seq<u8>>) -> Map<Seq<char>, u32>
    decreases keys.len(),
{
    if keys.len() == 0 {
        Map::empty()
    } else {
        unit_registry(keys.drop_last()).insert(address_text(keys.last()), 1u32)
    }
}

/// A registry of unit holders holds exactly the addresses of its keys, each
/// with a quantity of one.
pub proof fn lemma_unit_registry(keys: Seq<Seq<u8>>)
    ensures
        unit_registry(keys).dom() == addresses_of(keys).to_set(),
        unit_registry(keys).dom().finite(),
        forall|wallet: Seq<char>| #[trigger]
            unit_registry(keys).contains_key(wallet) ==> unit_registry(keys)[wallet] == 1,
    decreases keys.len(),
{
    let wallets = addresses_of(keys);
    if keys.len() == 0 {
        assert(unit_registry(keys).dom() =~= wallets.to_set());
    } else {
        let before = keys.drop_last();
        lemma_unit_registry(before);
        assert forall|w: Seq<char>| unit_registry(keys).dom().contains(w) <==> wallets.to_set().contains(
            w,
        ) by {
            if addresses_of(before).contains(w) {
                let i = addresses_of(before).index_of(w);
                assert(wallets[i] == w);
            }
            if wallets.contains(w) {
                let i = wallets.index_of(w);
                if i < before.len() {
                    assert(addresses_of(before)[i] == w);
                }
            }
            assert(wallets[keys.len() - 1] == address_text(keys.last()));
        }
        assert(unit_registry(keys).dom() =~= wallets.to_set());
    }
}

/// Two synthetic snapshots of the same number of holders have the same
/// number of entries, namely that number, whoever the holders are, as long
/// as within each snapshot no address was drawn twice.
pub proof fn lemma_same_entry_count(first: Seq<Seq<u8>>, second: Seq<Seq<u8>>)
    requires
        first.len() == second.len(),
        addresses_of(first).no_duplicates(),
        addresses_of(second).no_duplicates(),
    ensures
        unit_registry(first).dom().len() == first.len(),
        unit_registry(second).dom().len() == first.len(),
{
    lemma_unit_registry(first);
    lemma_unit_registry(second);
    addresses_of(first).unique_seq_to_set();
    addresses_of(second).unique_seq_to_set();
}

/// Registers the wallet with the key `key` as the holder of one asset.
pub fn add_unit_holder(holders: &mut Holders, key: &[u8; 32])
    ensures
        final(holders)@ == old(holders)@.insert(address_text(key@), 1u32),
{
    holders.insert(write_address(key), 1);
}

/// A synthetic snapshot of `amount_of_holders` holders: each is a key drawn
/// at random and holds one asset. Which keys are drawn differs from run to
/// run; a key that is drawn twice is registered once.
pub fn fake_snapshot(amount_of_holders: u64) -> (holders: Holders)
    ensures
        exists|keys: Seq<Seq<u8>>| #[trigger]
            unit_registry(keys) == holders@ && keys.len() == amount_of_holders,
{
    let mut holders = Holders::new();
    let ghost mut drawn: Seq<Seq<u8>> = Seq::empty();
    let mut i: u64 = 0;
    while i < amount_of_holders
        invariant
            i <= amount_of_holders,
            drawn.len() == i,
            holders@ == unit_registry(drawn),
        decreases amount_of_holders - i,
    {
        let key = fresh_key();
        add_unit_holder(&mut holders, &key);
        proof {
            assert(drawn.push(key@).drop_last() =~= drawn);
            drawn = drawn.push(key@);
        }
        i += 1;
    }
    holders
}

} // verus!
