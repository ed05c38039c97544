//! The airdrop: one mint task for each wallet of the holder registry, and
//! the collector that gathers their outcomes into the result registry.

use crate::address::{address_key, read_address};
use crate::collect::Stage;
use crate::holders::Holders;
use crate::mint_status::{MintReceipt, MintStatus};
use crate::worker::{MintOutcome, MintTask, OutcomeView, TaskView};
use vstd::prelude::*;

verus! {

/// The amount to mint to a wallet that holds `balance`: one token for each
/// wallet, or as many tokens as the wallet holds.
pub open spec fn amount_for(balance: u32, one_to_wallet: bool) -> nat {
    if one_to_wallet {
        1
    } else {
        balance as nat
    }
}

/// The amount to mint to a wallet that holds `balance`.
pub fn mint_amount(balance: u32, one_to_wallet: bool) -> (amount: u64)
    ensures
        amount == amount_for(balance, one_to_wallet),
{
    if one_to_wallet {
        1
    } else {
        balance as u64
    }
}

/// A wallet of the holder registry whose address cannot be read.
#[derive(Clone, Debug, PartialEq, Eq)]
pub struct InvalidWallet {
    pub wallet: String,
}

/// The task for a wallet whose address reads as `key`.
pub open spec fn task_of(wallet: Seq<char>, key: Seq<u8>, balance: u32, one_to_wallet: bool) -> TaskView {
    TaskView { wallet, key, amount: amount_for(balance, one_to_wallet) }
}

/// Whether `wallets[i]` is the first wallet whose address cannot be read.
pub open spec fn first_unreadable(wallets: Seq<Seq<char>>, i: int) -> bool {
    &&& 0 <= i < wallets.len()
    &&& address_key(wallets[i]) is None
    &&& forall|j: int| 0 <= j < i ==> address_key(#[trigger] wallets[j]) is Some
}

/// The task for one wallet, given what reading its address came to: the
/// key, or `None` where the address cannot be read.
pub fn plan_task(wallet: String, balance: u32, one_to_wallet: bool, key: Option<[u8; 32]>) -> (task:
    Result<MintTask, InvalidWallet>)
    ensures
        match task {
            Ok(t) => key is Some && t@ == task_of(wallet@, key.unwrap()@, balance, one_to_wallet),
            Err(e) => key is None && e.wallet@ == wallet@,
        },
{
    match key {
        Some(key) => Ok(MintTask { wallet, key, amount: mint_amount(balance, one_to_wallet) }),
        None => Err(InvalidWallet { wallet }),
    }
}

/// The tasks of an airdrop: one for each wallet of the registry, in the
/// registry's order. Where some address cannot be read there is no plan at
/// all, and the first such wallet is named.
pub fn plan_airdrop(holders: &Holders, one_to_wallet: bool) -> (plan: Result<
    Vec<MintTask>,
    InvalidWallet,
>)
    ensures
        match plan {
            Ok(tasks) => {
                &&& tasks@.len() == holders.wallets().len()
                &&& forall|i: int|
                    0 <= i < tasks@.len() ==> address_key(holders.wallets()[i]) is Some && (
                    #[trigger] tasks@[i])@ == task_of(
                        holders.wallets()[i],
                        address_key(holders.wallets()[i]).unwrap(),
                        holders.quantities()[i],
                        one_to_wallet,
                    )
            },
            Err(e) => exists|i: int| #[trigger]
                first_unreadable(holders.wallets(), i) && e.wallet@ == holders.wallets()[i],
        },
{
    let mut tasks: Vec<MintTask> = Vec::new();
    let n = holders.len();
    let mut i: usize = 0;
    while i < n
        invariant
            i <= n,
            n == holders.wallets().len(),
            n == holders.quantities().len(),
            tasks@.len() == i,
            forall|j: int| 0 <= j < i ==> address_key(#[trigger] holders.wallets()[j]) is Some,
            forall|j: int|
                0 <= j < i ==> (#[trigger] tasks@[j])@ == task_of(
                    holders.wallets()[j],
                    address_key(holders.wallets()[j]).unwrap(),
                    holders.quantities()[j],
                    one_to_wallet,
                ),
        decreases n - i,
    {
        let wallet = holders.wallet_at(i).clone();
        let key = read_address(&wallet);
        match plan_task(wallet, holders.quantity_at(i), one_to_wallet, key) {
            Ok(task) => {
                tasks.push(task);
            },
            Err(e) => {
                assert(first_unreadable(holders.wallets(), i as int));
                return Err(e);
            },
        }
        i += 1;
    }
    Ok(tasks)
}

/// The registry that holds the outcomes `outcomes`, taken in their order.
pub open spec fn gathered(outcomes: Seq<OutcomeView>) -> Map<Seq<char>, MintReceipt>
    decreases outcomes.len(),
{
    if outcomes.len() == 0 {
        Map::empty()
    } else {
        gathered(outcomes.drop_last()).insert(outcomes.last().wallet, outcomes.last().receipt)
    }
}

/// The wallets of `outcomes`, in their order.
pub open spec fn wallets_of(outcomes: Seq<OutcomeView>) -> Seq<Seq<char>> {
    Seq::new(outcomes.len(), |i: int| outcomes[i].wallet)
}

/// The registry of some outcomes holds exactly their wallets.
pub proof fn lemma_gathered_dom(outcomes: Seq<OutcomeView>)
    ensures
        gathered(outcomes).dom() == wallets_of(outcomes).to_set(),
        gathered(outcomes).dom().finite(),
    decreases outcomes.len(),
{
    let wallets = wallets_of(outcomes);
    if outcomes.len() == 0 {
        assert(gathered(outcomes).dom() =~= wallets.to_set());
    } else {
        let before = outcomes.drop_last();
        lemma_gathered_dom(before);
        assert forall|w: Seq<char>| gathered(outcomes).dom().contains(w) <==> wallets.to_set().contains(
            w,
        ) by {
            if wallets_of(before).contains(w) {
                let i = wallets_of(before).index_of(w);
                assert(wallets[i] == w);
            }
            if wallets.contains(w) {
                let i = wallets.index_of(w);
                if i < before.len() {
                    assert(wallets_of(before)[i] == w);
                }
            }
            assert(wallets[outcomes.len() - 1] == outcomes.last().wallet);
        }
        assert(gathered(outcomes).dom() =~= wallets.to_set());
    }
}

/// Where every task reports once, the result registry holds exactly one
/// entry for each wallet of the input, none missing and none added, and the
/// entry of a wallet is what its task reported. `wallets` are the wallets of
/// the input, each named once; `outcomes` are the outcomes in the order of
/// their arrival, which is any order.
pub proof fn lemma_one_entry_per_wallet(wallets: Seq<Seq<char>>, outcomes: Seq<OutcomeView>)
    requires
        wallets.no_duplicates(),
        outcomes.len() == wallets.len(),
        wallets_of(outcomes).no_duplicates(),
        forall|i: int| 0 <= i < outcomes.len() ==> wallets.contains(#[trigger] outcomes[i].wallet),
    ensures
        gathered(outcomes).dom() == wallets.to_set(),
        gathered(outcomes).dom().finite(),
        gathered(outcomes).dom().len() == wallets.len(),
        forall|i: int|
            0 <= i < outcomes.len() ==> gathered(outcomes)[#[trigger] outcomes[i].wallet]
                == outcomes[i].receipt,
{
    let reported = wallets_of(outcomes);
    lemma_gathered_dom(outcomes);
    reported.unique_seq_to_set();
    wallets.unique_seq_to_set();
    assert(reported.to_set().subset_of(wallets.to_set())) by {
        assert forall|w: Seq<char>| reported.to_set().contains(w) implies wallets.to_set().contains(
            w,
        ) by {
            let i = reported.index_of(w);
            assert(outcomes[i].wallet == w);
        }
    }
    vstd::set_lib::lemma_subset_equality(reported.to_set(), wallets.to_set());
    assert forall|i: int| 0 <= i < outcomes.len() implies gathered(outcomes)[#[trigger] outcomes[i].wallet]
        == outcomes[i].receipt by {
        lemma_gathered_keeps(outcomes, i);
    }
}

/// Where every task of an airdrop reports once, the result registry holds
/// exactly the wallets of the holder registry that the airdrop was planned
/// from.
pub proof fn lemma_registry_covers_holders(holders: Holders, outcomes: Seq<OutcomeView>)
    requires
        holders.wf(),
        outcomes.len() == holders.wallets().len(),
        wallets_of(outcomes).no_duplicates(),
        forall|i: int|
            0 <= i < outcomes.len() ==> holders@.contains_key(#[trigger] outcomes[i].wallet),
    ensures
        gathered(outcomes).dom() == holders@.dom(),
        gathered(outcomes).dom().len() == holders@.dom().len(),
{
    crate::holders::lemma_holders_len(holders);
    lemma_one_entry_per_wallet(holders.wallets(), outcomes);
}

/// With distinct wallets no outcome is overwritten by a later one.
proof fn lemma_gathered_keeps(outcomes: Seq<OutcomeView>, i: int)
    requires
        wallets_of(outcomes).no_duplicates(),
        0 <= i < outcomes.len(),
    ensures
        gathered(outcomes).contains_key(outcomes[i].wallet),
        gathered(outcomes)[outcomes[i].wallet] == outcomes[i].receipt,
    decreases outcomes.len(),
{
    let last = outcomes.len() - 1;
    if i < last {
        let before = outcomes.drop_last();
        assert forall|a: int, b: int|
            0 <= a < before.len() && 0 <= b < before.len() && a != b implies wallets_of(before)[a]
            != wallets_of(before)[b] by {
            assert(wallets_of(outcomes)[a] != wallets_of(outcomes)[b]);
        }
        lemma_gathered_keeps(before, i);
        assert(wallets_of(outcomes)[i] != wallets_of(outcomes)[last]);
    }
}

/// The collector of an airdrop while outcomes are still owed to it.
pub struct MintOrchestrator {
    expected: usize,
    received: usize,
    statuses: MintStatus,
    arrived: Ghost<Seq<OutcomeView>>,
}

/// An airdrop's collection: waiting for outcomes, or complete with the
/// result registry.
pub enum MintCollection {
    Waiting(MintOrchestrator),
    Complete(MintStatus),
}

impl MintCollection {
    /// Whether the collection stands at `stage`: waiting collections agree
    /// on what is expected and what has arrived, complete ones on the
    /// registry of what was consumed.
    pub open spec fn stands_at(self, stage: Stage<OutcomeView>) -> bool {
        match self {
            MintCollection::Waiting(orchestrator) => stage == orchestrator.stage(),
            MintCollection::Complete(statuses) => stage matches Stage::Complete { consumed }
                && statuses@ == gathered(consumed),
        }
    }
}

impl MintOrchestrator {
    /// The number of outcomes expected in all.
    pub closed spec fn target(&self) -> nat {
        self.expected as nat
    }

    /// The outcomes that have arrived, in the order of their arrival.
    pub closed spec fn arrived(&self) -> Seq<OutcomeView> {
        self.arrived@
    }

    /// The registry of the outcomes that have arrived.
    pub closed spec fn registry(&self) -> Map<Seq<char>, MintReceipt> {
        self.statuses@
    }

    /// The stage at which the collector stands.
    pub open spec fn stage(&self) -> Stage<OutcomeView> {
        Stage::Waiting { expected: self.target(), arrived: self.arrived() }
    }

    /// Holds of every collector: outcomes are still owed to it, and its
    /// registry holds those that have arrived.
    #[verifier::type_invariant]
    pub open spec fn wf(self) -> bool {
        &&& self.arrived().len() < self.target()
        &&& self.registry() == gathered(self.arrived())
        &&& self.counted()
    }

    /// Whether the count of received outcomes is the number of those that
    /// have arrived.
    pub closed spec fn counted(self) -> bool {
        self.received == self.arrived@.len()
    }

    /// Begins the collection of `expected` outcomes. With none expected it is
    /// complete at once, with an empty registry.
    pub fn start(expected: usize) -> (collection: MintCollection)
        ensures
            collection.stands_at(Stage::begin(expected as nat)),
    {
        let statuses = MintStatus::new();
        if expected == 0 {
            MintCollection::Complete(statuses)
        } else {
            MintCollection::Waiting(
                MintOrchestrator { expected, received: 0, statuses, arrived: Ghost(Seq::empty()) },
            )
        }
    }

    /// The number of outcomes expected in all.
    pub fn expected(&self) -> (expected: usize)
        ensures
            expected == self.target(),
            expected > 0,
    {
        proof {
            use_type_invariant(self);
        }
        self.expected
    }

    /// The number of outcomes received so far.
    pub fn received(&self) -> (received: usize)
        ensures
            received == self.arrived().len(),
            received < self.target(),
    {
        proof {
            use_type_invariant(self);
        }
        self.received
    }

    /// Takes one outcome into the registry. With the last expected outcome
    /// the collection is complete and the registry is handed out.
    pub fn accept(self, outcome: MintOutcome) -> (collection: MintCollection)
        ensures
            collection.stands_at(self.stage().accept(outcome@)),
    {
        proof {
            use_type_invariant(&self);
        }
        let ghost arrived = self.arrived@.push(outcome@);
        let MintOrchestrator { expected, received, mut statuses, arrived: _ } = self;
        statuses.insert(outcome.wallet, outcome.info);
        assert(arrived.drop_last() =~= self.arrived@);
        let received = received + 1;
        if received == expected {
            MintCollection::Complete(statuses)
        } else {
            MintCollection::Waiting(
                MintOrchestrator { expected, received, statuses, arrived: Ghost(arrived) },
            )
        }
    }
}

} // verus!
