//! The holder registry: how many assets each wallet holds.

use crate::registry::{keyed, lemma_keyed_at, lemma_keyed_dom, lemma_sum_push, lemma_sum_update, sum, Registry};
use vstd::prelude::*;

verus! {

/// The quantity that `wallet` holds once one more asset is counted for it.
pub open spec fn credited(holders: Map<Seq<char>, u32>, wallet: Seq<char>) -> int {
    if holders.contains_key(wallet) {
        holders[wallet] + 1
    } else {
        1
    }
}

/// The holder registry: for each wallet address the quantity it holds.
/// Seen as mathematics it is a finite map from addresses to quantities.
pub struct Holders {
    list: Registry<u32>,
}

impl View for Holders {
    type V = Map<Seq<char>, u32>;

    open spec fn view(&self) -> Map<Seq<char>, u32> {
        keyed(self.wallets(), self.quantities())
    }
}

impl Holders {
    /// The wallets, in the order in which they were first registered.
    pub closed spec fn wallets(&self) -> Seq<Seq<char>> {
        self.list.keys()
    }

    /// The quantities held, each at the position of its wallet.
    pub closed spec fn quantities(&self) -> Seq<u32> {
        self.list.values()
    }

    /// The quantities of all wallets together.
    pub open spec fn total(&self) -> nat {
        sum(self.quantities())
    }

    /// Holds of every holder registry: no wallet stands twice, and every
    /// wallet has its quantity.
    #[verifier::type_invariant]
    pub open spec fn wf(self) -> bool {
        &&& self.wallets().no_duplicates()
        &&& self.wallets().len() == self.quantities().len()
    }

    /// A registry without holders.
    pub fn new() -> (holders: Holders)
        ensures
            holders.wallets() == Seq::<Seq<char>>::empty(),
            holders.quantities() == Seq::<u32>::empty(),
            holders@ == Map::<Seq<char>, u32>::empty(),
            holders.total() == 0,
    {
        let list = Registry::new();
        proof {
            use_type_invariant(&list);
        }
        Holders { list }
    }

    /// The number of wallets.
    pub fn len(&self) -> (n: usize)
        ensures
            n == self.wallets().len(),
            n == self.quantities().len(),
            n == self@.dom().len(),
    {
        self.list.len()
    }

    /// The quantity that `wallet` holds, if it is registered.
    pub fn get(&self, wallet: &String) -> (quantity: Option<u32>)
        ensures
            match quantity {
                Some(q) => self@.contains_key(wallet@) && self@[wallet@] == q,
                None => !self@.contains_key(wallet@),
            },
    {
        match self.list.get(wallet) {
            Some(q) => Some(*q),
            None => None,
        }
    }

    /// The wallet at position `i`.
    pub fn wallet_at(&self, i: usize) -> (wallet: &String)
        requires
            i < self.wallets().len(),
        ensures
            wallet@ == self.wallets()[i as int],
    {
        self.list.key_at(i)
    }

    /// The quantity held by the wallet at position `i`.
    pub fn quantity_at(&self, i: usize) -> (quantity: u32)
        requires
            i < self.quantities().len(),
        ensures
            quantity == self.quantities()[i as int],
            self@[self.wallets()[i as int]] == quantity,
    {
        proof {
            use_type_invariant(self);
            lemma_keyed_at(self.wallets(), self.quantities(), i as int);
        }
        *self.list.value_at(i)
    }

    /// Registers `wallet` as holding `quantity` and hands back the quantity
    /// that was registered for it before. A wallet that is already
    /// registered keeps its position; a new one goes to the end.
    pub fn insert(&mut self, wallet: String, quantity: u32) -> (previous: Option<u32>)
        ensures
            final(self)@ == old(self)@.insert(wallet@, quantity),
            match previous {
                Some(q) => old(self)@.contains_key(wallet@) && old(self)@[wallet@] == q,
                None => !old(self)@.contains_key(wallet@),
            },
            old(self)@.contains_key(wallet@) ==> final(self).wallets() == old(self).wallets()
                && final(self).total() == old(self).total() - old(self)@[wallet@] + quantity,
            !old(self)@.contains_key(wallet@) ==> final(self).wallets() == old(self).wallets().push(
                wallet@,
            ) && final(self).total() == old(self).total() + quantity,
    {
        proof {
            use_type_invariant(&*self);
            if self@.contains_key(wallet@) {
                let i = self.wallets().index_of(wallet@);
                lemma_keyed_at(self.wallets(), self.quantities(), i);
                lemma_sum_update(self.quantities(), i, quantity);
            } else {
                lemma_sum_push(self.quantities(), quantity);
            }
        }
        let mut list = Registry::new();
        std::mem::swap(&mut list, &mut self.list);
        let previous = list.insert(wallet, quantity);
        proof {
            use_type_invariant(&list);
        }
        self.list = list;
        previous
    }

    /// Counts one more asset for `wallet`, registering the wallet with a
    /// quantity of one if it is new.
    pub fn credit(&mut self, wallet: String)
        requires
            old(self)@.contains_key(wallet@) ==> old(self)@[wallet@] < u32::MAX,
        ensures
            final(self)@ == old(self)@.insert(wallet@, credited(old(self)@, wallet@) as u32),
            final(self).total() == old(self).total() + 1,
            final(self).wallets() == if old(self)@.contains_key(wallet@) {
                old(self).wallets()
            } else {
                old(self).wallets().push(wallet@)
            },
    {
        let quantity: u32 = match self.get(&wallet) {
            Some(q) => q + 1,
            None => 1,
        };
        self.insert(wallet, quantity);
    }
}

/// No wallet holds more than all wallets together.
pub proof fn lemma_quantity_within_total(holders: Holders, wallet: Seq<char>)
    requires
        holders.wf(),
        holders@.contains_key(wallet),
    ensures
        holders@[wallet] <= holders.total(),
{
    let i = holders.wallets().index_of(wallet);
    lemma_keyed_at(holders.wallets(), holders.quantities(), i);
    crate::registry::lemma_sum_bounds(holders.quantities(), i);
}

/// A holder registry has as many entries as it has wallets.
pub proof fn lemma_holders_len(holders: Holders)
    requires
        holders.wf(),
    ensures
        holders@.dom().finite(),
        holders@.dom().len() == holders.wallets().len(),
        holders@.dom() == holders.wallets().to_set(),
{
    lemma_keyed_dom(holders.wallets(), holders.quantities());
}

} // verus!
