//! The result registry of an airdrop: what became of each wallet's mint.

use crate::registry::{keyed, lemma_keyed_at, lemma_keyed_dom, Registry};
use vstd::prelude::*;

verus! {

/// What became of one wallet's mint: the signature of the transaction when
/// it was confirmed, and whether it was confirmed at all.
#[derive(Clone, Debug, PartialEq, Eq)]
pub struct MintTxInfo {
    pub signature: Option<String>,
    pub status: bool,
}

/// A [`MintTxInfo`] as plain mathematics.
pub struct MintReceipt {
    pub signature: Option<Seq<char>>,
    pub status: bool,
}

impl View for MintTxInfo {
    type V = MintReceipt;

    open spec fn view(&self) -> MintReceipt {
        MintReceipt {
            signature: match self.signature {
                Some(s) => Some(s@),
                None => None,
            },
            status: self.status,
        }
    }
}

impl MintReceipt {
    /// The receipt of a mint confirmed under `signature`.
    pub open spec fn confirmed(signature: Seq<char>) -> MintReceipt {
        MintReceipt { signature: Some(signature), status: true }
    }

    /// The receipt of a mint that never went through.
    pub open spec fn failed() -> MintReceipt {
        MintReceipt { signature: None, status: false }
    }
}

impl MintTxInfo {
    /// The record of a mint confirmed under `signature`.
    pub fn confirmed(signature: String) -> (info: MintTxInfo)
        ensures
            info@ == MintReceipt::confirmed(signature@),
    {
        MintTxInfo { signature: Some(signature), status: true }
    }

    /// The record of a mint that never went through.
    pub fn failed() -> (info: MintTxInfo)
        ensures
            info@ == MintReceipt::failed(),
    {
        MintTxInfo { signature: None, status: false }
    }
}

/// The result registry: for each wallet address what became of its mint.
/// Seen as mathematics it is a finite map from addresses to receipts.
pub struct MintStatus {
    list: Registry<MintTxInfo>,
}

impl View for MintStatus {
    type V = Map<Seq<char>, MintReceipt>;

    open spec fn view(&self) -> Map<Seq<char>, MintReceipt> {
        keyed(self.wallets(), self.receipts())
    }
}

impl MintStatus {
    /// The wallets, in the order in which their results arrived.
    pub closed spec fn wallets(&self) -> Seq<Seq<char>> {
        self.list.keys()
    }

    /// The receipts, each at the position of its wallet.
    pub closed spec fn receipts(&self) -> Seq<MintReceipt> {
        Seq::new(self.list.values().len(), |i: int| self.list.values()[i]@)
    }

    /// Holds of every result registry: no wallet stands twice, and every
    /// wallet has its receipt.
    #[verifier::type_invariant]
    pub open spec fn wf(self) -> bool {
        &&& self.wallets().no_duplicates()
        &&& self.wallets().len() == self.receipts().len()
    }

    /// A registry without results.
    pub fn new() -> (statuses: MintStatus)
        ensures
            statuses.wallets() == Seq::<Seq<char>>::empty(),
            statuses.receipts() == Seq::<MintReceipt>::empty(),
            statuses@ == Map::<Seq<char>, MintReceipt>::empty(),
    {
        let list = Registry::new();
        proof {
            use_type_invariant(&list);
        }
        let statuses = MintStatus { list };
        assert(statuses.receipts() =~= Seq::<MintReceipt>::empty());
        assert(statuses@ =~= Map::<Seq<char>, MintReceipt>::empty());
        statuses
    }

    /// The number of wallets with a result.
    pub fn len(&self) -> (n: usize)
        ensures
            n == self.wallets().len(),
            n == self.receipts().len(),
            n == self@.dom().len(),
    {
        proof {
            use_type_invariant(self);
            lemma_keyed_dom(self.wallets(), self.receipts());
        }
        self.list.len()
    }

    /// What became of the mint for `wallet`, if its result is there.
    pub fn get(&self, wallet: &String) -> (info: Option<&MintTxInfo>)
        ensures
            match info {
                Some(i) => self@.contains_key(wallet@) && self@[wallet@] == i@,
                None => !self@.contains_key(wallet@),
            },
    {
        proof {
            use_type_invariant(self);
        }
        match self.list.position(wallet) {
            Some(i) => {
                proof {
                    lemma_keyed_at(self.wallets(), self.receipts(), i as int);
                }
                Some(self.list.value_at(i))
            },
            None => None,
        }
    }

    /// The wallet at position `i`.
    pub fn wallet_at(&self, i: usize) -> (wallet: &String)
        requires
            i < self.wallets().len(),
        ensures
            wallet@ == self.wallets()[i as int],
    {
        self.list.key_at(i)
    }

    /// What became of the mint for the wallet at position `i`.
    pub fn info_at(&self, i: usize) -> (info: &MintTxInfo)
        requires
            i < self.receipts().len(),
        ensures
            info@ == self.receipts()[i as int],
            self@[self.wallets()[i as int]] == info@,
    {
        proof {
            use_type_invariant(self);
            lemma_keyed_at(self.wallets(), self.receipts(), i as int);
        }
        self.list.value_at(i)
    }

    /// Records `info` as the result for `wallet` and hands back the result
    /// that was recorded for it before. A wallet that already has a result
    /// keeps its position; a new one goes to the end.
    pub fn insert(&mut self, wallet: String, info: MintTxInfo) -> (previous: Option<MintTxInfo>)
        ensures
            final(self)@ == old(self)@.insert(wallet@, info@),
            match previous {
                Some(p) => old(self)@.contains_key(wallet@) && old(self)@[wallet@] == p@,
                None => !old(self)@.contains_key(wallet@),
            },
            final(self).wallets() == if old(self)@.contains_key(wallet@) {
                old(self).wallets()
            } else {
                old(self).wallets().push(wallet@)
            },
    {
        proof {
            use_type_invariant(&*self);
        }
        let ghost wallets = self.wallets();
        let ghost receipts = self.receipts();
        let ghost values = self.list.values();
        let mut list = Registry::new();
        std::mem::swap(&mut list, &mut self.list);
        let previous = list.insert(wallet, info);
        proof {
            use_type_invariant(&list);
            let after = Seq::new(list.values().len(), |i: int| list.values()[i]@);
            if wallets.contains(wallet@) {
                let i = wallets.index_of(wallet@);
                lemma_keyed_at(wallets, receipts, i);
                lemma_keyed_at(wallets, values, i);
                crate::registry::lemma_keyed_update(wallets, receipts, i, info@);
                assert(after =~= receipts.update(i, info@));
            } else {
                crate::registry::lemma_keyed_push(wallets, receipts, wallet@, info@);
                assert(after =~= receipts.push(info@));
            }
        }
        self.list = list;
        previous
    }
}

/// A result registry has as many entries as it has wallets.
pub proof fn lemma_statuses_len(statuses: MintStatus)
    requires
        statuses.wf(),
    ensures
        statuses@.dom().finite(),
        statuses@.dom().len() == statuses.wallets().len(),
        statuses@.dom() == statuses.wallets().to_set(),
{
    lemma_keyed_dom(statuses.wallets(), statuses.receipts());
}

} // verus!
