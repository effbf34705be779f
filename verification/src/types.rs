//! The values exchanged with the consensus layer around the mint.

use vstd::prelude::*;
use vstd::std_specs::convert::FromSpecImpl;
use crate::note::{BlindNonce, Note};
use crate::points::{BlindedMessage, BlindedSignature, BlindedSignatureShare};
use crate::tiered::{after_extend, after_insert, Amount, TieredMulti};

verus! {

/// By default, the most notes of one denomination when making change.
pub const DEFAULT_MAX_NOTES_PER_DENOMINATION: u16 = 3;

/// The number of a federation member.
#[derive(Clone, Copy, Debug, PartialEq, Eq, Structural, PartialOrd, Ord, Hash)]
pub struct PeerId(pub u16);

/// One output of one transaction: the unit that signature shares are
/// combined for.
#[derive(Clone, Copy, Debug, PartialEq, Eq, Hash)]
pub struct OutPoint {
    pub txid: [u8; 32],
    pub out_idx: u64,
}

impl OutPoint {
    /// Whether two references are to the same output.
    pub fn same(&self, other: &OutPoint) -> (eq: bool)
        ensures
            eq == (*self == *other),
    {
        if self.out_idx != other.out_idx {
            return false;
        }
        let mut i: usize = 0;
        while i < 32
            invariant
                i <= 32,
                forall|j: int| 0 <= j < i ==> self.txid@[j] == other.txid@[j],
            decreases 32 - i,
        {
            if self.txid[i] != other.txid[i] {
                return false;
            }
            i += 1;
        }
        assert(self.txid =~= other.txid);
        true
    }
}

/// Blind signature share from one federation peer for a single output: for
/// each blinded nonce of the output the peer's partial signature over it.
#[derive(Debug, Clone, Eq, PartialEq, Hash)]
pub struct MintOutputSignatureShare(pub TieredMulti<(BlindedMessage, BlindedSignatureShare)>);

/// A consensus item from one federation member, contributing its partial
/// signatures to the blind nonces of the output at `out_point`.
#[derive(Debug, Clone, Eq, PartialEq, Hash)]
pub struct MintConsensusItem {
    pub out_point: OutPoint,
    pub signatures: MintOutputSignatureShare,
}

/// The full blind signatures for one output: what combining the members'
/// shares gives.
#[derive(Debug, Clone, Eq, PartialEq, Hash)]
pub struct MintOutputBlindSignatures(pub TieredMulti<BlindedSignature>);

/// The notes that a transaction spends.
#[derive(Debug, Clone, Eq, PartialEq, Hash)]
pub struct MintInput(pub TieredMulti<Note>);

/// The blind nonces that a transaction asks the mint to sign.
#[derive(Debug, Clone, Eq, PartialEq, Hash)]
pub struct MintOutput(pub TieredMulti<BlindNonce>);

/// What became of an output: its signatures, or nothing while they are
/// still to be combined.
#[derive(Debug, Clone, Eq, PartialEq, Hash)]
pub struct MintOutputOutcome(pub Option<MintOutputBlindSignatures>);

/// Marker of the mint module's common part.
#[derive(Debug)]
pub struct MintCommonGen;

/// Marker of the mint module's set of types.
pub struct MintModuleTypes;

impl MintInput {
    /// The number of notes, over all tiers.
    pub fn count_items(&self) -> (n: usize)
        ensures
            n == self.0@.len(),
    {
        self.0.count_items()
    }

    /// The entry at a position of the ascending listing.
    pub fn item(&self, index: usize) -> (entry: &(Amount, Note))
        requires
            index < self.0@.len(),
        ensures
            *entry == self.0@[index as int],
    {
        self.0.item(index)
    }

    /// Adds one of the notes under a tier, behind those that the tier has.
    pub fn insert(&mut self, tier: Amount, value: Note)
        requires
            old(self).0.wf(),
        ensures
            final(self).0@ == after_insert(old(self).0@, tier, value),
            final(self).0.wf(),
    {
        self.0.insert(tier, value)
    }

    /// The value of the notes, where it fits the amount's range.
    pub fn total_amount(&self) -> (total: Option<Amount>)
        ensures
            total == self.0.spec_total(),
    {
        self.0.total_amount()
    }
}

impl Default for MintInput {
    fn default() -> (input: Self)
        ensures
            input.0@.len() == 0,
            input.0.wf(),
    {
        MintInput(TieredMulti::new())
    }
}

impl MintOutput {
    /// The number of blind nonces, over all tiers.
    pub fn count_items(&self) -> (n: usize)
        ensures
            n == self.0@.len(),
    {
        self.0.count_items()
    }

    /// The entry at a position of the ascending listing.
    pub fn item(&self, index: usize) -> (entry: &(Amount, BlindNonce))
        requires
            index < self.0@.len(),
        ensures
            *entry == self.0@[index as int],
    {
        self.0.item(index)
    }

    /// Adds one of the blind nonces under a tier, behind those that the tier has.
    pub fn insert(&mut self, tier: Amount, value: BlindNonce)
        requires
            old(self).0.wf(),
        ensures
            final(self).0@ == after_insert(old(self).0@, tier, value),
            final(self).0.wf(),
    {
        self.0.insert(tier, value)
    }

    /// The value asked for, where it fits the amount's range.
    pub fn total_amount(&self) -> (total: Option<Amount>)
        ensures
            total == self.0.spec_total(),
    {
        self.0.total_amount()
    }
}

impl MintOutput {
    /// Adds blind nonces, each under its tier, in the order given.
    pub fn extend(&mut self, items: &Vec<(Amount, BlindNonce)>)
        requires
            old(self).0.wf(),
        ensures
            final(self).0@ == after_extend(old(self).0@, items@, items@.len() as int),
            final(self).0.wf(),
    {
        let mut i: usize = 0;
        while i < items.len()
            invariant
                i <= items@.len(),
                self.0.wf(),
                self.0@ == after_extend(old(self).0@, items@, i as int),
            decreases items@.len() - i,
        {
            let entry = items[i];
            self.0.insert(entry.0, entry.1);
            i += 1;
        }
    }
}

impl Default for MintOutput {
    fn default() -> (output: Self)
        ensures
            output.0@.len() == 0,
            output.0.wf(),
    {
        MintOutput(TieredMulti::new())
    }
}

impl From<MintOutput> for TieredMulti<BlindNonce> {
    fn from(sig_req: MintOutput) -> (tiered: Self) {
        sig_req.0
    }
}

impl FromSpecImpl<MintOutput> for TieredMulti<BlindNonce> {
    open spec fn obeys_from_spec() -> bool {
        true
    }

    open spec fn from_spec(sig_req: MintOutput) -> Self {
        sig_req.0
    }
}

impl MintOutputSignatureShare {
    /// The value that the shares sign for, where it fits the amount's range.
    pub fn total_amount(&self) -> (total: Option<Amount>)
        ensures
            total == self.0.spec_total(),
    {
        self.0.total_amount()
    }
}

impl MintOutputBlindSignatures {
    /// The value that was signed for, where it fits the amount's range.
    pub fn total_amount(&self) -> (total: Option<Amount>)
        ensures
            total == self.0.spec_total(),
    {
        self.0.total_amount()
    }
}

impl MintOutputOutcome {
    /// The value of the minted notes; nothing while they are to be minted.
    pub fn minted_amount(&self) -> (total: Option<Amount>)
        ensures
            total == match self.0 {
                Some(sigs) => sigs.0.spec_total(),
                None => None,
            },
    {
        match &self.0 {
            Some(sigs) => sigs.total_amount(),
            None => None,
        }
    }
}

} // verus!
