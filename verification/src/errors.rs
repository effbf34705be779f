//! What can go wrong: while combining shares, while redeeming notes, and
//! what a single peer can be blamed for.

use vstd::prelude::*;
use vstd::std_specs::convert::FromSpecImpl;
use crate::tiered::{Amount, InvalidAmountTierError};
use crate::types::PeerId;

verus! {

/// What a peer's share was excluded for.
#[derive(Debug, Clone, Copy, Eq, PartialEq, Structural, Hash)]
pub enum PeerErrorType {
    /// A partial signature does not verify under the peer's key share.
    InvalidSignature,
    /// The share has other tiers, or another number of entries, than ours.
    DifferentStructureSigShare,
    /// The share signs another blinded message than ours at some position.
    DifferentNonce,
    /// The peer has no key share for a tier of the share.
    InvalidAmountTier,
}

/// The peers that delivered faulty shares, each with its fault.
#[derive(Debug, Clone, Eq, PartialEq, Hash)]
pub struct MintShareErrors(pub Vec<(PeerId, PeerErrorType)>);

/// Why no signature could be combined for an output.
#[derive(Debug, Clone, Eq, PartialEq, Hash)]
pub enum CombineError {
    /// Too few peers contributed: who did, and how many are needed.
    TooFewShares(Vec<PeerId>, usize),
    /// Too few shares were valid: how many were, of how many provided, and
    /// how many are needed.
    TooFewValidShares(usize, usize, usize),
    /// Our own share is not among the shares, so there is no reference to
    /// hold the others against.
    NoOwnContribution,
    /// A peer contributed this many shares where one was expected.
    MultiplePeerContributions(PeerId, usize),
}

/// Why an input of notes was refused.
#[derive(Debug, Clone, Copy, Eq, PartialEq, Hash)]
pub enum MintError {
    /// The input as a whole is not acceptable.
    InvalidNote,
    /// The notes are worth less than is to be reissued: asked, and got.
    TooFewNotes(Amount, Amount),
    /// A note was spent before.
    SpentCoin,
    /// A note is of an amount that the mint does not issue.
    InvalidAmountTier(Amount),
    /// A note's signature does not verify under the key of its tier.
    InvalidSignature,
    /// More notes of one denomination than allowed: the limit, and found.
    ExceededMaxNotes(u16, usize),
}

impl From<InvalidAmountTierError> for MintError {
    fn from(e: InvalidAmountTierError) -> (err: Self) {
        MintError::InvalidAmountTier(e.0)
    }
}

impl FromSpecImpl<InvalidAmountTierError> for MintError {
    open spec fn obeys_from_spec() -> bool {
        true
    }

    open spec fn from_spec(e: InvalidAmountTierError) -> Self {
        MintError::InvalidAmountTier(e.0)
    }
}

} // verus!
