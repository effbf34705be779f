//! Data and protocol core of a federated Chaumian e-cash mint: the nonce and
//! note model, tiered denominations, the aggregation of per-peer blind
//! signature shares, and the validation of notes presented for redemption.

pub mod primitives;
pub mod points;
pub mod tiered;
pub mod note;
pub mod errors;
pub mod types;
pub mod combine;
pub mod validate;
pub mod laws;

pub use combine::{KeyShareEntry, ShareAggregator};
pub use errors::{CombineError, MintError, MintShareErrors, PeerErrorType};
pub use note::{BlindNonce, InvalidNonceBytes, Nonce, Note};
pub use points::{
    AggregatePublicKey, BlindedMessage, BlindedSignature, BlindedSignatureShare, G1Point,
    G2Point, Message, PublicKeyShare, Signature,
};
pub use tiered::{Amount, InvalidAmountTierError, TieredMulti};
pub use types::{
    MintCommonGen, MintConsensusItem, MintInput, MintModuleTypes, MintOutput,
    MintOutputBlindSignatures, MintOutputOutcome, MintOutputSignatureShare, OutPoint, PeerId,
    DEFAULT_MAX_NOTES_PER_DENOMINATION,
};
pub use validate::{check_value, tier_key, validate_input, validate_spend, TierKey};
