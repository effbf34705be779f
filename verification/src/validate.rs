//! Validating the notes that a transaction presents for redemption.

use vstd::prelude::*;
use crate::errors::MintError;
use crate::note::Note;
use crate::points::AggregatePublicKey;
use crate::primitives::{message_point, signature_verifies};
use crate::tiered::{lemma_total_grows, tier_count, total_msats, Amount, InvalidAmountTierError};
use crate::types::MintInput;

verus! {

/// The federation's public key for one denomination that it issues.
#[derive(Clone, Copy, Debug, PartialEq, Eq, Hash)]
pub struct TierKey {
    pub tier: Amount,
    pub key: AggregatePublicKey,
}

/// The first key for the tier among the entries from `from` on.
pub open spec fn tier_key_from(keys: Seq<TierKey>, tier: Amount, from: int) -> Option<AggregatePublicKey>
    decreases keys.len() - from,
{
    if from < 0 || from >= keys.len() {
        None
    } else if keys[from].tier == tier {
        Some(keys[from].key)
    } else {
        tier_key_from(keys, tier, from + 1)
    }
}

/// The tier of the entry is one that the federation issues.
pub open spec fn tier_supported(keys: Seq<TierKey>, entry: (Amount, Note)) -> bool {
    tier_key_from(keys, entry.0, 0) is Some
}

/// The note's signature verifies under the key of its tier, where the tier
/// has a key.
pub open spec fn signature_ok(keys: Seq<TierKey>, entry: (Amount, Note)) -> bool {
    match tier_key_from(keys, entry.0, 0) {
        Some(key) => signature_verifies(message_point(entry.1.0@), entry.1.1.0@, key.0@),
        None => true,
    }
}

/// The tier of the entry has no more notes than the limit.
pub open spec fn within_limit(notes: Seq<(Amount, Note)>, max: u16, entry: (Amount, Note)) -> bool {
    tier_count(notes, entry.0, notes.len() as int) <= max
}

/// What `validate_input` returns on the notes: each outcome with the inputs
/// on which it comes.
pub open spec fn validate_post(
    notes: Seq<(Amount, Note)>,
    keys: Seq<TierKey>,
    max: u16,
    outcome: Result<Amount, MintError>,
) -> bool {
    let signatures_ok = forall|j: int| 0 <= j < notes.len() ==> signature_ok(keys, #[trigger] notes[j]);
    let tiers_ok = forall|j: int| 0 <= j < notes.len() ==> tier_supported(keys, #[trigger] notes[j]);
    let counts_ok = forall|j: int| 0 <= j < notes.len() ==> within_limit(notes, max, #[trigger] notes[j]);
    let total = total_msats(notes, notes.len() as int);
    match outcome {
        Err(MintError::InvalidSignature) => !signatures_ok,
        Err(MintError::InvalidAmountTier(tier)) => {
            &&& signatures_ok
            &&& exists|i: int|
                {
                    &&& 0 <= i < notes.len()
                    &&& !tier_supported(keys, #[trigger] notes[i])
                    &&& tier == notes[i].0
                    &&& forall|j: int| 0 <= j < i ==> tier_supported(keys, #[trigger] notes[j])
                }
        },
        Err(MintError::ExceededMaxNotes(limit, found)) => {
            &&& signatures_ok
            &&& tiers_ok
            &&& limit == max
            &&& exists|i: int|
                {
                    &&& 0 <= i < notes.len()
                    &&& !within_limit(notes, max, #[trigger] notes[i])
                    &&& found == tier_count(notes, notes[i].0, notes.len() as int)
                    &&& forall|j: int| 0 <= j < i ==> within_limit(notes, max, #[trigger] notes[j])
                }
        },
        Err(MintError::InvalidNote) => signatures_ok && tiers_ok && counts_ok && total > u64::MAX,
        Err(MintError::TooFewNotes(_, _)) => false,
        Err(MintError::SpentCoin) => false,
        Ok(amount) => signatures_ok && tiers_ok && counts_ok && amount.msats == total,
    }
}

/// The federation's key for a tier, or the refusal of a tier without one.
pub fn tier_key(keys: &Vec<TierKey>, tier: Amount) -> (found: Result<AggregatePublicKey, InvalidAmountTierError>)
    ensures
        match found {
            Ok(key) => tier_key_from(keys@, tier, 0) == Some(key),
            Err(refusal) => tier_key_from(keys@, tier, 0).is_none() && refusal.0 == tier,
        },
{
    let mut i: usize = 0;
    while i < keys.len()
        invariant
            i <= keys@.len(),
            tier_key_from(keys@, tier, 0) == tier_key_from(keys@, tier, i as int),
        decreases keys@.len() - i,
    {
        if keys[i].tier == tier {
            return Ok(keys[i].key);
        }
        i += 1;
    }
    Err(InvalidAmountTierError(tier))
}

/// Checks the notes of an input and returns their value.
///
/// Fails with `InvalidSignature` where a note of a supported tier does not
/// verify under that tier's key; else with `InvalidAmountTier` and the
/// tier of the first note whose tier the federation does not issue; else
/// with `ExceededMaxNotes`, the limit and the number found, for the first
/// note whose tier has more notes than `max_per_denom`; else with
/// `InvalidNote` where the value of the notes is beyond the range of an
/// amount.
pub fn validate_input(input: &MintInput, keys: &Vec<TierKey>, max_per_denom: u16) -> (outcome: Result<
    Amount,
    MintError,
>)
    ensures
        validate_post(input.0@, keys@, max_per_denom, outcome),
{
    let n = input.0.count_items();
    let mut i: usize = 0;
    while i < n
        invariant
            i <= n,
            n == input.0@.len(),
            forall|j: int| 0 <= j < i ==> signature_ok(keys@, #[trigger] input.0@[j]),
        decreases n - i,
    {
        let entry = input.0.item(i);
        if let Ok(key) = tier_key(keys, entry.0) {
            if !entry.1.verify(key) {
                assert(!signature_ok(keys@, input.0@[i as int]));
                return Err(MintError::InvalidSignature);
            }
        }
        i += 1;
    }
    let mut i: usize = 0;
    while i < n
        invariant
            i <= n,
            n == input.0@.len(),
            forall|j: int| 0 <= j < n ==> signature_ok(keys@, #[trigger] input.0@[j]),
            forall|j: int| 0 <= j < i ==> tier_supported(keys@, #[trigger] input.0@[j]),
        decreases n - i,
    {
        let entry = input.0.item(i);
        if let Err(refusal) = tier_key(keys, entry.0) {
            assert(!tier_supported(keys@, input.0@[i as int]));
            return Err(MintError::from(refusal));
        }
        i += 1;
    }
    let mut i: usize = 0;
    while i < n
        invariant
            i <= n,
            n == input.0@.len(),
            forall|j: int| 0 <= j < n ==> signature_ok(keys@, #[trigger] input.0@[j]),
            forall|j: int| 0 <= j < n ==> tier_supported(keys@, #[trigger] input.0@[j]),
            forall|j: int| 0 <= j < i ==> within_limit(input.0@, max_per_denom, #[trigger] input.0@[j]),
        decreases n - i,
    {
        let found = input.0.count_tier(input.0.item(i).0);
        if found > max_per_denom as usize {
            assert(!within_limit(input.0@, max_per_denom, input.0@[i as int]));
            return Err(MintError::ExceededMaxNotes(max_per_denom, found));
        }
        i += 1;
    }
    proof {
        lemma_total_grows(input.0@, 0, n as int);
    }
    match input.0.total_amount() {
        Some(total) => Ok(total),
        None => Err(MintError::InvalidNote),
    }
}

/// Holds the value of the notes against the amount to be reissued: fails
/// with `TooFewNotes` exactly where the notes are worth less.
pub fn check_value(requested: Amount, available: Amount) -> (outcome: Result<(), MintError>)
    ensures
        outcome is Ok <==> requested.msats <= available.msats,
        outcome is Err ==> outcome == Err::<(), MintError>(MintError::TooFewNotes(requested, available)),
{
    if available.msats < requested.msats {
        Err(MintError::TooFewNotes(requested, available))
    } else {
        Ok(())
    }
}

/// Checks the notes of an input as `validate_input` does, and then that
/// they are worth the amount to be reissued.
pub fn validate_spend(input: &MintInput, keys: &Vec<TierKey>, max_per_denom: u16, requested: Amount) -> (outcome:
    Result<Amount, MintError>)
    ensures
        match outcome {
            Ok(amount) => validate_post(input.0@, keys@, max_per_denom, outcome) && requested.msats
                <= amount.msats,
            Err(MintError::TooFewNotes(asked, got)) => {
                &&& validate_post(input.0@, keys@, max_per_denom, Ok(got))
                &&& asked == requested
                &&& got.msats < requested.msats
            },
            Err(_) => validate_post(input.0@, keys@, max_per_denom, outcome),
        },
{
    let total = match validate_input(input, keys, max_per_denom) {
        Ok(total) => total,
        Err(e) => {
            return Err(e);
        },
    };
    match check_value(requested, total) {
        Ok(()) => Ok(total),
        Err(e) => Err(e),
    }
}

} // verus!
