//! What holds of combining shares and of validating inputs, on every input.

use vstd::prelude::*;
use crate::combine::{
    fault_at, faults_upto, first_from, is_combination, is_first_from, is_first_repeated,
    lemma_first_from, lemma_peer_counted_twice, lemma_valid_count, no_repeated_peer, none_from,
    peer_count, peer_ids, valid_upto, ShareAggregator,
};
use crate::errors::{CombineError, MintError, MintShareErrors, PeerErrorType};
use crate::note::Note;
use crate::tiered::{lemma_total_grows, tier_count, total_msats, Amount};
use crate::types::{MintConsensusItem, MintOutputBlindSignatures, PeerId};
use crate::validate::{signature_ok, tier_supported, validate_post, within_limit, TierKey};

verus! {

/// Two outcomes of combining are the same: the same failure with the same
/// numbers and peers, or signatures and faults with the same contents.
pub open spec fn same_outcome(
    a: Result<(MintOutputBlindSignatures, MintShareErrors), CombineError>,
    b: Result<(MintOutputBlindSignatures, MintShareErrors), CombineError>,
) -> bool {
    match (a, b) {
        (Ok((sigs_a, errors_a)), Ok((sigs_b, errors_b))) => {
            &&& errors_a.0@ == errors_b.0@
            &&& sigs_a.0@.len() == sigs_b.0@.len()
            &&& forall|k: int|
                0 <= k < sigs_a.0@.len() ==> (#[trigger] sigs_a.0@[k]).0 == sigs_b.0@[k].0 && sigs_a.0@[k].1.0@
                    == sigs_b.0@[k].1.0@
        },
        (Err(CombineError::NoOwnContribution), Err(CombineError::NoOwnContribution)) => true,
        (
            Err(CombineError::MultiplePeerContributions(peer_a, count_a)),
            Err(CombineError::MultiplePeerContributions(peer_b, count_b)),
        ) => peer_a == peer_b && count_a == count_b,
        (Err(CombineError::TooFewShares(peers_a, needed_a)), Err(CombineError::TooFewShares(peers_b, needed_b))) => {
            peers_a@ == peers_b@ && needed_a == needed_b
        },
        (
            Err(CombineError::TooFewValidShares(valid_a, provided_a, needed_a)),
            Err(CombineError::TooFewValidShares(valid_b, provided_b, needed_b)),
        ) => valid_a == valid_b && provided_a == provided_b && needed_a == needed_b,
        _ => false,
    }
}

/// The first share from a peer, and the first share of a repeated peer, are
/// each at one position only.
pub proof fn lemma_first_positions_unique(shares: Seq<(PeerId, MintConsensusItem)>, peer: PeerId, i: int, j: int)
    ensures
        is_first_from(shares, peer, i) && is_first_from(shares, peer, j) ==> i == j,
        is_first_repeated(shares, i) && is_first_repeated(shares, j) ==> i == j,
{
    if is_first_from(shares, peer, i) && is_first_from(shares, peer, j) {
        if i < j {
            assert(shares[i].0 == peer);
        } else if j < i {
            assert(shares[j].0 == peer);
        }
    }
    if is_first_repeated(shares, i) && is_first_repeated(shares, j) {
        if i < j {
            assert(peer_count(shares, shares[i].0, shares.len() as int) > 1);
        } else if j < i {
            assert(peer_count(shares, shares[j].0, shares.len() as int) > 1);
        }
    }
}

/// The position of the first share of a repeated peer, where there is one.
pub open spec fn first_repeated(shares: Seq<(PeerId, MintConsensusItem)>) -> int {
    choose|index: int| is_first_repeated(shares, index)
}

/// What an outcome of combining says, with each position named: the
/// outcomes exclude each other, and each fixes what it carries.
pub open spec fn outcome_determined(
    aggregator: ShareAggregator,
    shares: Seq<(PeerId, MintConsensusItem)>,
    outcome: Result<(MintOutputBlindSignatures, MintShareErrors), CombineError>,
) -> bool {
    let own = first_from(shares, aggregator.own_peer);
    let valid = valid_upto(aggregator.keys@, shares, own, shares.len() as int);
    match outcome {
        Err(CombineError::NoOwnContribution) => none_from(shares, aggregator.own_peer),
        Err(CombineError::MultiplePeerContributions(peer, count)) => {
            &&& !none_from(shares, aggregator.own_peer)
            &&& !no_repeated_peer(shares)
            &&& peer == shares[first_repeated(shares)].0
            &&& count == peer_count(shares, peer, shares.len() as int)
        },
        Err(CombineError::TooFewShares(peers, needed)) => {
            &&& !none_from(shares, aggregator.own_peer)
            &&& no_repeated_peer(shares)
            &&& valid.len() <= shares.len() < aggregator.threshold
            &&& peers@ == peer_ids(shares)
            &&& needed == aggregator.threshold
        },
        Err(CombineError::TooFewValidShares(count, provided, needed)) => {
            &&& !none_from(shares, aggregator.own_peer)
            &&& no_repeated_peer(shares)
            &&& shares.len() >= aggregator.threshold
            &&& count == valid.len()
            &&& count < aggregator.threshold
            &&& provided == shares.len()
            &&& needed == aggregator.threshold
        },
        Ok((sigs, errors)) => {
            &&& !none_from(shares, aggregator.own_peer)
            &&& no_repeated_peer(shares)
            &&& shares.len() >= aggregator.threshold
            &&& valid.len() >= aggregator.threshold
            &&& errors.0@ == faults_upto(aggregator.keys@, shares, own, shares.len() as int)
            &&& is_combination(shares, own, valid, aggregator.threshold, sigs.0@)
        },
    }
}

/// Every outcome of combining is determined by the shares.
pub proof fn lemma_outcome_determined(
    aggregator: ShareAggregator,
    shares: Seq<(PeerId, MintConsensusItem)>,
    outcome: Result<(MintOutputBlindSignatures, MintShareErrors), CombineError>,
)
    requires
        aggregator.combine_post(shares, outcome),
    ensures
        outcome_determined(aggregator, shares, outcome),
{
    let keys = aggregator.keys@;
    let n = shares.len() as int;
    let own = first_from(shares, aggregator.own_peer);
    assert forall|i: int| is_first_from(shares, aggregator.own_peer, i) implies i == own && !none_from(
        shares,
        aggregator.own_peer,
    ) by {
        lemma_first_from(shares, aggregator.own_peer, i);
        assert(shares[i].0 == aggregator.own_peer);
    }
    assert forall|i: int| is_first_repeated(shares, i) implies i == first_repeated(shares)
        && !no_repeated_peer(shares) by {
        lemma_first_positions_unique(shares, aggregator.own_peer, i, first_repeated(shares));
        assert(peer_count(shares, shares[i].0, n) > 1);
    }
    lemma_valid_count(keys, shares, own, n);
    match outcome {
        Err(CombineError::MultiplePeerContributions(peer, count)) => {
            let i = choose|i: int| #[trigger] is_first_repeated(shares, i) && shares[i].0 == peer;
            assert(is_first_repeated(shares, i));
        },
        Err(CombineError::TooFewValidShares(count, provided, needed)) => {
            let at = choose|at: int|
                #[trigger] is_first_from(shares, aggregator.own_peer, at) && count == valid_upto(
                    keys,
                    shares,
                    at,
                    n,
                ).len();
            assert(is_first_from(shares, aggregator.own_peer, at));
        },
        Ok((sigs, errors)) => {
            let at = choose|at: int|
                {
                    &&& #[trigger] is_first_from(shares, aggregator.own_peer, at)
                    &&& valid_upto(keys, shares, at, n).len() >= aggregator.threshold
                    &&& errors.0@ == faults_upto(keys, shares, at, n)
                    &&& is_combination(shares, at, valid_upto(keys, shares, at, n), aggregator.threshold, sigs.0@)
                };
            assert(is_first_from(shares, aggregator.own_peer, at));
        },
        _ => {},
    }
}

/// Combining is a function of its input: two outcomes on the same shares
/// are the same, down to the bytes of each signature.
pub proof fn lemma_combine_idempotent(
    aggregator: ShareAggregator,
    shares: Seq<(PeerId, MintConsensusItem)>,
    first: Result<(MintOutputBlindSignatures, MintShareErrors), CombineError>,
    second: Result<(MintOutputBlindSignatures, MintShareErrors), CombineError>,
)
    requires
        aggregator.combine_post(shares, first),
        aggregator.combine_post(shares, second),
    ensures
        same_outcome(first, second),
{
    lemma_outcome_determined(aggregator, shares, first);
    lemma_outcome_determined(aggregator, shares, second);
    match (first, second) {
        (Ok((sigs_a, errors_a)), Ok((sigs_b, errors_b))) => {
            let own = first_from(shares, aggregator.own_peer);
            assert forall|k: int| 0 <= k < sigs_a.0@.len() implies (#[trigger] sigs_a.0@[k]).0 == sigs_b.0@[k].0
                && sigs_a.0@[k].1.0@ == sigs_b.0@[k].1.0@ by {
                assert(sigs_b.0@[k].0 == shares[own].1.signatures.0@[k].0);
            }
        },
        _ => {},
    }
}

/// With fewer shares than the threshold no signature is combined; where our
/// own share is among them and no peer is repeated, the failure names the
/// contributing peers and the threshold.
pub proof fn lemma_minimum_threshold(
    aggregator: ShareAggregator,
    shares: Seq<(PeerId, MintConsensusItem)>,
    outcome: Result<(MintOutputBlindSignatures, MintShareErrors), CombineError>,
)
    requires
        aggregator.combine_post(shares, outcome),
        shares.len() < aggregator.threshold,
    ensures
        outcome is Err,
        !none_from(shares, aggregator.own_peer) && no_repeated_peer(shares) ==> (match outcome {
            Err(CombineError::TooFewShares(peers, needed)) => peers@ == peer_ids(shares) && needed
                == aggregator.threshold,
            _ => false,
        }),
{
    lemma_outcome_determined(aggregator, shares, outcome);
}

/// Every faulty share among the first `n` is listed with its peer and its
/// fault, and nothing else is listed.
pub proof fn lemma_faults_exact(
    aggregator: ShareAggregator,
    shares: Seq<(PeerId, MintConsensusItem)>,
    own: int,
    n: int,
)
    requires
        0 <= n <= shares.len(),
    ensures
        forall|i: int|
            0 <= i < n && fault_at(aggregator.keys@, shares, own, i) is Some ==> faults_upto(
                aggregator.keys@,
                shares,
                own,
                n,
            ).contains((#[trigger] shares[i].0, fault_at(aggregator.keys@, shares, own, i).unwrap())),
        forall|e: (PeerId, PeerErrorType)|
            #[trigger] faults_upto(aggregator.keys@, shares, own, n).contains(e) ==> exists|i: int|
                0 <= i < n && e.0 == (#[trigger] shares[i]).0 && fault_at(aggregator.keys@, shares, own, i)
                    == Some(e.1),
    decreases n,
{
    if n > 0 {
        lemma_faults_exact(aggregator, shares, own, n - 1);
        let before = faults_upto(aggregator.keys@, shares, own, n - 1);
        let now = faults_upto(aggregator.keys@, shares, own, n);
        match fault_at(aggregator.keys@, shares, own, n - 1) {
            Some(fault) => {
                assert(now == before.push((shares[n - 1].0, fault)));
                assert(now[before.len() as int] == (shares[n - 1].0, fault));
                assert forall|i: int|
                    0 <= i < n && fault_at(aggregator.keys@, shares, own, i) is Some implies now.contains(
                    (#[trigger] shares[i].0, fault_at(aggregator.keys@, shares, own, i).unwrap()),
                ) by {
                    if i < n - 1 {
                        let e = (shares[i].0, fault_at(aggregator.keys@, shares, own, i).unwrap());
                        assert(before.contains(e));
                        let at = choose|at: int| 0 <= at < before.len() && before[at] == e;
                        assert(now[at] == e);
                    }
                }
                assert forall|e: (PeerId, PeerErrorType)| #[trigger] now.contains(e) implies exists|i: int|
                    0 <= i < n && e.0 == (#[trigger] shares[i]).0 && fault_at(
                        aggregator.keys@,
                        shares,
                        own,
                        i,
                    ) == Some(e.1) by {
                    let at = choose|at: int| 0 <= at < now.len() && now[at] == e;
                    if at < before.len() {
                        assert(before[at] == e);
                        assert(before.contains(e));
                    } else {
                        assert(e.0 == shares[n - 1].0);
                    }
                }
            },
            None => {},
        }
    }
}

/// Faulty shares do not stop the rest: where our own share is there, no
/// peer is repeated and the valid shares reach the threshold, the
/// signatures are combined, and the faults list exactly the faulty peers,
/// each with its fault.
pub proof fn lemma_fault_isolation(
    aggregator: ShareAggregator,
    shares: Seq<(PeerId, MintConsensusItem)>,
    own: int,
    outcome: Result<(MintOutputBlindSignatures, MintShareErrors), CombineError>,
)
    requires
        aggregator.combine_post(shares, outcome),
        is_first_from(shares, aggregator.own_peer, own),
        no_repeated_peer(shares),
        valid_upto(aggregator.keys@, shares, own, shares.len() as int).len() >= aggregator.threshold,
    ensures
        outcome is Ok,
        outcome.unwrap().1.0@ == faults_upto(aggregator.keys@, shares, own, shares.len() as int),
        forall|i: int|
            0 <= i < shares.len() && fault_at(aggregator.keys@, shares, own, i) is Some
                ==> outcome.unwrap().1.0@.contains(
                (#[trigger] shares[i].0, fault_at(aggregator.keys@, shares, own, i).unwrap()),
            ),
        forall|e: (PeerId, PeerErrorType)|
            #[trigger] outcome.unwrap().1.0@.contains(e) ==> exists|i: int|
                0 <= i < shares.len() && e.0 == (#[trigger] shares[i]).0 && fault_at(
                    aggregator.keys@,
                    shares,
                    own,
                    i,
                ) == Some(e.1),
{
    lemma_outcome_determined(aggregator, shares, outcome);
    lemma_first_from(shares, aggregator.own_peer, own);
    lemma_faults_exact(aggregator, shares, own, shares.len() as int);
}

/// Two shares from one peer fail the combination, whatever the shares
/// hold: where our own share is there, the failure names a peer with more
/// than one share and the number of its shares.
pub proof fn lemma_duplicate_peer_rejected(
    aggregator: ShareAggregator,
    shares: Seq<(PeerId, MintConsensusItem)>,
    i: int,
    j: int,
    outcome: Result<(MintOutputBlindSignatures, MintShareErrors), CombineError>,
)
    requires
        aggregator.combine_post(shares, outcome),
        !none_from(shares, aggregator.own_peer),
        0 <= i < j < shares.len(),
        shares[i].0 == shares[j].0,
    ensures
        match outcome {
            Err(CombineError::MultiplePeerContributions(peer, count)) => {
                &&& count == peer_count(shares, peer, shares.len() as int)
                &&& count >= 2
                &&& (forall|k: int|
                    0 <= k < shares.len() && peer_count(shares, (#[trigger] shares[k]).0, shares.len() as int)
                        > 1 ==> shares[k].0 == shares[i].0) ==> peer == shares[i].0
            },
            _ => false,
        },
{
    lemma_peer_counted_twice(shares, shares[i].0, i, j, shares.len() as int);
    assert(!no_repeated_peer(shares));
    lemma_outcome_determined(aggregator, shares, outcome);
    if !no_repeated_peer(shares) {
        let k = choose|k: int|
            0 <= k < shares.len() && !(peer_count(shares, (#[trigger] shares[k]).0, shares.len() as int) <= 1);
        lemma_repeated_has_first(shares, k);
    }
}

/// Where some peer is repeated, some share is the first of a repeated
/// peer, and its peer has at least two shares.
pub proof fn lemma_repeated_has_first(shares: Seq<(PeerId, MintConsensusItem)>, k: int)
    requires
        0 <= k < shares.len(),
        peer_count(shares, shares[k].0, shares.len() as int) > 1,
    ensures
        is_first_repeated(shares, first_repeated(shares)),
    decreases k,
{
    if forall|j: int| 0 <= j < k ==> peer_count(shares, (#[trigger] shares[j]).0, shares.len() as int) <= 1 {
        assert(is_first_repeated(shares, k));
    } else {
        let j = choose|j: int|
            0 <= j < k && !(peer_count(shares, (#[trigger] shares[j]).0, shares.len() as int) <= 1);
        lemma_repeated_has_first(shares, j);
    }
}

/// Without our own share nothing is combined, whatever the other shares
/// hold and however many they are.
pub proof fn lemma_own_contribution_required(
    aggregator: ShareAggregator,
    shares: Seq<(PeerId, MintConsensusItem)>,
    outcome: Result<(MintOutputBlindSignatures, MintShareErrors), CombineError>,
)
    requires
        aggregator.combine_post(shares, outcome),
        none_from(shares, aggregator.own_peer),
    ensures
        outcome == Err::<(MintOutputBlindSignatures, MintShareErrors), CombineError>(
            CombineError::NoOwnContribution,
        ),
{
    lemma_outcome_determined(aggregator, shares, outcome);
}

/// The ceiling on notes of one denomination: with valid signatures and
/// supported tiers, an input whose fullest tier holds one note more than
/// the limit fails with the limit and that number; an input with no tier
/// over the limit is accepted at its value, where that is an amount.
pub proof fn lemma_denomination_ceiling(
    notes: Seq<(Amount, Note)>,
    keys: Seq<TierKey>,
    max: u16,
    outcome: Result<Amount, MintError>,
)
    requires
        validate_post(notes, keys, max, outcome),
        forall|j: int| 0 <= j < notes.len() ==> signature_ok(keys, #[trigger] notes[j]),
        forall|j: int| 0 <= j < notes.len() ==> tier_supported(keys, #[trigger] notes[j]),
    ensures
        (forall|j: int| 0 <= j < notes.len() ==> tier_count(notes, (#[trigger] notes[j]).0, notes.len() as int)
            <= max + 1) && (exists|i: int|
            0 <= i < notes.len() && tier_count(notes, (#[trigger] notes[i]).0, notes.len() as int) == max + 1)
            ==> outcome == Err::<Amount, MintError>(MintError::ExceededMaxNotes(max, (max + 1) as usize)),
        (forall|j: int| 0 <= j < notes.len() ==> within_limit(notes, max, #[trigger] notes[j]))
            && total_msats(notes, notes.len() as int) <= u64::MAX ==> outcome == Ok::<Amount, MintError>(
            Amount { msats: total_msats(notes, notes.len() as int) as u64 },
        ),
{
    lemma_total_grows(notes, 0, notes.len() as int);
    if exists|i: int|
        0 <= i < notes.len() && tier_count(notes, (#[trigger] notes[i]).0, notes.len() as int) == max + 1 {
        let i = choose|i: int|
            0 <= i < notes.len() && tier_count(notes, (#[trigger] notes[i]).0, notes.len() as int) == max
                + 1;
        assert(!within_limit(notes, max, notes[i]));
    }
}

} // verus!
