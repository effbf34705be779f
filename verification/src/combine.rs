//! Combining the peers' blind signature shares for one output into full
//! blind signatures, with every faulty peer named.

use vstd::prelude::*;
use crate::errors::{CombineError, MintShareErrors, PeerErrorType};
use crate::points::{BlindedMessage, BlindedSignature, BlindedSignatureShare, G1Point, PublicKeyShare};
use crate::primitives::{
    combine_share_points, combined_signature, is_g1_point, share_bytes, share_verifies, verify_share,
};
use crate::tiered::{same_shape, tiers_ascending, Amount, TieredMulti};
use crate::types::{
    MintConsensusItem, MintOutputBlindSignatures, MintOutputSignatureShare, OutPoint, PeerId,
};

verus! {

/// One peer's public key share for one tier.
#[derive(Clone, Copy, Debug, PartialEq, Eq, Hash)]
pub struct KeyShareEntry {
    pub peer: PeerId,
    pub tier: Amount,
    pub key: PublicKeyShare,
}

/// What one peer needs to combine shares: who it is, how many valid shares
/// make a signature, and the key shares that the peers published. Of two
/// key shares for the same peer and tier the first one counts.
#[derive(Clone, Debug, PartialEq, Eq, Hash)]
pub struct ShareAggregator {
    pub own_peer: PeerId,
    pub threshold: usize,
    pub keys: Vec<KeyShareEntry>,
}

/// Every share is for the output.
pub open spec fn all_for_output(shares: Seq<(PeerId, MintConsensusItem)>, out_point: OutPoint) -> bool {
    forall|i: int| 0 <= i < shares.len() ==> (#[trigger] shares[i]).1.out_point == out_point
}

/// How many of the first `n` shares are from the peer.
pub open spec fn peer_count(shares: Seq<(PeerId, MintConsensusItem)>, peer: PeerId, n: int) -> int
    decreases n,
{
    if n <= 0 {
        0
    } else {
        peer_count(shares, peer, n - 1) + if shares[n - 1].0 == peer { 1int } else { 0int }
    }
}

/// The share at `index` is the first one from the peer.
pub open spec fn is_first_from(shares: Seq<(PeerId, MintConsensusItem)>, peer: PeerId, index: int) -> bool {
    &&& 0 <= index < shares.len()
    &&& shares[index].0 == peer
    &&& forall|j: int| 0 <= j < index ==> (#[trigger] shares[j]).0 != peer
}

/// No share is from the peer.
pub open spec fn none_from(shares: Seq<(PeerId, MintConsensusItem)>, peer: PeerId) -> bool {
    forall|j: int| 0 <= j < shares.len() ==> (#[trigger] shares[j]).0 != peer
}

/// The share at `index` is the first one whose peer contributed more than
/// one share.
pub open spec fn is_first_repeated(shares: Seq<(PeerId, MintConsensusItem)>, index: int) -> bool {
    &&& 0 <= index < shares.len()
    &&& peer_count(shares, shares[index].0, shares.len() as int) > 1
    &&& forall|j: int|
        0 <= j < index ==> peer_count(shares, (#[trigger] shares[j]).0, shares.len() as int) <= 1
}

/// Every peer contributed at most one share.
pub open spec fn no_repeated_peer(shares: Seq<(PeerId, MintConsensusItem)>) -> bool {
    forall|j: int|
        0 <= j < shares.len() ==> peer_count(shares, (#[trigger] shares[j]).0, shares.len() as int) <= 1
}

/// The contributing peers, in the order of their shares.
pub open spec fn peer_ids(shares: Seq<(PeerId, MintConsensusItem)>) -> Seq<PeerId> {
    shares.map_values(|e: (PeerId, MintConsensusItem)| e.0)
}

/// The first key share for the peer and the tier among the entries from
/// `from` on.
pub open spec fn key_share_from(keys: Seq<KeyShareEntry>, peer: PeerId, tier: Amount, from: int) -> Option<
    PublicKeyShare,
>
    decreases keys.len() - from,
{
    if from < 0 || from >= keys.len() {
        None
    } else if keys[from].peer == peer && keys[from].tier == tier {
        Some(keys[from].key)
    } else {
        key_share_from(keys, peer, tier, from + 1)
    }
}

/// Two shares sign the same blinded message at each position that both have.
pub open spec fn same_messages(
    a: Seq<(Amount, (BlindedMessage, BlindedSignatureShare))>,
    b: Seq<(Amount, (BlindedMessage, BlindedSignatureShare))>,
) -> bool {
    forall|i: int| 0 <= i < a.len() && i < b.len() ==> (#[trigger] a[i]).1.0.0@ == (#[trigger] b[i]).1.0.0@
}

/// The fault of the first entry from `from` on that the peer has no key
/// share for, or whose partial signature does not verify.
pub open spec fn signature_fault_from(
    keys: Seq<KeyShareEntry>,
    peer: PeerId,
    share: Seq<(Amount, (BlindedMessage, BlindedSignatureShare))>,
    from: int,
) -> Option<PeerErrorType>
    decreases share.len() - from,
{
    if from < 0 || from >= share.len() {
        None
    } else {
        match key_share_from(keys, peer, share[from].0, 0) {
            None => Some(PeerErrorType::InvalidAmountTier),
            Some(key) => if !share_verifies(share[from].1.0.0@, share[from].1.1.0@, key.0@) {
                Some(PeerErrorType::InvalidSignature)
            } else {
                signature_fault_from(keys, peer, share, from + 1)
            },
        }
    }
}

/// What a peer's share is excluded for, if for anything: another structure
/// than the reference share; else another blinded message at some position;
/// else the first entry without a key share or with an invalid signature.
pub open spec fn share_fault(
    keys: Seq<KeyShareEntry>,
    reference: Seq<(Amount, (BlindedMessage, BlindedSignatureShare))>,
    peer: PeerId,
    share: Seq<(Amount, (BlindedMessage, BlindedSignatureShare))>,
) -> Option<PeerErrorType> {
    if !same_shape(share, reference) {
        Some(PeerErrorType::DifferentStructureSigShare)
    } else if !same_messages(share, reference) {
        Some(PeerErrorType::DifferentNonce)
    } else {
        signature_fault_from(keys, peer, share, 0)
    }
}

/// The fault of the share at `index`, held against the share at `own`.
pub open spec fn fault_at(
    keys: Seq<KeyShareEntry>,
    shares: Seq<(PeerId, MintConsensusItem)>,
    own: int,
    index: int,
) -> Option<PeerErrorType> {
    share_fault(keys, shares[own].1.signatures.0@, shares[index].0, shares[index].1.signatures.0@)
}

/// The faulty peers among the first `n` shares, each with its fault, in the
/// order of their shares.
pub open spec fn faults_upto(
    keys: Seq<KeyShareEntry>,
    shares: Seq<(PeerId, MintConsensusItem)>,
    own: int,
    n: int,
) -> Seq<(PeerId, PeerErrorType)>
    decreases n,
{
    if n <= 0 {
        Seq::empty()
    } else {
        match fault_at(keys, shares, own, n - 1) {
            Some(fault) => faults_upto(keys, shares, own, n - 1).push((shares[n - 1].0, fault)),
            None => faults_upto(keys, shares, own, n - 1),
        }
    }
}

/// The positions of the valid shares among the first `n`, ascending.
pub open spec fn valid_upto(
    keys: Seq<KeyShareEntry>,
    shares: Seq<(PeerId, MintConsensusItem)>,
    own: int,
    n: int,
) -> Seq<usize>
    decreases n,
{
    if n <= 0 {
        Seq::empty()
    } else {
        match fault_at(keys, shares, own, n - 1) {
            Some(_) => valid_upto(keys, shares, own, n - 1),
            None => valid_upto(keys, shares, own, n - 1).push((n - 1) as usize),
        }
    }
}

/// The partial signatures that the chosen shares hold at one position, each
/// with its peer's number.
pub open spec fn points_at(shares: Seq<(PeerId, MintConsensusItem)>, chosen: Seq<usize>, position: int) -> Seq<
    (u16, Seq<u8>),
> {
    Seq::new(
        chosen.len(),
        |v: int| (shares[chosen[v] as int].0.0, shares[chosen[v] as int].1.signatures.0@[position].1.1.0@),
    )
}

/// The signatures are those combined from the chosen shares: one for each
/// entry of the reference share, under that entry's tier.
pub open spec fn is_combination(
    shares: Seq<(PeerId, MintConsensusItem)>,
    own: int,
    chosen: Seq<usize>,
    threshold: usize,
    sigs: Seq<(Amount, BlindedSignature)>,
) -> bool {
    let reference = shares[own].1.signatures.0@;
    &&& sigs.len() == reference.len()
    &&& forall|k: int|
        0 <= k < sigs.len() ==> {
            &&& (#[trigger] sigs[k]).0 == reference[k].0
            &&& sigs[k].1.0@ == combined_signature(points_at(shares, chosen, k), threshold as nat)
        }
}

/// A peer with two shares is counted twice.
pub proof fn lemma_peer_counted_twice(
    shares: Seq<(PeerId, MintConsensusItem)>,
    peer: PeerId,
    i: int,
    j: int,
    n: int,
)
    requires
        0 <= i < j < n <= shares.len(),
        shares[i].0 == peer,
        shares[j].0 == peer,
    ensures
        peer_count(shares, peer, n) >= 2,
    decreases n,
{
    lemma_peer_counted(shares, peer, i, j);
    if j < n - 1 {
        lemma_peer_counted_twice(shares, peer, i, j, n - 1);
    }
}

/// A peer with a share among the first `n` is counted at least once; no
/// count is negative.
pub proof fn lemma_peer_counted(shares: Seq<(PeerId, MintConsensusItem)>, peer: PeerId, i: int, n: int)
    requires
        0 <= n <= shares.len(),
    ensures
        peer_count(shares, peer, n) >= 0,
        0 <= i < n && shares[i].0 == peer ==> peer_count(shares, peer, n) >= 1,
    decreases n,
{
    if n > 0 {
        lemma_peer_counted(shares, peer, i, n - 1);
    }
}

/// Where no peer is repeated, shares at different positions are from
/// different peers.
pub proof fn lemma_distinct_peers(shares: Seq<(PeerId, MintConsensusItem)>, i: int, j: int)
    requires
        no_repeated_peer(shares),
        0 <= i < j < shares.len(),
    ensures
        shares[i].0 != shares[j].0,
{
    if shares[i].0 == shares[j].0 {
        lemma_peer_counted_twice(shares, shares[i].0, i, j, shares.len() as int);
    }
}

impl ShareAggregator {
    /// What `combine_shares` returns on the shares: each outcome with the
    /// shares on which it comes.
    pub open spec fn combine_post(
        &self,
        shares: Seq<(PeerId, MintConsensusItem)>,
        outcome: Result<(MintOutputBlindSignatures, MintShareErrors), CombineError>,
    ) -> bool {
        match outcome {
            Err(CombineError::NoOwnContribution) => none_from(shares, self.own_peer),
            Err(CombineError::MultiplePeerContributions(peer, count)) => {
                &&& !none_from(shares, self.own_peer)
                &&& exists|i: int| #[trigger] is_first_repeated(shares, i) && shares[i].0 == peer
                &&& count == peer_count(shares, peer, shares.len() as int)
            },
            Err(CombineError::TooFewShares(peers, needed)) => {
                &&& !none_from(shares, self.own_peer)
                &&& no_repeated_peer(shares)
                &&& shares.len() < self.threshold
                &&& peers@ == peer_ids(shares)
                &&& needed == self.threshold
            },
            Err(CombineError::TooFewValidShares(valid, provided, needed)) => {
                &&& no_repeated_peer(shares)
                &&& shares.len() >= self.threshold
                &&& exists|own: int|
                    #[trigger] is_first_from(shares, self.own_peer, own) && valid == valid_upto(
                        self.keys@,
                        shares,
                        own,
                        shares.len() as int,
                    ).len()
                &&& valid < self.threshold
                &&& provided == shares.len()
                &&& needed == self.threshold
            },
            Ok((sigs, errors)) => {
                &&& no_repeated_peer(shares)
                &&& exists|own: int|
                    {
                        &&& #[trigger] is_first_from(shares, self.own_peer, own)
                        &&& valid_upto(self.keys@, shares, own, shares.len() as int).len()
                            >= self.threshold
                        &&& errors.0@ == faults_upto(self.keys@, shares, own, shares.len() as int)
                        &&& is_combination(
                            shares,
                            own,
                            valid_upto(self.keys@, shares, own, shares.len() as int),
                            self.threshold,
                            sigs.0@,
                        )
                    }
            },
        }
    }

    /// The position of the first share from the peer.
    pub fn find_share(shares: &Vec<(PeerId, MintConsensusItem)>, peer: PeerId) -> (found: Option<usize>)
        ensures
            match found {
                Some(index) => is_first_from(shares@, peer, index as int),
                None => none_from(shares@, peer),
            },
    {
        let mut i: usize = 0;
        while i < shares.len()
            invariant
                i <= shares@.len(),
                forall|j: int| 0 <= j < i ==> (#[trigger] shares@[j]).0 != peer,
            decreases shares@.len() - i,
        {
            if shares[i].0 == peer {
                return Some(i);
            }
            i += 1;
        }
        None
    }

    /// How many shares are from the peer.
    pub fn count_shares(shares: &Vec<(PeerId, MintConsensusItem)>, peer: PeerId) -> (count: usize)
        ensures
            count == peer_count(shares@, peer, shares@.len() as int),
    {
        let mut count: usize = 0;
        let mut i: usize = 0;
        while i < shares.len()
            invariant
                i <= shares@.len(),
                count <= i,
                count == peer_count(shares@, peer, i as int),
            decreases shares@.len() - i,
        {
            if shares[i].0 == peer {
                count += 1;
            }
            i += 1;
        }
        count
    }

    /// The first peer with more than one share, and the number of its shares.
    pub fn find_repeated(shares: &Vec<(PeerId, MintConsensusItem)>) -> (found: Option<(PeerId, usize)>)
        ensures
            match found {
                Some((peer, count)) => {
                    &&& exists|i: int| #[trigger] is_first_repeated(shares@, i) && shares@[i].0 == peer
                    &&& count == peer_count(shares@, peer, shares@.len() as int)
                },
                None => no_repeated_peer(shares@),
            },
    {
        let mut i: usize = 0;
        while i < shares.len()
            invariant
                i <= shares@.len(),
                forall|j: int|
                    0 <= j < i ==> peer_count(shares@, (#[trigger] shares@[j]).0, shares@.len() as int) <= 1,
            decreases shares@.len() - i,
        {
            let peer = shares[i].0;
            let count = Self::count_shares(shares, peer);
            if count > 1 {
                assert(is_first_repeated(shares@, i as int));
                return Some((peer, count));
            }
            i += 1;
        }
        None
    }

    /// The contributing peers, in the order of their shares.
    pub fn contributors(shares: &Vec<(PeerId, MintConsensusItem)>) -> (peers: Vec<PeerId>)
        ensures
            peers@ == peer_ids(shares@),
    {
        let mut peers: Vec<PeerId> = Vec::new();
        let mut i: usize = 0;
        while i < shares.len()
            invariant
                i <= shares@.len(),
                peers@.len() == i,
                forall|j: int| 0 <= j < i ==> peers@[j] == (#[trigger] shares@[j]).0,
            decreases shares@.len() - i,
        {
            peers.push(shares[i].0);
            i += 1;
        }
        assert(peers@ =~= peer_ids(shares@));
        peers
    }

    /// The first key share that the peer published for the tier.
    pub fn key_share(&self, peer: PeerId, tier: Amount) -> (key: Option<PublicKeyShare>)
        ensures
            key == key_share_from(self.keys@, peer, tier, 0),
    {
        let mut i: usize = 0;
        while i < self.keys.len()
            invariant
                i <= self.keys@.len(),
                key_share_from(self.keys@, peer, tier, 0) == key_share_from(self.keys@, peer, tier, i as int),
            decreases self.keys@.len() - i,
        {
            if self.keys[i].peer == peer && self.keys[i].tier == tier {
                return Some(self.keys[i].key);
            }
            i += 1;
        }
        None
    }

    /// Holds a peer's share against the reference share and says what it is
    /// excluded for, if for anything.
    pub fn check_share(
        &self,
        reference: &MintOutputSignatureShare,
        peer: PeerId,
        share: &MintOutputSignatureShare,
    ) -> (fault: Option<PeerErrorType>)
        ensures
            fault == share_fault(self.keys@, reference.0@, peer, share.0@),
    {
        if !share.0.structural_eq(&reference.0) {
            return Some(PeerErrorType::DifferentStructureSigShare);
        }
        let n = share.0.count_items();
        let mut i: usize = 0;
        while i < n
            invariant
                i <= n,
                n == share.0@.len(),
                n == reference.0@.len(),
                same_shape(share.0@, reference.0@),
                forall|j: int| 0 <= j < i ==> (#[trigger] share.0@[j]).1.0.0@ == (#[trigger] reference.0@[j]).1.0.0@,
            decreases n - i,
        {
            if !share.0.item(i).1.0.0.same(&reference.0.item(i).1.0.0) {
                assert(share.0@[i as int].1.0.0@ != reference.0@[i as int].1.0.0@);
                return Some(PeerErrorType::DifferentNonce);
            }
            i += 1;
        }
        let mut k: usize = 0;
        while k < n
            invariant
                k <= n,
                n == share.0@.len(),
                same_shape(share.0@, reference.0@),
                same_messages(share.0@, reference.0@),
                signature_fault_from(self.keys@, peer, share.0@, 0) == signature_fault_from(
                    self.keys@,
                    peer,
                    share.0@,
                    k as int,
                ),
            decreases n - k,
        {
            let entry = share.0.item(k);
            match self.key_share(peer, entry.0) {
                None => {
                    return Some(PeerErrorType::InvalidAmountTier);
                },
                Some(key) => {
                    if !verify_share(entry.1.0.0.as_bytes(), entry.1.1.0.as_bytes(), key.0.as_bytes()) {
                        return Some(PeerErrorType::InvalidSignature);
                    }
                },
            }
            k += 1;
        }
        None
    }

    /// Sorts the shares, each held against the share at `own`: the faulty
    /// peers with their faults, and the positions of the valid shares.
    pub fn classify_shares(&self, shares: &Vec<(PeerId, MintConsensusItem)>, own: usize) -> (sorted: (
        MintShareErrors,
        Vec<usize>,
    ))
        requires
            own < shares@.len(),
        ensures
            sorted.0.0@ == faults_upto(self.keys@, shares@, own as int, shares@.len() as int),
            sorted.1@ == valid_upto(self.keys@, shares@, own as int, shares@.len() as int),
    {
        let mut errors: Vec<(PeerId, PeerErrorType)> = Vec::new();
        let mut valid: Vec<usize> = Vec::new();
        let mut i: usize = 0;
        while i < shares.len()
            invariant
                i <= shares@.len(),
                own < shares@.len(),
                errors@ == faults_upto(self.keys@, shares@, own as int, i as int),
                valid@ == valid_upto(self.keys@, shares@, own as int, i as int),
            decreases shares@.len() - i,
        {
            let peer = shares[i].0;
            match self.check_share(&shares[own].1.signatures, peer, &shares[i].1.signatures) {
                Some(fault) => errors.push((peer, fault)),
                None => valid.push(i),
            }
            i += 1;
        }
        (MintShareErrors(errors), valid)
    }

    /// Combines the partial signatures that the chosen shares hold at one
    /// position.
    pub fn combine_at(
        shares: &Vec<(PeerId, MintConsensusItem)>,
        chosen: &Vec<usize>,
        position: usize,
        threshold: usize,
    ) -> (sig: BlindedSignature)
        requires
            1 <= threshold <= chosen@.len(),
            no_repeated_peer(shares@),
            forall|a: int|
                0 <= a < chosen@.len() ==> (#[trigger] chosen@[a]) < shares@.len() && position
                    < shares@[chosen@[a] as int].1.signatures.0@.len(),
            forall|a: int, b: int| 0 <= a < b < chosen@.len() ==> chosen@[a] < chosen@[b],
        ensures
            sig.0@ == combined_signature(points_at(shares@, chosen@, position as int), threshold as nat),
    {
        let mut points: Vec<(u16, [u8; 48])> = Vec::new();
        let mut v: usize = 0;
        while v < chosen.len()
            invariant
                v <= chosen@.len(),
                points@.len() == v,
                forall|a: int|
                    0 <= a < chosen@.len() ==> (#[trigger] chosen@[a]) < shares@.len() && position
                        < shares@[chosen@[a] as int].1.signatures.0@.len(),
                forall|a: int|
                    0 <= a < v ==> {
                        &&& (#[trigger] points@[a]).0 == shares@[chosen@[a] as int].0.0
                        &&& points@[a].1@ == shares@[chosen@[a] as int].1.signatures.0@[position as int].1.1.0@
                        &&& is_g1_point(points@[a].1@)
                    },
            decreases chosen@.len() - v,
        {
            let index = chosen[v];
            let entry = shares[index].1.signatures.0.item(position);
            points.push((shares[index].0.0, *entry.1.1.0.as_bytes()));
            v += 1;
        }
        proof {
            assert(share_bytes(points@) =~= points_at(shares@, chosen@, position as int));
            assert forall|a: int, b: int| 0 <= a < b < points@.len() implies (#[trigger] points@[a]).0 != (
            #[trigger] points@[b]).0 by {
                lemma_distinct_peers(shares@, chosen@[a] as int, chosen@[b] as int);
            }
        }
        let sig = combine_share_points(&points, threshold);
        BlindedSignature(G1Point::from_compressed(sig).unwrap())
    }

    /// Whether every share is for the output at `out_point`.
    pub fn shares_for_output(out_point: &OutPoint, shares: &Vec<(PeerId, MintConsensusItem)>) -> (all: bool)
        ensures
            all == all_for_output(shares@, *out_point),
    {
        let mut i: usize = 0;
        while i < shares.len()
            invariant
                i <= shares@.len(),
                forall|j: int| 0 <= j < i ==> (#[trigger] shares@[j]).1.out_point == *out_point,
            decreases shares@.len() - i,
        {
            if !shares[i].1.out_point.same(out_point) {
                return false;
            }
            i += 1;
        }
        true
    }

    /// Combines the shares as `combine_shares` does, where it can be asked
    /// to: returns nothing where the threshold is zero or a share is for
    /// another output.
    pub fn try_combine_shares(&self, out_point: &OutPoint, shares: &Vec<(PeerId, MintConsensusItem)>) -> (outcome:
        Option<Result<(MintOutputBlindSignatures, MintShareErrors), CombineError>>)
        ensures
            outcome is Some <==> self.threshold >= 1 && all_for_output(shares@, *out_point),
            outcome is Some ==> self.combine_post(shares@, outcome.unwrap()),
    {
        if self.threshold >= 1 && Self::shares_for_output(out_point, shares) {
            Some(self.combine_shares(out_point, shares))
        } else {
            None
        }
    }

    /// Combines the peers' signature shares for the output at `out_point`
    /// into one blind signature for each of its blinded nonces.
    ///
    /// Fails where our own share is missing; else where a peer contributed
    /// more than one share; else where fewer peers than the threshold
    /// contributed. Each remaining share is held against our own: one of
    /// another structure, with another blinded message, without a key share
    /// for a tier or with an invalid partial signature is excluded and its
    /// peer named with the fault. Fails where fewer valid shares than the
    /// threshold remain; else combines them position by position, under the
    /// tiers of our own share, and returns the signatures with the faults.
    pub fn combine_shares(&self, out_point: &OutPoint, shares: &Vec<(PeerId, MintConsensusItem)>) -> (outcome:
        Result<(MintOutputBlindSignatures, MintShareErrors), CombineError>)
        requires
            self.threshold >= 1,
            all_for_output(shares@, *out_point),
        ensures
            self.combine_post(shares@, outcome),
            outcome is Ok ==> (tiers_ascending(shares@[first_from(shares@, self.own_peer)].1.signatures.0@)
                ==> outcome.unwrap().0.0.wf()),
    {
        let own = match Self::find_share(shares, self.own_peer) {
            Some(index) => index,
            None => {
                return Err(CombineError::NoOwnContribution);
            },
        };
        assert(!none_from(shares@, self.own_peer)) by {
            assert(shares@[own as int].0 == self.own_peer);
        }
        proof {
            lemma_first_from(shares@, self.own_peer, own as int);
        }
        if let Some((peer, count)) = Self::find_repeated(shares) {
            return Err(CombineError::MultiplePeerContributions(peer, count));
        }
        if shares.len() < self.threshold {
            return Err(CombineError::TooFewShares(Self::contributors(shares), self.threshold));
        }
        let (errors, valid) = self.classify_shares(shares, own);
        if valid.len() < self.threshold {
            return Err(CombineError::TooFewValidShares(valid.len(), shares.len(), self.threshold));
        }
        proof {
            lemma_valid_positions(self.keys@, shares@, own as int, shares@.len() as int);
        }
        let reference = &shares[own].1.signatures.0;
        let n = reference.count_items();
        let mut sigs: Vec<(Amount, BlindedSignature)> = Vec::new();
        let mut k: usize = 0;
        while k < n
            invariant
                k <= n,
                n == reference@.len(),
                own < shares@.len(),
                *reference == shares@[own as int].1.signatures.0,
                1 <= self.threshold <= valid@.len(),
                no_repeated_peer(shares@),
                forall|a: int|
                    0 <= a < valid@.len() ==> (#[trigger] valid@[a]) < shares@.len() && fault_at(
                        self.keys@,
                        shares@,
                        own as int,
                        valid@[a] as int,
                    ) is None,
                forall|a: int, b: int| 0 <= a < b < valid@.len() ==> valid@[a] < valid@[b],
                sigs@.len() == k,
                forall|j: int|
                    0 <= j < k ==> {
                        &&& (#[trigger] sigs@[j]).0 == reference@[j].0
                        &&& sigs@[j].1.0@ == combined_signature(
                            points_at(shares@, valid@, j),
                            self.threshold as nat,
                        )
                    },
            decreases n - k,
        {
            let tier = reference.item(k).0;
            let sig = Self::combine_at(shares, &valid, k, self.threshold);
            sigs.push((tier, sig));
            k += 1;
        }
        proof {
            assert(is_first_from(shares@, self.own_peer, own as int));
            assert(is_combination(shares@, own as int, valid@, self.threshold, sigs@));
            if tiers_ascending(reference@) {
                assert(tiers_ascending(sigs@));
            }
        }
        Ok((MintOutputBlindSignatures(TieredMulti::from_listing(sigs)), errors))
    }
}

/// The position of the first share from the peer, where there is one.
pub open spec fn first_from(shares: Seq<(PeerId, MintConsensusItem)>, peer: PeerId) -> int {
    choose|index: int| is_first_from(shares, peer, index)
}

/// The first share from a peer is at one position only.
pub proof fn lemma_first_from(shares: Seq<(PeerId, MintConsensusItem)>, peer: PeerId, index: int)
    requires
        is_first_from(shares, peer, index),
    ensures
        first_from(shares, peer) == index,
{
    let other = first_from(shares, peer);
    assert(is_first_from(shares, peer, other));
    if other < index {
        assert(shares[other].0 == peer);
    } else if index < other {
        assert(shares[index].0 == peer);
    }
}

/// There are no more valid shares than shares.
pub proof fn lemma_valid_count(keys: Seq<KeyShareEntry>, shares: Seq<(PeerId, MintConsensusItem)>, own: int, n: int)
    requires
        0 <= n,
    ensures
        valid_upto(keys, shares, own, n).len() <= n,
    decreases n,
{
    if n > 0 {
        lemma_valid_count(keys, shares, own, n - 1);
    }
}

/// The positions of the valid shares are positions of shares without a
/// fault, in ascending order.
pub proof fn lemma_valid_positions(
    keys: Seq<KeyShareEntry>,
    shares: Seq<(PeerId, MintConsensusItem)>,
    own: int,
    n: int,
)
    requires
        0 <= n <= shares.len() <= usize::MAX,
    ensures
        forall|a: int|
            0 <= a < valid_upto(keys, shares, own, n).len() ==> {
                &&& (#[trigger] valid_upto(keys, shares, own, n)[a]) < n
                &&& fault_at(keys, shares, own, valid_upto(keys, shares, own, n)[a] as int) is None
            },
        forall|a: int, b: int|
            0 <= a < b < valid_upto(keys, shares, own, n).len() ==> valid_upto(keys, shares, own, n)[a]
                < valid_upto(keys, shares, own, n)[b],
    decreases n,
{
    if n > 0 {
        lemma_valid_positions(keys, shares, own, n - 1);
    }
}

} // verus!
