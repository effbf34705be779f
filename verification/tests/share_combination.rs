use mint_common::{
    Amount, BlindedMessage, BlindedSignatureShare, CombineError, G1Point, G2Point, KeyShareEntry,
    MintConsensusItem, MintOutputBlindSignatures, MintOutputSignatureShare, MintShareErrors, OutPoint,
    AggregatePublicKey, Nonce, Note, PeerErrorType, PeerId, PublicKeyShare, ShareAggregator, Signature,
    TieredMulti,
};

const KEY_G: [u8; 32] = [
    0x79, 0xBE, 0x66, 0x7E, 0xF9, 0xDC, 0xBB, 0xAC, 0x55, 0xA0, 0x62, 0x95, 0xCE, 0x87, 0x0B, 0x07,
    0x02, 0x9B, 0xFC, 0xDB, 0x2D, 0xCE, 0x28, 0xD9, 0x59, 0xF2, 0x81, 0x5B, 0x16, 0xF8, 0x17, 0x98,
];

const KEY_2G: [u8; 32] = [
    0xC6, 0x04, 0x7F, 0x94, 0x41, 0xED, 0x7D, 0x6D, 0x30, 0x45, 0x40, 0x6E, 0x95, 0xC0, 0x7C, 0xD8,
    0x5C, 0x77, 0x8E, 0x4B, 0x8C, 0xEF, 0x3C, 0xA7, 0xAB, 0xAC, 0x09, 0xB9, 0x5C, 0x70, 0x9E, 0xE5,
];

struct TierKeys {
    amount: Amount,
    pk: tbs::AggregatePublicKey,
    pks: Vec<tbs::PublicKeyShare>,
    sks: Vec<tbs::SecretKeyShare>,
}

struct Federation {
    threshold: usize,
    peers: usize,
    tiers: Vec<TierKeys>,
}

struct Request {
    amount: Amount,
    msg: tbs::Message,
    bkey: tbs::BlindingKey,
    bmsg: tbs::BlindedMessage,
}

fn federation(threshold: usize, peers: usize, tiers: &[u64]) -> Federation {
    let tiers = tiers
        .iter()
        .map(|msats| {
            let (pk, pks, sks) = tbs::dealer_keygen(threshold, peers);
            TierKeys { amount: Amount { msats: *msats }, pk, pks, sks }
        })
        .collect();
    Federation { threshold, peers, tiers }
}

fn aggregator(fed: &Federation, own: u16) -> ShareAggregator {
    let mut keys = Vec::new();
    for t in &fed.tiers {
        for (i, pk) in t.pks.iter().enumerate() {
            keys.push(KeyShareEntry {
                peer: PeerId(i as u16),
                tier: t.amount,
                key: PublicKeyShare(G2Point::from_compressed(pk.0.to_compressed()).unwrap()),
            });
        }
    }
    ShareAggregator { own_peer: PeerId(own), threshold: fed.threshold, keys }
}

fn request(msats: u64, text: &[u8]) -> Request {
    let msg = tbs::Message::from_bytes(text);
    let bkey = tbs::BlindingKey::random();
    Request { amount: Amount { msats }, msg, bkey, bmsg: tbs::blind_message(msg, bkey) }
}

fn g1(bytes: [u8; 48]) -> G1Point {
    G1Point::from_compressed(bytes).unwrap()
}

fn out_point() -> OutPoint {
    OutPoint { txid: [3; 32], out_idx: 1 }
}

fn item(entries: Vec<(Amount, tbs::BlindedMessage, tbs::BlindedSignatureShare)>) -> MintConsensusItem {
    let mut tiered = TieredMulti::new();
    for (a, m, s) in entries {
        tiered.insert(
            a,
            (BlindedMessage(g1(m.encode_compressed())), BlindedSignatureShare(g1(s.encode_compressed()))),
        );
    }
    MintConsensusItem { out_point: out_point(), signatures: MintOutputSignatureShare(tiered) }
}

fn secret(fed: &Federation, peer: usize, amount: Amount) -> tbs::SecretKeyShare {
    fed.tiers.iter().find(|t| t.amount == amount).unwrap().sks[peer]
}

fn honest(fed: &Federation, peer: usize, requests: &[Request]) -> (PeerId, MintConsensusItem) {
    let entries = requests
        .iter()
        .map(|r| (r.amount, r.bmsg, tbs::sign_blinded_msg(r.bmsg, secret(fed, peer, r.amount))))
        .collect();
    (PeerId(peer as u16), item(entries))
}

fn all_honest(fed: &Federation, requests: &[Request]) -> Vec<(PeerId, MintConsensusItem)> {
    (0..fed.peers).map(|p| honest(fed, p, requests)).collect()
}

fn unblinded_verifies(fed: &Federation, requests: &[Request], sigs: &MintOutputBlindSignatures) -> bool {
    let mut sorted: Vec<&Request> = requests.iter().collect();
    sorted.sort_by_key(|r| r.amount.msats);
    sigs.0.count_items() == sorted.len()
        && sorted.iter().enumerate().all(|(k, r)| {
            let entry = sigs.0.item(k);
            let bsig = tbs::BlindedSignature(tbs::MessagePoint::from_compressed(entry.1 .0.as_bytes()).unwrap());
            let sig = tbs::unblind_signature(r.bkey, bsig);
            let pk = fed.tiers.iter().find(|t| t.amount == r.amount).unwrap().pk;
            entry.0 == r.amount && tbs::verify(r.msg, sig, pk)
        })
}

#[test]
fn honest_shares_combine_to_valid_signatures() {
    let fed = federation(3, 4, &[1000, 2000]);
    let requests = vec![request(2000, b"a"), request(1000, b"b"), request(2000, b"c")];
    let shares = all_honest(&fed, &requests);
    let (sigs, errors) = aggregator(&fed, 0).combine_shares(&out_point(), &shares).unwrap();
    assert_eq!(errors, MintShareErrors(vec![]));
    assert!(unblinded_verifies(&fed, &requests, &sigs));
    assert_eq!(sigs.total_amount(), Some(Amount { msats: 5000 }));
}

#[test]
fn combined_signature_differs_from_every_share() {
    let fed = federation(2, 3, &[1000]);
    let requests = vec![request(1000, b"a")];
    let shares = all_honest(&fed, &requests);
    let (sigs, _) = aggregator(&fed, 1).combine_shares(&out_point(), &shares).unwrap();
    for (_, share) in &shares {
        assert_ne!(sigs.0.item(0).1 .0, share.signatures.0.item(0).1 .1 .0);
    }
}

#[test]
fn missing_own_share_fails() {
    let fed = federation(3, 4, &[1000]);
    let requests = vec![request(1000, b"a")];
    let mut shares = all_honest(&fed, &requests);
    shares.remove(2);
    assert_eq!(
        aggregator(&fed, 2).combine_shares(&out_point(), &shares),
        Err(CombineError::NoOwnContribution)
    );
    assert_eq!(
        aggregator(&fed, 2).combine_shares(&out_point(), &Vec::new()),
        Err(CombineError::NoOwnContribution)
    );
}

#[test]
fn missing_own_share_comes_before_repeated_peer() {
    let fed = federation(3, 4, &[1000]);
    let requests = vec![request(1000, b"a")];
    let shares = vec![honest(&fed, 1, &requests), honest(&fed, 1, &requests), honest(&fed, 2, &requests)];
    assert_eq!(
        aggregator(&fed, 0).combine_shares(&out_point(), &shares),
        Err(CombineError::NoOwnContribution)
    );
}

#[test]
fn repeated_peer_fails() {
    let fed = federation(3, 4, &[1000]);
    let requests = vec![request(1000, b"a")];
    let mut shares = all_honest(&fed, &requests);
    shares.push(honest(&fed, 1, &requests));
    assert_eq!(
        aggregator(&fed, 0).combine_shares(&out_point(), &shares),
        Err(CombineError::MultiplePeerContributions(PeerId(1), 2))
    );
}

#[test]
fn repeated_peer_fails_whatever_its_shares_hold() {
    let fed = federation(3, 4, &[1000]);
    let requests = vec![request(1000, b"a")];
    let other = vec![request(1000, b"z"), request(1000, b"y")];
    let mut shares = all_honest(&fed, &requests);
    shares.push(honest(&fed, 3, &other));
    shares.push(honest(&fed, 3, &requests));
    assert_eq!(
        aggregator(&fed, 0).combine_shares(&out_point(), &shares),
        Err(CombineError::MultiplePeerContributions(PeerId(3), 3))
    );
}

#[test]
fn first_repeated_peer_is_named() {
    let fed = federation(2, 4, &[1000]);
    let requests = vec![request(1000, b"a")];
    let shares = vec![
        honest(&fed, 0, &requests),
        honest(&fed, 2, &requests),
        honest(&fed, 1, &requests),
        honest(&fed, 1, &requests),
        honest(&fed, 2, &requests),
    ];
    assert_eq!(
        aggregator(&fed, 0).combine_shares(&out_point(), &shares),
        Err(CombineError::MultiplePeerContributions(PeerId(2), 2))
    );
}

#[test]
fn too_few_peers_fail() {
    let fed = federation(3, 4, &[1000]);
    let requests = vec![request(1000, b"a")];
    let shares = vec![honest(&fed, 3, &requests), honest(&fed, 0, &requests)];
    assert_eq!(
        aggregator(&fed, 0).combine_shares(&out_point(), &shares),
        Err(CombineError::TooFewShares(vec![PeerId(3), PeerId(0)], 3))
    );
}

#[test]
fn too_few_valid_shares_fail() {
    let fed = federation(3, 4, &[1000]);
    let requests = vec![request(1000, b"a")];
    let other = vec![request(1000, b"b")];
    let shares = vec![
        honest(&fed, 0, &requests),
        honest(&fed, 1, &other),
        honest(&fed, 2, &requests),
        honest(&fed, 3, &other),
    ];
    assert_eq!(
        aggregator(&fed, 0).combine_shares(&out_point(), &shares),
        Err(CombineError::TooFewValidShares(2, 4, 3))
    );
    let (errors, valid) = aggregator(&fed, 0).classify_shares(&shares, 0);
    assert_eq!(
        errors,
        MintShareErrors(vec![
            (PeerId(1), PeerErrorType::DifferentNonce),
            (PeerId(3), PeerErrorType::DifferentNonce),
        ])
    );
    assert_eq!(valid, vec![0, 2]);
}

#[test]
fn mismatched_share_is_outvoted_and_named() {
    let fed = federation(3, 4, &[1000, 2000]);
    let requests = vec![request(1000, b"a"), request(2000, b"b")];
    let mismatched = vec![request(1000, b"a")];
    let shares = vec![
        honest(&fed, 0, &requests),
        honest(&fed, 1, &mismatched),
        honest(&fed, 2, &requests),
        honest(&fed, 3, &requests),
    ];
    let (sigs, errors) = aggregator(&fed, 0).combine_shares(&out_point(), &shares).unwrap();
    assert_eq!(errors, MintShareErrors(vec![(PeerId(1), PeerErrorType::DifferentStructureSigShare)]));
    assert!(unblinded_verifies(&fed, &requests, &sigs));
}

#[test]
fn each_fault_is_named_with_its_peer() {
    let fed = federation(2, 6, &[1000, 2000]);
    let requests = vec![request(1000, b"a"), request(2000, b"b")];
    let other_tiers = vec![request(1000, b"a"), request(1000, b"b")];
    let other_msg = vec![request(1000, b"a"), request(2000, b"x")];
    let (_, wrong_tier) = honest(&fed, 1, &other_tiers);
    let (_, wrong_msg) = honest(&fed, 2, &other_msg);
    let (_, wrong_sig) = honest(&fed, 0, &requests);
    let (_, unknown) = honest(&fed, 0, &requests);
    let shares = vec![
        (PeerId(1), wrong_tier),
        (PeerId(2), wrong_msg),
        honest(&fed, 4, &requests),
        (PeerId(3), wrong_sig),
        (PeerId(9), unknown),
        honest(&fed, 5, &requests),
    ];
    let agg = aggregator(&fed, 4);
    let expected = MintShareErrors(vec![
        (PeerId(1), PeerErrorType::DifferentStructureSigShare),
        (PeerId(2), PeerErrorType::DifferentNonce),
        (PeerId(3), PeerErrorType::InvalidSignature),
        (PeerId(9), PeerErrorType::InvalidAmountTier),
    ]);
    let (sigs, errors) = agg.combine_shares(&out_point(), &shares).unwrap();
    assert_eq!(errors, expected);
    assert!(unblinded_verifies(&fed, &requests, &sigs));
    assert_eq!(agg.check_share(&shares[2].1.signatures, PeerId(5), &shares[5].1.signatures), None);
    assert_eq!(
        agg.check_share(&shares[2].1.signatures, PeerId(3), &shares[3].1.signatures),
        Some(PeerErrorType::InvalidSignature)
    );
}

#[test]
fn own_invalid_share_is_excluded_too() {
    let fed = federation(2, 3, &[1000]);
    let requests = vec![request(1000, b"a")];
    let (_, forged) = honest(&fed, 1, &requests);
    let shares = vec![(PeerId(0), forged), honest(&fed, 1, &requests), honest(&fed, 2, &requests)];
    let (sigs, errors) = aggregator(&fed, 0).combine_shares(&out_point(), &shares).unwrap();
    assert_eq!(errors, MintShareErrors(vec![(PeerId(0), PeerErrorType::InvalidSignature)]));
    assert!(unblinded_verifies(&fed, &requests, &sigs));
}

#[test]
fn combining_twice_gives_the_same_bytes() {
    let fed = federation(3, 5, &[1000, 2000]);
    let requests = vec![request(1000, b"a"), request(2000, b"b"), request(1000, b"c")];
    let shares = all_honest(&fed, &requests);
    let agg = aggregator(&fed, 2);
    let first = agg.combine_shares(&out_point(), &shares);
    let second = agg.combine_shares(&out_point(), &shares);
    assert!(first.is_ok());
    assert_eq!(first, second);
}

#[test]
fn single_peer_federation_combines_its_own_share() {
    let fed = federation(1, 1, &[1000]);
    let requests = vec![request(1000, b"a")];
    let shares = all_honest(&fed, &requests);
    let (sigs, errors) = aggregator(&fed, 0).combine_shares(&out_point(), &shares).unwrap();
    assert_eq!(errors, MintShareErrors(vec![]));
    assert_eq!(sigs.0.item(0).1 .0, shares[0].1.signatures.0.item(0).1 .1 .0);
    assert!(unblinded_verifies(&fed, &requests, &sigs));
}

#[test]
fn share_search_and_counts() {
    let fed = federation(2, 3, &[1000]);
    let requests = vec![request(1000, b"a")];
    let shares = vec![honest(&fed, 2, &requests), honest(&fed, 0, &requests), honest(&fed, 2, &requests)];
    assert_eq!(ShareAggregator::find_share(&shares, PeerId(0)), Some(1));
    assert_eq!(ShareAggregator::find_share(&shares, PeerId(2)), Some(0));
    assert_eq!(ShareAggregator::find_share(&shares, PeerId(1)), None);
    assert_eq!(ShareAggregator::count_shares(&shares, PeerId(2)), 2);
    assert_eq!(ShareAggregator::count_shares(&shares, PeerId(1)), 0);
    assert_eq!(ShareAggregator::find_repeated(&shares), Some((PeerId(2), 2)));
    assert_eq!(ShareAggregator::find_repeated(&shares[..2].to_vec()), None);
    assert_eq!(ShareAggregator::contributors(&shares), vec![PeerId(2), PeerId(0), PeerId(2)]);
    let agg = aggregator(&fed, 0);
    assert_eq!(agg.key_share(PeerId(1), Amount { msats: 1000 }), Some(agg.keys[1].key));
    assert_eq!(agg.key_share(PeerId(1), Amount { msats: 5 }), None);
    assert_eq!(agg.key_share(PeerId(7), Amount { msats: 1000 }), None);
}

#[test]
fn note_from_combined_shares_verifies() {
    let fed = federation(3, 4, &[1000]);
    let nonce = Nonce::from_bytes(&KEY_G).unwrap();
    let other = Nonce::from_bytes(&KEY_2G).unwrap();
    let requests = vec![request(1000, nonce.key_bytes())];
    let mismatched = vec![request(1000, nonce.key_bytes()), request(1000, b"more")];
    let shares = vec![
        honest(&fed, 0, &requests),
        honest(&fed, 1, &mismatched),
        honest(&fed, 2, &requests),
        honest(&fed, 3, &requests),
    ];
    let (sigs, errors) = aggregator(&fed, 3).combine_shares(&out_point(), &shares).unwrap();
    assert_eq!(errors, MintShareErrors(vec![(PeerId(1), PeerErrorType::DifferentStructureSigShare)]));
    let bsig = tbs::BlindedSignature(tbs::MessagePoint::from_compressed(sigs.0.item(0).1 .0.as_bytes()).unwrap());
    let sig = tbs::unblind_signature(requests[0].bkey, bsig);
    let signature = Signature(g1(sig.encode_compressed()));
    let pk = AggregatePublicKey(G2Point::from_compressed(fed.tiers[0].pk.0.to_compressed()).unwrap());
    assert!(Note(nonce, signature).verify(pk));
    assert!(!Note(other, signature).verify(pk));
    let blinded = Signature(g1(bsig.encode_compressed()));
    assert!(!Note(nonce, blinded).verify(pk));
}

#[test]
fn shares_for_another_output_are_not_combined() {
    let fed = federation(2, 3, &[1000]);
    let requests = vec![request(1000, b"a")];
    let mut shares = all_honest(&fed, &requests);
    let agg = aggregator(&fed, 0);
    assert!(ShareAggregator::shares_for_output(&out_point(), &shares));
    assert!(agg.try_combine_shares(&out_point(), &shares).unwrap().is_ok());
    let elsewhere = OutPoint { txid: [3; 32], out_idx: 2 };
    assert!(!out_point().same(&elsewhere));
    assert!(!out_point().same(&OutPoint { txid: [4; 32], out_idx: 1 }));
    assert!(out_point().same(&OutPoint { txid: [3; 32], out_idx: 1 }));
    assert_eq!(agg.try_combine_shares(&elsewhere, &shares), None);
    shares[2].1.out_point = elsewhere;
    assert!(!ShareAggregator::shares_for_output(&out_point(), &shares));
    assert_eq!(agg.try_combine_shares(&out_point(), &shares), None);
}

#[test]
fn zero_threshold_is_not_combined() {
    let fed = federation(2, 3, &[1000]);
    let requests = vec![request(1000, b"a")];
    let shares = all_honest(&fed, &requests);
    let mut agg = aggregator(&fed, 0);
    agg.threshold = 0;
    assert_eq!(agg.try_combine_shares(&out_point(), &shares), None);
    agg.threshold = 4;
    assert_eq!(
        agg.try_combine_shares(&out_point(), &shares),
        Some(Err(CombineError::TooFewShares(vec![PeerId(0), PeerId(1), PeerId(2)], 4)))
    );
}
