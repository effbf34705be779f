//! The boundary to the cryptographic and encoding crates.
//!
//! Every function here is believed, not proved: its body calls into another
//! crate and its contract records what that crate's code does. All values
//! cross the boundary as plain bytes.

use vstd::prelude::*;

verus! {

/// Whether 48 bytes are the compressed encoding of a point of the first
/// BLS12-381 group.
pub uninterp spec fn is_g1_point(bytes: Seq<u8>) -> bool;

/// Whether 96 bytes are the compressed encoding of a point of the second
/// BLS12-381 group.
pub uninterp spec fn is_g2_point(bytes: Seq<u8>) -> bool;

/// Whether 32 bytes are the x coordinate of a point of secp256k1.
pub uninterp spec fn is_xonly_key(bytes: Seq<u8>) -> bool;

/// The compressed point that a byte string is hashed to as a message.
pub uninterp spec fn message_point(data: Seq<u8>) -> Seq<u8>;

/// Whether a full signature is valid over a message under an aggregate key.
pub uninterp spec fn signature_verifies(msg: Seq<u8>, sig: Seq<u8>, pk: Seq<u8>) -> bool;

/// Whether a blind signature share is valid over a blinded message under one
/// peer's public key share.
pub uninterp spec fn share_verifies(msg: Seq<u8>, share: Seq<u8>, pk: Seq<u8>) -> bool;

/// The blind signature interpolated from indexed signature shares.
pub uninterp spec fn combined_signature(shares: Seq<(u16, Seq<u8>)>, threshold: nat) -> Seq<u8>;

/// The indexed shares of a vector as plain byte strings.
pub open spec fn share_bytes(shares: Seq<(u16, [u8; 48])>) -> Seq<(u16, Seq<u8>)> {
    shares.map_values(|e: (u16, [u8; 48])| (e.0, e.1@))
}

/// Calls `G1Affine::from_compressed` of bls12_381 (through the alias that tbs
/// exports) and reports whether it yields a point.
#[verifier::external_body]
pub(crate) fn g1_decodes(bytes: &[u8; 48]) -> (ok: bool)
    ensures
        ok == is_g1_point(bytes@),
{
    bool::from(tbs::MessagePoint::from_compressed(bytes).is_some())
}

/// Calls `G2Affine::from_compressed` of bls12_381 (through the alias that tbs
/// exports) and reports whether it yields a point.
#[verifier::external_body]
pub(crate) fn g2_decodes(bytes: &[u8; 96]) -> (ok: bool)
    ensures
        ok == is_g2_point(bytes@),
{
    bool::from(tbs::PubKeyPoint::from_compressed(bytes).is_some())
}

/// Calls `XOnlyPublicKey::from_slice` of secp256k1 and reports whether the
/// bytes were accepted as a key.
#[verifier::external_body]
pub(crate) fn xonly_parses(key: &[u8; 32]) -> (ok: bool)
    ensures
        ok == is_xonly_key(key@),
{
    secp256k1_zkp::XOnlyPublicKey::from_slice(key).is_ok()
}

/// Calls `tbs::Message::from_bytes`, which hashes the data to a curve point,
/// and returns the point compressed. The result is a function of the data
/// alone and always decodes again.
#[verifier::external_body]
pub(crate) fn hash_to_message(data: &[u8]) -> (point: [u8; 48])
    ensures
        point@ == message_point(data@),
        is_g1_point(point@),
{
    tbs::Message::from_bytes(data).encode_compressed()
}

/// Calls `tbs::verify` on the decoded message, signature and aggregate key.
#[verifier::external_body]
pub(crate) fn verify_signature(msg: &[u8; 48], sig: &[u8; 48], pk: &[u8; 96]) -> (ok: bool)
    requires
        is_g1_point(msg@),
        is_g1_point(sig@),
        is_g2_point(pk@),
    ensures
        ok == signature_verifies(msg@, sig@, pk@),
{
    let m = tbs::Message(tbs::MessagePoint::from_compressed(msg).unwrap());
    let s = tbs::Signature(tbs::MessagePoint::from_compressed(sig).unwrap());
    let k = tbs::AggregatePublicKey(tbs::PubKeyPoint::from_compressed(pk).unwrap());
    tbs::verify(m, s, k)
}

/// Calls `tbs::verify_blind_share` on the decoded blinded message, signature
/// share and public key share.
#[verifier::external_body]
pub(crate) fn verify_share(msg: &[u8; 48], share: &[u8; 48], pk: &[u8; 96]) -> (ok: bool)
    requires
        is_g1_point(msg@),
        is_g1_point(share@),
        is_g2_point(pk@),
    ensures
        ok == share_verifies(msg@, share@, pk@),
{
    let m = tbs::BlindedMessage(tbs::MessagePoint::from_compressed(msg).unwrap());
    let s = tbs::BlindedSignatureShare(tbs::MessagePoint::from_compressed(share).unwrap());
    let k = tbs::PublicKeyShare(tbs::PubKeyPoint::from_compressed(pk).unwrap());
    tbs::verify_blind_share(m, s, k)
}

/// Calls `tbs::combine_valid_shares` on the decoded shares, each with its key
/// index. That function stops with a panic on fewer shares than the
/// threshold, on no share at all and on a repeated index, so those inputs are
/// left out. The result is a function of the shares, their order and the
/// threshold, and always decodes again.
#[verifier::external_body]
pub(crate) fn combine_share_points(shares: &Vec<(u16, [u8; 48])>, threshold: usize) -> (sig: [u8; 48])
    requires
        1 <= threshold <= shares@.len(),
        forall|i: int| 0 <= i < shares@.len() ==> is_g1_point(#[trigger] shares@[i].1@),
        forall|i: int, j: int|
            0 <= i < j < shares@.len() ==> (#[trigger] shares@[i]).0 != (#[trigger] shares@[j]).0,
    ensures
        sig@ == combined_signature(share_bytes(shares@), threshold as nat),
        is_g1_point(sig@),
{
    let points: Vec<(usize, tbs::BlindedSignatureShare)> = shares
        .iter()
        .map(|(i, b)| {
            (usize::from(*i), tbs::BlindedSignatureShare(tbs::MessagePoint::from_compressed(b).unwrap()))
        })
        .collect();
    tbs::combine_valid_shares(points, threshold).encode_compressed()
}

/// Calls `bincode::serialize_into` on the 32 key bytes. As a fixed-size
/// sequence they are written one byte each with no length in front.
#[verifier::external_body]
pub(crate) fn encode_key(key: &[u8; 32]) -> (bytes: Vec<u8>)
    ensures
        bytes@ == key@,
{
    let mut bytes = Vec::new();
    bincode::serialize_into(&mut bytes, key).unwrap();
    bytes
}

/// Calls `bincode::deserialize` for 32 key bytes. It reads the first 32 bytes
/// of the input, ignores what follows them and fails on a shorter input.
#[verifier::external_body]
pub(crate) fn decode_key(bytes: &[u8]) -> (key: Option<[u8; 32]>)
    ensures
        key.is_some() == (bytes@.len() >= 32),
        key.is_some() ==> key.unwrap()@ == bytes@.subrange(0, 32),
{
    bincode::deserialize::<[u8; 32]>(bytes).ok()
}

} // verus!
