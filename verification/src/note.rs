//! Nonces, blinded nonces and signed notes.

use vstd::prelude::*;
use crate::points::{AggregatePublicKey, BlindedMessage, G1Point, Message, Signature};
use crate::primitives::{
    decode_key, encode_key, hash_to_message, is_xonly_key, message_point, signature_verifies,
    verify_signature, xonly_parses,
};

verus! {

/// The failure to read a nonce from bytes: they are too short or no key.
#[derive(Clone, Copy, Debug, PartialEq, Eq, Hash)]
pub struct InvalidNonceBytes;

/// Unique id of a note: a user-generated public key, whose secret half is
/// needed to spend the note. Held as the 32 bytes of the key's x coordinate.
#[derive(Debug, Copy, Clone, Eq, PartialEq, PartialOrd, Ord, Hash)]
pub struct Nonce {
    key: [u8; 32],
}

impl View for Nonce {
    type V = Seq<u8>;

    closed spec fn view(&self) -> Seq<u8> {
        self.key@
    }
}

/// The key bytes that a byte string decodes to: its first 32 bytes, where
/// there are as many and they are a key.
pub open spec fn decoded_nonce(bytes: Seq<u8>) -> Option<Seq<u8>> {
    if bytes.len() >= 32 && is_xonly_key(bytes.subrange(0, 32)) {
        Some(bytes.subrange(0, 32))
    } else {
        None
    }
}

/// What decoding returns on a byte string: the nonce of its key bytes, or
/// the failure where it holds none.
pub open spec fn decodes_to(bytes: Seq<u8>, decoded: Result<Nonce, InvalidNonceBytes>) -> bool {
    match decoded {
        Ok(nonce) => decoded_nonce(bytes) == Some(nonce@),
        Err(_) => decoded_nonce(bytes).is_none(),
    }
}

/// Decoding the encoding of a nonce gives the nonce back: whatever decoding
/// returns on the bytes of a well-formed nonce is that nonce.
pub proof fn lemma_nonce_round_trip(nonce: Nonce, decoded: Result<Nonce, InvalidNonceBytes>)
    requires
        nonce.wf(),
        decodes_to(nonce@, decoded),
    ensures
        decoded == Ok::<Nonce, InvalidNonceBytes>(nonce),
{
    assert(nonce@.len() == 32);
    assert(nonce@.subrange(0, 32) =~= nonce@);
    match decoded {
        Ok(other) => {
            assert(other.key@ == nonce.key@);
            assert(other.key =~= nonce.key);
        },
        Err(_) => {},
    }
}

/// The encoding is injective: nonces with the same bytes are the same.
pub proof fn lemma_nonce_encoding_injective(a: Nonce, b: Nonce)
    requires
        a@ == b@,
    ensures
        a == b,
{
    assert(a.key =~= b.key);
}

impl Nonce {
    #[verifier::type_invariant]
    spec fn on_curve(&self) -> bool {
        is_xonly_key(self.key@)
    }

    /// The bytes are a key. Every value that executable code holds is well
    /// formed.
    pub open spec fn wf(&self) -> bool {
        is_xonly_key(self@)
    }

    /// The canonical encoding: the 32 key bytes.
    pub fn to_bytes(&self) -> (bytes: Vec<u8>)
        ensures
            bytes@ == self@,
    {
        encode_key(&self.key)
    }

    /// Decodes a nonce, and fails on bytes that hold none.
    pub fn from_bytes(bytes: &[u8]) -> (decoded: Result<Nonce, InvalidNonceBytes>)
        ensures
            decodes_to(bytes@, decoded),
    {
        match decode_key(bytes) {
            Some(key) => {
                if xonly_parses(&key) {
                    Ok(Nonce { key })
                } else {
                    Err(InvalidNonceBytes)
                }
            },
            None => Err(InvalidNonceBytes),
        }
    }

    /// The message that the mint signs for this nonce.
    pub fn to_message(&self) -> (msg: Message)
        ensures
            msg.0@ == message_point(self@),
    {
        let point = hash_to_message(&self.key);
        Message(G1Point::from_compressed(point).unwrap())
    }
}

/// A nonce blinded by the user's key, as shown to the mint for signing.
#[derive(Debug, Copy, Clone, Eq, PartialEq, Hash)]
pub struct BlindNonce(pub BlindedMessage);

/// A nonce with the mint's signature over it. The denomination is that of
/// the key which verifies the signature and is tracked outside the note.
#[derive(Debug, Copy, Clone, Eq, PartialEq, Hash)]
pub struct Note(pub Nonce, pub Signature);

impl Note {
    /// Whether the signature is valid over the nonce under the key `pk`.
    pub fn verify(&self, pk: AggregatePublicKey) -> (ok: bool)
        ensures
            ok == signature_verifies(message_point(self.0@), self.1.0@, pk.0@),
    {
        let msg = self.0.to_message();
        verify_signature(msg.0.as_bytes(), self.1.0.as_bytes(), pk.0.as_bytes())
    }

    /// The nonce as the public key that spending the note is signed for.
    pub fn spend_key(&self) -> (key: &[u8; 32])
        ensures
            key@ == self.0@,
    {
        self.0.key_bytes()
    }
}

impl Nonce {
    /// The 32 bytes of the key.
    pub fn key_bytes(&self) -> (key: &[u8; 32])
        ensures
            key@ == self@,
            is_xonly_key(key@),
    {
        proof {
            use_type_invariant(self);
        }
        &self.key
    }
}

} // verus!
