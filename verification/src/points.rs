//! Curve points as validated byte strings, and the cryptographic values of
//! the blind signature scheme that are made of them.

use vstd::prelude::*;
use crate::primitives::{g1_decodes, g2_decodes, is_g1_point, is_g2_point};

verus! {

/// A point of the first group, held as its 48 compressed bytes.
#[derive(Clone, Copy, Debug, PartialEq, Eq, Hash)]
pub struct G1Point {
    bytes: [u8; 48],
}

/// A point of the second group, held as its 96 compressed bytes.
#[derive(Clone, Copy, Debug, PartialEq, Eq, Hash)]
pub struct G2Point {
    bytes: [u8; 96],
}

impl View for G1Point {
    type V = Seq<u8>;

    closed spec fn view(&self) -> Seq<u8> {
        self.bytes@
    }
}

impl View for G2Point {
    type V = Seq<u8>;

    closed spec fn view(&self) -> Seq<u8> {
        self.bytes@
    }
}

impl G1Point {
    #[verifier::type_invariant]
    spec fn decodes(&self) -> bool {
        is_g1_point(self.bytes@)
    }

    /// The bytes are the encoding of a point. Every value that executable
    /// code holds is well formed.
    pub open spec fn wf(&self) -> bool {
        is_g1_point(self@)
    }

    /// Accepts exactly the byte strings that decode to a point.
    pub fn from_compressed(bytes: [u8; 48]) -> (point: Option<G1Point>)
        ensures
            point.is_some() == is_g1_point(bytes@),
            point.is_some() ==> point.unwrap()@ == bytes@,
    {
        if g1_decodes(&bytes) {
            Some(G1Point { bytes })
        } else {
            None
        }
    }

    /// The compressed bytes of the point.
    pub fn as_bytes(&self) -> (bytes: &[u8; 48])
        ensures
            bytes@ == self@,
            is_g1_point(bytes@),
    {
        proof {
            use_type_invariant(self);
        }
        &self.bytes
    }

    /// Whether two points have the same encoding.
    pub fn same(&self, other: &G1Point) -> (eq: bool)
        ensures
            eq == (self@ == other@),
    {
        let mut i: usize = 0;
        while i < 48
            invariant
                i <= 48,
                forall|j: int| 0 <= j < i ==> self.bytes@[j] == other.bytes@[j],
            decreases 48 - i,
        {
            if self.bytes[i] != other.bytes[i] {
                return false;
            }
            i += 1;
        }
        assert(self.bytes@ =~= other.bytes@);
        true
    }
}

impl G2Point {
    #[verifier::type_invariant]
    spec fn decodes(&self) -> bool {
        is_g2_point(self.bytes@)
    }

    /// The bytes are the encoding of a point. Every value that executable
    /// code holds is well formed.
    pub open spec fn wf(&self) -> bool {
        is_g2_point(self@)
    }

    /// Accepts exactly the byte strings that decode to a point.
    pub fn from_compressed(bytes: [u8; 96]) -> (point: Option<G2Point>)
        ensures
            point.is_some() == is_g2_point(bytes@),
            point.is_some() ==> point.unwrap()@ == bytes@,
    {
        if g2_decodes(&bytes) {
            Some(G2Point { bytes })
        } else {
            None
        }
    }

    /// The compressed bytes of the point.
    pub fn as_bytes(&self) -> (bytes: &[u8; 96])
        ensures
            bytes@ == self@,
            is_g2_point(bytes@),
    {
        proof {
            use_type_invariant(self);
        }
        &self.bytes
    }
}

/// A message hashed to the curve.
#[derive(Clone, Copy, Debug, PartialEq, Eq, Hash)]
pub struct Message(pub G1Point);

/// A message hidden under a blinding key.
#[derive(Clone, Copy, Debug, PartialEq, Eq, Hash)]
pub struct BlindedMessage(pub G1Point);

/// One peer's partial signature over a blinded message.
#[derive(Clone, Copy, Debug, PartialEq, Eq, Hash)]
pub struct BlindedSignatureShare(pub G1Point);

/// A full signature over a blinded message.
#[derive(Clone, Copy, Debug, PartialEq, Eq, Hash)]
pub struct BlindedSignature(pub G1Point);

/// A full signature over a message.
#[derive(Clone, Copy, Debug, PartialEq, Eq, Hash)]
pub struct Signature(pub G1Point);

/// One peer's share of the public key of a denomination.
#[derive(Clone, Copy, Debug, PartialEq, Eq, Hash)]
pub struct PublicKeyShare(pub G2Point);

/// The federation's public key of a denomination.
#[derive(Clone, Copy, Debug, PartialEq, Eq, Hash)]
pub struct AggregatePublicKey(pub G2Point);

} // verus!
