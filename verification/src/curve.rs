//! The elliptic curves on which keys are agreed.

use vstd::prelude::*;

verus! {

/// How the parameters of a curve are given.
#[derive(Clone, Copy, Debug, PartialEq, Eq, Structural)]
pub enum EllipticCurveType {
    NamedCurve,
    Unsupported,
}

/// A curve that is known by its name.
#[derive(Clone, Copy, Debug, PartialEq, Eq, Structural)]
pub enum NamedCurve {
    P256,
    P384,
    X25519,
    /// No curve, or one that this library does not know.
    Unsupported,
}

/// A key pair on a curve.  The private key stays with its keeper, who knows
/// it by a number.
#[derive(Debug, PartialEq, Eq)]
pub struct NamedCurveKeypair {
    pub curve: NamedCurve,
    pub public_key: Vec<u8>,
    pub private_key: u64,
}

/// A key pair as plain values.
#[verifier::ext_equal]
pub struct NamedCurveKeypairView {
    pub curve: NamedCurve,
    pub public_key: Seq<u8>,
    pub private_key: u64,
}

impl View for NamedCurveKeypair {
    type V = NamedCurveKeypairView;

    open spec fn view(&self) -> NamedCurveKeypairView {
        NamedCurveKeypairView {
            curve: self.curve,
            public_key: self.public_key@,
            private_key: self.private_key,
        }
    }
}

/// The key pair that there may be, as plain values.
pub open spec fn keypair_view(keypair: Option<NamedCurveKeypair>) -> Option<NamedCurveKeypairView> {
    match keypair {
        Some(keypair) => Some(keypair@),
        None => None,
    }
}

} // verus!
