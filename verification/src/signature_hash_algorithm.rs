//! Signature schemes: a hash algorithm and a signature algorithm.

use vstd::prelude::*;

verus! {

/// A hash algorithm.
#[derive(Clone, Copy, Debug, PartialEq, Eq, Structural)]
pub enum HashAlgorithm {
    Md2,
    Md5,
    Sha1,
    Sha224,
    Sha256,
    Sha384,
    Sha512,
    Ed25519,
    /// No algorithm, or one that this library does not know.
    Unsupported,
}

/// A signature algorithm.
#[derive(Clone, Copy, Debug, PartialEq, Eq, Structural)]
pub enum SignatureAlgorithm {
    Rsa,
    Ecdsa,
    Ed25519,
    /// No algorithm, or one that this library does not know.
    Unsupported,
}

/// A signature scheme.
#[derive(Clone, Copy, Debug, PartialEq, Eq, Structural)]
pub struct SignatureHashAlgorithm {
    pub hash: HashAlgorithm,
    pub signature: SignatureAlgorithm,
}

/// Tells whether `schemes` list the pair of `hash` and `signature`.
pub open spec fn lists_scheme(
    schemes: Seq<SignatureHashAlgorithm>,
    hash: HashAlgorithm,
    signature: SignatureAlgorithm,
) -> bool {
    schemes.contains(SignatureHashAlgorithm { hash, signature })
}

/// Tells whether `schemes` list the pair of `hash` and `signature`.
pub fn is_scheme_listed(
    schemes: &Vec<SignatureHashAlgorithm>,
    hash: HashAlgorithm,
    signature: SignatureAlgorithm,
) -> (r: bool)
    ensures
        r == lists_scheme(schemes@, hash, signature),
{
    let mut i: usize = 0;
    while i < schemes.len()
        invariant
            i <= schemes@.len(),
            forall|j: int|
                0 <= j < i ==> #[trigger] schemes@[j] != (SignatureHashAlgorithm {
                    hash,
                    signature,
                }),
        decreases schemes@.len() - i,
    {
        if schemes[i].hash == hash && schemes[i].signature == signature {
            assert(schemes@[i as int] == (SignatureHashAlgorithm { hash, signature }));
            return true;
        }
        i += 1;
    }
    false
}

/// A copy of a list of schemes.
pub fn copy_schemes(schemes: &Vec<SignatureHashAlgorithm>) -> (r: Vec<SignatureHashAlgorithm>)
    ensures
        r@ == schemes@,
{
    let r: Vec<SignatureHashAlgorithm> = vstd::slice::slice_to_vec(schemes.as_slice());
    r
}

/// A pair is listed if and only if some scheme of the list has both its hash
/// and its signature algorithm.
pub proof fn law_scheme_is_listed(
    schemes: Seq<SignatureHashAlgorithm>,
    hash: HashAlgorithm,
    signature: SignatureAlgorithm,
)
    ensures
        lists_scheme(schemes, hash, signature) <==> exists|i: int|
            0 <= i < schemes.len() && (#[trigger] schemes[i]).hash == hash && schemes[i].signature
                == signature,
{
    if exists|i: int|
        0 <= i < schemes.len() && (#[trigger] schemes[i]).hash == hash && schemes[i].signature
            == signature {
        let i = choose|i: int|
            0 <= i < schemes.len() && (#[trigger] schemes[i]).hash == hash && schemes[i].signature
                == signature;
        assert(schemes[i] == (SignatureHashAlgorithm { hash, signature }));
    }
}

} // verus!
