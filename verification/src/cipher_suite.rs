//! The cipher suites that a connection can use.

use vstd::prelude::*;

use crate::error::Error;

verus! {

/// A cipher suite that this library knows.
#[allow(non_camel_case_types)]
#[derive(Clone, Copy, Debug, PartialEq, Eq, Structural)]
pub enum CipherSuiteId {
    TLS_ECDHE_ECDSA_WITH_AES_128_CCM,
    TLS_ECDHE_ECDSA_WITH_AES_128_CCM_8,
    TLS_ECDHE_ECDSA_WITH_AES_128_GCM_SHA256,
    TLS_ECDHE_RSA_WITH_AES_128_GCM_SHA256,
    TLS_ECDHE_ECDSA_WITH_AES_256_CBC_SHA,
    TLS_ECDHE_RSA_WITH_AES_256_CBC_SHA,
    TLS_PSK_WITH_AES_128_CCM,
    TLS_PSK_WITH_AES_128_CCM_8,
    TLS_PSK_WITH_AES_128_GCM_SHA256,
}

/// The hash function that a cipher suite derives keys with.
#[derive(Clone, Copy, Debug, PartialEq, Eq, Structural)]
pub enum CipherSuiteHash {
    Sha256,
}

impl CipherSuiteId {
    /// The registered number of the cipher suite.
    pub open spec fn spec_code(self) -> u16 {
        match self {
            CipherSuiteId::TLS_ECDHE_ECDSA_WITH_AES_128_CCM => 0xc0ac,
            CipherSuiteId::TLS_ECDHE_ECDSA_WITH_AES_128_CCM_8 => 0xc0ae,
            CipherSuiteId::TLS_ECDHE_ECDSA_WITH_AES_128_GCM_SHA256 => 0xc02b,
            CipherSuiteId::TLS_ECDHE_RSA_WITH_AES_128_GCM_SHA256 => 0xc02f,
            CipherSuiteId::TLS_ECDHE_ECDSA_WITH_AES_256_CBC_SHA => 0xc00a,
            CipherSuiteId::TLS_ECDHE_RSA_WITH_AES_256_CBC_SHA => 0xc014,
            CipherSuiteId::TLS_PSK_WITH_AES_128_CCM => 0xc0a4,
            CipherSuiteId::TLS_PSK_WITH_AES_128_CCM_8 => 0xc0a8,
            CipherSuiteId::TLS_PSK_WITH_AES_128_GCM_SHA256 => 0x00a8,
        }
    }

    /// Tells whether `code` is the number of a cipher suite that is known here.
    pub open spec fn is_known(code: u16) -> bool {
        exists|id: CipherSuiteId| #[trigger] id.spec_code() == code
    }

    /// The cipher suite with a known number.
    pub open spec fn spec_from_code(code: u16) -> CipherSuiteId
        recommends
            CipherSuiteId::is_known(code),
    {
        choose|id: CipherSuiteId| #[trigger] id.spec_code() == code
    }

    /// The registered number of the cipher suite.
    pub fn code(self) -> (code: u16)
        ensures
            code == self.spec_code(),
    {
        match self {
            CipherSuiteId::TLS_ECDHE_ECDSA_WITH_AES_128_CCM => 0xc0ac,
            CipherSuiteId::TLS_ECDHE_ECDSA_WITH_AES_128_CCM_8 => 0xc0ae,
            CipherSuiteId::TLS_ECDHE_ECDSA_WITH_AES_128_GCM_SHA256 => 0xc02b,
            CipherSuiteId::TLS_ECDHE_RSA_WITH_AES_128_GCM_SHA256 => 0xc02f,
            CipherSuiteId::TLS_ECDHE_ECDSA_WITH_AES_256_CBC_SHA => 0xc00a,
            CipherSuiteId::TLS_ECDHE_RSA_WITH_AES_256_CBC_SHA => 0xc014,
            CipherSuiteId::TLS_PSK_WITH_AES_128_CCM => 0xc0a4,
            CipherSuiteId::TLS_PSK_WITH_AES_128_CCM_8 => 0xc0a8,
            CipherSuiteId::TLS_PSK_WITH_AES_128_GCM_SHA256 => 0x00a8,
        }
    }
}

/// No two cipher suites share a number, so a number gives its suite back.
pub proof fn law_cipher_suite_round_trip(id: CipherSuiteId)
    ensures
        CipherSuiteId::is_known(id.spec_code()),
        CipherSuiteId::spec_from_code(id.spec_code()) == id,
{
    assert(CipherSuiteId::spec_from_code(id.spec_code()).spec_code() == id.spec_code());
}

/// A chosen cipher suite, and whether its keys have been set.
#[derive(Clone, Copy, Debug, PartialEq, Eq, Structural)]
pub struct CipherSuite {
    pub id: CipherSuiteId,
    pub initialized: bool,
}

impl CipherSuite {
    /// The hash function of the suite.
    pub open spec fn spec_hash_func(self) -> CipherSuiteHash {
        CipherSuiteHash::Sha256
    }

    /// The hash function of the suite: SHA-256 for all that are known here.
    pub fn hash_func(&self) -> (hash: CipherSuiteHash)
        ensures
            hash == self.spec_hash_func(),
    {
        CipherSuiteHash::Sha256
    }
}

/// The cipher suite with the given number, its keys not set yet.
pub fn cipher_suite_for_id(code: u16) -> (r: Result<CipherSuite, Error>)
    ensures
        CipherSuiteId::is_known(code) ==> r == Ok::<CipherSuite, Error>(
            CipherSuite { id: CipherSuiteId::spec_from_code(code), initialized: false },
        ),
        !CipherSuiteId::is_known(code) ==> r == Err::<CipherSuite, Error>(
            Error::InvalidCipherSuite,
        ),
{
    let id: CipherSuiteId = match code {
        0xc0ac => CipherSuiteId::TLS_ECDHE_ECDSA_WITH_AES_128_CCM,
        0xc0ae => CipherSuiteId::TLS_ECDHE_ECDSA_WITH_AES_128_CCM_8,
        0xc02b => CipherSuiteId::TLS_ECDHE_ECDSA_WITH_AES_128_GCM_SHA256,
        0xc02f => CipherSuiteId::TLS_ECDHE_RSA_WITH_AES_128_GCM_SHA256,
        0xc00a => CipherSuiteId::TLS_ECDHE_ECDSA_WITH_AES_256_CBC_SHA,
        0xc014 => CipherSuiteId::TLS_ECDHE_RSA_WITH_AES_256_CBC_SHA,
        0xc0a4 => CipherSuiteId::TLS_PSK_WITH_AES_128_CCM,
        0xc0a8 => CipherSuiteId::TLS_PSK_WITH_AES_128_CCM_8,
        0x00a8 => CipherSuiteId::TLS_PSK_WITH_AES_128_GCM_SHA256,
        _ => return Err(Error::InvalidCipherSuite),
    };
    proof {
        law_cipher_suite_round_trip(id);
    }
    Ok(CipherSuite { id, initialized: false })
}

/// The registered numbers of the suites, and that no other number is known.
pub proof fn law_cipher_suite_numbers(code: u16)
    ensures
        CipherSuiteId::TLS_ECDHE_ECDSA_WITH_AES_128_CCM.spec_code() == 0xc0ac,
        CipherSuiteId::TLS_ECDHE_ECDSA_WITH_AES_128_CCM_8.spec_code() == 0xc0ae,
        CipherSuiteId::TLS_ECDHE_ECDSA_WITH_AES_128_GCM_SHA256.spec_code() == 0xc02b,
        CipherSuiteId::TLS_ECDHE_RSA_WITH_AES_128_GCM_SHA256.spec_code() == 0xc02f,
        CipherSuiteId::TLS_ECDHE_ECDSA_WITH_AES_256_CBC_SHA.spec_code() == 0xc00a,
        CipherSuiteId::TLS_ECDHE_RSA_WITH_AES_256_CBC_SHA.spec_code() == 0xc014,
        CipherSuiteId::TLS_PSK_WITH_AES_128_CCM.spec_code() == 0xc0a4,
        CipherSuiteId::TLS_PSK_WITH_AES_128_CCM_8.spec_code() == 0xc0a8,
        CipherSuiteId::TLS_PSK_WITH_AES_128_GCM_SHA256.spec_code() == 0x00a8,
        CipherSuiteId::is_known(code) <==> {
            ||| code == 0xc0ac
            ||| code == 0xc0ae
            ||| code == 0xc02b
            ||| code == 0xc02f
            ||| code == 0xc00a
            ||| code == 0xc014
            ||| code == 0xc0a4
            ||| code == 0xc0a8
            ||| code == 0x00a8
        },
        CipherSuiteId::is_known(code) ==> CipherSuiteId::spec_from_code(code).spec_code() == code,
{
    assert(CipherSuiteId::TLS_ECDHE_ECDSA_WITH_AES_128_CCM.spec_code() == 0xc0ac);
    assert(CipherSuiteId::TLS_ECDHE_ECDSA_WITH_AES_128_CCM_8.spec_code() == 0xc0ae);
    assert(CipherSuiteId::TLS_ECDHE_ECDSA_WITH_AES_128_GCM_SHA256.spec_code() == 0xc02b);
    assert(CipherSuiteId::TLS_ECDHE_RSA_WITH_AES_128_GCM_SHA256.spec_code() == 0xc02f);
    assert(CipherSuiteId::TLS_ECDHE_ECDSA_WITH_AES_256_CBC_SHA.spec_code() == 0xc00a);
    assert(CipherSuiteId::TLS_ECDHE_RSA_WITH_AES_256_CBC_SHA.spec_code() == 0xc014);
    assert(CipherSuiteId::TLS_PSK_WITH_AES_128_CCM.spec_code() == 0xc0a4);
    assert(CipherSuiteId::TLS_PSK_WITH_AES_128_CCM_8.spec_code() == 0xc0a8);
    assert(CipherSuiteId::TLS_PSK_WITH_AES_128_GCM_SHA256.spec_code() == 0x00a8);
}

} // verus!
