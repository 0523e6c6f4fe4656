//! The pseudorandom function of TLS 1.2 and what is derived with it.

use hmac::Mac;
use sha2::Digest;
use vstd::prelude::*;
use vstd::utf8::encode_utf8;

use crate::bytes::{copy, extend};
use crate::cipher_suite::CipherSuiteHash;
use crate::error::Error;

verus! {

/// The length of a master secret.
pub const MASTER_SECRET_LENGTH: usize = 48;

/// The length of the verify data of a Finished message.
pub const VERIFY_DATA_LENGTH: usize = 12;

/// The length of a SHA-256 digest, and of an HMAC made with SHA-256.
pub const SHA256_LENGTH: usize = 32;

/// The error of `hmac` on a key of a length that the keyed hash refuses.
#[verifier::external_type_specification]
#[verifier::external_body]
pub struct ExInvalidLength(hmac::digest::InvalidLength);

/// The HMAC-SHA-256 of `data` under `key`.
pub uninterp spec fn hmac_sha256_of(key: Seq<u8>, data: Seq<u8>) -> Seq<u8>;

/// The SHA-256 digest of `data`.
pub uninterp spec fn sha256_of(data: Seq<u8>) -> Seq<u8>;

/// `hmac::Mac::new_from_slice`, `update` and `finalize` on
/// `hmac::Hmac<sha2::Sha256>`: a key of any length is accepted, the code
/// depends on key and data alone, and has the length of the digest.
#[verifier::external_body]
fn hmac_sha256(key: &[u8], data: &[u8]) -> (r: Result<Vec<u8>, hmac::digest::InvalidLength>)
    ensures
        r is Ok,
        r->Ok_0@ == hmac_sha256_of(key@, data@),
        r->Ok_0@.len() == SHA256_LENGTH,
{
    let mut mac = <hmac::Hmac<sha2::Sha256> as Mac>::new_from_slice(key)?;
    mac.update(data);
    Ok(mac.finalize().into_bytes().to_vec())
}

/// `sha2::Sha256::digest`: the digest depends on the data alone and is 32
/// bytes long.
#[verifier::external_body]
fn sha256(data: &[u8]) -> (r: Vec<u8>)
    ensures
        r@ == sha256_of(data@),
        r@.len() == SHA256_LENGTH,
{
    sha2::Sha256::digest(data).to_vec()
}

/// The keyed hash of `data` under the hash function of a cipher suite.
pub open spec fn hmac_of(hash: CipherSuiteHash, key: Seq<u8>, data: Seq<u8>) -> Seq<u8> {
    match hash {
        CipherSuiteHash::Sha256 => hmac_sha256_of(key, data),
    }
}

/// The hash of `data` under the hash function of a cipher suite.
pub open spec fn hash_of(hash: CipherSuiteHash, data: Seq<u8>) -> Seq<u8> {
    match hash {
        CipherSuiteHash::Sha256 => sha256_of(data),
    }
}

/// How long the hashes of a hash function are.
pub open spec fn digest_length(hash: CipherSuiteHash) -> nat {
    match hash {
        CipherSuiteHash::Sha256 => SHA256_LENGTH as nat,
    }
}

/// The chain `A(0), A(1), ..`: the seed, then the keyed hash of the link before.
pub open spec fn p_hash_chain(
    secret: Seq<u8>,
    seed: Seq<u8>,
    link: nat,
    hash: CipherSuiteHash,
) -> Seq<u8>
    decreases link,
{
    if link == 0 {
        seed
    } else {
        hmac_of(hash, secret, p_hash_chain(secret, seed, (link - 1) as nat, hash))
    }
}

/// A block of the expansion of `secret` and `seed`; the first is block 0.
pub open spec fn p_hash_block(
    secret: Seq<u8>,
    seed: Seq<u8>,
    block: nat,
    hash: CipherSuiteHash,
) -> Seq<u8> {
    hmac_of(hash, secret, p_hash_chain(secret, seed, block + 1, hash) + seed)
}

/// The first `length` bytes of the expansion of `secret` and `seed`.
pub open spec fn p_hash(
    secret: Seq<u8>,
    seed: Seq<u8>,
    length: nat,
    hash: CipherSuiteHash,
) -> Seq<u8> {
    let size = digest_length(hash) as int;
    Seq::new(length, |i: int| p_hash_block(secret, seed, (i / size) as nat, hash)[i % size])
}

/// The keyed hash of `data` under the hash function of a cipher suite.
fn hmac(hash: CipherSuiteHash, key: &[u8], data: &[u8]) -> (r: Result<Vec<u8>, Error>)
    ensures
        r is Ok,
        r->Ok_0@ == hmac_of(hash, key@, data@),
        r->Ok_0@.len() == digest_length(hash),
{
    match hash {
        CipherSuiteHash::Sha256 => match hmac_sha256(key, data) {
            Ok(code) => Ok(code),
            Err(_) => Err(Error::InvalidKeyLength),
        },
    }
}

/// Expands `secret` and `seed` to `requested_length` bytes.
pub fn prf_p_hash(
    secret: &[u8],
    seed: &[u8],
    requested_length: usize,
    hash: CipherSuiteHash,
) -> (r: Result<Vec<u8>, Error>)
    ensures
        r is Ok,
        r->Ok_0@ == p_hash(secret@, seed@, requested_length as nat, hash),
{
    let mut out: Vec<u8> = Vec::new();
    let mut chain: Vec<u8> = copy(seed);
    let ghost mut blocks: nat = 0;
    assert(out@ =~= p_hash(secret@, seed@, 0, hash));
    while out.len() < requested_length
        invariant
            chain@ == p_hash_chain(secret@, seed@, blocks, hash),
            out@.len() <= requested_length,
            out@.len() < requested_length ==> out@.len() == blocks * SHA256_LENGTH,
            out@ == p_hash(secret@, seed@, out@.len(), hash),
        decreases requested_length - out@.len(),
    {
        chain = match hmac(hash, secret, chain.as_slice()) {
            Ok(code) => code,
            Err(err) => return Err(err),
        };
        let mut input: Vec<u8> = copy(chain.as_slice());
        extend(&mut input, seed);
        let block: Vec<u8> = match hmac(hash, secret, input.as_slice()) {
            Ok(code) => code,
            Err(err) => return Err(err),
        };
        assert(block@ == p_hash_block(secret@, seed@, blocks, hash));
        let start: usize = out.len();
        let mut i: usize = 0;
        while i < block.len() && out.len() < requested_length
            invariant
                i <= block@.len(),
                block@.len() == SHA256_LENGTH,
                block@ == p_hash_block(secret@, seed@, blocks, hash),
                start == blocks * SHA256_LENGTH,
                start < requested_length,
                out@.len() == start + i,
                out@.len() <= requested_length,
                out@ == p_hash(secret@, seed@, out@.len(), hash),
            decreases block@.len() - i,
        {
            out.push(block[i]);
            proof {
                let n = start + i;
                assert(n / 32 == blocks && n % 32 == i as int);
                assert(out@ =~= p_hash(secret@, seed@, out@.len(), hash));
            }
            i += 1;
        }
        proof {
            blocks = blocks + 1;
        }
    }
    Ok(out)
}

/// The master secret that a pre-master secret and the two randoms give.
pub open spec fn master_secret(
    pre_master_secret: Seq<u8>,
    client_random: Seq<u8>,
    server_random: Seq<u8>,
    hash: CipherSuiteHash,
) -> Seq<u8> {
    p_hash(
        pre_master_secret,
        encode_utf8("master secret"@) + client_random + server_random,
        MASTER_SECRET_LENGTH as nat,
        hash,
    )
}

/// The extended master secret that a pre-master secret and a session hash give.
pub open spec fn extended_master_secret(
    pre_master_secret: Seq<u8>,
    session_hash: Seq<u8>,
    hash: CipherSuiteHash,
) -> Seq<u8> {
    p_hash(
        pre_master_secret,
        encode_utf8("extended master secret"@) + session_hash,
        MASTER_SECRET_LENGTH as nat,
        hash,
    )
}

/// The verify data of the side that `label` names, over the messages so far.
pub open spec fn verify_data(
    label: Seq<char>,
    master_secret: Seq<u8>,
    handshake_bodies: Seq<u8>,
    hash: CipherSuiteHash,
) -> Seq<u8> {
    p_hash(
        master_secret,
        encode_utf8(label) + hash_of(hash, handshake_bodies),
        VERIFY_DATA_LENGTH as nat,
        hash,
    )
}

/// The verify data of the client's Finished message.
pub open spec fn client_verify_data(
    master_secret: Seq<u8>,
    handshake_bodies: Seq<u8>,
    hash: CipherSuiteHash,
) -> Seq<u8> {
    verify_data("client finished"@, master_secret, handshake_bodies, hash)
}

/// The verify data of the server's Finished message.
pub open spec fn server_verify_data(
    master_secret: Seq<u8>,
    handshake_bodies: Seq<u8>,
    hash: CipherSuiteHash,
) -> Seq<u8> {
    verify_data("server finished"@, master_secret, handshake_bodies, hash)
}

/// Derives the master secret.
pub fn prf_master_secret(
    pre_master_secret: &[u8],
    client_random: &[u8],
    server_random: &[u8],
    hash: CipherSuiteHash,
) -> (r: Result<Vec<u8>, Error>)
    ensures
        r is Ok,
        r->Ok_0@ == master_secret(pre_master_secret@, client_random@, server_random@, hash),
        r->Ok_0@ == p_hash(
            pre_master_secret@,
            encode_utf8("master secret"@) + client_random@ + server_random@,
            48,
            hash,
        ),
{
    let mut seed: Vec<u8> = copy("master secret".as_bytes());
    extend(&mut seed, client_random);
    extend(&mut seed, server_random);
    prf_p_hash(pre_master_secret, seed.as_slice(), MASTER_SECRET_LENGTH, hash)
}

/// Derives the extended master secret.
pub fn prf_extended_master_secret(
    pre_master_secret: &[u8],
    session_hash: &[u8],
    hash: CipherSuiteHash,
) -> (r: Result<Vec<u8>, Error>)
    ensures
        r is Ok,
        r->Ok_0@ == extended_master_secret(pre_master_secret@, session_hash@, hash),
        r->Ok_0@ == p_hash(
            pre_master_secret@,
            encode_utf8("extended master secret"@) + session_hash@,
            48,
            hash,
        ),
{
    let mut seed: Vec<u8> = copy("extended master secret".as_bytes());
    extend(&mut seed, session_hash);
    prf_p_hash(pre_master_secret, seed.as_slice(), MASTER_SECRET_LENGTH, hash)
}

/// Derives the verify data of the side that `label` names.
fn prf_verify_data(
    label: &str,
    master_secret: &[u8],
    handshake_bodies: &[u8],
    hash: CipherSuiteHash,
) -> (r: Result<Vec<u8>, Error>)
    ensures
        r is Ok,
        r->Ok_0@ == verify_data(label@, master_secret@, handshake_bodies@, hash),
{
    let digest: Vec<u8> = match hash {
        CipherSuiteHash::Sha256 => sha256(handshake_bodies),
    };
    let mut seed: Vec<u8> = copy(label.as_bytes());
    extend(&mut seed, digest.as_slice());
    prf_p_hash(master_secret, seed.as_slice(), VERIFY_DATA_LENGTH, hash)
}

/// Derives the verify data of the client's Finished message.
pub fn prf_verify_data_client(
    master_secret: &[u8],
    handshake_bodies: &[u8],
    hash: CipherSuiteHash,
) -> (r: Result<Vec<u8>, Error>)
    ensures
        r is Ok,
        r->Ok_0@ == client_verify_data(master_secret@, handshake_bodies@, hash),
        r->Ok_0@ == p_hash(
            master_secret@,
            encode_utf8("client finished"@) + sha256_of(handshake_bodies@),
            12,
            hash,
        ),
{
    prf_verify_data("client finished", master_secret, handshake_bodies, hash)
}

/// Derives the verify data of the server's Finished message.
pub fn prf_verify_data_server(
    master_secret: &[u8],
    handshake_bodies: &[u8],
    hash: CipherSuiteHash,
) -> (r: Result<Vec<u8>, Error>)
    ensures
        r is Ok,
        r->Ok_0@ == server_verify_data(master_secret@, handshake_bodies@, hash),
        r->Ok_0@ == p_hash(
            master_secret@,
            encode_utf8("server finished"@) + sha256_of(handshake_bodies@),
            12,
            hash,
        ),
{
    prf_verify_data("server finished", master_secret, handshake_bodies, hash)
}

/// A shorter expansion is the start of a longer one.
pub proof fn law_p_hash_prefix(
    secret: Seq<u8>,
    seed: Seq<u8>,
    shorter: nat,
    longer: nat,
    hash: CipherSuiteHash,
)
    requires
        shorter <= longer,
    ensures
        p_hash(secret, seed, longer, hash).len() == longer,
        p_hash(secret, seed, longer, hash).take(shorter as int) == p_hash(
            secret,
            seed,
            shorter,
            hash,
        ),
{
    assert(p_hash(secret, seed, longer, hash).take(shorter as int) =~= p_hash(
        secret,
        seed,
        shorter,
        hash,
    ));
}

/// Every byte of an expansion comes from the keyed hashes of the links of the
/// chain: the chain starts with the seed, each link is the keyed hash of the one
/// before, and the 32 bytes of block `b` are the keyed hash of the link `b + 1`
/// with the seed behind it.
pub proof fn law_p_hash_expansion(
    secret: Seq<u8>,
    seed: Seq<u8>,
    length: nat,
    hash: CipherSuiteHash,
    chain: Seq<Seq<u8>>,
    i: int,
)
    requires
        0 <= i < length,
        i / 32 + 1 < chain.len(),
        chain[0] == seed,
        forall|k: int| 0 < k < chain.len() ==> #[trigger] chain[k] == hmac_sha256_of(
            secret,
            chain[k - 1],
        ),
    ensures
        p_hash(secret, seed, length, hash).len() == length,
        p_hash(secret, seed, length, hash)[i] == hmac_sha256_of(
            secret,
            chain[i / 32 + 1] + seed,
        )[i % 32],
{
    lemma_chain(secret, seed, hash, chain, i / 32 + 1);
}

/// A chain that starts with the seed and goes on by keyed hashes is the chain.
proof fn lemma_chain(
    secret: Seq<u8>,
    seed: Seq<u8>,
    hash: CipherSuiteHash,
    chain: Seq<Seq<u8>>,
    k: int,
)
    requires
        0 <= k < chain.len(),
        chain[0] == seed,
        forall|k: int| 0 < k < chain.len() ==> #[trigger] chain[k] == hmac_sha256_of(
            secret,
            chain[k - 1],
        ),
    ensures
        chain[k] == p_hash_chain(secret, seed, k as nat, hash),
    decreases k,
{
    if k > 0 {
        lemma_chain(secret, seed, hash, chain, k - 1);
    }
}

/// The master secret is the 48-byte expansion of the pre-master secret over
/// "master secret", the client's random and the server's random, in this order
/// and whatever they hold.
pub proof fn law_master_secret_seed(
    pre_master_secret: Seq<u8>,
    client_random: Seq<u8>,
    server_random: Seq<u8>,
    hash: CipherSuiteHash,
)
    ensures
        master_secret(pre_master_secret, client_random, server_random, hash) == p_hash(
            pre_master_secret,
            encode_utf8("master secret"@) + client_random + server_random,
            48,
            hash,
        ),
{
}

/// The extended master secret is the 48-byte expansion of the pre-master secret
/// over "extended master secret" and the whole session hash.
pub proof fn law_extended_master_secret_seed(
    pre_master_secret: Seq<u8>,
    session_hash: Seq<u8>,
    hash: CipherSuiteHash,
)
    ensures
        extended_master_secret(pre_master_secret, session_hash, hash) == p_hash(
            pre_master_secret,
            encode_utf8("extended master secret"@) + session_hash,
            48,
            hash,
        ),
{
}

/// The verify data of a side are the 12-byte expansion of the master secret over
/// the name of the side and the hash of all the messages, however many.
pub proof fn law_verify_data_seed(
    master_secret: Seq<u8>,
    handshake_bodies: Seq<u8>,
    hash: CipherSuiteHash,
)
    ensures
        client_verify_data(master_secret, handshake_bodies, hash) == p_hash(
            master_secret,
            encode_utf8("client finished"@) + sha256_of(handshake_bodies),
            12,
            hash,
        ),
        server_verify_data(master_secret, handshake_bodies, hash) == p_hash(
            master_secret,
            encode_utf8("server finished"@) + sha256_of(handshake_bodies),
            12,
            hash,
        ),
{
}

} // verus!
