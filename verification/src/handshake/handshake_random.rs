//! The random value that each side puts into its hello message.

use vstd::prelude::*;

use crate::bytes::{be32, extend, law_be32_digits, lemma_be32_round_trip, push_be32, read_be16};
use crate::error::Error;

verus! {

/// The length of the part of a random that is drawn by chance.
pub const RANDOM_BYTES_LENGTH: usize = 28;

/// The length of a random.
pub const HANDSHAKE_RANDOM_LENGTH: usize = 32;

/// A random: a time in seconds since 1970, and 28 bytes drawn by chance.
#[derive(Clone, Copy, Debug, PartialEq, Eq)]
pub struct HandshakeRandom {
    pub gmt_unix_time: u32,
    pub random_bytes: [u8; RANDOM_BYTES_LENGTH],
}

/// A random is known by its 32 bytes.
impl View for HandshakeRandom {
    type V = Seq<u8>;

    open spec fn view(&self) -> Seq<u8> {
        be32(self.gmt_unix_time) + self.random_bytes@
    }
}

/// The bytes of the random whose time and whose drawn bytes are all zero.
pub open spec fn zero_random() -> Seq<u8> {
    Seq::new(HANDSHAKE_RANDOM_LENGTH as nat, |i: int| 0u8)
}

impl Default for HandshakeRandom {
    fn default() -> (r: Self)
        ensures
            r@ == zero_random(),
            r.gmt_unix_time == 0,
            forall|i: int| 0 <= i < 28 ==> r.random_bytes@[i] == 0,
    {
        let r = HandshakeRandom { gmt_unix_time: 0, random_bytes: [0u8; RANDOM_BYTES_LENGTH] };
        assert(r@ =~= zero_random());
        r
    }
}

impl HandshakeRandom {
    /// Appends the 32 bytes of the random to `writer`.
    pub fn marshal(&self, writer: &mut Vec<u8>)
        ensures
            final(writer)@ == old(writer)@ + self@,
    {
        push_be32(writer, self.gmt_unix_time);
        extend(writer, self.random_bytes.as_slice());
        assert(writer@ =~= old(writer)@ + self@);
    }

    /// The 32 bytes of the random.
    pub fn to_array(&self) -> (r: [u8; HANDSHAKE_RANDOM_LENGTH])
        ensures
            r@ == self@,
    {
        let mut bytes: Vec<u8> = Vec::new();
        self.marshal(&mut bytes);
        let mut r: [u8; HANDSHAKE_RANDOM_LENGTH] = [0u8; HANDSHAKE_RANDOM_LENGTH];
        let mut i: usize = 0;
        while i < HANDSHAKE_RANDOM_LENGTH
            invariant
                i <= HANDSHAKE_RANDOM_LENGTH,
                bytes@ == self@,
                bytes@.len() == HANDSHAKE_RANDOM_LENGTH,
                forall|j: int| 0 <= j < i ==> r@[j] == bytes@[j],
            decreases HANDSHAKE_RANDOM_LENGTH - i,
        {
            r[i] = bytes[i];
            i += 1;
        }
        assert(r@ =~= self@);
        r
    }

    /// Reads a random from the first 32 bytes of `reader`.
    pub fn unmarshal(reader: &[u8]) -> (r: Result<HandshakeRandom, Error>)
        ensures
            reader@.len() >= HANDSHAKE_RANDOM_LENGTH ==> r is Ok && r->Ok_0@ == reader@.take(
                HANDSHAKE_RANDOM_LENGTH as int,
            ),
            reader@.len() < HANDSHAKE_RANDOM_LENGTH ==> r == Err::<HandshakeRandom, Error>(
                Error::UnexpectedEndOfInput,
            ),
    {
        if reader.len() < HANDSHAKE_RANDOM_LENGTH {
            return Err(Error::UnexpectedEndOfInput);
        }
        let gmt_unix_time: u32 = read_be16(reader, 0) as u32 * 65536 + read_be16(reader, 2) as u32;
        let mut random_bytes: [u8; RANDOM_BYTES_LENGTH] = [0u8; RANDOM_BYTES_LENGTH];
        let mut i: usize = 0;
        while i < RANDOM_BYTES_LENGTH
            invariant
                i <= RANDOM_BYTES_LENGTH,
                reader@.len() >= HANDSHAKE_RANDOM_LENGTH,
                forall|j: int| 0 <= j < i ==> random_bytes@[j] == reader@[4 + j],
            decreases RANDOM_BYTES_LENGTH - i,
        {
            random_bytes[i] = reader[4 + i];
            i += 1;
        }
        let r = HandshakeRandom { gmt_unix_time, random_bytes };
        assert(r@ =~= reader@.take(HANDSHAKE_RANDOM_LENGTH as int));
        Ok(r)
    }
}

/// A random has 32 bytes, and two randoms with the same bytes have the same
/// time and the same drawn bytes.
pub proof fn law_random_bytes(a: HandshakeRandom, b: HandshakeRandom)
    ensures
        a@.len() == HANDSHAKE_RANDOM_LENGTH,
        a@ == b@ ==> a.gmt_unix_time == b.gmt_unix_time && a.random_bytes@ == b.random_bytes@,
{
    if a@ == b@ {
        lemma_be32_round_trip(a.gmt_unix_time);
        lemma_be32_round_trip(b.gmt_unix_time);
        assert(a@.take(4) =~= be32(a.gmt_unix_time));
        assert(b@.take(4) =~= be32(b.gmt_unix_time));
        assert(a@.skip(4) =~= a.random_bytes@);
        assert(b@.skip(4) =~= b.random_bytes@);
    }
}

/// The first four bytes of a random are the digits of its time, the most
/// significant first, and the others are the drawn bytes.
pub proof fn law_random_layout(random: HandshakeRandom, i: int)
    ensures
        random@.len() == 32,
        random@[0] * 16777216 + random@[1] * 65536 + random@[2] * 256 + random@[3]
            == random.gmt_unix_time,
        0 <= i < 28 ==> random@[4 + i] == random.random_bytes@[i],
{
    law_be32_digits(random.gmt_unix_time);
}

} // verus!
