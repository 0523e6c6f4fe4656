//! What of a connection's state outlives the process, and its form in bytes.

use vstd::prelude::*;

use crate::bytes::{
    byte_range, law_little_endian_eight, law_little_endian_two, lemma_little_endian_injective, lemma_little_endian_len, list_view, little_endian,
};
use crate::error::Error;
use crate::handshake::handshake_random::HANDSHAKE_RANDOM_LENGTH;

verus! {

/// The part of a connection's state that is saved.
#[derive(Debug, PartialEq, Eq)]
pub struct SerializedState {
    pub local_epoch: u16,
    pub remote_epoch: u16,
    pub local_random: [u8; HANDSHAKE_RANDOM_LENGTH],
    pub remote_random: [u8; HANDSHAKE_RANDOM_LENGTH],
    pub cipher_suite_id: u16,
    pub master_secret: Vec<u8>,
    pub sequence_number: u64,
    pub srtp_protection_profile: u16,
    pub peer_certificates: Vec<Vec<u8>>,
    pub is_client: bool,
}

/// A saved state as plain values.
#[verifier::ext_equal]
pub struct SerializedStateView {
    pub local_epoch: u16,
    pub remote_epoch: u16,
    pub local_random: Seq<u8>,
    pub remote_random: Seq<u8>,
    pub cipher_suite_id: u16,
    pub master_secret: Seq<u8>,
    pub sequence_number: u64,
    pub srtp_protection_profile: u16,
    pub peer_certificates: Seq<Seq<u8>>,
    pub is_client: bool,
}

impl View for SerializedState {
    type V = SerializedStateView;

    open spec fn view(&self) -> SerializedStateView {
        SerializedStateView {
            local_epoch: self.local_epoch,
            remote_epoch: self.remote_epoch,
            local_random: self.local_random@,
            remote_random: self.remote_random@,
            cipher_suite_id: self.cipher_suite_id,
            master_secret: self.master_secret@,
            sequence_number: self.sequence_number,
            srtp_protection_profile: self.srtp_protection_profile,
            peer_certificates: list_view(self.peer_certificates@),
            is_client: self.is_client,
        }
    }
}

/// A sequence of bytes behind its length, which takes eight bytes.
pub open spec fn sized_bytes(bytes: Seq<u8>) -> Seq<u8> {
    little_endian(bytes.len(), 8) + bytes
}

/// The sequences of a list, each behind its length, one after the other.
pub open spec fn sized_items(list: Seq<Seq<u8>>) -> Seq<u8>
    decreases list.len(),
{
    if list.len() == 0 {
        Seq::empty()
    } else {
        sized_bytes(list[0]) + sized_items(list.drop_first())
    }
}

impl SerializedStateView {
    /// The randoms have their length, and every other length fits eight bytes.
    pub open spec fn well_formed(self) -> bool {
        &&& self.local_random.len() == HANDSHAKE_RANDOM_LENGTH
        &&& self.remote_random.len() == HANDSHAKE_RANDOM_LENGTH
        &&& self.master_secret.len() <= u64::MAX
        &&& self.peer_certificates.len() <= u64::MAX
        &&& forall|i: int|
            0 <= i < self.peer_certificates.len() ==> (#[trigger] self.peer_certificates[i]).len()
                <= u64::MAX
    }

    /// The fields in their order: a number by its bytes, least significant
    /// first, a random by its 32 bytes, a vector behind its length, and a
    /// truth value by one byte.
    pub open spec fn encoding(self) -> Seq<u8> {
        little_endian(self.local_epoch as nat, 2) + little_endian(self.remote_epoch as nat, 2)
            + self.local_random + self.remote_random + little_endian(
            self.cipher_suite_id as nat,
            2,
        ) + sized_bytes(self.master_secret) + little_endian(self.sequence_number as nat, 8)
            + little_endian(self.srtp_protection_profile as nat, 2) + little_endian(
            self.peer_certificates.len(),
            8,
        ) + sized_items(self.peer_certificates) + seq![
            if self.is_client {
                1u8
            } else {
                0u8
            },
        ]
    }
}

/// `bincode::serialize` on the fields of a saved state as a tuple: they are
/// written in their order as `encoding` says, without anything before,
/// between or after them, and writing to memory does not fail.  The bytes
/// have to fit into a vector.
#[verifier::external_body]
pub(crate) fn bincode_serialize(state: &SerializedState) -> (r: Result<Vec<u8>, bincode::Error>)
    requires
        state@.encoding().len() <= isize::MAX,
    ensures
        r is Ok,
        r->Ok_0@ == state@.encoding(),
{
    let s = state;
    bincode::serialize(
        &(
            s.local_epoch,
            s.remote_epoch,
            s.local_random,
            s.remote_random,
            s.cipher_suite_id,
            &s.master_secret,
            s.sequence_number,
            s.srtp_protection_profile,
            &s.peer_certificates,
            s.is_client,
        ),
    )
}

/// `bincode::deserialize` to the fields of a saved state as a tuple: it gives
/// a state whose encoding starts `data`, whatever follows, and fails only
/// where `data` start with the encoding of no state.
#[verifier::external_body]
pub(crate) fn bincode_deserialize(data: &[u8]) -> (r: Result<SerializedState, bincode::Error>)
    ensures
        r is Ok ==> r->Ok_0@.encoding().is_prefix_of(data@),
        r is Err ==> forall|s: SerializedStateView|
            s.well_formed() ==> !(#[trigger] s.encoding()).is_prefix_of(data@),
{
    let s: (u16, u16, [u8; 32], [u8; 32], u16, Vec<u8>, u64, u16, Vec<Vec<u8>>, bool) =
        bincode::deserialize(data)?;
    Ok(SerializedState {
        local_epoch: s.0,
        remote_epoch: s.1,
        local_random: s.2,
        remote_random: s.3,
        cipher_suite_id: s.4,
        master_secret: s.5,
        sequence_number: s.6,
        srtp_protection_profile: s.7,
        peer_certificates: s.8,
        is_client: s.9,
    })
}

/// The saved state whose encoding starts `data`, where there is one.
pub open spec fn decoded(data: Seq<u8>) -> Option<SerializedStateView> {
    if exists|s: SerializedStateView|
        s.well_formed() && (#[trigger] s.encoding()).is_prefix_of(data) {
        Some(
            choose|s: SerializedStateView|
                s.well_formed() && (#[trigger] s.encoding()).is_prefix_of(data),
        )
    } else {
        None
    }
}

/// What comes behind a head that starts `data` starts what is left of `data`.
proof fn lemma_skip_head(head: Seq<u8>, rest: Seq<u8>, data: Seq<u8>)
    requires
        (head + rest).is_prefix_of(data),
    ensures
        rest.is_prefix_of(data.skip(head.len() as int)),
{
    let left = data.skip(head.len() as int);
    assert forall|i: int| 0 <= i < rest.len() implies rest[i] == left.subrange(
        0,
        rest.len() as int,
    )[i] by {
        assert((head + rest)[head.len() + i] == data[head.len() + i]);
    }
    assert(rest =~= left.subrange(0, rest.len() as int));
}

/// Two sequences that start `data` agree as far as their heads of one length
/// reach, and what comes behind the heads starts what is left of `data`.
proof fn lemma_split(x: Seq<u8>, x_rest: Seq<u8>, y: Seq<u8>, y_rest: Seq<u8>, data: Seq<u8>)
    requires
        (x + x_rest).is_prefix_of(data),
        (y + y_rest).is_prefix_of(data),
        x.len() == y.len(),
    ensures
        x == y,
        x_rest.is_prefix_of(data.skip(x.len() as int)),
        y_rest.is_prefix_of(data.skip(x.len() as int)),
{
    assert(x =~= (x + x_rest).take(x.len() as int));
    assert(y =~= (y + y_rest).take(y.len() as int));
    assert(x =~= data.take(x.len() as int));
    assert(y =~= data.take(x.len() as int));
    lemma_skip_head(x, x_rest, data);
    lemma_skip_head(y, y_rest, data);
}

/// As `lemma_split`, for two numbers of `width` bytes.
proof fn lemma_split_number(
    x: nat,
    x_rest: Seq<u8>,
    y: nat,
    y_rest: Seq<u8>,
    width: nat,
    data: Seq<u8>,
)
    requires
        (little_endian(x, width) + x_rest).is_prefix_of(data),
        (little_endian(y, width) + y_rest).is_prefix_of(data),
        x < byte_range(width),
        y < byte_range(width),
    ensures
        x == y,
        x_rest.is_prefix_of(data.skip(width as int)),
        y_rest.is_prefix_of(data.skip(width as int)),
{
    lemma_little_endian_len(x, width);
    lemma_little_endian_len(y, width);
    lemma_split(little_endian(x, width), x_rest, little_endian(y, width), y_rest, data);
    lemma_little_endian_injective(x, y, width);
}

/// How many numbers two and eight bytes hold.
proof fn lemma_byte_ranges()
    ensures
        byte_range(2) == u16::MAX + 1,
        byte_range(8) == u64::MAX + 1,
{
    reveal_with_fuel(byte_range, 9);
}

/// As `lemma_split`, for two sequences behind their lengths.
proof fn lemma_split_sized(
    x: Seq<u8>,
    x_rest: Seq<u8>,
    y: Seq<u8>,
    y_rest: Seq<u8>,
    data: Seq<u8>,
)
    requires
        (sized_bytes(x) + x_rest).is_prefix_of(data),
        (sized_bytes(y) + y_rest).is_prefix_of(data),
        x.len() <= u64::MAX,
        y.len() <= u64::MAX,
    ensures
        x == y,
        x_rest.is_prefix_of(data.skip(8 + x.len() as int)),
        y_rest.is_prefix_of(data.skip(8 + x.len() as int)),
{
    lemma_byte_ranges();
    assert(sized_bytes(x) + x_rest =~= little_endian(x.len(), 8) + (x + x_rest));
    assert(sized_bytes(y) + y_rest =~= little_endian(y.len(), 8) + (y + y_rest));
    lemma_split_number(x.len(), x + x_rest, y.len(), y + y_rest, 8, data);
    lemma_split(x, x_rest, y, y_rest, data.skip(8));
    lemma_little_endian_len(x.len(), 8);
    assert(data.skip(8).skip(x.len() as int) =~= data.skip(8 + x.len() as int)) by {
        assert((little_endian(x.len(), 8) + (x + x_rest)).len() <= data.len());
    }
}

/// As `lemma_split`, for two lists of one length; the lists leave the same
/// part of `data` behind them.
proof fn lemma_split_items(
    x: Seq<Seq<u8>>,
    x_rest: Seq<u8>,
    y: Seq<Seq<u8>>,
    y_rest: Seq<u8>,
    data: Seq<u8>,
)
    requires
        (sized_items(x) + x_rest).is_prefix_of(data),
        (sized_items(y) + y_rest).is_prefix_of(data),
        x.len() == y.len(),
        forall|i: int| 0 <= i < x.len() ==> (#[trigger] x[i]).len() <= u64::MAX,
        forall|i: int| 0 <= i < y.len() ==> (#[trigger] y[i]).len() <= u64::MAX,
    ensures
        x == y,
        x_rest.is_prefix_of(data.skip(sized_items(x).len() as int)),
        y_rest.is_prefix_of(data.skip(sized_items(x).len() as int)),
    decreases x.len(),
{
    if x.len() == 0 {
        assert(x =~= y);
        lemma_split(sized_items(x), x_rest, sized_items(y), y_rest, data);
    } else {
        let (x_tail, y_tail) = (x.drop_first(), y.drop_first());
        assert(sized_items(x) + x_rest =~= sized_bytes(x[0]) + (sized_items(x_tail) + x_rest));
        assert(sized_items(y) + y_rest =~= sized_bytes(y[0]) + (sized_items(y_tail) + y_rest));
        lemma_split_sized(
            x[0],
            sized_items(x_tail) + x_rest,
            y[0],
            sized_items(y_tail) + y_rest,
            data,
        );
        lemma_split_items(x_tail, x_rest, y_tail, y_rest, data.skip(8 + x[0].len() as int));
        assert(x =~= seq![x[0]] + x_tail);
        assert(y =~= seq![y[0]] + y_tail);
        lemma_split(sized_items(x), x_rest, sized_items(y), y_rest, data);
    }
}

/// What comes behind the cipher suite in an encoding.
spec fn after_cipher_suite(s: SerializedStateView) -> Seq<u8> {
    sized_bytes(s.master_secret) + after_master_secret(s)
}

/// What comes behind the master secret in an encoding.
spec fn after_master_secret(s: SerializedStateView) -> Seq<u8> {
    little_endian(s.sequence_number as nat, 8) + (little_endian(
        s.srtp_protection_profile as nat,
        2,
    ) + (little_endian(s.peer_certificates.len(), 8) + (sized_items(s.peer_certificates)
        + client_byte(s))))
}

/// The last byte of an encoding.
spec fn client_byte(s: SerializedStateView) -> Seq<u8> {
    seq![
        if s.is_client {
            1u8
        } else {
            0u8
        },
    ]
}

/// An encoding with its parts grouped from the end.
proof fn lemma_encoding_grouped(s: SerializedStateView)
    ensures
        s.encoding() == little_endian(s.local_epoch as nat, 2) + (little_endian(
            s.remote_epoch as nat,
            2,
        ) + (s.local_random + (s.remote_random + (little_endian(s.cipher_suite_id as nat, 2)
            + after_cipher_suite(s))))),
{
    let whole = little_endian(s.local_epoch as nat, 2) + (little_endian(s.remote_epoch as nat, 2)
        + (s.local_random + (s.remote_random + (little_endian(s.cipher_suite_id as nat, 2)
        + after_cipher_suite(s)))));
    assert(s.encoding() =~= whole);
}

/// No bytes start with the encodings of two states.
pub proof fn law_encoding_unambiguous(
    x: SerializedStateView,
    y: SerializedStateView,
    data: Seq<u8>,
)
    requires
        x.well_formed(),
        y.well_formed(),
        x.encoding().is_prefix_of(data),
        y.encoding().is_prefix_of(data),
    ensures
        x == y,
{
    lemma_byte_ranges();
    lemma_encoding_grouped(x);
    lemma_encoding_grouped(y);
    let (x1, y1) = (after_cipher_suite(x), after_cipher_suite(y));
    let (x2, y2) = (
        little_endian(x.cipher_suite_id as nat, 2) + x1,
        little_endian(y.cipher_suite_id as nat, 2) + y1,
    );
    let (x3, y3) = (x.remote_random + x2, y.remote_random + y2);
    let (x4, y4) = (x.local_random + x3, y.local_random + y3);
    let (x5, y5) = (
        little_endian(x.remote_epoch as nat, 2) + x4,
        little_endian(y.remote_epoch as nat, 2) + y4,
    );
    lemma_split_number(x.local_epoch as nat, x5, y.local_epoch as nat, y5, 2, data);
    let data = data.skip(2);
    lemma_split_number(x.remote_epoch as nat, x4, y.remote_epoch as nat, y4, 2, data);
    let data = data.skip(2);
    lemma_split(x.local_random, x3, y.local_random, y3, data);
    let data = data.skip(32);
    lemma_split(x.remote_random, x2, y.remote_random, y2, data);
    let data = data.skip(32);
    lemma_split_number(x.cipher_suite_id as nat, x1, y.cipher_suite_id as nat, y1, 2, data);
    let data = data.skip(2);
    lemma_split_sized(
        x.master_secret,
        after_master_secret(x),
        y.master_secret,
        after_master_secret(y),
        data,
    );
    let data = data.skip(8 + x.master_secret.len() as int);
    let (x6, y6) = (
        sized_items(x.peer_certificates) + client_byte(x),
        sized_items(y.peer_certificates) + client_byte(y),
    );
    let (x7, y7) = (
        little_endian(x.peer_certificates.len(), 8) + x6,
        little_endian(y.peer_certificates.len(), 8) + y6,
    );
    let (x8, y8) = (
        little_endian(x.srtp_protection_profile as nat, 2) + x7,
        little_endian(y.srtp_protection_profile as nat, 2) + y7,
    );
    lemma_split_number(x.sequence_number as nat, x8, y.sequence_number as nat, y8, 8, data);
    let data = data.skip(8);
    lemma_split_number(
        x.srtp_protection_profile as nat,
        x7,
        y.srtp_protection_profile as nat,
        y7,
        2,
        data,
    );
    let data = data.skip(2);
    lemma_split_number(x.peer_certificates.len(), x6, y.peer_certificates.len(), y6, 8, data);
    let data = data.skip(8);
    lemma_split_items(
        x.peer_certificates,
        client_byte(x),
        y.peer_certificates,
        client_byte(y),
        data,
    );
    let data = data.skip(sized_items(x.peer_certificates).len() as int);
    assert(client_byte(x)[0] == data[0]);
    assert(client_byte(y)[0] == data[0]);
}

/// What was encoded is decoded again, whatever bytes follow it.
pub proof fn law_encoding_round_trip(state: SerializedStateView, rest: Seq<u8>)
    requires
        state.well_formed(),
    ensures
        decoded(state.encoding() + rest) == Some(state),
{
    let data = state.encoding() + rest;
    assert(state.encoding() =~= data.take(state.encoding().len() as int));
    assert(state.encoding().is_prefix_of(data));
    let found = decoded(data)->0;
    assert(found.well_formed() && found.encoding().is_prefix_of(data));
    law_encoding_unambiguous(state, found, data);
}

/// How long an encoding is.
proof fn lemma_encoding_len(s: SerializedStateView)
    requires
        s.well_formed(),
    ensures
        s.encoding().len() == 97 + s.master_secret.len() + sized_items(s.peer_certificates).len(),
{
    lemma_little_endian_len(s.local_epoch as nat, 2);
    lemma_little_endian_len(s.remote_epoch as nat, 2);
    lemma_little_endian_len(s.cipher_suite_id as nat, 2);
    lemma_little_endian_len(s.master_secret.len(), 8);
    lemma_little_endian_len(s.sequence_number as nat, 8);
    lemma_little_endian_len(s.srtp_protection_profile as nat, 2);
    lemma_little_endian_len(s.peer_certificates.len(), 8);
}

/// The last items of a list are no longer than the list.
proof fn lemma_last_items_len(list: Seq<Seq<u8>>, i: int)
    requires
        0 <= i <= list.len(),
    ensures
        sized_items(list.skip(i)).len() <= sized_items(list).len(),
    decreases list.len(),
{
    if i == 0 {
        assert(list.skip(0) =~= list);
    } else {
        assert(list.drop_first().skip(i - 1) =~= list.skip(i));
        lemma_last_items_len(list.drop_first(), i - 1);
    }
}

impl SerializedState {
    /// The lengths in memory fit the saved form.
    proof fn lemma_well_formed(&self)
        ensures
            self@.well_formed(),
    {
        assert(self.master_secret.len() <= u64::MAX);
        assert(self.peer_certificates.len() <= u64::MAX);
        assert forall|i: int| 0 <= i < self@.peer_certificates.len() implies (
        #[trigger] self@.peer_certificates[i]).len() <= u64::MAX by {
            assert(self.peer_certificates@[i].len() <= u64::MAX);
        }
    }

    /// Tells whether the bytes of the saved state fit into a vector.
    pub fn can_encode(&self) -> (r: bool)
        ensures
            r == (self@.encoding().len() <= isize::MAX),
    {
        let limit: usize = isize::MAX as usize;
        let ghost list = self@.peer_certificates;
        proof {
            self.lemma_well_formed();
            lemma_encoding_len(self@);
            assert(list.skip(list.len() as int) =~= Seq::empty());
        }
        if self.master_secret.len() > limit - 97 {
            return false;
        }
        let mut size: usize = 97 + self.master_secret.len();
        let mut i: usize = self.peer_certificates.len();
        while i > 0
            invariant
                i <= self.peer_certificates@.len(),
                list == self@.peer_certificates,
                limit == isize::MAX,
                size <= limit,
                size == 97 + self.master_secret@.len() + sized_items(list.skip(i as int)).len(),
                self@.encoding().len() == 97 + self.master_secret@.len() + sized_items(list).len(),
            decreases i,
        {
            i -= 1;
            proof {
                assert(list.skip(i as int)[0] == self.peer_certificates@[i as int]@);
                assert(list.skip(i as int).drop_first() =~= list.skip(i + 1));
                lemma_little_endian_len(self.peer_certificates@[i as int]@.len(), 8);
                lemma_last_items_len(list, i as int);
            }
            if limit - size < 8 || self.peer_certificates[i].len() > limit - size - 8 {
                return false;
            }
            size = size + 8 + self.peer_certificates[i].len();
        }
        assert(list.skip(0) =~= list);
        true
    }

    /// The bytes of the saved state, which have to fit into a vector.
    pub fn encode(&self) -> (r: Result<Vec<u8>, Error>)
        requires
            self@.encoding().len() <= isize::MAX,
        ensures
            r is Ok,
            r->Ok_0@ == self@.encoding(),
    {
        match bincode_serialize(self) {
            Ok(data) => Ok(data),
            Err(err) => Err(Error::Bincode(err)),
        }
    }

    /// The saved state that `data` start with.
    pub fn decode(data: &[u8]) -> (r: Result<SerializedState, Error>)
        ensures
            decoded(data@) is Some ==> r is Ok && Some(r->Ok_0@) == decoded(data@),
            decoded(data@) is None ==> r is Err && r->Err_0 is Bincode,
    {
        match bincode_deserialize(data) {
            Ok(state) => {
                proof {
                    state.lemma_well_formed();
                    let found = decoded(data@)->0;
                    assert(found.well_formed() && found.encoding().is_prefix_of(data@));
                    law_encoding_unambiguous(state@, found, data@);
                }
                Ok(state)
            },
            Err(err) => Err(Error::Bincode(err)),
        }
    }
}

/// The number whose eight bytes stand at `at`, the least significant first.
pub open spec fn number_at(bytes: Seq<u8>, at: int) -> int {
    bytes[at] + 0x100 * (bytes[at + 1] + 0x100 * (bytes[at + 2] + 0x100 * (bytes[at + 3] + 0x100 * (
    bytes[at + 4] + 0x100 * (bytes[at + 5] + 0x100 * (bytes[at + 6] + 0x100 * bytes[at + 7]))))))
}

/// The eight bytes of a number that stand inside other bytes give it back.
proof fn lemma_number_at(bytes: Seq<u8>, at: int, value: u64)
    requires
        0 <= at,
        at + 8 <= bytes.len(),
        bytes.subrange(at, at + 8) == little_endian(value as nat, 8),
    ensures
        number_at(bytes, at) == value,
{
    law_little_endian_eight(value);
    let part = bytes.subrange(at, at + 8);
    assert(part[0] == bytes[at] && part[1] == bytes[at + 1] && part[2] == bytes[at + 2]);
    assert(part[3] == bytes[at + 3] && part[4] == bytes[at + 4] && part[5] == bytes[at + 5]);
    assert(part[6] == bytes[at + 6] && part[7] == bytes[at + 7]);
}

/// Where each field of a saved state stands in its bytes.
pub proof fn law_encoding_layout(s: SerializedStateView)
    requires
        s.well_formed(),
    ensures
        ({
            let e = s.encoding();
            let m = s.master_secret.len() as int;
            &&& e.len() == 97 + m + sized_items(s.peer_certificates).len()
            &&& e[0] + 256 * e[1] == s.local_epoch
            &&& e[2] + 256 * e[3] == s.remote_epoch
            &&& e.subrange(4, 36) == s.local_random
            &&& e.subrange(36, 68) == s.remote_random
            &&& e[68] + 256 * e[69] == s.cipher_suite_id
            &&& number_at(e, 70) == m
            &&& e.subrange(78, 78 + m) == s.master_secret
            &&& number_at(e, 78 + m) == s.sequence_number
            &&& e[86 + m] + 256 * e[87 + m] == s.srtp_protection_profile
            &&& number_at(e, 88 + m) == s.peer_certificates.len()
            &&& e.subrange(96 + m, e.len() - 1) == sized_items(s.peer_certificates)
            &&& e.last() == if s.is_client {
                1u8
            } else {
                0u8
            }
        }),
{
    let e = s.encoding();
    let m = s.master_secret.len() as int;
    lemma_encoding_len(s);
    lemma_little_endian_len(s.local_epoch as nat, 2);
    lemma_little_endian_len(s.remote_epoch as nat, 2);
    lemma_little_endian_len(s.cipher_suite_id as nat, 2);
    lemma_little_endian_len(s.master_secret.len(), 8);
    lemma_little_endian_len(s.sequence_number as nat, 8);
    lemma_little_endian_len(s.srtp_protection_profile as nat, 2);
    lemma_little_endian_len(s.peer_certificates.len(), 8);
    law_little_endian_two(s.local_epoch);
    law_little_endian_two(s.remote_epoch);
    law_little_endian_two(s.cipher_suite_id);
    law_little_endian_two(s.srtp_protection_profile);
    assert(e.subrange(0, 2) =~= little_endian(s.local_epoch as nat, 2));
    assert(e.subrange(2, 4) =~= little_endian(s.remote_epoch as nat, 2));
    assert(e.subrange(4, 36) =~= s.local_random);
    assert(e.subrange(36, 68) =~= s.remote_random);
    assert(e.subrange(68, 70) =~= little_endian(s.cipher_suite_id as nat, 2));
    assert(e.subrange(70, 78) =~= little_endian(s.master_secret.len(), 8));
    assert(e.subrange(78, 78 + m) =~= s.master_secret);
    assert(e.subrange(78 + m, 86 + m) =~= little_endian(s.sequence_number as nat, 8));
    assert(e.subrange(86 + m, 88 + m) =~= little_endian(s.srtp_protection_profile as nat, 2));
    assert(e.subrange(88 + m, 96 + m) =~= little_endian(s.peer_certificates.len(), 8));
    assert(e.subrange(96 + m, e.len() - 1) =~= sized_items(s.peer_certificates));
    assert(e[0] == e.subrange(0, 2)[0] && e[1] == e.subrange(0, 2)[1]);
    assert(e[2] == e.subrange(2, 4)[0] && e[3] == e.subrange(2, 4)[1]);
    assert(e[68] == e.subrange(68, 70)[0] && e[69] == e.subrange(68, 70)[1]);
    assert(e[86 + m] == e.subrange(86 + m, 88 + m)[0]);
    assert(e[87 + m] == e.subrange(86 + m, 88 + m)[1]);
    lemma_number_at(e, 70, m as u64);
    lemma_number_at(e, 78 + m, s.sequence_number);
    lemma_number_at(e, 88 + m, s.peer_certificates.len() as u64);
}

/// A list of certificates is written one after the other: the length of the
/// first, its bytes, and then the others.
pub proof fn law_items_layout(list: Seq<Seq<u8>>)
    requires
        list.len() > 0 ==> list[0].len() <= u64::MAX,
    ensures
        list.len() == 0 ==> sized_items(list).len() == 0,
        list.len() > 0 ==> {
            let e = sized_items(list);
            let n = list[0].len() as int;
            &&& e.len() == 8 + n + sized_items(list.drop_first()).len()
            &&& number_at(e, 0) == n
            &&& e.subrange(8, 8 + n) == list[0]
            &&& e.subrange(8 + n, e.len() as int) == sized_items(list.drop_first())
        },
{
    if list.len() > 0 {
        let e = sized_items(list);
        let n = list[0].len() as int;
        lemma_little_endian_len(list[0].len(), 8);
        assert(e.subrange(0, 8) =~= little_endian(list[0].len(), 8));
        assert(e.subrange(8, 8 + n) =~= list[0]);
        assert(e.subrange(8 + n, e.len() as int) =~= sized_items(list.drop_first()));
        lemma_number_at(e, 0, n as u64);
    }
}

/// What is read from `data` is a state whose bytes start them, and nothing is
/// read only where they start with the bytes of no state.
pub proof fn law_decoded_starts_data(data: Seq<u8>, other: SerializedStateView)
    ensures
        decoded(data) matches Some(s) ==> s.well_formed() && s.encoding().is_prefix_of(data),
        other.well_formed() && other.encoding().is_prefix_of(data) ==> decoded(data) == Some(other),
{
    if other.well_formed() && other.encoding().is_prefix_of(data) {
        let found = decoded(data)->0;
        assert(found.well_formed() && found.encoding().is_prefix_of(data));
        law_encoding_unambiguous(other, found, data);
    }
}

/// A saved state is known by its fields.
pub proof fn law_saved_state_view(s: SerializedState)
    ensures
        s@.local_epoch == s.local_epoch,
        s@.remote_epoch == s.remote_epoch,
        s@.local_random == s.local_random@,
        s@.remote_random == s.remote_random@,
        s@.cipher_suite_id == s.cipher_suite_id,
        s@.master_secret == s.master_secret@,
        s@.sequence_number == s.sequence_number,
        s@.srtp_protection_profile == s.srtp_protection_profile,
        s@.peer_certificates.len() == s.peer_certificates@.len(),
        forall|i: int|
            0 <= i < s.peer_certificates@.len() ==> #[trigger] s@.peer_certificates[i]
                == s.peer_certificates@[i]@,
        s@.is_client == s.is_client,
{
}

} // verus!
