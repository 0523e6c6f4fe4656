//! The `use_srtp` extension: the SRTP protection profiles that a peer offers.

use vstd::prelude::*;

use crate::bytes::{
    be16, be16_value, law_be16_digits, law_be16_value_digits, lemma_be16_round_trip, push_be16,
    read_be16,
};
use crate::error::Error;

verus! {

/// An SRTP protection profile.
#[allow(non_camel_case_types)]
#[derive(Clone, Copy, Debug, PartialEq, Eq, Structural)]
pub enum SRTPProtectionProfile {
    SRTP_AES128_CM_HMAC_SHA1_80,
    SRTP_AES128_CM_HMAC_SHA1_32,
    SRTP_AEAD_AES_128_GCM,
    SRTP_AEAD_AES_256_GCM,
    /// No profile, or one that this library does not know.
    Unsupported,
}

impl SRTPProtectionProfile {
    /// The number that stands for the profile.
    pub open spec fn spec_code(self) -> u16 {
        match self {
            SRTPProtectionProfile::SRTP_AES128_CM_HMAC_SHA1_80 => 0x0001,
            SRTPProtectionProfile::SRTP_AES128_CM_HMAC_SHA1_32 => 0x0002,
            SRTPProtectionProfile::SRTP_AEAD_AES_128_GCM => 0x0007,
            SRTPProtectionProfile::SRTP_AEAD_AES_256_GCM => 0x0008,
            SRTPProtectionProfile::Unsupported => 0x0009,
        }
    }

    /// The profile that a number stands for.
    pub open spec fn spec_from_code(code: u16) -> SRTPProtectionProfile {
        if code == 0x0001 {
            SRTPProtectionProfile::SRTP_AES128_CM_HMAC_SHA1_80
        } else if code == 0x0002 {
            SRTPProtectionProfile::SRTP_AES128_CM_HMAC_SHA1_32
        } else if code == 0x0007 {
            SRTPProtectionProfile::SRTP_AEAD_AES_128_GCM
        } else if code == 0x0008 {
            SRTPProtectionProfile::SRTP_AEAD_AES_256_GCM
        } else {
            SRTPProtectionProfile::Unsupported
        }
    }

    /// The number that stands for the profile.
    pub fn code(self) -> (code: u16)
        ensures
            code == self.spec_code(),
    {
        match self {
            SRTPProtectionProfile::SRTP_AES128_CM_HMAC_SHA1_80 => 0x0001,
            SRTPProtectionProfile::SRTP_AES128_CM_HMAC_SHA1_32 => 0x0002,
            SRTPProtectionProfile::SRTP_AEAD_AES_128_GCM => 0x0007,
            SRTPProtectionProfile::SRTP_AEAD_AES_256_GCM => 0x0008,
            SRTPProtectionProfile::Unsupported => 0x0009,
        }
    }

    /// The profile that a number stands for; an unknown one is `Unsupported`.
    pub fn from_code(code: u16) -> (profile: SRTPProtectionProfile)
        ensures
            profile == SRTPProtectionProfile::spec_from_code(code),
    {
        match code {
            0x0001 => SRTPProtectionProfile::SRTP_AES128_CM_HMAC_SHA1_80,
            0x0002 => SRTPProtectionProfile::SRTP_AES128_CM_HMAC_SHA1_32,
            0x0007 => SRTPProtectionProfile::SRTP_AEAD_AES_128_GCM,
            0x0008 => SRTPProtectionProfile::SRTP_AEAD_AES_256_GCM,
            _ => SRTPProtectionProfile::Unsupported,
        }
    }
}

/// Every profile, `Unsupported` too, is got back from its number.
pub proof fn law_profile_round_trip(profile: SRTPProtectionProfile)
    ensures
        SRTPProtectionProfile::spec_from_code(profile.spec_code()) == profile,
{
}

/// The body of a `use_srtp` extension.
#[derive(Clone, Debug, PartialEq, Eq)]
pub struct ExtensionUseSRTP {
    pub protection_profiles: Vec<SRTPProtectionProfile>,
}

impl View for ExtensionUseSRTP {
    type V = Seq<SRTPProtectionProfile>;

    open spec fn view(&self) -> Seq<SRTPProtectionProfile> {
        self.protection_profiles@
    }
}

/// The numbers of the profiles, two bytes each, one after the other.
pub open spec fn profile_list(profiles: Seq<SRTPProtectionProfile>) -> Seq<u8>
    decreases profiles.len(),
{
    if profiles.len() == 0 {
        Seq::empty()
    } else {
        profile_list(profiles.drop_last()) + be16(profiles.last().spec_code())
    }
}

/// The extension as it is sent: its length, the length of the profile list,
/// the list, and an empty master key identifier.
pub open spec fn use_srtp_bytes(profiles: Seq<SRTPProtectionProfile>) -> Seq<u8> {
    be16((3 + 2 * profiles.len()) as u16) + be16((2 * profiles.len()) as u16) + profile_list(
        profiles,
    ) + seq![0u8]
}

/// How many profiles the list that `bytes` announces holds.
pub open spec fn announced_profiles(bytes: Seq<u8>) -> nat {
    (be16_value(bytes[2], bytes[3]) / 2) as nat
}

/// Tells whether `bytes` start with a whole extension: its length, the length
/// of the profile list, the list, and the length of the identifier.
pub open spec fn holds_use_srtp(bytes: Seq<u8>) -> bool {
    bytes.len() >= 4 && bytes.len() >= 4 + 2 * announced_profiles(bytes) + 1
}

/// The profiles that stand in `bytes` after the two lengths.
pub open spec fn listed_profiles(bytes: Seq<u8>, count: nat) -> Seq<SRTPProtectionProfile> {
    Seq::new(
        count,
        |i: int|
            SRTPProtectionProfile::spec_from_code(
                be16_value(bytes[4 + 2 * i], bytes[4 + 2 * i + 1]),
            ),
    )
}

impl ExtensionUseSRTP {
    /// Appends the extension's bytes to `writer`.  The length of the
    /// extension has to fit its two-byte field.
    pub fn marshal(&self, writer: &mut Vec<u8>) -> (r: Result<(), Error>)
        requires
            3 + 2 * self@.len() <= u16::MAX,
        ensures
            r == Ok::<(), Error>(()),
            final(writer)@ == old(writer)@ + use_srtp_bytes(self@),
    {
        let count: u16 = self.protection_profiles.len() as u16;
        push_be16(writer, 3 + 2 * count);
        push_be16(writer, 2 * count);
        let ghost head = writer@;
        let mut i: usize = 0;
        while i < self.protection_profiles.len()
            invariant
                i <= self@.len(),
                writer@ == head + profile_list(self@.take(i as int)),
            decreases self@.len() - i,
        {
            push_be16(writer, self.protection_profiles[i].code());
            proof {
                let next = self@.take(i + 1);
                assert(next.drop_last() =~= self@.take(i as int));
                assert(writer@ =~= head + profile_list(next));
            }
            i += 1;
        }
        assert(self@.take(i as int) =~= self@);
        writer.push(0);
        assert(writer@ =~= old(writer)@ + use_srtp_bytes(self@));
        Ok(())
    }

    /// Reads an extension from the start of `reader`; what follows it is left
    /// alone.  The length of the extension and that of the identifier are
    /// passed over.
    pub fn unmarshal(reader: &[u8]) -> (r: Result<ExtensionUseSRTP, Error>)
        ensures
            holds_use_srtp(reader@) ==> r is Ok && r->Ok_0@ == listed_profiles(
                reader@,
                announced_profiles(reader@),
            ),
            !holds_use_srtp(reader@) ==> r == Err::<ExtensionUseSRTP, Error>(
                Error::UnexpectedEndOfInput,
            ),
    {
        if reader.len() < 4 {
            return Err(Error::UnexpectedEndOfInput);
        }
        let count: usize = (read_be16(reader, 2) / 2) as usize;
        if reader.len() - 4 < 2 * count + 1 {
            return Err(Error::UnexpectedEndOfInput);
        }
        let mut protection_profiles: Vec<SRTPProtectionProfile> = Vec::new();
        let mut i: usize = 0;
        while i < count
            invariant
                i <= count,
                count <= 32767,
                4 + 2 * count + 1 <= reader@.len(),
                protection_profiles@ == listed_profiles(reader@, i as nat),
            decreases count - i,
        {
            protection_profiles.push(SRTPProtectionProfile::from_code(read_be16(reader, 4 + 2 * i)));
            i += 1;
            assert(protection_profiles@ =~= listed_profiles(reader@, i as nat));
        }
        Ok(ExtensionUseSRTP { protection_profiles })
    }
}

/// The bytes of a profile list, and how the list of a longer one goes on.
proof fn lemma_profile_list(profiles: Seq<SRTPProtectionProfile>, i: int)
    requires
        0 <= i < profiles.len(),
    ensures
        profile_list(profiles).len() == 2 * profiles.len(),
        profile_list(profiles)[2 * i] == be16(profiles[i].spec_code())[0],
        profile_list(profiles)[2 * i + 1] == be16(profiles[i].spec_code())[1],
    decreases profiles.len(),
{
    reveal_with_fuel(profile_list, 2);
    let front = profiles.drop_last();
    if front.len() > 0 {
        lemma_profile_list(front, 0);
    }
    if i < front.len() {
        lemma_profile_list(front, i);
    }
}

/// What was marshalled is unmarshalled again, whatever bytes follow it.
pub proof fn law_use_srtp_round_trip(profiles: Seq<SRTPProtectionProfile>, rest: Seq<u8>)
    requires
        3 + 2 * profiles.len() <= u16::MAX,
    ensures
        holds_use_srtp(use_srtp_bytes(profiles) + rest),
        listed_profiles(
            use_srtp_bytes(profiles) + rest,
            announced_profiles(use_srtp_bytes(profiles) + rest),
        ) == profiles,
{
    let bytes = use_srtp_bytes(profiles) + rest;
    let n = profiles.len();
    if n > 0 {
        lemma_profile_list(profiles, 0);
    }
    lemma_be16_round_trip((2 * n) as u16);
    assert(bytes[2] == be16((2 * n) as u16)[0] && bytes[3] == be16((2 * n) as u16)[1]);
    assert(announced_profiles(bytes) == n);
    assert forall|i: int| 0 <= i < n implies #[trigger] listed_profiles(bytes, n)[i] == profiles[i] by {
        lemma_profile_list(profiles, i);
        lemma_be16_round_trip(profiles[i].spec_code());
        law_profile_round_trip(profiles[i]);
        assert(bytes[4 + 2 * i] == profile_list(profiles)[2 * i]);
        assert(bytes[4 + 2 * i + 1] == profile_list(profiles)[2 * i + 1]);
    }
    assert(listed_profiles(bytes, n) =~= profiles);
}

/// The numbers of the profiles, and what every other number stands for.
pub proof fn law_profile_numbers(code: u16)
    ensures
        SRTPProtectionProfile::SRTP_AES128_CM_HMAC_SHA1_80.spec_code() == 1,
        SRTPProtectionProfile::SRTP_AES128_CM_HMAC_SHA1_32.spec_code() == 2,
        SRTPProtectionProfile::SRTP_AEAD_AES_128_GCM.spec_code() == 7,
        SRTPProtectionProfile::SRTP_AEAD_AES_256_GCM.spec_code() == 8,
        SRTPProtectionProfile::Unsupported.spec_code() == 9,
        SRTPProtectionProfile::spec_from_code(code) is Unsupported <==> code != 1 && code != 2
            && code != 7 && code != 8,
        SRTPProtectionProfile::spec_from_code(code) !is Unsupported
            ==> SRTPProtectionProfile::spec_from_code(code).spec_code() == code,
{
}

/// What is sent of an extension: in two bytes each the number of bytes that
/// follow, the number of bytes of the list, and the number of every profile in
/// its place; then one zero.
pub proof fn law_use_srtp_layout(profiles: Seq<SRTPProtectionProfile>, i: int)
    requires
        3 + 2 * profiles.len() <= u16::MAX,
    ensures
        ({
            let bytes = use_srtp_bytes(profiles);
            let n = profiles.len();
            &&& bytes.len() == 5 + 2 * n
            &&& bytes[0] * 256 + bytes[1] == 3 + 2 * n
            &&& bytes[2] * 256 + bytes[3] == 2 * n
            &&& 0 <= i < n ==> bytes[4 + 2 * i] * 256 + bytes[5 + 2 * i] == profiles[i].spec_code()
            &&& bytes.last() == 0
        }),
{
    let n = profiles.len();
    if n > 0 {
        lemma_profile_list(profiles, 0);
    }
    if 0 <= i < n {
        lemma_profile_list(profiles, i);
        let bytes = use_srtp_bytes(profiles);
        assert(bytes[4 + 2 * i] == profile_list(profiles)[2 * i]);
        assert(bytes[5 + 2 * i] == profile_list(profiles)[2 * i + 1]);
    }
    law_be16_digits((3 + 2 * n) as u16);
    law_be16_digits((2 * n) as u16);
    if 0 <= i < n {
        law_be16_digits(profiles[i].spec_code());
    }
}

/// Bytes hold an extension if and only if they hold the two lengths, a pair of
/// bytes for every two bytes that the second length counts, and one byte more;
/// the profiles are those with the numbers in these pairs.
pub proof fn law_use_srtp_is_read(bytes: Seq<u8>, i: int)
    ensures
        holds_use_srtp(bytes) <==> bytes.len() >= 4 && bytes.len() >= 5 + 2 * ((bytes[2] * 256
            + bytes[3]) / 2),
        holds_use_srtp(bytes) ==> {
            let count = announced_profiles(bytes);
            &&& count == (bytes[2] * 256 + bytes[3]) / 2
            &&& listed_profiles(bytes, count).len() == count
            &&& 0 <= i < count ==> listed_profiles(bytes, count)[i]
                == SRTPProtectionProfile::spec_from_code(
                (bytes[4 + 2 * i] * 256 + bytes[5 + 2 * i]) as u16,
            )
        },
{
    if bytes.len() >= 4 {
        law_be16_value_digits(bytes[2], bytes[3]);
        law_be16_value_digits(bytes[4 + 2 * i], bytes[5 + 2 * i]);
    }
}

/// An extension is known by its profiles.
pub proof fn law_use_srtp_view(extension: ExtensionUseSRTP)
    ensures
        extension@ == extension.protection_profiles@,
{
}

} // verus!
