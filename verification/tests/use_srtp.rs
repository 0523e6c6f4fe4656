//! The `use_srtp` extension on the wire.

use dtls::error::Error;
use dtls::extension::extension_use_srtp::{ExtensionUseSRTP, SRTPProtectionProfile};

#[test]
fn test_extension_use_srtp() -> Result<(), Error> {
    let raw_use_srtp: Vec<u8> = vec![0x00, 0x05, 0x00, 0x02, 0x00, 0x01, 0x00]; //0x00, 0x0e,
    let parsed_use_srtp = ExtensionUseSRTP {
        protection_profiles: vec![SRTPProtectionProfile::SRTP_AES128_CM_HMAC_SHA1_80],
    };

    let mut raw: Vec<u8> = vec![];
    parsed_use_srtp.marshal(&mut raw)?;

    assert_eq!(
        raw, raw_use_srtp,
        "extensionUseSRTP marshal: got {:?}, want {:?}",
        raw, raw_use_srtp
    );

    let new_use_srtp = ExtensionUseSRTP::unmarshal(raw.as_slice())?;

    assert_eq!(
        new_use_srtp, parsed_use_srtp,
        "extensionUseSRTP unmarshal: got {:?}, want {:?}",
        new_use_srtp, parsed_use_srtp
    );

    Ok(())
}

#[test]
fn several_profiles_are_listed_in_order() {
    let extension = ExtensionUseSRTP {
        protection_profiles: vec![
            SRTPProtectionProfile::SRTP_AEAD_AES_256_GCM,
            SRTPProtectionProfile::SRTP_AES128_CM_HMAC_SHA1_32,
            SRTPProtectionProfile::SRTP_AEAD_AES_128_GCM,
        ],
    };
    let mut raw: Vec<u8> = vec![0xaa];
    extension.marshal(&mut raw).unwrap();
    assert_eq!(raw, vec![0xaa, 0, 9, 0, 6, 0, 8, 0, 2, 0, 7, 0]);
    raw.extend_from_slice(&[1, 2]);
    assert_eq!(ExtensionUseSRTP::unmarshal(&raw[1..]).unwrap(), extension);
}

#[test]
fn an_unknown_profile_is_read_as_unsupported() {
    let extension = ExtensionUseSRTP::unmarshal(&[0, 7, 0, 4, 0, 3, 0, 1, 0]).unwrap();
    assert_eq!(
        extension.protection_profiles,
        vec![
            SRTPProtectionProfile::Unsupported,
            SRTPProtectionProfile::SRTP_AES128_CM_HMAC_SHA1_80,
        ]
    );
}

#[test]
fn an_empty_list_is_accepted() {
    let mut raw: Vec<u8> = vec![];
    let extension = ExtensionUseSRTP {
        protection_profiles: vec![],
    };
    extension.marshal(&mut raw).unwrap();
    assert_eq!(raw, vec![0, 3, 0, 0, 0]);
    assert_eq!(ExtensionUseSRTP::unmarshal(&raw).unwrap(), extension);
}

#[test]
fn a_cut_off_extension_is_refused() {
    let raw: Vec<u8> = vec![0, 5, 0, 2, 0, 1, 0];
    for length in 0..7 {
        assert!(matches!(
            ExtensionUseSRTP::unmarshal(&raw[..length]),
            Err(Error::UnexpectedEndOfInput)
        ));
    }
}

#[test]
fn profiles_are_got_back_from_their_numbers() {
    for profile in [
        SRTPProtectionProfile::SRTP_AES128_CM_HMAC_SHA1_80,
        SRTPProtectionProfile::SRTP_AES128_CM_HMAC_SHA1_32,
        SRTPProtectionProfile::SRTP_AEAD_AES_128_GCM,
        SRTPProtectionProfile::SRTP_AEAD_AES_256_GCM,
        SRTPProtectionProfile::Unsupported,
    ] {
        assert_eq!(SRTPProtectionProfile::from_code(profile.code()), profile);
    }
    assert_eq!(
        SRTPProtectionProfile::from_code(0),
        SRTPProtectionProfile::Unsupported
    );
}
