use dtls::errors::Error;
use dtls::extension::extension_server_name::ExtensionServerName;
use dtls::extension::extension_supported_elliptic_curves::ExtensionSupportedEllipticCurves;
use dtls::extension::extension_supported_point_formats::ExtensionSupportedPointFormats;
use dtls::extension::extension_supported_signature_algorithms::ExtensionSupportedSignatureAlgorithms;
use dtls::extension::extension_use_extended_master_secret::ExtensionUseExtendedMasterSecret;
use dtls::extension::extension_use_srtp::ExtensionUseSRTP;
use dtls::extension::{Extension, ExtensionValue};
use dtls::wire::ByteReader;

fn server_name(name: &str) -> Extension {
    Extension::ServerName(ExtensionServerName {
        server_name: name.to_owned(),
    })
}

fn samples() -> Vec<Extension> {
    vec![
        server_name("example.com"),
        server_name(""),
        server_name("b\u{fc}cher.example"),
        Extension::SupportedEllipticCurves(ExtensionSupportedEllipticCurves {
            payload: vec![0x00, 0x04, 0x00, 0x1d, 0x00, 0x17],
        }),
        Extension::SupportedPointFormats(ExtensionSupportedPointFormats {
            payload: vec![0x01, 0x00],
        }),
        Extension::SupportedSignatureAlgorithms(ExtensionSupportedSignatureAlgorithms {
            payload: vec![0x00, 0x04, 0x04, 0x03, 0x04, 0x01],
        }),
        Extension::UseSRTP(ExtensionUseSRTP {
            payload: vec![0x00, 0x02, 0x00, 0x01, 0x00],
        }),
        Extension::UseSRTP(ExtensionUseSRTP { payload: vec![] }),
        Extension::UseExtendedMasterSecret(ExtensionUseExtendedMasterSecret { supported: true }),
    ]
}

fn encode(ext: &Extension) -> Vec<u8> {
    let mut out = Vec::new();
    assert_eq!(ext.marshal(&mut out), Ok(()));
    out
}

#[test]
fn server_name_example_com_encodes_to_the_expected_bytes() {
    let ext = server_name("example.com");
    let mut expected = vec![0x00, 0x00, 0x00, 0x0B];
    expected.extend_from_slice(b"example.com");
    assert_eq!(encode(&ext), expected);
}

#[test]
fn server_name_example_com_decodes_from_its_bytes() {
    let mut raw = vec![0x00, 0x00, 0x00, 0x0B];
    raw.extend_from_slice(b"example.com");
    let mut reader = ByteReader::new(&raw);
    assert_eq!(Extension::unmarshal(&mut reader), Ok(server_name("example.com")));
    assert_eq!(reader.position(), 15);
    assert_eq!(reader.remaining(), 0);
}

#[test]
fn extended_master_secret_decodes_as_supported() {
    let raw = [0x00, 0x17, 0x00, 0x00];
    let mut reader = ByteReader::new(&raw);
    assert_eq!(
        Extension::unmarshal(&mut reader),
        Ok(Extension::UseExtendedMasterSecret(ExtensionUseExtendedMasterSecret { supported: true }))
    );
    assert_eq!(reader.position(), 4);
}

#[test]
fn unknown_tag_ffff_is_refused() {
    let raw = [0xFF, 0xFF, 0x00, 0x00];
    let mut reader = ByteReader::new(&raw);
    assert_eq!(Extension::unmarshal(&mut reader), Err(Error::InvalidExtensionType));
}

#[test]
fn unknown_tag_leaves_the_reader_right_after_the_tag() {
    for tag in [1u16, 9, 12, 15, 22, 24, 0x1700, 0xFFFF] {
        let mut raw = tag.to_be_bytes().to_vec();
        raw.extend_from_slice(&[0x00, 0x02, 0xAB, 0xCD]);
        let mut reader = ByteReader::new(&raw);
        assert_eq!(Extension::unmarshal(&mut reader), Err(Error::InvalidExtensionType));
        assert_eq!(reader.position(), 2);
        assert_eq!(reader.remaining(), 4);
    }
}

#[test]
fn every_unknown_tag_is_refused() {
    for tag in 0..=u16::MAX {
        if [0, 10, 11, 13, 14, 23].contains(&tag) {
            continue;
        }
        let mut raw = tag.to_be_bytes().to_vec();
        raw.extend_from_slice(&[0x00, 0x00]);
        let mut reader = ByteReader::new(&raw);
        assert_eq!(Extension::unmarshal(&mut reader), Err(Error::InvalidExtensionType));
        assert_eq!(reader.position(), 2);
    }
}

#[test]
fn every_known_tag_is_dispatched_to_its_variant() {
    for (tag, id) in [
        (0u16, ExtensionValue::ServerName),
        (10, ExtensionValue::SupportedEllipticCurves),
        (11, ExtensionValue::SupportedPointFormats),
        (13, ExtensionValue::SupportedSignatureAlgorithms),
        (14, ExtensionValue::UseSRTP),
        (23, ExtensionValue::UseExtendedMasterSecret),
    ] {
        let mut raw = tag.to_be_bytes().to_vec();
        raw.extend_from_slice(&[0x00, 0x00]);
        let mut reader = ByteReader::new(&raw);
        let ext = Extension::unmarshal(&mut reader).unwrap();
        assert_eq!(ext.extension_value(), id);
        assert_eq!(reader.position(), 4);
    }
}

#[test]
fn round_trip_of_every_variant() {
    for ext in samples() {
        let raw = encode(&ext);
        let mut reader = ByteReader::new(&raw);
        assert_eq!(Extension::unmarshal(&mut reader), Ok(ext));
        assert_eq!(reader.position(), raw.len());
    }
}

#[test]
fn round_trip_leaves_following_bytes_alone() {
    for ext in samples() {
        let mut raw = encode(&ext);
        let own = raw.len();
        raw.extend_from_slice(&[0xDE, 0xAD, 0xBE, 0xEF]);
        let mut reader = ByteReader::new(&raw);
        assert_eq!(Extension::unmarshal(&mut reader), Ok(ext));
        assert_eq!(reader.position(), own);
        assert_eq!(reader.remaining(), 4);
    }
}

#[test]
fn decoded_bytes_encode_to_themselves() {
    for ext in samples() {
        let raw = encode(&ext);
        let mut reader = ByteReader::new(&raw);
        let back = Extension::unmarshal(&mut reader).unwrap();
        assert_eq!(encode(&back), raw);
    }
}

#[test]
fn extensions_are_read_one_after_another() {
    let mut raw = Vec::new();
    for ext in samples() {
        ext.marshal(&mut raw).unwrap();
    }
    let mut reader = ByteReader::new(&raw);
    for ext in samples() {
        assert_eq!(Extension::unmarshal(&mut reader), Ok(ext));
    }
    assert_eq!(reader.remaining(), 0);
    assert_eq!(Extension::unmarshal(&mut reader), Err(Error::UnexpectedEof));
}

#[test]
fn marshal_writes_tag_then_body() {
    let ext = Extension::SupportedPointFormats(ExtensionSupportedPointFormats {
        payload: vec![0x01, 0x00],
    });
    assert_eq!(encode(&ext), vec![0x00, 0x0B, 0x00, 0x02, 0x01, 0x00]);
    let ext = Extension::SupportedEllipticCurves(ExtensionSupportedEllipticCurves {
        payload: vec![0xAA],
    });
    assert_eq!(encode(&ext), vec![0x00, 0x0A, 0x00, 0x01, 0xAA]);
    let ext = Extension::SupportedSignatureAlgorithms(ExtensionSupportedSignatureAlgorithms {
        payload: vec![0x04, 0x03],
    });
    assert_eq!(encode(&ext), vec![0x00, 0x0D, 0x00, 0x02, 0x04, 0x03]);
    let ext = Extension::UseSRTP(ExtensionUseSRTP { payload: vec![] });
    assert_eq!(encode(&ext), vec![0x00, 0x0E, 0x00, 0x00]);
    let ext =
        Extension::UseExtendedMasterSecret(ExtensionUseExtendedMasterSecret { supported: true });
    assert_eq!(encode(&ext), vec![0x00, 0x17, 0x00, 0x00]);
}

#[test]
fn marshal_appends_to_what_is_already_written() {
    let mut out = vec![0x01, 0x02, 0x03];
    server_name("a").marshal(&mut out).unwrap();
    assert_eq!(out, vec![0x01, 0x02, 0x03, 0x00, 0x00, 0x00, 0x01, b'a']);
}

#[test]
fn marshal_grows_the_writer_by_two_plus_the_body() {
    for ext in samples() {
        let mut body = Vec::new();
        match &ext {
            Extension::ServerName(e) => e.marshal(&mut body).unwrap(),
            Extension::SupportedEllipticCurves(e) => e.marshal(&mut body).unwrap(),
            Extension::SupportedPointFormats(e) => e.marshal(&mut body).unwrap(),
            Extension::SupportedSignatureAlgorithms(e) => e.marshal(&mut body).unwrap(),
            Extension::UseSRTP(e) => e.marshal(&mut body).unwrap(),
            Extension::UseExtendedMasterSecret(e) => e.marshal(&mut body).unwrap(),
        }
        let raw = encode(&ext);
        assert_eq!(raw.len(), 2 + body.len());
        assert_eq!(&raw[2..], &body[..]);
    }
}

#[test]
fn extension_value_names_the_variant() {
    let expected = [
        ExtensionValue::ServerName,
        ExtensionValue::ServerName,
        ExtensionValue::ServerName,
        ExtensionValue::SupportedEllipticCurves,
        ExtensionValue::SupportedPointFormats,
        ExtensionValue::SupportedSignatureAlgorithms,
        ExtensionValue::UseSRTP,
        ExtensionValue::UseSRTP,
        ExtensionValue::UseExtendedMasterSecret,
    ];
    for (ext, id) in samples().iter().zip(expected) {
        assert_eq!(ext.extension_value(), id);
        assert_ne!(ext.extension_value(), ExtensionValue::Unsupported);
    }
}

#[test]
fn payload_extension_value_is_its_own_identity() {
    assert_eq!(
        ExtensionServerName { server_name: String::new() }.extension_value(),
        ExtensionValue::ServerName
    );
    assert_eq!(
        ExtensionSupportedEllipticCurves { payload: vec![] }.extension_value(),
        ExtensionValue::SupportedEllipticCurves
    );
    assert_eq!(
        ExtensionSupportedPointFormats { payload: vec![] }.extension_value(),
        ExtensionValue::SupportedPointFormats
    );
    assert_eq!(
        ExtensionSupportedSignatureAlgorithms { payload: vec![] }.extension_value(),
        ExtensionValue::SupportedSignatureAlgorithms
    );
    assert_eq!(ExtensionUseSRTP { payload: vec![] }.extension_value(), ExtensionValue::UseSRTP);
    assert_eq!(
        ExtensionUseExtendedMasterSecret { supported: false }.extension_value(),
        ExtensionValue::UseExtendedMasterSecret
    );
}

#[test]
fn empty_input_is_a_short_read() {
    let mut reader = ByteReader::new(&[]);
    assert_eq!(Extension::unmarshal(&mut reader), Err(Error::UnexpectedEof));
    assert_eq!(reader.position(), 0);
}

#[test]
fn half_a_tag_is_a_short_read() {
    let raw = [0x00];
    let mut reader = ByteReader::new(&raw);
    assert_eq!(Extension::unmarshal(&mut reader), Err(Error::UnexpectedEof));
    assert_eq!(reader.position(), 0);
}

#[test]
fn missing_length_is_a_short_read_after_the_tag() {
    for tag in [0u16, 10, 11, 13, 14, 23] {
        let mut raw = tag.to_be_bytes().to_vec();
        raw.push(0x00);
        let mut reader = ByteReader::new(&raw);
        assert_eq!(Extension::unmarshal(&mut reader), Err(Error::UnexpectedEof));
        assert_eq!(reader.position(), 2);
    }
}

#[test]
fn missing_payload_is_a_short_read_after_the_length() {
    for tag in [0u16, 10, 11, 13, 14] {
        let mut raw = tag.to_be_bytes().to_vec();
        raw.extend_from_slice(&[0x00, 0x03, b'a', b'b']);
        let mut reader = ByteReader::new(&raw);
        assert_eq!(Extension::unmarshal(&mut reader), Err(Error::UnexpectedEof));
        assert_eq!(reader.position(), 4);
    }
}

#[test]
fn payload_of_65535_bytes_is_written_with_its_length() {
    let payload = vec![0x11; 0xFFFF];
    let ext = Extension::UseSRTP(ExtensionUseSRTP { payload: payload.clone() });
    let raw = encode(&ext);
    assert_eq!(raw.len(), 4 + 0xFFFF);
    assert_eq!(&raw[..4], &[0x00, 0x0E, 0xFF, 0xFF]);
    let mut reader = ByteReader::new(&raw);
    assert_eq!(Extension::unmarshal(&mut reader), Ok(ext));
    assert_eq!(reader.remaining(), 0);
}

#[test]
fn oversized_payload_is_refused_after_the_tag() {
    let long = vec![0x11; 0x1_0000];
    let cases = [
        (
            Extension::ServerName(ExtensionServerName { server_name: "a".repeat(0x1_0000) }),
            [0x00, 0x00],
        ),
        (
            Extension::SupportedEllipticCurves(ExtensionSupportedEllipticCurves {
                payload: long.clone(),
            }),
            [0x00, 0x0A],
        ),
        (
            Extension::SupportedPointFormats(ExtensionSupportedPointFormats {
                payload: long.clone(),
            }),
            [0x00, 0x0B],
        ),
        (
            Extension::SupportedSignatureAlgorithms(ExtensionSupportedSignatureAlgorithms {
                payload: long.clone(),
            }),
            [0x00, 0x0D],
        ),
        (Extension::UseSRTP(ExtensionUseSRTP { payload: long.clone() }), [0x00, 0x0E]),
    ];
    for (ext, tag) in cases {
        let mut out = vec![0x77];
        assert_eq!(ext.marshal(&mut out), Err(Error::InvalidEncoding));
        assert_eq!(out, vec![0x77, tag[0], tag[1]]);
    }
}

#[test]
fn oversized_list_payload_is_refused_and_nothing_is_written() {
    let long = vec![0x11; 0x1_0001];
    let mut out = Vec::new();
    assert_eq!(
        ExtensionSupportedEllipticCurves { payload: long.clone() }.marshal(&mut out),
        Err(Error::InvalidEncoding)
    );
    assert_eq!(
        ExtensionSupportedPointFormats { payload: long.clone() }.marshal(&mut out),
        Err(Error::InvalidEncoding)
    );
    assert_eq!(
        ExtensionSupportedSignatureAlgorithms { payload: long.clone() }.marshal(&mut out),
        Err(Error::InvalidEncoding)
    );
    assert_eq!(ExtensionUseSRTP { payload: long }.marshal(&mut out), Err(Error::InvalidEncoding));
    assert!(out.is_empty());
}

#[test]
fn list_bodies_ask_for_their_length_then_their_payload() {
    for prefix in [&[][..], &[0x00], &[0x00, 0x04], &[0x00, 0x04, 1], &[0x00, 0x04, 1, 2, 3, 4]] {
        let expected = match prefix.len() {
            0 => 2,
            1 => 1,
            2 => 4,
            3 => 3,
            _ => 0,
        };
        assert_eq!(ExtensionSupportedEllipticCurves::bytes_needed(prefix), expected);
        assert_eq!(ExtensionSupportedPointFormats::bytes_needed(prefix), expected);
        assert_eq!(ExtensionSupportedSignatureAlgorithms::bytes_needed(prefix), expected);
        assert_eq!(ExtensionUseSRTP::bytes_needed(prefix), expected);
    }
}
