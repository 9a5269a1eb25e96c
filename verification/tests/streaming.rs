use dtls::errors::Error;
use dtls::extension::extension_server_name::ExtensionServerName;
use dtls::extension::Extension;
use dtls::wire::ByteReader;

#[test]
fn first_the_tag_is_asked_for() {
    assert_eq!(Extension::bytes_needed(&[]), Ok(2));
    assert_eq!(Extension::bytes_needed(&[0x00]), Ok(1));
}

#[test]
fn then_the_length() {
    assert_eq!(Extension::bytes_needed(&[0x00, 0x00]), Ok(2));
    assert_eq!(Extension::bytes_needed(&[0x00, 0x0A, 0x00]), Ok(1));
    assert_eq!(Extension::bytes_needed(&[0x00, 0x17]), Ok(2));
}

#[test]
fn then_the_payload() {
    assert_eq!(Extension::bytes_needed(&[0x00, 0x00, 0x00, 0x0B]), Ok(11));
    assert_eq!(Extension::bytes_needed(&[0x00, 0x00, 0x00, 0x0B, b'e', b'x']), Ok(9));
    assert_eq!(Extension::bytes_needed(&[0x00, 0x0E, 0xFF, 0xFF]), Ok(0xFFFF));
    assert_eq!(Extension::bytes_needed(&[0x00, 0x0D, 0x01, 0x00]), Ok(0x0100));
}

#[test]
fn nothing_more_once_complete() {
    assert_eq!(Extension::bytes_needed(&[0x00, 0x00, 0x00, 0x00]), Ok(0));
    assert_eq!(Extension::bytes_needed(&[0x00, 0x0B, 0x00, 0x02, 0x01, 0x00]), Ok(0));
    assert_eq!(Extension::bytes_needed(&[0x00, 0x0B, 0x00, 0x02, 0x01, 0x00, 0x99]), Ok(0));
}

#[test]
fn extended_master_secret_needs_no_payload() {
    assert_eq!(Extension::bytes_needed(&[0x00, 0x17, 0x00, 0x00]), Ok(0));
    assert_eq!(Extension::bytes_needed(&[0x00, 0x17, 0x00, 0x05]), Ok(0));
    assert_eq!(Extension::bytes_needed(&[0x00, 0x17, 0xFF, 0xFF]), Ok(0));
}

#[test]
fn unknown_tag_is_refused_as_soon_as_it_is_there() {
    assert_eq!(Extension::bytes_needed(&[0xFF]), Ok(1));
    assert_eq!(Extension::bytes_needed(&[0xFF, 0xFF]), Err(Error::InvalidExtensionType));
    assert_eq!(Extension::bytes_needed(&[0x00, 0x01]), Err(Error::InvalidExtensionType));
    assert_eq!(
        Extension::bytes_needed(&[0x00, 0x18, 0x00, 0x00]),
        Err(Error::InvalidExtensionType)
    );
}

#[test]
fn fetching_what_is_asked_for_ends_with_the_whole_extension() {
    let ext = Extension::ServerName(ExtensionServerName {
        server_name: "example.com".to_owned(),
    });
    let mut stream = Vec::new();
    ext.marshal(&mut stream).unwrap();
    let own = stream.len();
    stream.extend_from_slice(&[0x00, 0x17, 0x00, 0x00]);

    let mut fetched: Vec<u8> = Vec::new();
    let mut fetches = 0;
    loop {
        let n = Extension::bytes_needed(&fetched).unwrap();
        if n == 0 {
            break;
        }
        let at = fetched.len();
        fetched.extend_from_slice(&stream[at..at + n]);
        fetches += 1;
    }
    assert_eq!(fetches, 3);
    assert_eq!(fetched.len(), own);
    let mut reader = ByteReader::new(&fetched);
    assert_eq!(Extension::unmarshal(&mut reader), Ok(ext));
    assert_eq!(reader.remaining(), 0);
}

#[test]
fn incomplete_prefix_decodes_as_a_short_read() {
    let mut raw = vec![0x00, 0x00, 0x00, 0x0B];
    raw.extend_from_slice(b"example.com");
    for cut in 0..raw.len() {
        let prefix = &raw[..cut];
        assert!(Extension::bytes_needed(prefix).unwrap() > 0);
        let mut reader = ByteReader::new(prefix);
        assert_eq!(Extension::unmarshal(&mut reader), Err(Error::UnexpectedEof));
    }
    assert_eq!(Extension::bytes_needed(&raw), Ok(0));
}
