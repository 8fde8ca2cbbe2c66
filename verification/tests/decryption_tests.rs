use depot_downloader::manifest::decryption::{DecryptionError, ManifestDecryptor};

#[test]
fn test_hex_conversion() {
    let hex = "0123456789abcdef";
    let bytes = ManifestDecryptor::hex_to_bytes(hex).unwrap();
    assert_eq!(bytes, vec![0x01, 0x23, 0x45, 0x67, 0x89, 0xab, 0xcd, 0xef]);

    let back = ManifestDecryptor::bytes_to_hex(&bytes);
    assert_eq!(back, hex);
}

#[test]
fn test_parse_depot_keys() {
    let mut decryptor = ManifestDecryptor::new();
    let keys = "12345;0123456789abcdef0123456789abcdef\n67890;fedcba9876543210fedcba9876543210";

    decryptor.add_depot_keys_from_string(keys).unwrap();

    assert!(decryptor.get_depot_key(12345).is_some());
    assert!(decryptor.get_depot_key(67890).is_some());
    assert!(decryptor.get_depot_key(99999).is_none());
}

#[test]
fn hex_to_bytes_drops_spaces_and_hyphens() {
    let bytes = ManifestDecryptor::hex_to_bytes("de ad-BE EF").unwrap();
    assert_eq!(bytes, vec![0xde, 0xad, 0xbe, 0xef]);
}

#[test]
fn hex_to_bytes_empty_text_is_no_bytes() {
    assert_eq!(ManifestDecryptor::hex_to_bytes("").unwrap(), Vec::<u8>::new());
}

#[test]
fn hex_to_bytes_odd_length_is_refused() {
    assert_eq!(
        ManifestDecryptor::hex_to_bytes("abc"),
        Err(DecryptionError::InvalidHexLength)
    );
}

#[test]
fn hex_to_bytes_bad_pair_is_named() {
    assert_eq!(
        ManifestDecryptor::hex_to_bytes("00zz11"),
        Err(DecryptionError::InvalidHexByte("zz".to_string()))
    );
}

#[test]
fn hex_to_bytes_sign_then_digit_is_read_as_radix_does() {
    // `u8::from_str_radix("+f", 16)` reads a leading plus sign.
    assert_eq!(ManifestDecryptor::hex_to_bytes("+f").unwrap(), vec![0x0f]);
    assert_eq!(
        ManifestDecryptor::hex_to_bytes("f+"),
        Err(DecryptionError::InvalidHexByte("f+".to_string()))
    );
}

#[test]
fn bytes_to_hex_pads_each_byte_to_two_digits() {
    assert_eq!(ManifestDecryptor::bytes_to_hex(&[0x00, 0x0a, 0xff]), "000aff");
    assert_eq!(ManifestDecryptor::bytes_to_hex(&[]), "");
}

#[test]
fn hex_roundtrip_of_every_byte() {
    let all: Vec<u8> = (0u8..=255).collect();
    let text = ManifestDecryptor::bytes_to_hex(&all);
    assert_eq!(text.len(), 512);
    assert_eq!(ManifestDecryptor::hex_to_bytes(&text).unwrap(), all);
}

#[test]
fn add_depot_key_replaces_the_earlier_key() {
    let mut d = ManifestDecryptor::new();
    d.add_depot_key(7, vec![1, 2, 3]);
    d.add_depot_key(7, vec![4, 5]);
    assert_eq!(d.get_depot_key(7), Some(&vec![4, 5]));
}

#[test]
fn default_decryptor_knows_no_keys() {
    let d = ManifestDecryptor::default();
    assert!(d.get_depot_key(0).is_none());
}

#[test]
fn key_lines_skip_blank_lines_missing_separator_and_short_keys() {
    let mut d = ManifestDecryptor::new();
    let text = "\n   \nno separator here\n5;00112233\n  6;  000102030405060708090a0b0c0d0e0f  \r\n";
    assert_eq!(d.add_depot_keys_from_string(text), Ok(()));
    assert!(d.get_depot_key(5).is_none());
    assert_eq!(
        d.get_depot_key(6),
        Some(&(0u8..16).collect::<Vec<u8>>())
    );
}

#[test]
fn key_lines_space_before_separator_is_a_bad_depot_id() {
    let mut d = ManifestDecryptor::new();
    assert_eq!(
        d.add_depot_keys_from_string("6 ;000102030405060708090a0b0c0d0e0f"),
        Err(DecryptionError::InvalidDepotId("6 ".to_string()))
    );
}

#[test]
fn key_lines_bad_depot_id_stops_and_keeps_earlier_keys() {
    let mut d = ManifestDecryptor::new();
    let text = "1;000102030405060708090a0b0c0d0e0f\nx1;000102030405060708090a0b0c0d0e0f\n2;000102030405060708090a0b0c0d0e0f";
    assert_eq!(
        d.add_depot_keys_from_string(text),
        Err(DecryptionError::InvalidDepotId("x1".to_string()))
    );
    assert!(d.get_depot_key(1).is_some());
    assert!(d.get_depot_key(2).is_none());
}

#[test]
fn key_lines_bad_hex_stops_with_its_error() {
    let mut d = ManifestDecryptor::new();
    assert_eq!(
        d.add_depot_keys_from_string("1;abc"),
        Err(DecryptionError::InvalidHexLength)
    );
    assert_eq!(
        d.add_depot_keys_from_string("1;gg"),
        Err(DecryptionError::InvalidHexByte("gg".to_string()))
    );
    assert!(d.get_depot_key(1).is_none());
}

#[test]
fn decrypt_without_key_is_refused() {
    let d = ManifestDecryptor::new();
    assert_eq!(
        d.decrypt_manifest(9, &[1, 2, 3]),
        Err(DecryptionError::MissingDepotKey(9))
    );
    assert_eq!(
        d.decrypt_chunk(9, &[1, 2, 3], &[0u8; 16]),
        Err(DecryptionError::MissingDepotKey(9))
    );
}

#[test]
fn decrypt_manifest_changes_the_data_and_twice_gives_it_back() {
    let mut d = ManifestDecryptor::new();
    d.add_depot_key(3, (1u8..=16).collect());
    let data: Vec<u8> = b"a manifest body that spans more than one block".to_vec();
    let once = d.decrypt_manifest(3, &data).unwrap();
    assert_eq!(once.len(), data.len());
    assert_ne!(once, data);
    let twice = d.decrypt_manifest(3, &once).unwrap();
    assert_eq!(twice, data);
}

#[test]
fn decrypt_chunk_depends_on_the_counter_block() {
    let mut d = ManifestDecryptor::new();
    d.add_depot_key(3, (1u8..=16).collect());
    let data = vec![0u8; 40];
    let a = d.decrypt_chunk(3, &data, &[0u8; 16]).unwrap();
    let b = d.decrypt_chunk(3, &data, &[1u8; 16]).unwrap();
    assert_ne!(a, b);
    assert_eq!(a, d.decrypt_manifest(3, &data).unwrap());
    assert_eq!(d.decrypt_chunk(3, &b, &[1u8; 16]).unwrap(), data);
}

#[test]
fn hex_text_that_would_cut_a_character_is_found_first() {
    assert!(ManifestDecryptor::hex_splits_char("a€"));
    assert!(ManifestDecryptor::hex_splits_char("€a"));
    assert!(!ManifestDecryptor::hex_splits_char("0a"));
    assert!(!ManifestDecryptor::hex_splits_char("€"));
    assert!(!ManifestDecryptor::hex_splits_char("é"));
    assert_eq!(
        ManifestDecryptor::hex_to_bytes("é"),
        Err(DecryptionError::InvalidHexByte("é".to_string()))
    );
}

#[test]
fn key_text_that_would_cut_a_character_is_found_first() {
    let d = ManifestDecryptor::new();
    assert!(d.key_text_splits_char("1;a€"));
    assert!(d.key_text_splits_char("1;000102030405060708090a0b0c0d0e0f\n2;€a"));
    assert!(!d.key_text_splits_char("1;zz\n2;a€"));
    assert!(!d.key_text_splits_char("x;a€"));
    assert!(!d.key_text_splits_char("1;000102030405060708090a0b0c0d0e0f"));
}
