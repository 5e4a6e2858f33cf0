use ewe::checksum::ChecksumKind;

#[test]
fn kinds_have_names_and_fields() {
    assert_eq!(ChecksumKind::Sha256.name(), "SHA-256");
    assert_eq!(ChecksumKind::Sha512.name(), "SHA-512");
    assert_eq!(ChecksumKind::Sha256.field(), "sha256sum");
    assert_eq!(ChecksumKind::Sha512.field(), "sha512sum");
    assert_eq!(ChecksumKind::from_field("sha256sum"), Some(ChecksumKind::Sha256));
    assert_eq!(ChecksumKind::from_field("sha512sum"), Some(ChecksumKind::Sha512));
    assert_eq!(ChecksumKind::from_field("md5sum"), None);
}

#[test]
fn digests_are_read_from_hexadecimal() {
    let h = ewe::checksum::Hash::from_hex("00ff10Ab").unwrap();
    assert_eq!(h.as_bytes(), &vec![0x00, 0xff, 0x10, 0xab]);
    assert_eq!(h.to_hex(), "00ff10ab");
    assert_eq!(ewe::checksum::Hash::from_hex("").unwrap().as_bytes().len(), 0);
    assert!(ewe::checksum::Hash::from_hex("abc").is_none());
    assert!(ewe::checksum::Hash::from_hex("zz").is_none());
    assert!(ewe::checksum::Hash::from_hex("0g").is_none());
    assert!(ewe::checksum::Hash::from_hex("a ").is_none());
}

#[test]
fn hexadecimal_round_trip() {
    let bytes: Vec<u8> = (0..=255).collect();
    let h = ewe::checksum::Hash::new(bytes.clone());
    let text = h.to_hex();
    assert_eq!(text.len(), 512);
    let back = ewe::checksum::Hash::from_hex(&text).unwrap();
    assert_eq!(back.as_bytes(), &bytes);
    assert!(back == h);
    assert!(h.clone() == h);
    assert!(ewe::checksum::Hash::new(vec![1]) != ewe::checksum::Hash::new(vec![2]));
    assert!(ewe::checksum::Hash::new(vec![1]) != ewe::checksum::Hash::new(vec![1, 2]));
}

#[test]
fn a_hasher_of_each_kind_computes_its_digest() {
    let mut h = ChecksumKind::Sha256.new_hasher().unwrap();
    h.update(b"abc").unwrap();
    let digest = h.finish().unwrap();
    assert_eq!(
        ewe::checksum::Hash::new(digest.to_vec()).to_hex(),
        "ba7816bf8f01cfea414140de5dae2223b00361a396177a9cb410ff61f20015ad"
    );
    let mut h = ChecksumKind::Sha512.new_hasher().unwrap();
    h.update(b"abc").unwrap();
    assert_eq!(h.finish().unwrap().len(), 64);
}

#[test]
fn hexadecimal_texts_are_read_as_the_hex_crate_reads_them() {
    let samples = [
        "",
        "0",
        "00",
        "0g",
        "g0",
        "ab",
        "AB",
        "aB",
        "abc",
        "00ff7f80",
        "DEADbeef",
        "dead beef",
        "0x10",
        "cf04af86dc085268c5f4470fbae49b18afbc221b78096aab842d934a76bad0ab",
        "\u{ff11}\u{ff12}",
    ];
    for s in samples {
        let ours = ewe::checksum::Hash::from_hex(s).map(|h| h.as_bytes().clone());
        let theirs = hex::decode(s).ok();
        assert_eq!(ours, theirs, "{s:?}");
    }
    for bytes in [vec![], vec![0u8], vec![255u8, 0, 16, 9, 10], (0u8..=255).collect::<Vec<u8>>()] {
        assert_eq!(ewe::checksum::Hash::new(bytes.clone()).to_hex(), hex::encode(&bytes));
    }
}
