use ewe::checksum::ChecksumKind;
use ewe::source_file::{HttpLocation, RawSourceFile, SourceFile, SourceFileError, SourceLocation};

fn raw(url: Option<&str>, path: Option<&str>) -> RawSourceFile {
    RawSourceFile {
        url: url.map(String::from),
        path: path.map(String::from),
        rename: None,
        sha256sum: Some("00ff".to_string()),
        sha512sum: None,
        skip_checksum: Some(false),
        extract: Some(true),
    }
}

#[test]
fn a_file_from_an_address_is_named_by_the_last_segment() {
    let f = SourceFile::from_raw(&raw(Some("https://example.com/dl/foo-1.0.tar.gz"), None)).unwrap();
    assert_eq!(f.file_name(), "foo-1.0.tar.gz");
    assert!(f.location().is_http());
    assert_eq!(f.location().text(), "https://example.com/dl/foo-1.0.tar.gz");
    assert_eq!(f.location().file_name(), Some("foo-1.0.tar.gz".to_string()));
    assert_eq!(f.rename(), None);
    assert!(f.extract());
    assert!(!f.skip_checksum());
    assert_eq!(f.checksum(ChecksumKind::Sha256).unwrap().as_bytes(), &vec![0u8, 255]);
    assert!(f.checksum(ChecksumKind::Sha512).is_none());
}

#[test]
fn the_address_is_read_by_the_url_crate() {
    let h = HttpLocation::parse("https://example.com/a%20b/c d.txt?x=1#frag").unwrap();
    assert_eq!(h.url(), "https://example.com/a%20b/c d.txt?x=1#frag");
    assert_eq!(h.path(), "/a%20b/c%20d.txt");
    let h = HttpLocation::parse("https://example.com").unwrap();
    assert_eq!(h.path(), "/");
    assert_eq!(HttpLocation::parse("data:text/plain,Hello").unwrap().path(), "text/plain,Hello");
    assert!(HttpLocation::parse("not an address").is_none());
    assert!(HttpLocation::parse("").is_none());
}

#[test]
fn a_file_on_this_machine_is_named_by_the_final_component() {
    let f = SourceFile::from_raw(&raw(None, Some("/home/me/patches/fix.patch"))).unwrap();
    assert_eq!(f.file_name(), "fix.patch");
    assert!(!f.location().is_http());
    assert_eq!(f.location().text(), "/home/me/patches/fix.patch");
    match f.location() {
        SourceLocation::Local(p) => assert_eq!(p, "/home/me/patches/fix.patch"),
        SourceLocation::Http(_) => panic!("a path was given"),
    }
}

#[test]
fn the_name_that_is_given_goes_first() {
    let mut r = raw(Some("https://example.com/download"), None);
    r.rename = Some("foo.zip".to_string());
    let f = SourceFile::from_raw(&r).unwrap();
    assert_eq!(f.file_name(), "foo.zip");
    assert_eq!(f.rename(), Some("foo.zip"));
    let copy = f.duplicate();
    assert_eq!(copy.file_name(), "foo.zip");
    assert_eq!(copy.location().text(), "https://example.com/download");
}

#[test]
fn a_file_without_a_checksum_is_refused_unless_the_check_is_switched_off() {
    let mut r = raw(Some("https://example.com/foo.tar.gz"), None);
    r.sha256sum = None;
    assert_eq!(SourceFile::from_raw(&r).err(), Some(SourceFileError::NoChecksum));
    r.skip_checksum = Some(true);
    let f = SourceFile::from_raw(&r).unwrap();
    assert!(f.skip_checksum());
    r.skip_checksum = Some(false);
    r.sha512sum = Some("ab".to_string());
    assert!(SourceFile::from_raw(&r).is_ok());
}

#[test]
fn a_location_must_be_an_address_or_a_path() {
    assert_eq!(
        SourceFile::from_raw(&raw(None, None)).err(),
        Some(SourceFileError::LocationConflict)
    );
    assert_eq!(
        SourceFile::from_raw(&raw(Some("https://example.com/a"), Some("a"))).err(),
        Some(SourceFileError::LocationConflict)
    );
    assert_eq!(
        SourceFile::from_raw(&raw(Some("no address"), None)).err(),
        Some(SourceFileError::InvalidUrl)
    );
}

#[test]
fn a_file_must_have_a_name() {
    assert_eq!(
        SourceFile::from_raw(&raw(Some("https://example.com"), None)).err(),
        Some(SourceFileError::NoFileName)
    );
    assert_eq!(
        SourceFile::from_raw(&raw(Some("https://example.com/dir/"), None)).err(),
        Some(SourceFileError::NoFileName)
    );
    assert_eq!(
        SourceFile::from_raw(&raw(Some("data:text/plain,Hello"), None)).err(),
        Some(SourceFileError::NoFileName)
    );
    assert_eq!(SourceFile::from_raw(&raw(None, Some("/"))).err(), Some(SourceFileError::NoFileName));
    assert_eq!(
        SourceFile::from_raw(&raw(None, Some("a/.."))).err(),
        Some(SourceFileError::NoFileName)
    );
    let mut r = raw(None, Some("/"));
    r.rename = Some(String::new());
    assert_eq!(SourceFile::from_raw(&r).err(), Some(SourceFileError::NoFileName));
    r.rename = Some("root".to_string());
    assert_eq!(SourceFile::from_raw(&r).unwrap().file_name(), "root");
}

#[test]
fn a_digest_must_be_hexadecimal() {
    let mut r = raw(None, Some("a.txt"));
    r.sha256sum = Some("xyz".to_string());
    assert_eq!(SourceFile::from_raw(&r).err(), Some(SourceFileError::InvalidDigest));
    r.sha256sum = None;
    r.sha512sum = Some("abc".to_string());
    r.skip_checksum = Some(true);
    assert_eq!(SourceFile::from_raw(&r).err(), Some(SourceFileError::InvalidDigest));
}

#[test]
fn what_a_recipe_leaves_open_is_settled() {
    let mut r = RawSourceFile {
        url: None,
        path: Some("files/a.tar.gz".to_string()),
        rename: None,
        sha256sum: None,
        sha512sum: None,
        skip_checksum: None,
        extract: None,
    };
    // The check is not switched off unless the recipe says so.
    assert_eq!(SourceFile::from_raw(&r).err(), Some(SourceFileError::NoChecksum));
    r.sha512sum = Some("00ff".to_string());
    let f = SourceFile::from_raw(&r).unwrap();
    assert!(!f.skip_checksum());
    // An archive is unpacked unless the recipe says otherwise.
    assert!(f.extract());
    r.extract = Some(false);
    assert!(!SourceFile::from_raw(&r).unwrap().extract());
}
