use ewe::header::{entry_header, metadata_header, PathRefused};
use std::path::Path;

fn checksum_of(bytes: &[u8; 512]) -> u32 {
    let mut sum = 0u32;
    for (i, b) in bytes.iter().enumerate() {
        sum += if (148..156).contains(&i) { 32 } else { *b as u32 };
    }
    sum
}

#[test]
fn the_header_of_the_description() {
    let h = metadata_header(1234).unwrap();
    assert_eq!(h.size().unwrap(), 1234);
    assert_eq!(h.path().unwrap().as_ref(), Path::new("metadata.json"));
    assert_eq!(h.mode().unwrap(), 0o644);
    assert_eq!(h.mtime().unwrap(), 0);
    assert_eq!(h.cksum().unwrap(), checksum_of(h.as_bytes()));
    assert_eq!(&h.as_bytes()[..13], b"metadata.json");
    assert_eq!(&h.as_bytes()[100..108], b"0000644\0");
    assert_eq!(&h.as_bytes()[124..136], b"00000002322\0");
}

#[test]
fn headers_differ_by_what_is_written_into_them() {
    let a = metadata_header(1).unwrap();
    let b = metadata_header(2).unwrap();
    assert_ne!(a.as_bytes()[..], b.as_bytes()[..]);
    assert_ne!(a.cksum().unwrap(), b.cksum().unwrap());
    let c = entry_header("metadata.json", 1, 0o755).unwrap();
    assert_ne!(a.as_bytes()[..], c.as_bytes()[..]);
    let d = entry_header("other.json", 1, 0o644).unwrap();
    assert_ne!(a.as_bytes()[..], d.as_bytes()[..]);
    let again = metadata_header(1).unwrap();
    assert_eq!(a.as_bytes()[..], again.as_bytes()[..]);
}

#[test]
fn a_name_that_the_archive_cannot_hold_is_refused() {
    assert_eq!(entry_header("../x", 0, 0o644).err(), Some(PathRefused));
    assert_eq!(entry_header("/x", 0, 0o644).err(), Some(PathRefused));
    let long = "x".repeat(101);
    assert_eq!(entry_header(&long, 0, 0o644).err(), Some(PathRefused));
    assert!(entry_header(&"x".repeat(100), 0, 0o644).is_ok());
    assert!(entry_header("a/b", u64::MAX, u32::MAX).is_ok());
}

#[test]
fn what_is_not_written_stays_as_in_a_blank_header() {
    let h = entry_header("a", 0, 0).unwrap();
    let bytes = h.as_bytes();
    assert_eq!(bytes.len(), 512);
    assert_eq!(bytes[0], b'a');
    assert!(bytes[1..100].iter().all(|b| *b == 0));
    assert!(bytes[108..124].iter().all(|b| *b == 0));
    assert_eq!(&bytes[136..148], b"00000000000\0");
    assert!(bytes[156..].iter().all(|b| *b == 0));
}
