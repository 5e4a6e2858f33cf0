//! The header of the entry under which every archive describes itself,
//! made by the `tar` crate.

use crate::pack::{metadata_name, METADATA_MODE};
use vstd::prelude::*;

verus! {

/// The header of an entry of a `tar` archive: a block of 512 bytes, kept
/// by the `tar` crate.
#[verifier::external_type_specification]
#[verifier::external_body]
pub struct ExTarHeader(tar::Header);

/// An error of input and output of the standard library. Nothing of it is
/// read here.
#[verifier::external_type_specification]
#[verifier::external_body]
pub struct ExIoError(std::io::Error);

/// The bytes that a header holds.
pub uninterp spec fn header_bytes(h: tar::Header) -> Seq<u8>;

/// The bytes of a header after `Header::set_size` of the `tar` crate
/// wrote the size `size` into the header with the bytes `bytes`.
pub uninterp spec fn bytes_with_size(bytes: Seq<u8>, size: u64) -> Seq<u8>;

/// The bytes of a header after `Header::set_path` of the `tar` crate
/// wrote the path `path` into the header with the bytes `bytes`, or
/// nothing where that crate refuses the path.
pub uninterp spec fn bytes_with_path(bytes: Seq<u8>, path: Seq<char>) -> Option<Seq<u8>>;

/// The bytes of a header after `Header::set_mode` of the `tar` crate
/// wrote the rights `mode` into the header with the bytes `bytes`.
pub uninterp spec fn bytes_with_mode(bytes: Seq<u8>, mode: u32) -> Seq<u8>;

/// The bytes of a header after `Header::set_cksum` of the `tar` crate
/// wrote the checksum of the header with the bytes `bytes` into it.
pub uninterp spec fn bytes_with_cksum(bytes: Seq<u8>) -> Seq<u8>;

/// The bytes of a header that holds nothing yet: a block of 512 bytes,
/// all zero but for the time of the last change, which is zero written
/// in eleven octal digits before a zero byte.
pub open spec fn blank_bytes() -> Seq<u8> {
    Seq::new(
        512,
        |i: int|
            if 136 <= i < 147 {
                48u8
            } else {
                0u8
            },
    )
}

/// `Header::new_old` of the `tar` crate: a header in the old format that
/// holds nothing yet. That crate makes it of 512 zero bytes and writes
/// the time zero into it.
#[verifier::external_body]
pub(crate) fn new_old_header() -> (h: tar::Header)
    ensures
        header_bytes(h) == blank_bytes(),
{
    tar::Header::new_old()
}

/// `Header::set_size` of the `tar` crate: what the header holds
/// afterwards is settled by what it held and by the size.
#[verifier::external_body]
pub(crate) fn set_header_size(h: &mut tar::Header, size: u64)
    ensures
        header_bytes(*final(h)) == bytes_with_size(header_bytes(*old(h)), size),
        header_bytes(*final(h)).len() == header_bytes(*old(h)).len(),
{
    h.set_size(size)
}

/// `Header::set_path` of the `tar` crate: what the header holds after a
/// success is settled by what it held and by the path, and so is whether
/// the path is refused.
#[verifier::external_body]
pub(crate) fn set_header_path(h: &mut tar::Header, path: &str) -> (r: Result<(), std::io::Error>)
    ensures
        match r {
            Ok(_) => bytes_with_path(header_bytes(*old(h)), path@) == Some(
                header_bytes(*final(h)),
            ),
            Err(_) => bytes_with_path(header_bytes(*old(h)), path@) is None,
        },
        header_bytes(*final(h)).len() == header_bytes(*old(h)).len(),
{
    h.set_path(path)
}

/// `Header::set_mode` of the `tar` crate: what the header holds
/// afterwards is settled by what it held and by the rights.
#[verifier::external_body]
pub(crate) fn set_header_mode(h: &mut tar::Header, mode: u32)
    ensures
        header_bytes(*final(h)) == bytes_with_mode(header_bytes(*old(h)), mode),
        header_bytes(*final(h)).len() == header_bytes(*old(h)).len(),
{
    h.set_mode(mode)
}

/// `Header::set_cksum` of the `tar` crate: the checksum that is written
/// is settled by what the header held.
#[verifier::external_body]
pub(crate) fn set_header_cksum(h: &mut tar::Header)
    ensures
        header_bytes(*final(h)) == bytes_with_cksum(header_bytes(*old(h))),
        header_bytes(*final(h)).len() == header_bytes(*old(h)).len(),
{
    h.set_cksum()
}

/// The `tar` crate refuses the name of the entry.
#[derive(Clone, Copy, Debug, PartialEq, Eq, Structural)]
pub struct PathRefused;

/// The bytes of the header of an entry of `size` bytes under the name
/// `name` with the rights `mode`: into a fresh header the size is
/// written, then the name, then the rights, and at last the checksum of
/// all that. Nothing where the name is refused.
pub open spec fn entry_header_bytes(name: Seq<char>, size: u64, mode: u32) -> Option<Seq<u8>> {
    match bytes_with_path(bytes_with_size(blank_bytes(), size), name) {
        Some(named) => Some(bytes_with_cksum(bytes_with_mode(named, mode))),
        None => None,
    }
}

/// The header of an entry that is not read from a file.
pub fn entry_header(name: &str, size: u64, mode: u32) -> (r: Result<tar::Header, PathRefused>)
    ensures
        match r {
            Ok(h) => entry_header_bytes(name@, size, mode) == Some(header_bytes(h))
                && header_bytes(h).len() == 512,
            Err(_) => entry_header_bytes(name@, size, mode) is None,
        },
{
    let mut header = new_old_header();
    set_header_size(&mut header, size);
    match set_header_path(&mut header, name) {
        Ok(_) => {},
        Err(_) => {
            return Err(PathRefused);
        },
    }
    set_header_mode(&mut header, mode);
    set_header_cksum(&mut header);
    Ok(header)
}

/// The header of the entry under which an archive describes itself, for
/// a description of `size` bytes.
pub fn metadata_header(size: u64) -> (r: Result<tar::Header, PathRefused>)
    ensures
        match r {
            Ok(h) => entry_header_bytes("metadata.json"@, size, 0o644) == Some(header_bytes(h))
                && header_bytes(h).len() == 512,
            Err(_) => entry_header_bytes("metadata.json"@, size, 0o644) is None,
        },
{
    entry_header(metadata_name(), size, METADATA_MODE)
}

} // verus!
