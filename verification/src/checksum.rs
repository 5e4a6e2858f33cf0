//! Checksums of source files: the kinds of digest and the digests
//! themselves, which are written in hexadecimal.

use crate::text::{append_chars, chars_of, same_text, string_of};
use vstd::prelude::*;

verus! {

/// A digest algorithm of the `openssl` crate. Nothing of it is read here.
#[verifier::external_type_specification]
#[verifier::external_body]
pub struct ExMessageDigest(openssl::hash::MessageDigest);

/// The state of a digest that the `openssl` crate computes. Nothing of it
/// is read here.
#[verifier::external_type_specification]
#[verifier::external_body]
pub struct ExHasher(openssl::hash::Hasher);

/// The errors that the `openssl` crate hands out. Nothing of them is read
/// here.
#[verifier::external_type_specification]
#[verifier::external_body]
pub struct ExErrorStack(openssl::error::ErrorStack);

/// `MessageDigest::sha256` of the `openssl` crate: the algorithm SHA-256.
/// Nothing is claimed of what it hands out.
pub assume_specification[ openssl::hash::MessageDigest::sha256 ]() -> openssl::hash::MessageDigest;

/// `MessageDigest::sha512` of the `openssl` crate: the algorithm SHA-512.
/// Nothing is claimed of what it hands out.
pub assume_specification[ openssl::hash::MessageDigest::sha512 ]() -> openssl::hash::MessageDigest;

/// `Hasher::new` of the `openssl` crate: a fresh state for a digest of
/// the given algorithm, or the errors of the library. Nothing is claimed
/// of what it hands out.
pub assume_specification[ openssl::hash::Hasher::new ](
    ty: openssl::hash::MessageDigest,
) -> Result<openssl::hash::Hasher, openssl::error::ErrorStack>;

/// The kind of a digest.
#[derive(Clone, Copy, Debug, PartialEq, Eq, Structural)]
pub enum ChecksumKind {
    Sha256,
    Sha512,
}

impl ChecksumKind {
    /// The name of the algorithm.
    pub fn name(&self) -> (r: &'static str)
        ensures
            match self {
                ChecksumKind::Sha256 => r@ == "SHA-256"@,
                ChecksumKind::Sha512 => r@ == "SHA-512"@,
            },
    {
        match self {
            ChecksumKind::Sha256 => "SHA-256",
            ChecksumKind::Sha512 => "SHA-512",
        }
    }

    /// A fresh state in which a digest of this kind is computed.
    pub fn new_hasher(&self) -> Result<openssl::hash::Hasher, openssl::error::ErrorStack> {
        match self {
            ChecksumKind::Sha256 => openssl::hash::Hasher::new(
                openssl::hash::MessageDigest::sha256(),
            ),
            ChecksumKind::Sha512 => openssl::hash::Hasher::new(
                openssl::hash::MessageDigest::sha512(),
            ),
        }
    }

    /// The name of the field under which a recipe gives a digest of this
    /// kind.
    pub fn field(&self) -> (r: &'static str)
        ensures
            match self {
                ChecksumKind::Sha256 => r@ == "sha256sum"@,
                ChecksumKind::Sha512 => r@ == "sha512sum"@,
            },
    {
        match self {
            ChecksumKind::Sha256 => "sha256sum",
            ChecksumKind::Sha512 => "sha512sum",
        }
    }

    /// The kind of digest that a recipe gives under the field `field`.
    pub fn from_field(field: &str) -> (r: Option<ChecksumKind>)
        ensures
            r == if field@ == "sha256sum"@ {
                Some(ChecksumKind::Sha256)
            } else if field@ == "sha512sum"@ {
                Some(ChecksumKind::Sha512)
            } else {
                None
            },
    {
        if same_text(field, "sha256sum") {
            Some(ChecksumKind::Sha256)
        } else if same_text(field, "sha512sum") {
            Some(ChecksumKind::Sha512)
        } else {
            None
        }
    }
}

/// The number that a hexadecimal digit stands for.
pub open spec fn hex_digit_value(c: char) -> Option<u8> {
    if '0' <= c && c <= '9' {
        Some((c as int - '0' as int) as u8)
    } else if 'a' <= c && c <= 'f' {
        Some((c as int - 'a' as int + 10) as u8)
    } else if 'A' <= c && c <= 'F' {
        Some((c as int - 'A' as int + 10) as u8)
    } else {
        None
    }
}

/// The lower-case hexadecimal digit for a number below sixteen.
pub open spec fn hex_digit_of(v: u8) -> char {
    if v == 0 {
        '0'
    } else if v == 1 {
        '1'
    } else if v == 2 {
        '2'
    } else if v == 3 {
        '3'
    } else if v == 4 {
        '4'
    } else if v == 5 {
        '5'
    } else if v == 6 {
        '6'
    } else if v == 7 {
        '7'
    } else if v == 8 {
        '8'
    } else if v == 9 {
        '9'
    } else if v == 10 {
        'a'
    } else if v == 11 {
        'b'
    } else if v == 12 {
        'c'
    } else if v == 13 {
        'd'
    } else if v == 14 {
        'e'
    } else {
        'f'
    }
}

/// The bytes `head` put in front of the bytes `tail`, if there are any.
pub open spec fn prepend(head: Seq<u8>, tail: Option<Seq<u8>>) -> Option<Seq<u8>> {
    match tail {
        Some(t) => Some(head + t),
        None => None,
    }
}

/// The bytes that a hexadecimal text stands for: two digits for each
/// byte, the higher half first, in either case. A text of odd length or
/// with any other character stands for nothing.
pub open spec fn hex_decode(s: Seq<char>) -> Option<Seq<u8>>
    decreases s.len(),
{
    if s.len() == 0 {
        Some(Seq::empty())
    } else if s.len() == 1 {
        None
    } else {
        match (hex_digit_value(s[0]), hex_digit_value(s[1])) {
            (Some(high), Some(low)) => prepend(
                seq![(16 * high + low) as u8],
                hex_decode(s.skip(2)),
            ),
            _ => None,
        }
    }
}

/// The lower-case hexadecimal text of some bytes.
pub open spec fn hex_encode(b: Seq<u8>) -> Seq<char>
    decreases b.len(),
{
    if b.len() == 0 {
        Seq::empty()
    } else {
        seq![hex_digit_of(b[0] / 16), hex_digit_of(b[0] % 16)] + hex_encode(b.drop_first())
    }
}

/// The hexadecimal text of some bytes stands for those bytes.
pub proof fn law_hex_round_trip(b: Seq<u8>)
    ensures
        hex_decode(hex_encode(b)) == Some(b),
    decreases b.len(),
{
    if b.len() > 0 {
        let s = hex_encode(b);
        let rest = b.drop_first();
        law_hex_round_trip(rest);
        assert(s.skip(2) =~= hex_encode(rest));
        let high = b[0] / 16;
        let low = b[0] % 16;
        assert(s[0] == hex_digit_of(high));
        assert(s[1] == hex_digit_of(low));
        assert(hex_digit_value(hex_digit_of(high)) == Some(high));
        assert(hex_digit_value(hex_digit_of(low)) == Some(low));
        assert((16 * high + low) as u8 == b[0]);
        assert(seq![b[0]] + rest =~= b);
    }
}

fn read_hex_digit(c: char) -> (r: Option<u8>)
    ensures
        r == hex_digit_value(c),
        r matches Some(v) ==> v < 16,
{
    if c == '0' {
        Some(0)
    } else if c == '1' {
        Some(1)
    } else if c == '2' {
        Some(2)
    } else if c == '3' {
        Some(3)
    } else if c == '4' {
        Some(4)
    } else if c == '5' {
        Some(5)
    } else if c == '6' {
        Some(6)
    } else if c == '7' {
        Some(7)
    } else if c == '8' {
        Some(8)
    } else if c == '9' {
        Some(9)
    } else if c == 'a' || c == 'A' {
        Some(10)
    } else if c == 'b' || c == 'B' {
        Some(11)
    } else if c == 'c' || c == 'C' {
        Some(12)
    } else if c == 'd' || c == 'D' {
        Some(13)
    } else if c == 'e' || c == 'E' {
        Some(14)
    } else if c == 'f' || c == 'F' {
        Some(15)
    } else {
        None
    }
}

fn write_hex_digit(v: u8) -> (c: char)
    requires
        v < 16,
    ensures
        c == hex_digit_of(v),
{
    if v == 0 {
        '0'
    } else if v == 1 {
        '1'
    } else if v == 2 {
        '2'
    } else if v == 3 {
        '3'
    } else if v == 4 {
        '4'
    } else if v == 5 {
        '5'
    } else if v == 6 {
        '6'
    } else if v == 7 {
        '7'
    } else if v == 8 {
        '8'
    } else if v == 9 {
        '9'
    } else if v == 10 {
        'a'
    } else if v == 11 {
        'b'
    } else if v == 12 {
        'c'
    } else if v == 13 {
        'd'
    } else if v == 14 {
        'e'
    } else {
        'f'
    }
}

/// A digest.
#[derive(Debug)]
pub struct Hash {
    bytes: Vec<u8>,
}

impl View for Hash {
    type V = Seq<u8>;

    closed spec fn view(&self) -> Seq<u8> {
        self.bytes@
    }
}

impl Hash {
    /// The digest made of the bytes `bytes`.
    pub fn new(bytes: Vec<u8>) -> (r: Hash)
        ensures
            r@ == bytes@,
    {
        Hash { bytes }
    }

    /// Reads a digest from its hexadecimal text.
    pub fn from_hex(text: &str) -> (r: Option<Hash>)
        ensures
            match r {
                Some(h) => hex_decode(text@) == Some(h@),
                None => hex_decode(text@) is None,
            },
    {
        let v = chars_of(text);
        let mut out: Vec<u8> = Vec::new();
        let mut i: usize = 0;
        proof {
            assert(v@.skip(0) == v@);
            assert(Seq::<u8>::empty() + hex_decode(v@)->0 =~= hex_decode(v@)->0);
        }
        while i < v.len()
            invariant
                i <= v.len(),
                v@ == text@,
                hex_decode(v@) == prepend(out@, hex_decode(v@.skip(i as int))),
            decreases v.len() - i,
        {
            let ghost rest = v@.skip(i as int);
            if v.len() - i < 2 {
                return None;
            }
            proof {
                assert(rest[0] == v@[i as int]);
                assert(rest[1] == v@[i + 1]);
                assert(rest.skip(2) == v@.skip(i + 2));
            }
            let high = match read_hex_digit(v[i]) {
                Some(h) => h,
                None => {
                    return None;
                },
            };
            let low = match read_hex_digit(v[i + 1]) {
                Some(l) => l,
                None => {
                    return None;
                },
            };
            let byte: u8 = 16 * high + low;
            proof {
                let tail = hex_decode(v@.skip(i + 2));
                if tail is Some {
                    assert(out@.push(byte) + tail->0 =~= out@ + (seq![byte] + tail->0));
                }
            }
            out.push(byte);
            i += 2;
        }
        proof {
            assert(out@ + Seq::<u8>::empty() =~= out@);
        }
        Some(Hash { bytes: out })
    }

    /// The lower-case hexadecimal text of the digest.
    pub fn to_hex(&self) -> (r: String)
        ensures
            r@ == hex_encode(self@),
    {
        let mut out: Vec<char> = Vec::new();
        let mut i: usize = self.bytes.len();
        proof {
            assert(self.bytes@.skip(self.bytes.len() as int) =~= Seq::<u8>::empty());
        }
        while i > 0
            invariant
                i <= self.bytes.len(),
                out@ == hex_encode(self.bytes@.skip(i as int)),
            decreases i,
        {
            i -= 1;
            let b = self.bytes[i];
            let mut next: Vec<char> = Vec::new();
            next.push(write_hex_digit(b / 16));
            next.push(write_hex_digit(b % 16));
            proof {
                let here = self.bytes@.skip(i as int);
                assert(here[0] == b);
                assert(here.drop_first() == self.bytes@.skip(i + 1));
            }
            append_chars(&mut next, &out);
            out = next;
        }
        proof {
            assert(self.bytes@.skip(0) == self.bytes@);
        }
        string_of(&out)
    }

    /// The bytes of the digest.
    pub fn as_bytes(&self) -> (r: &Vec<u8>)
        ensures
            r@ == self@,
    {
        &self.bytes
    }
}

impl Clone for Hash {
    fn clone(&self) -> (r: Self)
        ensures
            r@ == self@,
    {
        let mut bytes: Vec<u8> = Vec::new();
        let mut i: usize = 0;
        while i < self.bytes.len()
            invariant
                i <= self.bytes.len(),
                bytes@ == self.bytes@.take(i as int),
            decreases self.bytes.len() - i,
        {
            bytes.push(self.bytes[i]);
            i += 1;
        }
        proof {
            assert(self.bytes@.take(self.bytes.len() as int) == self.bytes@);
        }
        Hash { bytes }
    }
}

impl PartialEq for Hash {
    fn eq(&self, other: &Self) -> (r: bool) {
        if self.bytes.len() != other.bytes.len() {
            return false;
        }
        let mut i: usize = 0;
        while i < self.bytes.len()
            invariant
                i <= self.bytes.len(),
                self.bytes.len() == other.bytes.len(),
                self.bytes@.take(i as int) == other.bytes@.take(i as int),
            decreases self.bytes.len() - i,
        {
            if self.bytes[i] != other.bytes[i] {
                return false;
            }
            proof {
                assert(self.bytes@.take(i + 1) == self.bytes@.take(i as int).push(
                    self.bytes@[i as int],
                ));
                assert(other.bytes@.take(i + 1) == other.bytes@.take(i as int).push(
                    other.bytes@[i as int],
                ));
            }
            i += 1;
        }
        proof {
            assert(self.bytes@.take(self.bytes.len() as int) == self.bytes@);
            assert(other.bytes@.take(other.bytes.len() as int) == other.bytes@);
        }
        true
    }
}

impl vstd::std_specs::cmp::PartialEqSpecImpl for Hash {
    open spec fn obeys_eq_spec() -> bool {
        true
    }

    open spec fn eq_spec(&self, other: &Self) -> bool {
        self@ == other@
    }
}

impl Eq for Hash {

}

} // verus!
