//! Package versions: the grammar `[epoch:]upstream[-revision]`, its
//! parser and printer, and the order of versions.

use crate::order::{
    int_order, is_allowed_in_version, lexical, lexical_order, numeric, numeric_order, rank_text,
    version_char, version_order, version_text, versions, Order,
};
use crate::text::{
    all_digits, append_chars, chars_of, decimal_digits, decimal_of, digit_to_u8, digit_value,
    find_first, find_last, index_of_first, index_of_last, is_ascii_digit, is_digit, slice_chars,
    string_of,
};
use core::cmp::Ordering;
use vstd::prelude::*;

verus! {

/// The outcome of a comparison as the standard library names it.
pub open spec fn ordering_of(o: Order) -> Ordering {
    match o {
        Order::Less => Ordering::Less,
        Order::Equal => Ordering::Equal,
        Order::Greater => Ordering::Greater,
    }
}

fn to_ordering(o: Order) -> (r: Ordering)
    ensures
        r == ordering_of(o),
{
    match o {
        Order::Less => Ordering::Less,
        Order::Equal => Ordering::Equal,
        Order::Greater => Ordering::Greater,
    }
}

/// Compares two runs of letters and of `.`, `+`, `~` by rank.
pub fn cmp_lexical(a: &str, b: &str) -> (r: Ordering)
    requires
        rank_text(a@),
        rank_text(b@),
    ensures
        r == ordering_of(lexical_order(a@, b@)),
{
    let x = chars_of(a);
    let y = chars_of(b);
    to_ordering(lexical(&x, &y))
}

/// Compares two runs of digits by the numbers they stand for.
pub fn cmp_numerical(a: &str, b: &str) -> (r: Ordering)
    requires
        all_digits(a@),
        all_digits(b@),
    ensures
        r == ordering_of(numeric_order(a@, b@)),
{
    let x = chars_of(a);
    let y = chars_of(b);
    to_ordering(numeric(&x, &y))
}

/// Compares two version texts run by run.
pub fn cmp_version(a: &str, b: &str) -> (r: Ordering)
    requires
        version_text(a@),
        version_text(b@),
    ensures
        r == ordering_of(version_order(a@, b@)),
{
    let x = chars_of(a);
    let y = chars_of(b);
    to_ordering(versions(&x, &y))
}

/// Why the epoch of a version could not be read.
#[derive(Clone, Copy, Debug, PartialEq, Eq, Structural)]
pub enum EpochError {
    /// Nothing stands before the colon.
    Empty,
    /// A character that is no digit stands before the colon, or a sign
    /// with nothing after it.
    InvalidDigit,
    /// The number is greater than the greatest epoch.
    Overflow,
}

/// Why a text is no version.
#[derive(Clone, Copy, Debug, PartialEq, Eq, Structural)]
pub enum ParseVersionError {
    /// The epoch is no unsigned number.
    Epoch(EpochError),
    /// The upstream part holds this character, which is not allowed there.
    Upstream(char),
    /// The revision holds this character, which is not allowed there.
    Revision(char),
}

/// A version as a mathematical value.
pub struct VersionView {
    pub epoch: u32,
    pub upstream: Seq<char>,
    pub revision: Option<Seq<char>>,
}

/// The upstream part and the revision hold allowed characters only.
pub open spec fn valid_version(v: VersionView) -> bool {
    &&& version_text(v.upstream)
    &&& v.revision matches Some(r) ==> version_text(r)
}

/// The revision as a text, where a version without one has the empty text.
pub open spec fn revision_text(v: VersionView) -> Seq<char> {
    match v.revision {
        Some(r) => r,
        None => Seq::empty(),
    }
}

/// The order of versions: by epoch, then by upstream part, then by
/// revision.
pub open spec fn package_order(a: VersionView, b: VersionView) -> Order {
    if a.epoch != b.epoch {
        int_order(a.epoch as int, b.epoch as int)
    } else if version_order(a.upstream, b.upstream) != Order::Equal {
        version_order(a.upstream, b.upstream)
    } else {
        version_order(revision_text(a), revision_text(b))
    }
}

/// The position of the first character of `s` that is not allowed in a
/// version, or the length of `s` if there is none.
pub open spec fn first_bad(s: Seq<char>) -> int
    decreases s.len(),
{
    if s.len() == 0 || !version_char(s[0]) {
        0
    } else {
        1 + first_bad(s.drop_first())
    }
}

/// Reads digits from left to right onto the number `acc`. The first
/// character that is no digit, or the first digit with which the number
/// passes the greatest epoch, ends the reading with an error.
pub open spec fn scan_digits(d: Seq<char>, acc: nat) -> Result<u32, EpochError>
    decreases d.len(),
{
    if d.len() == 0 {
        Ok(acc as u32)
    } else if !is_digit(d[0]) {
        Err(EpochError::InvalidDigit)
    } else if 10 * acc + digit_value(d[0]) > u32::MAX {
        Err(EpochError::Overflow)
    } else {
        scan_digits(d.drop_first(), 10 * acc + digit_value(d[0]))
    }
}

/// The epoch that a text stands for: an optional `+`, then at least one
/// digit, read as a decimal number.
pub open spec fn parse_epoch(s: Seq<char>) -> Result<u32, EpochError> {
    if s.len() == 0 {
        Err(EpochError::Empty)
    } else {
        let d = if s[0] == '+' {
            s.drop_first()
        } else {
            s
        };
        if d.len() == 0 {
            Err(EpochError::InvalidDigit)
        } else {
            scan_digits(d, 0)
        }
    }
}

/// What stands before the first colon, if there is a colon.
pub open spec fn epoch_part(s: Seq<char>) -> Option<Seq<char>> {
    let colon = find_first(s, ':');
    if colon < s.len() {
        Some(s.take(colon))
    } else {
        None
    }
}

/// What stands after the first colon, or the whole text if there is none.
pub open spec fn after_epoch(s: Seq<char>) -> Seq<char> {
    let colon = find_first(s, ':');
    if colon < s.len() {
        s.skip(colon + 1)
    } else {
        s
    }
}

/// The version that a text stands for. The text before the first colon is
/// the epoch, which is zero where there is no colon. The rest is cut at its
/// last hyphen into the upstream part and the revision; without a hyphen
/// all of it is the upstream part.
pub open spec fn parse_version(s: Seq<char>) -> Result<VersionView, ParseVersionError> {
    let epoch = match epoch_part(s) {
        Some(e) => parse_epoch(e),
        None => Ok(0u32),
    };
    let rest = after_epoch(s);
    let dash = find_last(rest, '-');
    let upstream = if dash >= 0 {
        rest.take(dash)
    } else {
        rest
    };
    let revision = if dash >= 0 {
        Some(rest.skip(dash + 1))
    } else {
        None
    };
    match epoch {
        Err(e) => Err(ParseVersionError::Epoch(e)),
        Ok(epoch) => {
            if first_bad(upstream) < upstream.len() {
                Err(ParseVersionError::Upstream(upstream[first_bad(upstream)]))
            } else if revision is Some && first_bad(revision->0) < revision->0.len() {
                Err(ParseVersionError::Revision(revision->0[first_bad(revision->0)]))
            } else {
                Ok(VersionView { epoch, upstream, revision })
            }
        },
    }
}

/// The text of a version: the epoch and a colon unless the epoch is zero,
/// the upstream part, and a hyphen and the revision if there is one.
pub open spec fn format_version(v: VersionView) -> Seq<char> {
    let head = if v.epoch == 0 {
        Seq::<char>::empty()
    } else {
        decimal_digits(v.epoch as nat).push(':')
    };
    let tail = match v.revision {
        Some(r) => seq!['-'] + r,
        None => Seq::<char>::empty(),
    };
    head + v.upstream + tail
}

fn index_of_first_bad(s: &Vec<char>) -> (i: usize)
    ensures
        i == first_bad(s@),
        i <= s.len(),
        i == s.len() ==> version_text(s@),
{
    let mut i: usize = 0;
    proof {
        assert(s@.skip(0) == s@);
    }
    while i < s.len() && is_allowed_in_version(s[i])
        invariant
            i <= s.len(),
            first_bad(s@) == i + first_bad(s@.skip(i as int)),
            forall|k: int| 0 <= k < i ==> version_char(#[trigger] s@[k]),
        decreases s.len() - i,
    {
        proof {
            assert(s@.skip(i as int).drop_first() == s@.skip(i + 1));
        }
        i += 1;
    }
    i
}

fn read_epoch(s: &Vec<char>) -> (r: Result<u32, EpochError>)
    ensures
        r == parse_epoch(s@),
{
    if s.len() == 0 {
        return Err(EpochError::Empty);
    }
    let start: usize = if s[0] == '+' {
        1
    } else {
        0
    };
    if start == s.len() {
        return Err(EpochError::InvalidDigit);
    }
    let ghost d = s@.skip(start as int);
    proof {
        if start == 1 {
            assert(s@.drop_first() == d);
        } else {
            assert(s@ == d);
        }
    }
    let mut acc: u32 = 0;
    let mut i: usize = start;
    while i < s.len()
        invariant
            start <= i <= s.len(),
            parse_epoch(s@) == scan_digits(d, 0),
            scan_digits(d, 0) == scan_digits(s@.skip(i as int), acc as nat),
        decreases s.len() - i,
    {
        let c = s[i];
        proof {
            assert(s@.skip(i as int).drop_first() == s@.skip(i + 1));
            assert(s@.skip(i as int)[0] == c);
        }
        if !is_ascii_digit(c) {
            return Err(EpochError::InvalidDigit);
        }
        let v = digit_to_u8(c);
        let n: u64 = 10 * (acc as u64) + (v as u64);
        if n > u32::MAX as u64 {
            return Err(EpochError::Overflow);
        }
        acc = n as u32;
        i += 1;
    }
    Ok(acc)
}

/// A package version.
#[derive(Debug)]
pub struct PkgVersion {
    epoch: u32,
    upstream: String,
    revision: Option<String>,
}

/// A package version, by its longer name.
pub type PackageVersion = PkgVersion;

impl View for PkgVersion {
    type V = VersionView;

    closed spec fn view(&self) -> VersionView {
        VersionView {
            epoch: self.epoch,
            upstream: self.upstream@,
            revision: match self.revision {
                Some(r) => Some(r@),
                None => None,
            },
        }
    }
}

impl PkgVersion {
    #[verifier::type_invariant]
    spec fn well_formed(&self) -> bool {
        valid_version(self@)
    }

    /// Reads a version from its text.
    pub fn parse(s: &str) -> (r: Result<PkgVersion, ParseVersionError>)
        ensures
            match r {
                Ok(v) => parse_version(s@) == Ok::<VersionView, ParseVersionError>(v@)
                    && valid_version(v@),
                Err(e) => parse_version(s@) == Err::<VersionView, ParseVersionError>(e),
            },
    {
        let v = chars_of(s);
        let colon = index_of_first(&v, ':');
        let epoch = if colon < v.len() {
            let head = slice_chars(&v, 0, colon);
            proof {
                assert(head@ == v@.take(colon as int));
            }
            read_epoch(&head)
        } else {
            Ok(0u32)
        };
        let rest = if colon < v.len() {
            slice_chars(&v, colon + 1, v.len())
        } else {
            slice_chars(&v, 0, v.len())
        };
        proof {
            if colon < v.len() {
                assert(rest@ == v@.skip(colon + 1));
            } else {
                assert(rest@ == v@);
            }
            assert(rest@ == after_epoch(s@));
        }
        let epoch = match epoch {
            Ok(e) => e,
            Err(e) => {
                return Err(ParseVersionError::Epoch(e));
            },
        };
        match index_of_last(&rest, '-') {
            Some(dash) => {
                let upstream = slice_chars(&rest, 0, dash);
                let revision = slice_chars(&rest, dash + 1, rest.len());
                proof {
                    assert(upstream@ == rest@.take(dash as int));
                    assert(revision@ == rest@.skip(dash + 1));
                }
                let bad = index_of_first_bad(&upstream);
                if bad < upstream.len() {
                    return Err(ParseVersionError::Upstream(upstream[bad]));
                }
                let bad = index_of_first_bad(&revision);
                if bad < revision.len() {
                    return Err(ParseVersionError::Revision(revision[bad]));
                }
                Ok(
                    PkgVersion {
                        epoch,
                        upstream: string_of(&upstream),
                        revision: Some(string_of(&revision)),
                    },
                )
            },
            None => {
                let bad = index_of_first_bad(&rest);
                if bad < rest.len() {
                    return Err(ParseVersionError::Upstream(rest[bad]));
                }
                Ok(PkgVersion { epoch, upstream: string_of(&rest), revision: None })
            },
        }
    }

    /// Makes a version of its three parts, which must hold allowed
    /// characters only.
    pub fn from_parts(epoch: u32, upstream: &str, revision: Option<&str>) -> (r: Result<
        PkgVersion,
        ParseVersionError,
    >)
        ensures
            match r {
                Ok(v) => {
                    &&& v@.epoch == epoch
                    &&& v@.upstream == upstream@
                    &&& match revision {
                        Some(t) => v@.revision == Some(t@),
                        None => v@.revision is None,
                    }
                    &&& valid_version(v@)
                },
                Err(ParseVersionError::Upstream(c)) => first_bad(upstream@) < upstream@.len() && c
                    == upstream@[first_bad(upstream@)],
                Err(ParseVersionError::Revision(c)) => {
                    &&& first_bad(upstream@) == upstream@.len()
                    &&& revision matches Some(t) && first_bad(t@) < t@.len() && c == t@[first_bad(
                        t@,
                    )]
                },
                Err(ParseVersionError::Epoch(_)) => false,
            },
    {
        let u = chars_of(upstream);
        let bad = index_of_first_bad(&u);
        if bad < u.len() {
            return Err(ParseVersionError::Upstream(u[bad]));
        }
        match revision {
            Some(t) => {
                let r = chars_of(t);
                let bad = index_of_first_bad(&r);
                if bad < r.len() {
                    return Err(ParseVersionError::Revision(r[bad]));
                }
                Ok(
                    PkgVersion {
                        epoch,
                        upstream: string_of(&u),
                        revision: Some(string_of(&r)),
                    },
                )
            },
            None => Ok(PkgVersion { epoch, upstream: string_of(&u), revision: None }),
        }
    }

    /// The epoch.
    pub fn epoch(&self) -> (r: u32)
        ensures
            r == self@.epoch,
    {
        self.epoch
    }

    /// The upstream part.
    pub fn upstream(&self) -> (r: &str)
        ensures
            r@ == self@.upstream,
    {
        self.upstream.as_str()
    }

    /// The revision, if the version has one.
    pub fn revision(&self) -> (r: Option<&str>)
        ensures
            match r {
                Some(t) => self@.revision == Some(t@),
                None => self@.revision is None,
            },
    {
        match &self.revision {
            Some(r) => Some(r.as_str()),
            None => None,
        }
    }

    /// The text of the version, from which `parse` reads it back.
    pub fn to_string(&self) -> (r: String)
        ensures
            r@ == format_version(self@),
    {
        let mut out: Vec<char> = Vec::new();
        if self.epoch != 0 {
            out = decimal_of(self.epoch as u64);
            out.push(':');
        }
        let upstream = chars_of(self.upstream.as_str());
        append_chars(&mut out, &upstream);
        match &self.revision {
            Some(r) => {
                out.push('-');
                let revision = chars_of(r.as_str());
                append_chars(&mut out, &revision);
                proof {
                    assert(out@ == format_version(self@));
                }
            },
            None => {
                proof {
                    assert(out@ == format_version(self@));
                }
            },
        }
        string_of(&out)
    }

    /// How this version stands to another.
    pub fn order(&self, other: &PkgVersion) -> (r: Order)
        ensures
            r == package_order(self@, other@),
    {
        proof {
            use_type_invariant(self);
            use_type_invariant(other);
        }
        if self.epoch < other.epoch {
            return Order::Less;
        }
        if self.epoch > other.epoch {
            return Order::Greater;
        }
        let a = chars_of(self.upstream.as_str());
        let b = chars_of(other.upstream.as_str());
        let upstream = versions(&a, &b);
        if upstream != Order::Equal {
            return upstream;
        }
        let a = match &self.revision {
            Some(r) => chars_of(r.as_str()),
            None => Vec::new(),
        };
        let b = match &other.revision {
            Some(r) => chars_of(r.as_str()),
            None => Vec::new(),
        };
        versions(&a, &b)
    }

    /// How this version stands to another, as the standard library names
    /// it.
    pub fn cmp(&self, other: &PkgVersion) -> (r: Ordering)
        ensures
            r == ordering_of(package_order(self@, other@)),
    {
        to_ordering(self.order(other))
    }
}

impl Clone for PkgVersion {
    fn clone(&self) -> (r: Self)
        ensures
            r == *self,
    {
        proof {
            use_type_invariant(self);
        }
        PkgVersion {
            epoch: self.epoch,
            upstream: self.upstream.clone(),
            revision: match &self.revision {
                Some(r) => Some(r.clone()),
                None => None,
            },
        }
    }
}

impl PartialEq for PkgVersion {
    fn eq(&self, other: &Self) -> (r: bool) {
        self.order(other) == Order::Equal
    }
}

impl vstd::std_specs::cmp::PartialEqSpecImpl for PkgVersion {
    open spec fn obeys_eq_spec() -> bool {
        true
    }

    open spec fn eq_spec(&self, other: &Self) -> bool {
        package_order(self@, other@) == Order::Equal
    }
}

impl Eq for PkgVersion {

}

impl PartialOrd for PkgVersion {
    fn partial_cmp(&self, other: &Self) -> (r: Option<Ordering>) {
        Some(self.cmp(other))
    }
}

impl vstd::std_specs::cmp::PartialOrdSpecImpl for PkgVersion {
    open spec fn obeys_partial_cmp_spec() -> bool {
        true
    }

    open spec fn partial_cmp_spec(&self, other: &Self) -> Option<Ordering> {
        Some(ordering_of(package_order(self@, other@)))
    }
}

impl core::str::FromStr for PkgVersion {
    type Err = ParseVersionError;

    /// Reads a version from its text, as `parse` does.
    fn from_str(s: &str) -> (r: Result<Self, Self::Err>)
        ensures
            match r {
                Ok(v) => parse_version(s@) == Ok::<VersionView, ParseVersionError>(v@)
                    && valid_version(v@),
                Err(e) => parse_version(s@) == Err::<VersionView, ParseVersionError>(e),
            },
    {
        PkgVersion::parse(s)
    }
}

} // verus!
